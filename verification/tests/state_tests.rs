use ninja_manifest::graph::Bindings;
use ninja_manifest::graph::Edge;
use ninja_manifest::graph::Rule;
use ninja_manifest::state::State;

fn rule_with_command(name: &str, command: &str) -> Rule {
    let mut vars = Bindings::new();
    vars.insert(String::from("command"), String::from(command));
    Rule::new(name, vars)
}

#[test]
fn state_cannot_add_duplicate_rule() {
    let mut state = State::new();
    state
        .rule(rule_with_command("cc", "gcc -c $in -o $out"))
        .unwrap();
    assert_eq!(
        state.rule(rule_with_command("cc", "clang -c $in -o $out")),
        Err(String::from("duplicate rule 'cc'"))
    );
}

#[test]
fn state_cannot_add_duplicate_build_rule() {
    let mut state = State::new();
    state
        .build(Edge::new("foo.o", "cc", "gcc foo.cpp"))
        .unwrap();
    assert_eq!(
        state.build(Edge::new("foo.o", "cc", "gcc foo.cpp")),
        Err(String::from("multiple rules generate 'foo.o'"))
    );
}

#[test]
fn state_keeps_rules_and_nodes_apart() {
    let mut state = State::new();
    state.rule(rule_with_command("cc", "gcc $in")).unwrap();
    state.build(Edge::new("cc", "cc", "main.c")).unwrap();
    assert_eq!(
        state.rule(rule_with_command("cc", "gcc $in")),
        Err(String::from("duplicate rule 'cc'"))
    );
    assert_eq!(
        state.build(Edge::new("cc", "cc", "main.c")),
        Err(String::from("multiple rules generate 'cc'"))
    );
}
