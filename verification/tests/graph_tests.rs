use ninja_manifest::graph::Bindings;
use ninja_manifest::graph::Edge;
use ninja_manifest::graph::Graph;
use ninja_manifest::graph::Rule;

#[test]
fn graph_cannot_add_duplicate_rule() {
    let mut graph = Graph::new();
    graph.rule(Rule::new("cc", Bindings::new())).unwrap();
    assert_eq!(
        graph.rule(Rule::new("cc", Bindings::new())),
        Err(String::from("duplicate rule 'cc'"))
    );
}

#[test]
fn graph_cannot_add_duplicate_build_rule() {
    let mut graph = Graph::new();
    graph.build(Edge::new("foo.o", "cc", "foo.cpp")).unwrap();
    assert_eq!(
        graph.build(Edge::new("foo.o", "cxx", "bar.cpp")),
        Err(String::from("multiple rules generate 'foo.o'"))
    );
}

#[test]
fn duplicate_rule_keeps_the_first_insertion() {
    let mut graph = Graph::new();
    let mut vars = Bindings::new();
    vars.insert(String::from("command"), String::from("gcc $in"));
    graph.rule(Rule::new("cc", vars)).unwrap();
    let mut other = Bindings::new();
    other.insert(String::from("command"), String::from("clang $in"));
    assert!(graph.rule(Rule::new("cc", other)).is_err());
    let kept = graph.rules.get("cc").unwrap();
    assert_eq!(kept.variables.get("command"), Some(&String::from("gcc $in")));
    assert_eq!(graph.rules.len(), 1);
    assert_eq!(graph.edges.len(), 0);
    assert_eq!(graph.variables.len(), 0);
}

#[test]
fn duplicate_output_keeps_the_first_edge() {
    let mut graph = Graph::new();
    graph.build(Edge::new("foo.o", "cc", "foo.cpp")).unwrap();
    assert!(graph.build(Edge::new("foo.o", "cxx", "bar.cpp")).is_err());
    let kept = graph.edges.get("foo.o").unwrap();
    assert_eq!(kept.rule, String::from("cc"));
    assert_eq!(kept.input, String::from("foo.cpp"));
    assert_eq!(graph.outputs, vec![String::from("foo.o")]);
}

#[test]
fn emptiness_counts_rules_and_edges_only() {
    let mut graph = Graph::new();
    assert!(graph.is_empty());
    graph.variables.insert(String::from("x"), String::from("1"));
    assert!(graph.is_empty());
    graph.rule(Rule::new("cc", Bindings::new())).unwrap();
    assert!(!graph.is_empty());
    let mut with_edge = Graph::new();
    with_edge.build(Edge::new("a", "r", "b")).unwrap();
    assert!(!with_edge.is_empty());
}

#[test]
fn resolve_walks_edge_then_rule_then_global_scope() {
    let mut graph = Graph::new();
    graph.variables.insert(String::from("x"), String::from("global"));
    let mut rule_scope = Bindings::new();
    rule_scope.insert(String::from("x"), String::from("rule"));
    let mut edge_scope = Bindings::new();
    edge_scope.insert(String::from("x"), String::from("edge"));
    assert_eq!(
        graph.resolve(&edge_scope, &rule_scope, "x"),
        Some(String::from("edge"))
    );
    assert_eq!(
        graph.resolve(&Bindings::new(), &rule_scope, "x"),
        Some(String::from("rule"))
    );
    assert_eq!(
        graph.resolve(&Bindings::new(), &Bindings::new(), "x"),
        Some(String::from("global"))
    );
    assert_eq!(graph.resolve(&edge_scope, &rule_scope, "y"), None);
}

#[test]
fn constructors_copy_their_arguments() {
    let edge = Edge::new("out.o", "link", "in.o");
    assert_eq!(edge.output, String::from("out.o"));
    assert_eq!(edge.rule, String::from("link"));
    assert_eq!(edge.input, String::from("in.o"));
    assert_eq!(edge.variables.len(), 0);
    let mut vars = Bindings::new();
    vars.insert(String::from("command"), String::from("cat $in > $out"));
    let rule = Rule::new("copy", vars);
    assert_eq!(rule.name, String::from("copy"));
    assert_eq!(
        rule.variables.get("command"),
        Some(&String::from("cat $in > $out"))
    );
}
