use ninja_manifest::ninja_file::parse;

#[test]
fn an_empty_file_is_a_valid_but_empty_graph() {
    let graph_from_empty_string = parse("").unwrap();
    assert!(graph_from_empty_string.is_empty());
}

#[test]
fn a_single_assignment_is_a_global_constant() {
    let graph_from_single_assignment = parse("x=1").unwrap();
    assert_eq!(
        graph_from_single_assignment.variables.get("x"),
        Some(&String::from("1"))
    );
}

#[test]
fn uniquely_named_assignments_separated_by_newlines_are_global_variables() {
    let graph_from_single_assignment = parse("x=1\ny=2").unwrap();
    assert_eq!(
        graph_from_single_assignment.variables.get("x"),
        Some(&String::from("1"))
    );
    assert_eq!(
        graph_from_single_assignment.variables.get("y"),
        Some(&String::from("2"))
    );
}

#[test]
fn rules_are_defined_by_keyword_and_identifier() {
    let rule_text = "rule cc
    ";
    let graph_for_rule = parse(rule_text).unwrap();
    assert!(graph_for_rule.rules.contains_key("cc"));
}

#[test]
fn indented_variable_block_after_rule_are_variables_of_the_rule() {
    let variable_value = "gcc $in -o $out";
    let rule_text = format!(
        "rule cc
        command={}
    ",
        variable_value
    );
    let graph_for_rule = parse(&rule_text).unwrap();
    assert_eq!(
        graph_for_rule.rules.get("cc").unwrap().variables.get("command"),
        Some(&String::from(variable_value))
    );
}

#[test]
fn variable_block_for_rule_end_when_no_indented_line_follows() {
    let variable_value = "gcc $in -o $out";
    let rule_text = format!(
        "rule cc\n    command={}\ncommand={}\n",
        variable_value, variable_value
    );
    let graph_for_rule = parse(&rule_text).unwrap();
    assert_eq!(
        graph_for_rule.rules.get("cc").unwrap().variables.get("command"),
        Some(&String::from(variable_value))
    );
    assert_eq!(
        graph_for_rule.variables.get("command"),
        Some(&String::from(variable_value))
    );
}

#[test]
fn reassigning_a_global_lets_the_last_write_win() {
    let graph = parse("x=1\nx=2\n").unwrap();
    assert_eq!(graph.variables.get("x"), Some(&String::from("2")));
}

#[test]
fn assignment_values_keep_their_text_verbatim() {
    let graph = parse("cflags=-O2 -g $extra\n").unwrap();
    assert_eq!(
        graph.variables.get("cflags"),
        Some(&String::from("-O2 -g $extra"))
    );
    let spaced = parse("x= 1").unwrap();
    assert_eq!(spaced.variables.get("x"), Some(&String::from("1")));
    let doubly_spaced = parse("x=  padded").unwrap();
    assert_eq!(
        doubly_spaced.variables.get("x"),
        Some(&String::from(" padded"))
    );
}

#[test]
fn a_rule_without_a_block_has_an_empty_scope() {
    let graph = parse("rule cc\n").unwrap();
    assert!(graph.rules.contains_key("cc"));
    assert_eq!(graph.rules.get("cc").unwrap().variables.len(), 0);
}

#[test]
fn global_variables_alone_leave_the_graph_empty() {
    let graph = parse("x=1").unwrap();
    assert!(graph.is_empty());
}

#[test]
fn a_build_line_declares_an_edge() {
    let graph = parse("build foo.o: cc foo.cpp\n").unwrap();
    let edge = graph.edges.get("foo.o").unwrap();
    assert_eq!(edge.output, String::from("foo.o"));
    assert_eq!(edge.rule, String::from("cc"));
    assert_eq!(edge.input, String::from("foo.cpp"));
    assert_eq!(graph.outputs, vec![String::from("foo.o")]);
}

#[test]
fn a_build_line_may_leave_the_input_out() {
    let graph = parse("build all: phony").unwrap();
    let edge = graph.edges.get("all").unwrap();
    assert_eq!(edge.rule, String::from("phony"));
    assert_eq!(edge.input, String::from(""));
}

#[test]
fn an_indented_block_after_a_build_line_is_the_edge_scope() {
    let graph = parse("build a.o: cc a.c\n    flags=-g\n").unwrap();
    let edge = graph.edges.get("a.o").unwrap();
    assert_eq!(edge.input, String::from("a.c"));
    assert_eq!(edge.variables.get("flags"), Some(&String::from("-g")));
    assert!(graph.rules.len() == 0);
}

#[test]
fn resolve_prefers_the_scopes_a_parse_produced() {
    let text = "x=global\nrule cc\n    x=from_rule\nbuild a.o: cc a.c\n    x=from_edge\nbuild b.o: cc b.c\n";
    let graph = parse(text).unwrap();
    let rule = graph.rules.get("cc").unwrap();
    let with_override = graph.edges.get("a.o").unwrap();
    let without_override = graph.edges.get("b.o").unwrap();
    assert_eq!(
        graph.resolve(&with_override.variables, &rule.variables, "x"),
        Some(String::from("from_edge"))
    );
    assert_eq!(
        graph.resolve(&without_override.variables, &rule.variables, "x"),
        Some(String::from("from_rule"))
    );
    assert_eq!(
        graph.resolve(&without_override.variables, &without_override.variables, "x"),
        Some(String::from("global"))
    );
}

#[test]
fn a_duplicate_rule_in_a_manifest_fails_the_parse() {
    let errors = parse("rule cc\nrule cc\n").err().unwrap();
    assert_eq!(errors, vec![String::from("duplicate rule 'cc'")]);
}

#[test]
fn a_duplicate_output_in_a_manifest_fails_the_parse() {
    let errors = parse("build a: r x\nbuild a: s y\n").err().unwrap();
    assert_eq!(errors, vec![String::from("multiple rules generate 'a'")]);
}

#[test]
fn a_manifest_ending_mid_assignment_fails() {
    let errors = parse("x").err().unwrap();
    assert_eq!(errors, vec![String::from("unexpected end of file")]);
}

#[test]
fn an_assignment_without_a_value_fails() {
    let errors = parse("x=").err().unwrap();
    assert_eq!(errors, vec![String::from("value assignment expected")]);
}

#[test]
fn an_unterminated_rule_body_fails() {
    let errors = parse("rule cc\n    command=1").err().unwrap();
    assert_eq!(errors, vec![String::from("unexpected end of file")]);
}

#[test]
fn an_unterminated_edge_block_fails() {
    let errors = parse("build a.o: cc a.c\n    flags=-g").err().unwrap();
    assert_eq!(errors, vec![String::from("unexpected end of file")]);
}

#[test]
fn a_rule_header_without_its_newline_fails() {
    let errors = parse("rule cc").err().unwrap();
    assert_eq!(errors, vec![String::from("unexpected end of file")]);
}

#[test]
fn a_rule_header_with_a_stray_token_fails() {
    let errors = parse("rule cc cc\n").err().unwrap();
    assert_eq!(errors, vec![String::from("newline expected after rule")]);
}

#[test]
fn a_top_level_token_outside_the_grammar_fails() {
    let errors = parse(":").err().unwrap();
    assert_eq!(errors, vec![String::from("unexpected token")]);
}

#[test]
fn unlexable_input_reports_the_offending_text() {
    let errors = parse("!").err().unwrap();
    assert_eq!(errors, vec![String::from("unexpected token !")]);
}

#[test]
fn reserved_keywords_without_a_statement_form_fail() {
    for text in ["pool p\n", "default a\n", "subninja other\n"] {
        let errors = parse(text).err().unwrap();
        assert_eq!(errors, vec![String::from("unexpected token")]);
    }
}

#[test]
fn comment_lines_are_skipped() {
    let graph = parse("# a build manifest\nx=1").unwrap();
    assert_eq!(graph.variables.get("x"), Some(&String::from("1")));
}

#[test]
fn keywords_elsewhere_on_a_line_are_plain_identifiers() {
    let graph = parse("build foo: rule\n").unwrap();
    assert_eq!(
        graph.edges.get("foo").unwrap().rule,
        String::from("rule")
    );
}

#[test]
fn reparsing_the_same_text_yields_a_structurally_equal_graph() {
    let text = "cflags=-Wall\nrule cc\n    command=gcc $cflags -c $in -o $out\nbuild main.o: cc main.c\n";
    let first = parse(text).unwrap();
    let second = parse(text).unwrap();
    assert_eq!(first.variables.len(), second.variables.len());
    assert_eq!(
        first.variables.get("cflags"),
        second.variables.get("cflags")
    );
    assert_eq!(first.rules.len(), second.rules.len());
    assert_eq!(
        first.rules.get("cc").unwrap().variables.get("command"),
        second.rules.get("cc").unwrap().variables.get("command")
    );
    assert_eq!(first.edges.len(), second.edges.len());
    assert_eq!(
        first.edges.get("main.o").unwrap().input,
        second.edges.get("main.o").unwrap().input
    );
    assert_eq!(
        first.edges.get("main.o").unwrap().rule,
        second.edges.get("main.o").unwrap().rule
    );
    assert_eq!(first.outputs, second.outputs);
}

#[test]
fn a_full_manifest_parses_into_rules_variables_and_edges() {
    let text = "cflags=-O2\nrule cc\n    command=gcc $cflags -c $in -o $out\n    description=compile $in\nbuild main.o: cc main.c\nbuild app.o: cc app.c\n";
    let graph = parse(text).unwrap();
    assert_eq!(graph.variables.get("cflags"), Some(&String::from("-O2")));
    let rule = graph.rules.get("cc").unwrap();
    assert_eq!(
        rule.variables.get("command"),
        Some(&String::from("gcc $cflags -c $in -o $out"))
    );
    assert_eq!(
        rule.variables.get("description"),
        Some(&String::from("compile $in"))
    );
    assert_eq!(
        graph.outputs,
        vec![String::from("main.o"), String::from("app.o")]
    );
    assert_eq!(graph.edges.get("app.o").unwrap().input, String::from("app.c"));
}
