//! The recursive-descent parser: a dispatch loop over the top-level token
//! that recognises global variable assignments, rule declarations with their
//! indented variable blocks, and build-edge declarations, and populates a
//! `Graph`. Parsing is fail-fast: the first lexical, structural or semantic
//! problem aborts the parse and is returned as a list of diagnostics; a parse
//! that fails returns no graph.
//!
//! Every function here is specified against a mathematical parser over the
//! lexed token sequence, so the result of `parse` is pinned down exactly: the
//! graph on success, and the diagnostic text on failure.

use vstd::prelude::*;
use vstd::hash_map::StringHashMap;
use vstd::string::StringExecFns;
use vstd::string::StrSliceExecFns;
use crate::graph::{
    Graph,
    GraphModel,
    Rule,
    RuleModel,
    Edge,
    EdgeModel,
    Bindings,
    bindings_model,
    lemma_bindings_model_insert,
    duplicate_rule_msg,
    duplicate_output_msg,
};
use crate::ninjalexer::{
    Token,
    TokenKind,
    LexItemModel,
    TokenStream,
    item_slice,
    token_kind_of,
    spec_lex,
};

verus! {

/// A diagnostic, as handed to the caller.
pub type SyntaxError = String;

/// The diagnostic for a piece of text where some other token was expected,
/// and for input that matches no token pattern at all.
pub open spec fn msg_unexpected_token(slice: Seq<char>) -> Seq<char> {
    "unexpected token "@ + slice
}

/// The diagnostic for input that ends where a token was still required.
pub open spec fn msg_unexpected_eof() -> Seq<char> {
    "unexpected end of file"@
}

/// The diagnostic for a global assignment whose `=` value is missing.
pub open spec fn msg_value_expected() -> Seq<char> {
    "value assignment expected"@
}

/// The diagnostic for a missing line break after a global assignment.
pub open spec fn msg_newline_after_assignment() -> Seq<char> {
    "newline expected after variable assignment"@
}

/// The diagnostic for a missing line break after a rule header.
pub open spec fn msg_newline_after_rule() -> Seq<char> {
    "newline expected after rule"@
}

/// The diagnostic for a token that no top-level statement can start with.
pub open spec fn msg_unexpected_top() -> Seq<char> {
    "unexpected token"@
}

/// The raw value of an assignment token: the text after the leading `=`,
/// less one directly following space, if present; nothing else is trimmed.
pub open spec fn assignment_value_of(s: Seq<char>) -> Seq<char>
    recommends
        s.len() >= 1,
{
    let t = s.drop_first();
    if t.len() > 0 && t[0] == ' ' {
        t.drop_first()
    } else {
        t
    }
}

/// The diagnostics of a failed single-token expectation at `i`.
pub open spec fn expect_err_msgs(text: Seq<char>, toks: Seq<LexItemModel>, i: int) -> Seq<
    Seq<char>,
> {
    if i >= toks.len() {
        seq![msg_unexpected_eof()]
    } else {
        seq![msg_unexpected_token(item_slice(text, toks[i]))]
    }
}

/// Whether item `i` exists, scanned cleanly, and has the given kind.
pub open spec fn item_is_kind(toks: Seq<LexItemModel>, i: int, k: TokenKind) -> bool {
    0 <= i < toks.len() && match toks[i].token {
        Ok(t) => token_kind_of(t) == k,
        Err(_) => false,
    }
}

/// The rest of a global assignment after its name: the `=` value, then a
/// line terminator that only the end of the input may replace. Yields the
/// graph with the binding written (later writes win) and the index of the
/// next statement.
pub open spec fn spec_parse_global(
    text: Seq<char>,
    toks: Seq<LexItemModel>,
    i: int,
    name: Seq<char>,
    g: GraphModel,
) -> Result<(GraphModel, int), Seq<Seq<char>>> {
    if i >= toks.len() {
        Err(seq![msg_unexpected_eof()])
    } else {
        let it = toks[i];
        match it.token {
            Err(_) => Err(seq![msg_unexpected_token(item_slice(text, it))]),
            Ok(t) => if t != Token::AssignmentValue {
                Err(seq![msg_value_expected()])
            } else {
                let g2 = GraphModel {
                    variables: g.variables.insert(name, assignment_value_of(item_slice(text, it))),
                    ..g
                };
                if i + 1 >= toks.len() {
                    Ok((g2, i + 1))
                } else {
                    match toks[i + 1].token {
                        Err(_) => Err(seq![msg_unexpected_token(item_slice(text, toks[i + 1]))]),
                        Ok(t2) => if t2 == Token::Newline {
                            Ok((g2, i + 2))
                        } else {
                            Err(seq![msg_newline_after_assignment()])
                        },
                    }
                }
            },
        }
    }
}

/// An indented variable block: the maximal run of `Indent Identifier
/// AssignmentValue Newline` lines, ending before the first item that is not
/// an indent, or at the end of the input. Every block line must close with
/// its line terminator: input that ends inside a block line is a syntax
/// error. Yields the collected bindings and the index of the first item
/// after the block.
pub open spec fn spec_parse_block(
    text: Seq<char>,
    toks: Seq<LexItemModel>,
    i: int,
    vars: Map<Seq<char>, Seq<char>>,
) -> Result<(Map<Seq<char>, Seq<char>>, int), Seq<Seq<char>>>
    decreases toks.len() - i,
        when 0 <= i
{
    if i >= toks.len() {
        Ok((vars, i))
    } else {
        match toks[i].token {
            Err(_) => Err(seq![msg_unexpected_token(item_slice(text, toks[i]))]),
            Ok(t) => if t != Token::Indent {
                Ok((vars, i))
            } else if i + 1 >= toks.len() {
                Err(seq![msg_unexpected_eof()])
            } else {
                match toks[i + 1].token {
                    Err(_) => Err(seq![msg_unexpected_token(item_slice(text, toks[i + 1]))]),
                    Ok(t1) => if t1 != Token::Identifier {
                        Err(seq![msg_unexpected_token(item_slice(text, toks[i + 1]))])
                    } else {
                        let name = item_slice(text, toks[i + 1]);
                        if i + 2 >= toks.len() {
                            Err(seq![msg_unexpected_eof()])
                        } else {
                            match toks[i + 2].token {
                                Err(_) => Err(
                                    seq![msg_unexpected_token(item_slice(text, toks[i + 2]))],
                                ),
                                Ok(t2) => if t2 != Token::AssignmentValue {
                                    Err(seq![msg_unexpected_token(item_slice(text, toks[i + 2]))])
                                } else {
                                    let vars2 = vars.insert(
                                        name,
                                        assignment_value_of(item_slice(text, toks[i + 2])),
                                    );
                                    if i + 3 >= toks.len() {
                                        Err(seq![msg_unexpected_eof()])
                                    } else {
                                        match toks[i + 3].token {
                                            Err(_) => Err(
                                                seq![
                                                    msg_unexpected_token(
                                                        item_slice(text, toks[i + 3]),
                                                    ),
                                                ],
                                            ),
                                            Ok(t3) => if t3 == Token::Newline {
                                                spec_parse_block(text, toks, i + 4, vars2)
                                            } else {
                                                Err(
                                                    seq![
                                                        msg_unexpected_token(
                                                            item_slice(text, toks[i + 3]),
                                                        ),
                                                    ],
                                                )
                                            },
                                        }
                                    }
                                },
                            }
                        }
                    },
                }
            },
        }
    }
}

/// A rule declaration after its keyword: the rule name, a required line
/// terminator, the indented variable block, then insertion into the graph,
/// which refuses a duplicate name. Yields the grown graph and the index of
/// the next statement.
pub open spec fn spec_parse_rule(
    text: Seq<char>,
    toks: Seq<LexItemModel>,
    i: int,
    g: GraphModel,
) -> Result<(GraphModel, int), Seq<Seq<char>>> {
    if !item_is_kind(toks, i, TokenKind::Identifier) {
        Err(expect_err_msgs(text, toks, i))
    } else {
        let name = item_slice(text, toks[i]);
        if i + 1 >= toks.len() {
            Err(seq![msg_unexpected_eof()])
        } else {
            match toks[i + 1].token {
                Err(_) => Err(seq![msg_unexpected_token(item_slice(text, toks[i + 1]))]),
                Ok(t1) => if t1 != Token::Newline {
                    Err(seq![msg_newline_after_rule()])
                } else {
                    match spec_parse_block(text, toks, i + 2, Map::empty()) {
                        Err(e) => Err(e),
                        Ok(r) => if g.rules.contains_key(name) {
                            Err(seq![duplicate_rule_msg(name)])
                        } else {
                            Ok(
                                (
                                    GraphModel {
                                        rules: g.rules.insert(
                                            name,
                                            RuleModel { name, variables: r.0 },
                                        ),
                                        ..g
                                    },
                                    r.1,
                                ),
                            )
                        },
                    }
                },
            }
        }
    }
}

/// A build-edge declaration after its keyword: the output, a colon, the rule
/// name, at most one input, a line terminator that only the end of the input
/// may replace, then an indented block of edge-local overrides; insertion
/// refuses an output that some edge already produces. Yields the grown graph
/// and the index of the next statement.
pub open spec fn spec_parse_build(
    text: Seq<char>,
    toks: Seq<LexItemModel>,
    i: int,
    g: GraphModel,
) -> Result<(GraphModel, int), Seq<Seq<char>>> {
    if !item_is_kind(toks, i, TokenKind::Identifier) {
        Err(expect_err_msgs(text, toks, i))
    } else {
        let output = item_slice(text, toks[i]);
        if !item_is_kind(toks, i + 1, TokenKind::Colon) {
            Err(expect_err_msgs(text, toks, i + 1))
        } else if !item_is_kind(toks, i + 2, TokenKind::Identifier) {
            Err(expect_err_msgs(text, toks, i + 2))
        } else {
            let rule_name = item_slice(text, toks[i + 2]);
            if i + 3 >= toks.len() {
                spec_edge_block(text, toks, g, output, rule_name, Seq::empty(), i + 3)
            } else {
                match toks[i + 3].token {
                    Err(_) => Err(seq![msg_unexpected_token(item_slice(text, toks[i + 3]))]),
                    Ok(t3) => if t3 == Token::Newline {
                        spec_edge_block(text, toks, g, output, rule_name, Seq::empty(), i + 4)
                    } else if t3 == Token::Identifier {
                        let input = item_slice(text, toks[i + 3]);
                        if i + 4 >= toks.len() {
                            spec_edge_block(text, toks, g, output, rule_name, input, i + 4)
                        } else {
                            match toks[i + 4].token {
                                Err(_) => Err(
                                    seq![msg_unexpected_token(item_slice(text, toks[i + 4]))],
                                ),
                                Ok(t4) => if t4 == Token::Newline {
                                    spec_edge_block(text, toks, g, output, rule_name, input, i + 5)
                                } else {
                                    Err(seq![msg_unexpected_token(item_slice(text, toks[i + 4]))])
                                },
                            }
                        }
                    } else {
                        Err(seq![msg_unexpected_token(item_slice(text, toks[i + 3]))])
                    },
                }
            }
        }
    }
}

/// The tail of a build-edge declaration: its indented block of edge-local
/// overrides, then insertion.
pub open spec fn spec_edge_block(
    text: Seq<char>,
    toks: Seq<LexItemModel>,
    g: GraphModel,
    output: Seq<char>,
    rule_name: Seq<char>,
    input: Seq<char>,
    j: int,
) -> Result<(GraphModel, int), Seq<Seq<char>>> {
    match spec_parse_block(text, toks, j, Map::empty()) {
        Err(e) => Err(e),
        Ok(r) => spec_insert_edge(g, output, rule_name, input, r.0, r.1),
    }
}

/// Edge insertion at the end of a build declaration: refused exactly when
/// the output is already taken.
pub open spec fn spec_insert_edge(
    g: GraphModel,
    output: Seq<char>,
    rule_name: Seq<char>,
    input: Seq<char>,
    vars: Map<Seq<char>, Seq<char>>,
    j: int,
) -> Result<(GraphModel, int), Seq<Seq<char>>> {
    if g.edges.contains_key(output) {
        Err(seq![duplicate_output_msg(output)])
    } else {
        Ok(
            (
                GraphModel {
                    edges: g.edges.insert(
                        output,
                        EdgeModel { output, rule: rule_name, input, variables: vars },
                    ),
                    ..g
                },
                j,
            ),
        )
    }
}

pub proof fn lemma_parse_block_bounds(
    text: Seq<char>,
    toks: Seq<LexItemModel>,
    i: int,
    vars: Map<Seq<char>, Seq<char>>,
)
    requires
        0 <= i <= toks.len(),
    ensures
        match spec_parse_block(text, toks, i, vars) {
            Ok(r) => i <= r.1 <= toks.len(),
            Err(_) => true,
        },
    decreases toks.len() - i,
{
    if i < toks.len() {
        if toks[i].token matches Ok(t) && t == Token::Indent && i + 1 < toks.len() && i + 2
            < toks.len() && i + 3 < toks.len() {
            if toks[i + 1].token matches Ok(t1) && t1 == Token::Identifier {
                if toks[i + 2].token matches Ok(t2) && t2 == Token::AssignmentValue {
                    if toks[i + 3].token matches Ok(t3) && t3 == Token::Newline {
                        let name = item_slice(text, toks[i + 1]);
                        let vars2 = vars.insert(
                            name,
                            assignment_value_of(item_slice(text, toks[i + 2])),
                        );
                        lemma_parse_block_bounds(text, toks, i + 4, vars2);
                    }
                }
            }
        }
    }
}

pub proof fn lemma_parse_global_bounds(
    text: Seq<char>,
    toks: Seq<LexItemModel>,
    i: int,
    name: Seq<char>,
    g: GraphModel,
)
    requires
        0 <= i <= toks.len(),
    ensures
        match spec_parse_global(text, toks, i, name, g) {
            Ok(r) => i < r.1 <= toks.len(),
            Err(_) => true,
        },
{
}

pub proof fn lemma_parse_rule_bounds(
    text: Seq<char>,
    toks: Seq<LexItemModel>,
    i: int,
    g: GraphModel,
)
    requires
        0 <= i <= toks.len(),
    ensures
        match spec_parse_rule(text, toks, i, g) {
            Ok(r) => i < r.1 <= toks.len(),
            Err(_) => true,
        },
{
    if item_is_kind(toks, i, TokenKind::Identifier) && i + 1 < toks.len() {
        lemma_parse_block_bounds(text, toks, i + 2, Map::empty());
    }
}

pub proof fn lemma_parse_build_bounds(
    text: Seq<char>,
    toks: Seq<LexItemModel>,
    i: int,
    g: GraphModel,
)
    requires
        0 <= i <= toks.len(),
    ensures
        match spec_parse_build(text, toks, i, g) {
            Ok(r) => i < r.1 <= toks.len(),
            Err(_) => true,
        },
{
    if item_is_kind(toks, i, TokenKind::Identifier) && item_is_kind(toks, i + 1, TokenKind::Colon)
        && item_is_kind(toks, i + 2, TokenKind::Identifier) {
        lemma_parse_block_bounds(text, toks, i + 3, Map::empty());
        if i + 4 <= toks.len() {
            lemma_parse_block_bounds(text, toks, i + 4, Map::empty());
        }
        if i + 5 <= toks.len() {
            lemma_parse_block_bounds(text, toks, i + 5, Map::empty());
        }
    }
}

/// The top-level dispatch loop: an identifier starts a global assignment,
/// the rule keyword a rule declaration, the build keyword an edge
/// declaration; any other token, and any input that matched no token
/// pattern, is a syntax error. The first error aborts the parse.
pub open spec fn spec_parse_stmts(
    text: Seq<char>,
    toks: Seq<LexItemModel>,
    i: int,
    g: GraphModel,
) -> Result<GraphModel, Seq<Seq<char>>>
    decreases toks.len() - i,
        when 0 <= i <= toks.len()
{
    if i >= toks.len() {
        Ok(g)
    } else {
        match toks[i].token {
            Err(_) => Err(seq![msg_unexpected_token(item_slice(text, toks[i]))]),
            Ok(t) => if t == Token::Identifier {
                match spec_parse_global(text, toks, i + 1, item_slice(text, toks[i]), g) {
                    Err(e) => Err(e),
                    Ok(r) => {
                        proof {
                            lemma_parse_global_bounds(
                                text,
                                toks,
                                i + 1,
                                item_slice(text, toks[i]),
                                g,
                            );
                        }
                        spec_parse_stmts(text, toks, r.1, r.0)
                    },
                }
            } else if t == Token::KwRule {
                match spec_parse_rule(text, toks, i + 1, g) {
                    Err(e) => Err(e),
                    Ok(r) => {
                        proof {
                            lemma_parse_rule_bounds(text, toks, i + 1, g);
                        }
                        spec_parse_stmts(text, toks, r.1, r.0)
                    },
                }
            } else if t == Token::KwBuild {
                match spec_parse_build(text, toks, i + 1, g) {
                    Err(e) => Err(e),
                    Ok(r) => {
                        proof {
                            lemma_parse_build_bounds(text, toks, i + 1, g);
                        }
                        spec_parse_stmts(text, toks, r.1, r.0)
                    },
                }
            } else {
                Err(seq![msg_unexpected_top()])
            },
        }
    }
}

/// What parsing a whole manifest yields: the graph built from the empty one,
/// or the first diagnostic.
pub open spec fn spec_parse(text: Seq<char>) -> Result<GraphModel, Seq<Seq<char>>> {
    spec_parse_stmts(text, spec_lex(text), 0, GraphModel::empty())
}

/// Whether the items from `i` on are one run of global assignment
/// statements: name, `=` value, then a line terminator that only the end of
/// the input may replace.
pub open spec fn assignment_stmts(toks: Seq<LexItemModel>, i: int) -> bool
    decreases toks.len() + 3 - i,
        when 0 <= i
{
    if i >= toks.len() {
        true
    } else {
        &&& i + 1 < toks.len()
        &&& toks[i].token == Ok::<Token, ()>(Token::Identifier)
        &&& toks[i + 1].token == Ok::<Token, ()>(Token::AssignmentValue)
        &&& (i + 2 >= toks.len() || (toks[i + 2].token == Ok::<Token, ()>(Token::Newline)
            && assignment_stmts(toks, i + 3)))
    }
}

/// The bindings that a run of global assignment statements leaves behind,
/// written left to right onto `acc`, so that the rightmost assignment of a
/// name wins.
pub open spec fn assignment_vars(
    text: Seq<char>,
    toks: Seq<LexItemModel>,
    i: int,
    acc: Map<Seq<char>, Seq<char>>,
) -> Map<Seq<char>, Seq<char>>
    decreases toks.len() + 3 - i,
        when 0 <= i
{
    if i >= toks.len() {
        acc
    } else {
        assignment_vars(
            text,
            toks,
            i + 3,
            acc.insert(
                item_slice(text, toks[i]),
                assignment_value_of(item_slice(text, toks[i + 1])),
            ),
        )
    }
}

/// A manifest of global assignments alone parses successfully into exactly
/// the assigned names with their raw values, the last write to a name
/// winning, while rules and edges stay untouched.
pub proof fn lemma_assignments_only(
    text: Seq<char>,
    toks: Seq<LexItemModel>,
    i: int,
    g: GraphModel,
)
    requires
        0 <= i <= toks.len(),
        assignment_stmts(toks, i),
    ensures
        spec_parse_stmts(text, toks, i, g) == Ok::<GraphModel, Seq<Seq<char>>>(
            GraphModel { variables: assignment_vars(text, toks, i, g.variables), ..g },
        ),
    decreases toks.len() - i,
{
    if i >= toks.len() {
        assert((GraphModel { variables: g.variables, ..g }) =~= g);
    } else {
        let name = item_slice(text, toks[i]);
        let value = assignment_value_of(item_slice(text, toks[i + 1]));
        let g2 = GraphModel { variables: g.variables.insert(name, value), ..g };
        if i + 2 >= toks.len() {
            assert(spec_parse_global(text, toks, i + 1, name, g) == Ok::<
                (GraphModel, int),
                Seq<Seq<char>>,
            >((g2, i + 2)));
            assert(spec_parse_stmts(text, toks, i + 2, g2) == Ok::<GraphModel, Seq<Seq<char>>>(g2));
            assert(spec_parse_stmts(text, toks, i, g) == Ok::<GraphModel, Seq<Seq<char>>>(g2));
            assert(assignment_vars(text, toks, i + 3, g2.variables) == g2.variables);
            assert((GraphModel { variables: g2.variables, ..g }) =~= g2);
        } else {
            lemma_assignments_only(text, toks, i + 3, g2);
            assert(spec_parse_global(text, toks, i + 1, name, g) == Ok::<
                (GraphModel, int),
                Seq<Seq<char>>,
            >((g2, i + 3)));
            assert(spec_parse_stmts(text, toks, i, g) == spec_parse_stmts(text, toks, i + 3, g2));
            assert((GraphModel {
                variables: assignment_vars(text, toks, i + 3, g2.variables),
                ..g2
            }) =~= (GraphModel { variables: assignment_vars(text, toks, i, g.variables), ..g }));
        }
    }
}

/// The whole-manifest form of the law above: when the lexing of a manifest
/// is one run of global assignments, parsing yields a graph whose variables
/// are exactly that run's bindings, with no rule and no edge.
pub proof fn lemma_assignments_only_manifest(text: Seq<char>)
    requires
        assignment_stmts(spec_lex(text), 0),
    ensures
        spec_parse(text) == Ok::<GraphModel, Seq<Seq<char>>>(
            GraphModel {
                rules: Map::empty(),
                edges: Map::empty(),
                variables: assignment_vars(text, spec_lex(text), 0, Map::empty()),
            },
        ),
{
    lemma_assignments_only(text, spec_lex(text), 0, GraphModel::empty());
    assert((GraphModel {
        variables: assignment_vars(text, spec_lex(text), 0, Map::empty()),
        ..GraphModel::empty()
    }) =~= (GraphModel {
        rules: Map::empty(),
        edges: Map::empty(),
        variables: assignment_vars(text, spec_lex(text), 0, Map::empty()),
    }));
}

/// A global assignment whose `=` value is in place and whose line closes
/// with a terminator, or with the end of the input, writes exactly one
/// binding: the raw value under the name, later writes winning, with rules
/// and edges untouched.
pub proof fn lemma_global_assignment_writes_one_binding(
    text: Seq<char>,
    toks: Seq<LexItemModel>,
    i: int,
    name: Seq<char>,
    g: GraphModel,
)
    requires
        0 <= i < toks.len(),
        toks[i].token == Ok::<Token, ()>(Token::AssignmentValue),
        i + 1 >= toks.len() || toks[i + 1].token == Ok::<Token, ()>(Token::Newline),
    ensures
        ({
            let g2 = GraphModel {
                variables: g.variables.insert(name, assignment_value_of(item_slice(text, toks[i]))),
                ..g
            };
            let j: int = if i + 1 >= toks.len() {
                i + 1
            } else {
                i + 2
            };
            spec_parse_global(text, toks, i, name, g) == Ok::<(GraphModel, int), Seq<Seq<char>>>(
                (g2, j),
            ) && g2.rules == g.rules && g2.edges == g.edges
        }),
{
}

/// A manifest that ends mid-assignment fails: when the identifier that
/// opens a statement is the last item of the input, the parse yields
/// exactly the end-of-file diagnostic, whatever graph stood before.
pub proof fn lemma_ends_mid_assignment(
    text: Seq<char>,
    toks: Seq<LexItemModel>,
    i: int,
    g: GraphModel,
)
    requires
        0 <= i < toks.len(),
        i == toks.len() - 1,
        toks[i].token == Ok::<Token, ()>(Token::Identifier),
    ensures
        spec_parse_stmts(text, toks, i, g) == Err::<GraphModel, Seq<Seq<char>>>(
            seq![msg_unexpected_eof()],
        ),
{
}

/// An assignment whose name is followed by something other than an `=`
/// value fails with exactly the value-expected diagnostic.
pub proof fn lemma_assignment_without_value(
    text: Seq<char>,
    toks: Seq<LexItemModel>,
    i: int,
    name: Seq<char>,
    g: GraphModel,
)
    requires
        0 <= i < toks.len(),
        match toks[i].token {
            Ok(t) => t != Token::AssignmentValue,
            Err(_) => false,
        },
    ensures
        spec_parse_global(text, toks, i, name, g) == Err::<(GraphModel, int), Seq<Seq<char>>>(
            seq![msg_value_expected()],
        ),
{
}

/// A block line that the input cuts off before its line terminator fails
/// with exactly the end-of-file diagnostic, and no bindings escape; this
/// holds for the blocks of rules and of build edges alike, which share the
/// block grammar.
pub proof fn lemma_unterminated_block_line(
    text: Seq<char>,
    toks: Seq<LexItemModel>,
    i: int,
    vars: Map<Seq<char>, Seq<char>>,
)
    requires
        0 <= i,
        i + 3 == toks.len(),
        toks[i].token == Ok::<Token, ()>(Token::Indent),
        toks[i + 1].token == Ok::<Token, ()>(Token::Identifier),
        toks[i + 2].token == Ok::<Token, ()>(Token::AssignmentValue),
    ensures
        spec_parse_block(text, toks, i, vars) == Err::<
            (Map<Seq<char>, Seq<char>>, int),
            Seq<Seq<char>>,
        >(seq![msg_unexpected_eof()]),
{
}

/// A rule declaration whose name some rule already carries fails with
/// exactly the duplicate-rule diagnostic, whatever its block holds; the
/// graph value is dropped, so nothing partial escapes.
pub proof fn lemma_duplicate_rule_declaration(
    text: Seq<char>,
    toks: Seq<LexItemModel>,
    i: int,
    g: GraphModel,
)
    requires
        0 <= i,
        i + 1 < toks.len(),
        toks[i].token == Ok::<Token, ()>(Token::Identifier),
        toks[i + 1].token == Ok::<Token, ()>(Token::Newline),
        spec_parse_block(text, toks, i + 2, Map::empty()) is Ok,
        g.rules.contains_key(item_slice(text, toks[i])),
    ensures
        spec_parse_rule(text, toks, i, g) == Err::<(GraphModel, int), Seq<Seq<char>>>(
            seq![duplicate_rule_msg(item_slice(text, toks[i]))],
        ),
{
}

/// An edge whose output some edge already produces is refused with exactly
/// the duplicate-output diagnostic, whatever rule, input, scope or index
/// come with it.
pub proof fn lemma_duplicate_output_insertion(
    g: GraphModel,
    output: Seq<char>,
    rule_name: Seq<char>,
    input: Seq<char>,
    vars: Map<Seq<char>, Seq<char>>,
    j: int,
)
    requires
        g.edges.contains_key(output),
    ensures
        spec_insert_edge(g, output, rule_name, input, vars, j) == Err::<
            (GraphModel, int),
            Seq<Seq<char>>,
        >(seq![duplicate_output_msg(output)]),
{
}

/// Parsing the empty manifest yields the empty graph, which is empty in the
/// sense that counts rules and edges.
pub proof fn lemma_parse_empty()
    ensures
        spec_parse(Seq::<char>::empty()) == Ok::<GraphModel, Seq<Seq<char>>>(GraphModel::empty()),
        GraphModel::empty().is_empty(),
{
    assert(spec_lex(Seq::<char>::empty()) =~= Seq::<LexItemModel>::empty());
    assert(spec_parse_stmts(
        Seq::<char>::empty(),
        spec_lex(Seq::<char>::empty()),
        0,
        GraphModel::empty(),
    ) == Ok::<GraphModel, Seq<Seq<char>>>(GraphModel::empty()));
    assert(Map::<Seq<char>, RuleModel>::empty().dom() =~= Set::<Seq<char>>::empty());
    assert(Map::<Seq<char>, EdgeModel>::empty().dom() =~= Set::<Seq<char>>::empty());
}

/// Parsing has no hidden state: the result is a function of the text alone,
/// so re-parsing the same valid text yields a structurally equal graph.
pub proof fn lemma_parse_deterministic(text: Seq<char>, g1: GraphModel, g2: GraphModel)
    requires
        spec_parse(text) == Ok::<GraphModel, Seq<Seq<char>>>(g1),
        spec_parse(text) == Ok::<GraphModel, Seq<Seq<char>>>(g2),
    ensures
        g1 == g2,
{
}

fn one_error(msg: String) -> (r: Vec<SyntaxError>)
    ensures
        r.deep_view() == seq![msg@],
{
    let mut v: Vec<String> = Vec::new();
    v.push(msg);
    proof {
        assert(v.deep_view() =~= seq![v@[0]@]);
    }
    v
}

fn unexpected_token_message(slice: &str) -> (r: String)
    ensures
        r@ == msg_unexpected_token(slice@),
{
    let mut m = "unexpected token ".to_owned();
    m.append(slice);
    m
}

fn assignment_value(raw: &str) -> (v: String)
    requires
        raw@.len() >= 1,
    ensures
        v@ == assignment_value_of(raw@),
{
    let n = raw.unicode_len();
    let start: usize = if n > 1 && raw.get_char(1) == ' ' {
        2
    } else {
        1
    };
    let s = raw.substring_char(start, n);
    proof {
        assert(s@ =~= assignment_value_of(raw@));
    }
    s.to_owned()
}

/// Consumes one token and demands the given kind of it; a wrong token, a
/// lexical failure, and the end of the input each become the matching
/// diagnostic.
fn expect_token(stream: &mut TokenStream, expectation: TokenKind) -> (r: Result<
    (),
    Vec<SyntaxError>,
>)
    requires
        old(stream).wf(),
    ensures
        final(stream).wf(),
        final(stream).text_model() == old(stream).text_model(),
        final(stream).items_seq() == old(stream).items_seq(),
        match r {
            Ok(_) => item_is_kind(old(stream).items_seq(), old(stream).cursor_at(), expectation)
                && final(stream).cursor_at() == old(stream).cursor_at() + 1,
            Err(e) => !item_is_kind(old(stream).items_seq(), old(stream).cursor_at(), expectation)
                && e.deep_view() == expect_err_msgs(
                old(stream).text_model(),
                old(stream).items_seq(),
                old(stream).cursor_at(),
            ),
        },
{
    match stream.next() {
        None => Err(one_error("unexpected end of file".to_owned())),
        Some(Err(_)) => Err(one_error(unexpected_token_message(stream.slice()))),
        Some(Ok(k)) => {
            if k == expectation {
                Ok(())
            } else {
                Err(one_error(unexpected_token_message(stream.slice())))
            }
        },
    }
}

/// A global assignment, entered with its name just consumed: reads the `=`
/// value into the global scope and demands a line terminator, which only the
/// end of the input may replace.
fn parse_global_variable_assignment(stream: &mut TokenStream, graph: Graph) -> (r: Result<
    Graph,
    Vec<SyntaxError>,
>)
    requires
        old(stream).wf(),
        0 < old(stream).cursor_at() <= old(stream).items_seq().len(),
    ensures
        final(stream).wf(),
        final(stream).text_model() == old(stream).text_model(),
        final(stream).items_seq() == old(stream).items_seq(),
        ({
            let res = spec_parse_global(
                old(stream).text_model(),
                old(stream).items_seq(),
                old(stream).cursor_at(),
                item_slice(
                    old(stream).text_model(),
                    old(stream).items_seq()[old(stream).cursor_at() - 1],
                ),
                graph@,
            );
            match r {
                Ok(g2) => res == Ok::<(GraphModel, int), Seq<Seq<char>>>(
                    (g2@, final(stream).cursor_at() as int),
                ) && g2.outputs == graph.outputs && (graph.wf() ==> g2.wf()),
                Err(e) => res == Err::<(GraphModel, int), Seq<Seq<char>>>(e.deep_view()),
            }
        }),
{
    let variable_name = stream.slice().to_owned();
    match stream.next() {
        None => Err(one_error("unexpected end of file".to_owned())),
        Some(Err(_)) => Err(one_error(unexpected_token_message(stream.slice()))),
        Some(Ok(k)) => {
            if k != TokenKind::AssignmentValue {
                Err(one_error("value assignment expected".to_owned()))
            } else {
                let value = assignment_value(stream.slice());
                let mut graph = graph;
                let ghost old_graph = graph;
                let ghost name_model = variable_name@;
                let ghost value_str = value;
                let ghost old_vars = graph.variables;
                graph.variables.insert(variable_name, value);
                proof {
                    lemma_bindings_model_insert(old_vars, graph.variables, name_model, value_str);
                    assert(graph@ =~= (GraphModel {
                        variables: old_graph@.variables.insert(name_model, value_str@),
                        ..old_graph@
                    }));
                    assert(graph.outputs == old_graph.outputs);
                    assert(graph.edges == old_graph.edges);
                    assert(old_graph.wf() ==> graph.wf());
                }
                match stream.next() {
                    None => Ok(graph),
                    Some(Err(_)) => Err(one_error(unexpected_token_message(stream.slice()))),
                    Some(Ok(k2)) => {
                        if k2 == TokenKind::Newline {
                            Ok(graph)
                        } else {
                            Err(one_error("newline expected after variable assignment".to_owned()))
                        }
                    },
                }
            }
        },
    }
}

/// The indented variable block of a rule: collects `name = value` lines
/// while the lookahead shows an indent, and stops, without consuming, at the
/// first item that is no indent, or at the end of the input. A block line
/// that the input cuts off before its line terminator is a syntax error.
fn parse_indented_variable_block(stream: &mut TokenStream) -> (r: Result<Bindings, Vec<SyntaxError>>)
    requires
        old(stream).wf(),
    ensures
        final(stream).wf(),
        final(stream).text_model() == old(stream).text_model(),
        final(stream).items_seq() == old(stream).items_seq(),
        ({
            let res = spec_parse_block(
                old(stream).text_model(),
                old(stream).items_seq(),
                old(stream).cursor_at(),
                Map::empty(),
            );
            match r {
                Ok(b) => res == Ok::<(Map<Seq<char>, Seq<char>>, int), Seq<Seq<char>>>(
                    (bindings_model(b), final(stream).cursor_at() as int),
                ),
                Err(e) => res == Err::<(Map<Seq<char>, Seq<char>>, int), Seq<Seq<char>>>(
                    e.deep_view(),
                ),
            }
        }),
{
    let ghost text0 = old(stream).text_model();
    let ghost toks0 = old(stream).items_seq();
    let ghost c0 = old(stream).cursor_at();
    let mut variables: Bindings = StringHashMap::new();
    proof {
        assert(bindings_model(variables) =~= Map::<Seq<char>, Seq<char>>::empty());
    }
    loop
        invariant
            stream.wf(),
            text0 == old(stream).text_model(),
            toks0 == old(stream).items_seq(),
            c0 == old(stream).cursor_at(),
            0 <= c0 <= toks0.len(),
            stream.text_model() == text0,
            stream.items_seq() == toks0,
            spec_parse_block(text0, toks0, c0, Map::empty()) == spec_parse_block(
                text0,
                toks0,
                stream.cursor_at() as int,
                bindings_model(variables),
            ),
        decreases stream.items_seq().len() - stream.cursor_at(),
    {
        let ghost ci = stream.cursor_at() as int;
        let ghost vars_entry = bindings_model(variables);
        match stream.peek() {
            None => {
                proof {
                    assert(spec_parse_block(text0, toks0, ci, vars_entry) == Ok::<
                        (Map<Seq<char>, Seq<char>>, int),
                        Seq<Seq<char>>,
                    >((vars_entry, ci)));
                }
                return Ok(variables);
            },
            Some(Err(_)) => {
                let _ = stream.next();
                let m = one_error(unexpected_token_message(stream.slice()));
                proof {
                    assert(spec_parse_block(text0, toks0, ci, vars_entry) == Err::<
                        (Map<Seq<char>, Seq<char>>, int),
                        Seq<Seq<char>>,
                    >(m.deep_view()));
                }
                return Err(m);
            },
            Some(Ok(k)) => {
                if k != TokenKind::Indent {
                    proof {
                        assert(spec_parse_block(text0, toks0, ci, vars_entry) == Ok::<
                            (Map<Seq<char>, Seq<char>>, int),
                            Seq<Seq<char>>,
                        >((vars_entry, ci)));
                    }
                    return Ok(variables);
                }
                let _ = stream.next();
                match expect_token(stream, TokenKind::Identifier) {
                    Err(e) => {
                        proof {
                            assert(spec_parse_block(text0, toks0, ci, vars_entry) == Err::<
                                (Map<Seq<char>, Seq<char>>, int),
                                Seq<Seq<char>>,
                            >(e.deep_view()));
                        }
                        return Err(e);
                    },
                    Ok(_) => {},
                }
                let variable_name = stream.slice().to_owned();
                match expect_token(stream, TokenKind::AssignmentValue) {
                    Err(e) => {
                        proof {
                            assert(spec_parse_block(text0, toks0, ci, vars_entry) == Err::<
                                (Map<Seq<char>, Seq<char>>, int),
                                Seq<Seq<char>>,
                            >(e.deep_view()));
                        }
                        return Err(e);
                    },
                    Ok(_) => {},
                }
                let value = assignment_value(stream.slice());
                let ghost name_model = variable_name@;
                let ghost value_str = value;
                let ghost old_vars = variables;
                variables.insert(variable_name, value);
                proof {
                    lemma_bindings_model_insert(old_vars, variables, name_model, value_str);
                    assert(bindings_model(variables) == vars_entry.insert(
                        name_model,
                        assignment_value_of(item_slice(text0, toks0[ci + 2])),
                    ));
                }
                match stream.next() {
                    None => {
                        let m = one_error("unexpected end of file".to_owned());
                        proof {
                            assert(spec_parse_block(text0, toks0, ci, vars_entry) == Err::<
                                (Map<Seq<char>, Seq<char>>, int),
                                Seq<Seq<char>>,
                            >(m.deep_view()));
                        }
                        return Err(m);
                    },
                    Some(Err(_)) => {
                        let m = one_error(unexpected_token_message(stream.slice()));
                        proof {
                            assert(spec_parse_block(text0, toks0, ci, vars_entry) == Err::<
                                (Map<Seq<char>, Seq<char>>, int),
                                Seq<Seq<char>>,
                            >(m.deep_view()));
                        }
                        return Err(m);
                    },
                    Some(Ok(k3)) => {
                        if k3 != TokenKind::Newline {
                            let m = one_error(unexpected_token_message(stream.slice()));
                            proof {
                                assert(spec_parse_block(text0, toks0, ci, vars_entry) == Err::<
                                    (Map<Seq<char>, Seq<char>>, int),
                                    Seq<Seq<char>>,
                                >(m.deep_view()));
                            }
                            return Err(m);
                        }
                        proof {
                            assert(spec_parse_block(text0, toks0, ci, vars_entry)
                                == spec_parse_block(
                                text0,
                                toks0,
                                ci + 4,
                                bindings_model(variables),
                            ));
                        }
                    },
                }
            },
        }
    }
}

/// A rule declaration, entered with the keyword just consumed: the rule
/// name, a required line terminator, the indented block, then insertion,
/// which refuses a duplicate name and otherwise leaves the graph unchanged.
fn parse_rule(stream: &mut TokenStream, graph: Graph) -> (r: Result<Graph, Vec<SyntaxError>>)
    requires
        old(stream).wf(),
    ensures
        final(stream).wf(),
        final(stream).text_model() == old(stream).text_model(),
        final(stream).items_seq() == old(stream).items_seq(),
        ({
            let res = spec_parse_rule(
                old(stream).text_model(),
                old(stream).items_seq(),
                old(stream).cursor_at(),
                graph@,
            );
            match r {
                Ok(g2) => res == Ok::<(GraphModel, int), Seq<Seq<char>>>(
                    (g2@, final(stream).cursor_at() as int),
                ) && g2.outputs == graph.outputs && (graph.wf() ==> g2.wf()),
                Err(e) => res == Err::<(GraphModel, int), Seq<Seq<char>>>(e.deep_view()),
            }
        }),
{
    match expect_token(stream, TokenKind::Identifier) {
        Err(e) => {
            return Err(e);
        },
        Ok(_) => {},
    }
    let rule_name = stream.slice().to_owned();
    match stream.next() {
        None => {
            return Err(one_error("unexpected end of file".to_owned()));
        },
        Some(Err(_)) => {
            return Err(one_error(unexpected_token_message(stream.slice())));
        },
        Some(Ok(k)) => {
            if k != TokenKind::Newline {
                return Err(one_error("newline expected after rule".to_owned()));
            }
        },
    }
    let rule_bindings = match parse_indented_variable_block(stream) {
        Ok(b) => b,
        Err(e) => {
            return Err(e);
        },
    };
    let new_rule = Rule { name: rule_name, variables: rule_bindings };
    let mut graph = graph;
    match graph.rule(new_rule) {
        Ok(_) => Ok(graph),
        Err(err) => Err(one_error(err)),
    }
}

/// A build-edge declaration, entered with the keyword just consumed: the
/// output, a colon, the rule name, at most one input, a line terminator that
/// only the end of the input may replace, then the indented block of
/// edge-local overrides; insertion refuses an output that is already
/// produced and otherwise leaves the graph unchanged.
fn parse_build(stream: &mut TokenStream, graph: Graph) -> (r: Result<Graph, Vec<SyntaxError>>)
    requires
        old(stream).wf(),
    ensures
        final(stream).wf(),
        final(stream).text_model() == old(stream).text_model(),
        final(stream).items_seq() == old(stream).items_seq(),
        ({
            let res = spec_parse_build(
                old(stream).text_model(),
                old(stream).items_seq(),
                old(stream).cursor_at(),
                graph@,
            );
            match r {
                Ok(g2) => res == Ok::<(GraphModel, int), Seq<Seq<char>>>(
                    (g2@, final(stream).cursor_at() as int),
                ) && (graph.wf() ==> g2.wf()),
                Err(e) => res == Err::<(GraphModel, int), Seq<Seq<char>>>(e.deep_view()),
            }
        }),
{
    match expect_token(stream, TokenKind::Identifier) {
        Err(e) => {
            return Err(e);
        },
        Ok(_) => {},
    }
    let output = stream.slice().to_owned();
    match expect_token(stream, TokenKind::Colon) {
        Err(e) => {
            return Err(e);
        },
        Ok(_) => {},
    }
    match expect_token(stream, TokenKind::Identifier) {
        Err(e) => {
            return Err(e);
        },
        Ok(_) => {},
    }
    let rule_name = stream.slice().to_owned();
    let mut input = String::new();
    match stream.next() {
        None => {},
        Some(Err(_)) => {
            return Err(one_error(unexpected_token_message(stream.slice())));
        },
        Some(Ok(k)) => {
            if k == TokenKind::Newline {
            } else if k == TokenKind::Identifier {
                input = stream.slice().to_owned();
                match stream.next() {
                    None => {},
                    Some(Err(_)) => {
                        return Err(one_error(unexpected_token_message(stream.slice())));
                    },
                    Some(Ok(k2)) => {
                        if k2 != TokenKind::Newline {
                            return Err(one_error(unexpected_token_message(stream.slice())));
                        }
                    },
                }
            } else {
                return Err(one_error(unexpected_token_message(stream.slice())));
            }
        },
    }
    let edge_bindings = match parse_indented_variable_block(stream) {
        Ok(b) => b,
        Err(e) => {
            return Err(e);
        },
    };
    let new_edge = Edge { output, rule: rule_name, input, variables: edge_bindings };
    let mut graph = graph;
    match graph.build(new_edge) {
        Ok(_) => Ok(graph),
        Err(err) => Err(one_error(err)),
    }
}

/// Parses a whole manifest: on success the populated graph, on failure the
/// diagnostics of the first error, with no partial graph. The result is
/// exactly what the mathematical parser yields on the lexing of `text`.
pub fn parse(text: &str) -> (r: Result<Graph, Vec<SyntaxError>>)
    ensures
        match r {
            Ok(g) => spec_parse(text@) == Ok::<GraphModel, Seq<Seq<char>>>(g@) && g.wf(),
            Err(e) => spec_parse(text@) == Err::<GraphModel, Seq<Seq<char>>>(e.deep_view()),
        },
{
    let mut graph_from_text = Graph::new();
    let mut lexer = TokenStream::new(text);
    let ghost toks = lexer.items_seq();
    loop
        invariant
            lexer.wf(),
            graph_from_text.wf(),
            lexer.text_model() == text@,
            lexer.items_seq() == toks,
            spec_parse(text@) == spec_parse_stmts(
                text@,
                toks,
                lexer.cursor_at() as int,
                graph_from_text@,
            ),
        decreases lexer.items_seq().len() - lexer.cursor_at(),
    {
        let ghost i = lexer.cursor_at();
        let ghost g0 = graph_from_text@;
        match lexer.next() {
            None => {
                return Ok(graph_from_text);
            },
            Some(Err(_)) => {
                return Err(one_error(unexpected_token_message(lexer.slice())));
            },
            Some(Ok(k)) => {
                if k == TokenKind::Identifier {
                    proof {
                        lemma_parse_global_bounds(text@, toks, i + 1, item_slice(text@, toks[i]), g0);
                    }
                    match parse_global_variable_assignment(&mut lexer, graph_from_text) {
                        Ok(g) => {
                            graph_from_text = g;
                        },
                        Err(e) => {
                            return Err(e);
                        },
                    }
                } else if k == TokenKind::KwRule {
                    proof {
                        lemma_parse_rule_bounds(text@, toks, i + 1, g0);
                    }
                    match parse_rule(&mut lexer, graph_from_text) {
                        Ok(g) => {
                            graph_from_text = g;
                        },
                        Err(e) => {
                            return Err(e);
                        },
                    }
                } else if k == TokenKind::KwBuild {
                    proof {
                        lemma_parse_build_bounds(text@, toks, i + 1, g0);
                    }
                    match parse_build(&mut lexer, graph_from_text) {
                        Ok(g) => {
                            graph_from_text = g;
                        },
                        Err(e) => {
                            return Err(e);
                        },
                    }
                } else {
                    return Err(one_error("unexpected token".to_owned()));
                }
            },
        }
    }
}

} // verus!
