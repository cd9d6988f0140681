//! The in-memory build graph: rules, edges and variable bindings, with
//! insertion-time uniqueness enforcement and scope-chain variable resolution.

use vstd::prelude::*;
use vstd::hash_map::StringHashMap;
use vstd::string::StringExecFns;

verus! {

/// A variable scope: a mapping from variable names to raw, unexpanded values.
/// Later writes to the same name overwrite earlier ones.
pub type Bindings = StringHashMap<String>;

/// The mathematical content of a `Bindings` scope.
pub open spec fn bindings_model(b: Bindings) -> Map<Seq<char>, Seq<char>> {
    b@.map_values(|v: String| v@)
}

/// Mathematical model of a `Rule`.
#[verifier::ext_equal]
pub struct RuleModel {
    pub name: Seq<char>,
    pub variables: Map<Seq<char>, Seq<char>>,
}

/// Mathematical model of an `Edge`.
#[verifier::ext_equal]
pub struct EdgeModel {
    pub output: Seq<char>,
    pub rule: Seq<char>,
    pub input: Seq<char>,
    pub variables: Map<Seq<char>, Seq<char>>,
}

/// Mathematical model of a `Graph`.
#[verifier::ext_equal]
pub struct GraphModel {
    pub rules: Map<Seq<char>, RuleModel>,
    pub edges: Map<Seq<char>, EdgeModel>,
    pub variables: Map<Seq<char>, Seq<char>>,
}

impl GraphModel {
    /// The graph a parse starts from: no rules, no edges, no variables.
    pub open spec fn empty() -> GraphModel {
        GraphModel {
            rules: Map::empty(),
            edges: Map::empty(),
            variables: Map::empty(),
        }
    }

    /// Emptiness counts rules and edges only; global variables do not count.
    pub open spec fn is_empty(self) -> bool {
        self.rules.is_empty() && self.edges.is_empty()
    }
}

/// One build step: `output` is produced from `input` by the rule named
/// `rule`, with an edge-local scope of rule-parameter overrides.
pub struct Edge {
    pub output: String,
    pub rule: String,
    pub input: String,
    pub variables: Bindings,
}

impl View for Edge {
    type V = EdgeModel;

    open spec fn view(&self) -> EdgeModel {
        EdgeModel {
            output: self.output@,
            rule: self.rule@,
            input: self.input@,
            variables: bindings_model(self.variables),
        }
    }
}

impl Edge {
    /// A bare edge with an empty local scope.
    pub fn new(output: &str, rule: &str, input: &str) -> (e: Edge)
        ensures
            e@ == (EdgeModel {
                output: output@,
                rule: rule@,
                input: input@,
                variables: Map::empty(),
            }),
    {
        let e = Edge {
            output: output.to_owned(),
            rule: rule.to_owned(),
            input: input.to_owned(),
            variables: StringHashMap::new(),
        };
        proof {
            assert(bindings_model(e.variables) =~= Map::<Seq<char>, Seq<char>>::empty());
        }
        e
    }
}

/// A named, reusable command template with its own variable scope.
pub struct Rule {
    pub name: String,
    pub variables: Bindings,
}

impl View for Rule {
    type V = RuleModel;

    open spec fn view(&self) -> RuleModel {
        RuleModel { name: self.name@, variables: bindings_model(self.variables) }
    }
}

impl Rule {
    pub fn new(name: &str, variables: Bindings) -> (r: Rule)
        ensures
            r@ == (RuleModel { name: name@, variables: bindings_model(variables) }),
    {
        Rule { name: name.to_owned(), variables }
    }
}

/// Inserting one binding into a scope inserts its value's view into the
/// scope's model.
pub proof fn lemma_bindings_model_insert(b1: Bindings, b2: Bindings, k: Seq<char>, v: String)
    requires
        b2@ == b1@.insert(k, v),
    ensures
        bindings_model(b2) == bindings_model(b1).insert(k, v@),
{
    assert(bindings_model(b2) =~= bindings_model(b1).insert(k, v@));
}

/// The message that rejects a second rule of the same name.
pub open spec fn duplicate_rule_msg(name: Seq<char>) -> Seq<char> {
    "duplicate rule '"@ + name + "'"@
}

/// The message that rejects a second edge with the same output.
pub open spec fn duplicate_output_msg(output: Seq<char>) -> Seq<char> {
    "multiple rules generate '"@ + output + "'"@
}

pub(crate) fn duplicate_rule_message(name: &str) -> (r: String)
    ensures
        r@ == duplicate_rule_msg(name@),
{
    let mut m = "duplicate rule '".to_owned();
    m.append(name);
    m.append("'");
    m
}

pub(crate) fn duplicate_output_message(output: &str) -> (r: String)
    ensures
        r@ == duplicate_output_msg(output@),
{
    let mut m = "multiple rules generate '".to_owned();
    m.append(output);
    m.append("'");
    m
}

/// The report for an edge input that is neither on disk nor produced by any
/// edge, as the staleness walk over the graph's edges words it.
pub open spec fn missing_input_msg(input: Seq<char>, output: Seq<char>) -> Seq<char> {
    "'"@ + input + "', needed by '"@ + output + "', missing and no known rule to make it"@
}

pub fn missing_input_message(input: &str, output: &str) -> (r: String)
    ensures
        r@ == missing_input_msg(input@, output@),
{
    let mut m = "'".to_owned();
    m.append(input);
    m.append("', needed by '");
    m.append(output);
    m.append("', missing and no known rule to make it");
    m
}

/// First match along the scope chain: edge scope, then rule scope, then the
/// global scope.
pub open spec fn scope_resolve(
    edge_scope: Map<Seq<char>, Seq<char>>,
    rule_scope: Map<Seq<char>, Seq<char>>,
    global_scope: Map<Seq<char>, Seq<char>>,
    name: Seq<char>,
) -> Option<Seq<char>> {
    if edge_scope.contains_key(name) {
        Some(edge_scope[name])
    } else if rule_scope.contains_key(name) {
        Some(rule_scope[name])
    } else if global_scope.contains_key(name) {
        Some(global_scope[name])
    } else {
        None
    }
}

/// The aggregate root: rules keyed by name, edges keyed by output, and the
/// global variable scope.
pub struct Graph {
    pub rules: StringHashMap<Rule>,
    pub edges: StringHashMap<Edge>,
    pub variables: Bindings,
    /// The outputs of the edges in insertion order, one entry per edge, so
    /// that a consumer can walk a mapping that itself offers no iteration.
    pub outputs: Vec<String>,
}

impl View for Graph {
    type V = GraphModel;

    open spec fn view(&self) -> GraphModel {
        GraphModel {
            rules: self.rules@.map_values(|r: Rule| r@),
            edges: self.edges@.map_values(|e: Edge| e@),
            variables: bindings_model(self.variables),
        }
    }
}

impl Graph {
    /// The outputs list names the key of each edge exactly once, in the
    /// order the edges were inserted.
    pub open spec fn wf(self) -> bool {
        &&& forall|i: int, j: int|
            0 <= i < j < self.outputs@.len() ==> self.outputs@[i]@ != self.outputs@[j]@
        &&& forall|i: int|
            0 <= i < self.outputs@.len() ==> self.edges@.contains_key(#[trigger] self.outputs@[i]@)
        &&& forall|k: Seq<char>|
            #[trigger] self.edges@.contains_key(k) ==> exists|i: int|
                0 <= i < self.outputs@.len() && #[trigger] self.outputs@[i]@ == k
    }

    pub fn new() -> (g: Graph)
        ensures
            g@ == GraphModel::empty(),
            g.wf(),
            g.outputs@.len() == 0,
    {
        let g = Graph {
            rules: StringHashMap::new(),
            edges: StringHashMap::new(),
            variables: StringHashMap::new(),
            outputs: Vec::new(),
        };
        proof {
            assert(g@.rules =~= Map::<Seq<char>, RuleModel>::empty());
            assert(g@.edges =~= Map::<Seq<char>, EdgeModel>::empty());
            assert(g@.variables =~= Map::<Seq<char>, Seq<char>>::empty());
            assert(g@ =~= GraphModel::empty());
        }
        g
    }

    /// True when the graph holds no rule and no edge; global variables alone
    /// do not make a graph non-empty.
    pub fn is_empty(&self) -> (r: bool)
        ensures
            r == self@.is_empty(),
    {
        proof {
            assert(self.rules@.map_values(|r: Rule| r@).dom() =~= self.rules@.dom());
            assert(self.edges@.map_values(|e: Edge| e@).dom() =~= self.edges@.dom());
        }
        self.rules.is_empty() && self.edges.is_empty()
    }

    /// Inserts a rule, refusing a name that is already taken. On failure the
    /// graph is left exactly as it was.
    pub fn rule(&mut self, rule: Rule) -> (r: Result<(), String>)
        ensures
            final(self).outputs == old(self).outputs,
            old(self).wf() ==> final(self).wf(),
            match r {
                Ok(_) => !old(self)@.rules.contains_key(rule@.name) && final(self)@
                    == (GraphModel {
                    rules: old(self)@.rules.insert(rule@.name, rule@),
                    ..old(self)@
                }),
                Err(msg) => old(self)@.rules.contains_key(rule@.name) && final(self)@ == old(
                    self,
                )@ && msg@ == duplicate_rule_msg(rule@.name),
            },
    {
        if !self.rules.contains_key(rule.name.as_str()) {
            let ghost old_rules = self.rules@;
            let name = rule.name.clone();
            let ghost rule_model = rule@;
            self.rules.insert(name, rule);
            proof {
                assert(self.rules@.map_values(|r: Rule| r@) =~= old_rules.map_values(
                    |r: Rule| r@,
                ).insert(rule_model.name, rule_model));
            }
            Ok(())
        } else {
            Err(duplicate_rule_message(rule.name.as_str()))
        }
    }

    /// Inserts an edge, refusing an output that some edge already produces.
    /// On failure the graph is left exactly as it was.
    pub fn build(&mut self, edge: Edge) -> (r: Result<(), String>)
        ensures
            old(self).wf() ==> final(self).wf(),
            match r {
                Ok(_) => !old(self)@.edges.contains_key(edge@.output) && final(self)@
                    == (GraphModel {
                    edges: old(self)@.edges.insert(edge@.output, edge@),
                    ..old(self)@
                }) && final(self).outputs@ == old(self).outputs@.push(edge.output),
                Err(msg) => old(self)@.edges.contains_key(edge@.output) && final(self)@ == old(
                    self,
                )@ && final(self).outputs == old(self).outputs && msg@ == duplicate_output_msg(
                    edge@.output,
                ),
            },
    {
        if !self.edges.contains_key(edge.output.as_str()) {
            let ghost old_self = *self;
            let ghost old_edges = self.edges@;
            let output = edge.output.clone();
            let ghost edge_model = edge@;
            self.outputs.push(output.clone());
            self.edges.insert(output, edge);
            proof {
                assert(self.edges@.map_values(|e: Edge| e@) =~= old_edges.map_values(
                    |e: Edge| e@,
                ).insert(edge_model.output, edge_model));
                if old_self.wf() {
                    let n = old_self.outputs@.len() as int;
                    assert forall|i: int, j: int|
                        0 <= i < j < self.outputs@.len() implies self.outputs@[i]@
                        != self.outputs@[j]@ by {
                        if j < n {
                            assert(old_self.outputs@[i]@ != old_self.outputs@[j]@);
                        } else {
                            assert(self.outputs@[j]@ == edge_model.output);
                            assert(old_self.edges@.contains_key(old_self.outputs@[i]@));
                        }
                    }
                    assert forall|i: int|
                        0 <= i < self.outputs@.len() implies self.edges@.contains_key(
                        #[trigger] self.outputs@[i]@,
                    ) by {
                        if i < n {
                            assert(old_self.edges@.contains_key(old_self.outputs@[i]@));
                        }
                    }
                    assert forall|k: Seq<char>| #[trigger]
                        self.edges@.contains_key(k) implies exists|i: int|
                        0 <= i < self.outputs@.len() && #[trigger] self.outputs@[i]@ == k by {
                        if k == edge_model.output {
                            assert(self.outputs@[n]@ == k);
                        } else {
                            assert(old_self.edges@.contains_key(k));
                            let i = choose|i: int|
                                0 <= i < old_self.outputs@.len() && #[trigger] old_self.outputs@[i]@
                                    == k;
                            assert(self.outputs@[i]@ == k);
                        }
                    }
                }
            }
            Ok(())
        } else {
            Err(duplicate_output_message(edge.output.as_str()))
        }
    }

    /// Looks a variable up along the scope chain of one edge: the edge's own
    /// scope first, then the scope of the edge's rule, then the global scope.
    pub fn resolve(&self, edge_scope: &Bindings, rule_scope: &Bindings, name: &str) -> (r: Option<
        String,
    >)
        ensures
            match r {
                Some(v) => scope_resolve(
                    bindings_model(*edge_scope),
                    bindings_model(*rule_scope),
                    self@.variables,
                    name@,
                ) == Some(v@),
                None => scope_resolve(
                    bindings_model(*edge_scope),
                    bindings_model(*rule_scope),
                    self@.variables,
                    name@,
                ) is None,
            },
    {
        if let Some(v) = edge_scope.get(name) {
            Some(v.clone())
        } else if let Some(v) = rule_scope.get(name) {
            Some(v.clone())
        } else if let Some(v) = self.variables.get(name) {
            Some(v.clone())
        } else {
            None
        }
    }
}

} // verus!
