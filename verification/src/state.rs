//! An aggregate of parsed entities kept by name: rules keyed by their names
//! and build nodes keyed by the file they produce, with the same
//! insertion-time uniqueness policy as the graph.

use vstd::prelude::*;
use vstd::hash_map::StringHashMap;
use crate::graph::{
    Rule,
    RuleModel,
    Edge,
    EdgeModel,
    duplicate_rule_msg,
    duplicate_output_msg,
    duplicate_rule_message,
    duplicate_output_message,
};

verus! {

/// Mathematical model of a `State`.
#[verifier::ext_equal]
pub struct StateModel {
    pub rules: Map<Seq<char>, RuleModel>,
    pub nodes: Map<Seq<char>, EdgeModel>,
}

impl StateModel {
    pub open spec fn empty() -> StateModel {
        StateModel { rules: Map::empty(), nodes: Map::empty() }
    }
}

/// Rules keyed by name and build nodes keyed by output, each unique.
pub struct State {
    rules: StringHashMap<Rule>,
    nodes: StringHashMap<Edge>,
}

impl View for State {
    type V = StateModel;

    closed spec fn view(&self) -> StateModel {
        StateModel {
            rules: self.rules@.map_values(|r: Rule| r@),
            nodes: self.nodes@.map_values(|e: Edge| e@),
        }
    }
}

impl State {
    pub fn new() -> (s: State)
        ensures
            s@ == StateModel::empty(),
    {
        let s = State { rules: StringHashMap::new(), nodes: StringHashMap::new() };
        proof {
            assert(s@.rules =~= Map::<Seq<char>, RuleModel>::empty());
            assert(s@.nodes =~= Map::<Seq<char>, EdgeModel>::empty());
            assert(s@ =~= StateModel::empty());
        }
        s
    }

    /// Inserts a rule, refusing a name that is already taken. On failure the
    /// state is left exactly as it was.
    pub fn rule(&mut self, rule: Rule) -> (r: Result<(), String>)
        ensures
            match r {
                Ok(_) => !old(self)@.rules.contains_key(rule@.name) && final(self)@
                    == (StateModel {
                    rules: old(self)@.rules.insert(rule@.name, rule@),
                    ..old(self)@
                }),
                Err(msg) => old(self)@.rules.contains_key(rule@.name) && final(self)@ == old(
                    self,
                )@ && msg@ == duplicate_rule_msg(rule@.name),
            },
    {
        if !self.rules.contains_key(rule.name.as_str()) {
            let ghost old_rules = self.rules@;
            let name = rule.name.clone();
            let ghost rule_model = rule@;
            self.rules.insert(name, rule);
            proof {
                assert(self.rules@.map_values(|r: Rule| r@) =~= old_rules.map_values(
                    |r: Rule| r@,
                ).insert(rule_model.name, rule_model));
            }
            Ok(())
        } else {
            Err(duplicate_rule_message(rule.name.as_str()))
        }
    }

    /// Inserts a build node, refusing an output that some node already
    /// produces. On failure the state is left exactly as it was.
    pub fn build(&mut self, node: Edge) -> (r: Result<(), String>)
        ensures
            match r {
                Ok(_) => !old(self)@.nodes.contains_key(node@.output) && final(self)@
                    == (StateModel {
                    nodes: old(self)@.nodes.insert(node@.output, node@),
                    ..old(self)@
                }),
                Err(msg) => old(self)@.nodes.contains_key(node@.output) && final(self)@ == old(
                    self,
                )@ && msg@ == duplicate_output_msg(node@.output),
            },
    {
        if !self.nodes.contains_key(node.output.as_str()) {
            let ghost old_nodes = self.nodes@;
            let output = node.output.clone();
            let ghost node_model = node@;
            self.nodes.insert(output, node);
            proof {
                assert(self.nodes@.map_values(|e: Edge| e@) =~= old_nodes.map_values(
                    |e: Edge| e@,
                ).insert(node_model.output, node_model));
            }
            Ok(())
        } else {
            Err(duplicate_output_message(node.output.as_str()))
        }
    }
}

} // verus!
