//! The engine's plain picture of one agent's state.
//!
//! Numbers travel through the engine as their 64-bit patterns; what a value
//! means is the packages' business.

use vstd::prelude::*;

verus! {

/// One field value of an agent.
#[derive(Debug, PartialEq, Eq)]
pub enum AgentValue {
    Null,
    Bool(bool),
    /// A 64-bit number, carried as its bit pattern.
    NumberBits(u64),
    Text(String),
    NumberList(Vec<u64>),
    ListOfNumberLists(Vec<Vec<u64>>),
    /// An opaque encoded value.
    Serialized(String),
}

/// One agent: its identifier, its name, and its remaining fields by name.
#[derive(Debug, PartialEq, Eq)]
pub struct Agent {
    pub agent_id: String,
    pub agent_name: String,
    pub custom: Vec<(String, AgentValue)>,
}

impl Agent {
    /// An agent with no fields set.
    pub fn empty() -> (r: Agent)
        ensures
            r.agent_id@ == Seq::<char>::empty(),
            r.agent_name@ == Seq::<char>::empty(),
            r.custom@ == Seq::<(String, AgentValue)>::empty(),
    {
        let r = Agent { agent_id: String::new(), agent_name: String::new(), custom: Vec::new() };
        proof {
            assert(r.custom@ =~= Seq::<(String, AgentValue)>::empty());
        }
        r
    }

    /// Set one named field, shadowing an earlier value of the same name.
    pub fn set(&mut self, name: String, value: AgentValue)
        ensures
            final(self).custom@ == old(self).custom@.push((name, value)),
            final(self).agent_id@ == old(self).agent_id@,
            final(self).agent_name@ == old(self).agent_name@,
    {
        self.custom.push((name, value));
    }
}

} // verus!
