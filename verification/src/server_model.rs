//! The state machine of a server of the cluster: the state of `model`, driven
//! by the changes that the consensus log replicates.

use vstd::prelude::*;
use crate::model::{Command, Value};
use crate::model::names_of;

verus! {

/// A change that the log replicates.
#[derive(Debug, Clone)]
pub enum Change {
    /// Adds to the value, wrapping round.
    Add(Value),
    /// Takes from the value, wrapping round.
    Sub(Value),
    /// Sets the value.
    SetValue(Value),
    /// A node joins.
    AddNode(String),
    /// A node leaves.
    RemoveNode(String),
}

impl Change {
    /// The command that does what this change asks for.
    pub open spec fn command(self) -> Command {
        match self {
            Change::Add(n) => Command::Add(n),
            Change::Sub(n) => Command::Sub(n),
            Change::SetValue(n) => Command::SetValue(n),
            Change::AddNode(node) => Command::AddNode(node),
            Change::RemoveNode(node) => Command::RemoveNode(node),
        }
    }

    /// The command that does what this change asks for.
    pub fn to_command(&self) -> (command: Command)
        ensures
            command == self.command(),
    {
        match self {
            Change::Add(n) => Command::Add(*n),
            Change::Sub(n) => Command::Sub(*n),
            Change::SetValue(n) => Command::SetValue(*n),
            Change::AddNode(node) => Command::AddNode(node.clone()),
            Change::RemoveNode(node) => Command::RemoveNode(node.clone()),
        }
    }
}

/// What a client hears of its change: nothing, or a message.
#[derive(Debug)]
pub struct ClientResponse(pub Result<Option<String>, ()>);

/// The value and the nodes of a server. The nodes are a set: none occurs
/// twice.
#[derive(Debug, Clone)]
pub struct State {
    pub value: Value,
    pub nodes: Vec<String>,
}

impl State {
    /// The state as `model` has it.
    pub open spec fn model(&self) -> crate::model::State {
        crate::model::State { value: self.value, nodes: self.nodes }
    }

    /// The nodes.
    pub open spec fn nodes(&self) -> Set<Seq<char>> {
        self.model().nodes()
    }

    /// No node is held twice.
    pub open spec fn wf(&self) -> bool {
        self.model().wf()
    }

    /// The state before the first change: the value 0, and the nodes that
    /// `nodes` names, each once.
    pub fn new(nodes: Vec<String>) -> (state: Self)
        ensures
            state.wf(),
            state.value == 0,
            state.nodes() == names_of(nodes@, nodes@.len() as int),
    {
        let crate::model::State { value, nodes } = crate::model::State::new(nodes);
        State { value, nodes }
    }

    /// Applies one change.
    pub fn apply(&mut self, command: &Change)
        requires
            old(self).wf(),
        ensures
            final(self).wf(),
            final(self).value == match *command {
                Change::Add(n) => old(self).value.wrapping_add(n),
                Change::Sub(n) => old(self).value.wrapping_sub(n),
                Change::SetValue(n) => n,
                _ => old(self).value,
            },
            final(self).nodes() == match *command {
                Change::AddNode(node) => old(self).nodes().insert(node@),
                Change::RemoveNode(node) => old(self).nodes().remove(node@),
                _ => old(self).nodes(),
            },
    {
        let mut nodes: Vec<String> = Vec::new();
        std::mem::swap(&mut nodes, &mut self.nodes);
        let mut model = crate::model::State { value: self.value, nodes };
        model.apply(&command.to_command());
        let crate::model::State { value, nodes } = model;
        self.value = value;
        self.nodes = nodes;
    }
}

} // verus!
