//! The state that the log's commands act on: one wrapping counter and the set
//! of the nodes of the cluster.

use vstd::prelude::*;

verus! {

/// The number that the state keeps.
pub type Value = u32;

/// A command of the log.
#[derive(Debug, Clone)]
pub enum Command {
    /// Adds to the value, wrapping round.
    Add(Value),
    /// Takes from the value, wrapping round.
    Sub(Value),
    /// Sets the value.
    SetValue(Value),
    /// A node joins. Nothing changes where it is a member already.
    AddNode(String),
    /// A node leaves. Nothing changes where it is no member.
    RemoveNode(String),
}

/// The value and the nodes. The nodes are a set, held in the order in which
/// they joined: none occurs twice.
#[derive(Debug, Clone)]
pub struct State {
    pub value: Value,
    pub nodes: Vec<String>,
}

/// The names in `names[..n]`, as a set.
pub open spec fn names_of(names: Seq<String>, n: int) -> Set<Seq<char>>
    decreases n,
{
    if n <= 0 {
        Set::empty()
    } else {
        names_of(names, n - 1).insert(names[n - 1]@)
    }
}

/// A name is among `names[..n]` where one of them spells it.
pub proof fn lemma_names_of(names: Seq<String>, n: int, name: Seq<char>)
    requires
        0 <= n <= names.len(),
    ensures
        names_of(names, n).contains(name) <==> exists|i: int|
            0 <= i < n && (#[trigger] names[i])@ == name,
    decreases n,
{
    if n > 0 {
        lemma_names_of(names, n - 1, name);
        if names_of(names, n).contains(name) {
            if names[n - 1]@ == name {
            } else {
                let i = choose|i: int| 0 <= i < n - 1 && (#[trigger] names[i])@ == name;
                assert(names[i]@ == name);
            }
        }
    }
}

/// The position of `name` among `names`, if it is there.
fn position(names: &Vec<String>, name: &String) -> (at: Option<usize>)
    ensures
        at is Some ==> at->0 < names@.len() && names@[at->0 as int]@ == name@,
        at is None ==> forall|i: int| 0 <= i < names@.len() ==> (#[trigger] names@[i])@ != name@,
{
    let mut i: usize = 0;
    while i < names.len()
        invariant
            i <= names@.len(),
            forall|j: int| 0 <= j < i ==> (#[trigger] names@[j])@ != name@,
        decreases names@.len() - i,
    {
        if names[i] == *name {
            return Some(i);
        }
        i += 1;
    }
    None
}

impl State {
    /// The nodes.
    pub open spec fn nodes(&self) -> Set<Seq<char>> {
        names_of(self.nodes@, self.nodes@.len() as int)
    }

    /// No node is held twice.
    pub open spec fn wf(&self) -> bool {
        forall|i: int, j: int|
            0 <= i < j < self.nodes@.len() ==> (#[trigger] self.nodes@[i])@ != (
            #[trigger] self.nodes@[j])@
    }

    /// The state at the start of the log: the value 0, and the nodes that
    /// `nodes` names, each once.
    pub fn new(nodes: Vec<String>) -> (state: Self)
        ensures
            state.wf(),
            state.value == 0,
            state.nodes() == names_of(nodes@, nodes@.len() as int),
    {
        let mut state = State { value: 0, nodes: Vec::new() };
        let mut i: usize = 0;
        while i < nodes.len()
            invariant
                i <= nodes@.len(),
                state.wf(),
                state.value == 0,
                state.nodes() == names_of(nodes@, i as int),
            decreases nodes@.len() - i,
        {
            state.insert(nodes[i].clone());
            i += 1;
        }
        state
    }

    /// Whether `node` is a member.
    pub fn contains(&self, node: &String) -> (found: bool)
        ensures
            found == self.nodes().contains(node@),
    {
        proof {
            lemma_names_of(self.nodes@, self.nodes@.len() as int, node@);
        }
        position(&self.nodes, node).is_some()
    }

    /// The number of nodes.
    pub fn node_count(&self) -> (count: usize)
        requires
            self.wf(),
        ensures
            count == self.nodes().len(),
            self.nodes().finite(),
    {
        proof {
            self.lemma_count(self.nodes@.len() as int);
        }
        self.nodes.len()
    }

    proof fn lemma_count(&self, n: int)
        requires
            self.wf(),
            0 <= n <= self.nodes@.len(),
        ensures
            names_of(self.nodes@, n).finite(),
            names_of(self.nodes@, n).len() == n,
        decreases n,
    {
        if n > 0 {
            self.lemma_count(n - 1);
            lemma_names_of(self.nodes@, n - 1, self.nodes@[n - 1]@);
        }
    }

    fn insert(&mut self, node: String)
        requires
            old(self).wf(),
        ensures
            final(self).wf(),
            final(self).value == old(self).value,
            final(self).nodes() == old(self).nodes().insert(node@),
    {
        proof {
            lemma_names_of(self.nodes@, self.nodes@.len() as int, node@);
        }
        if position(&self.nodes, &node).is_none() {
            self.nodes.push(node);
            proof {
                let n = old(self).nodes@.len() as int;
                Self::lemma_same_prefix(old(self).nodes@, self.nodes@, n);
            }
        } else {
            assert(old(self).nodes().insert(node@) =~= old(self).nodes());
        }
    }

    proof fn lemma_same_prefix(a: Seq<String>, b: Seq<String>, n: int)
        requires
            0 <= n <= a.len(),
            n <= b.len(),
            forall|i: int| 0 <= i < n ==> a[i] == b[i],
        ensures
            names_of(a, n) == names_of(b, n),
        decreases n,
    {
        if n > 0 {
            Self::lemma_same_prefix(a, b, n - 1);
        }
    }

    fn remove(&mut self, node: &String)
        requires
            old(self).wf(),
        ensures
            final(self).wf(),
            final(self).value == old(self).value,
            final(self).nodes() == old(self).nodes().remove(node@),
    {
        match position(&self.nodes, node) {
            Some(at) => {
                self.nodes.remove(at);
                proof {
                    let before = old(self).nodes@;
                    let after = self.nodes@;
                    assert forall|name: Seq<char>|
                        self.nodes().contains(name) == old(self).nodes().remove(node@).contains(
                            name,
                        ) by {
                        lemma_names_of(before, before.len() as int, name);
                        lemma_names_of(after, after.len() as int, name);
                        if self.nodes().contains(name) {
                            let i = choose|i: int|
                                0 <= i < after.len() && (#[trigger] after[i])@ == name;
                            if i < at {
                                assert(before[i]@ == name);
                            } else {
                                assert(before[i + 1]@ == name);
                            }
                        }
                        if old(self).nodes().remove(node@).contains(name) {
                            let i = choose|i: int|
                                0 <= i < before.len() && (#[trigger] before[i])@ == name;
                            if i < at {
                                assert(after[i]@ == name);
                            } else {
                                assert(after[i - 1]@ == name);
                            }
                        }
                    }
                    assert(self.nodes() =~= old(self).nodes().remove(node@));
                }
            },
            None => {
                proof {
                    lemma_names_of(self.nodes@, self.nodes@.len() as int, node@);
                    assert(old(self).nodes().remove(node@) =~= old(self).nodes());
                }
            },
        }
    }

    /// Applies one command.
    pub fn apply(&mut self, command: &Command)
        requires
            old(self).wf(),
        ensures
            final(self).wf(),
            final(self).value == match *command {
                Command::Add(n) => old(self).value.wrapping_add(n),
                Command::Sub(n) => old(self).value.wrapping_sub(n),
                Command::SetValue(n) => n,
                _ => old(self).value,
            },
            final(self).nodes() == match *command {
                Command::AddNode(node) => old(self).nodes().insert(node@),
                Command::RemoveNode(node) => old(self).nodes().remove(node@),
                _ => old(self).nodes(),
            },
    {
        match command {
            Command::Add(n) => {
                self.value = self.value.wrapping_add(*n);
            },
            Command::Sub(n) => {
                self.value = self.value.wrapping_sub(*n);
            },
            Command::SetValue(n) => {
                self.value = *n;
            },
            Command::AddNode(node) => {
                self.insert(node.clone());
            },
            Command::RemoveNode(node) => {
                self.remove(node);
            },
        }
    }
}

} // verus!
