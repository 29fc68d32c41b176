//! A sketch of a stream of hashes: the few smallest and the few largest
//! values that occurred, each held once.

use vstd::prelude::*;
use crate::simhash::{hex8, push_hex8};

verus! {

/// The number of values that each side keeps.
pub const MAX_SIZE: usize = 5;

/// The smallest and the largest values so far, each side in rising order.
pub struct State {
    max_size: usize,
    heap_min: Vec<u32>,
    heap_max: Vec<u32>,
}

/// The values rise.
pub open spec fn sorted(s: Seq<u32>) -> bool {
    forall|i: int, j: int| 0 <= i <= j < s.len() ==> s[i] <= s[j]
}

/// The first place at or behind `from` whose value is not less than `val`.
pub open spec fn rank(s: Seq<u32>, val: u32, from: int) -> int
    decreases s.len() - from,
{
    if from < 0 || from >= s.len() || s[from] >= val {
        from
    } else {
        rank(s, val, from + 1)
    }
}

/// What pushing `val` makes of the side that keeps the smallest values:
/// nothing where it holds `val`; else `val` goes to its place and, where the
/// side is over its size, the largest value leaves.
pub open spec fn pushed_min(s: Seq<u32>, val: u32, max_size: int) -> Seq<u32> {
    if s.contains(val) {
        s
    } else {
        let grown = s.insert(rank(s, val, 0), val);
        if grown.len() > max_size {
            grown.drop_last()
        } else {
            grown
        }
    }
}

/// What pushing `val` makes of the side that keeps the largest values:
/// nothing where it holds `val`; else `val` goes to its place and, where the
/// side is over its size, the smallest value leaves.
pub open spec fn pushed_max(s: Seq<u32>, val: u32, max_size: int) -> Seq<u32> {
    if s.contains(val) {
        s
    } else {
        let grown = s.insert(rank(s, val, 0), val);
        if grown.len() > max_size {
            grown.drop_first()
        } else {
            grown
        }
    }
}

/// The digits of each value of `s[..n]`, each followed by a comma.
pub open spec fn listed(s: Seq<u32>, n: int) -> Seq<char>
    decreases n,
{
    if n <= 0 {
        Seq::empty()
    } else {
        listed(s, n - 1) + hex8(s[n - 1]).push(',')
    }
}

/// Puts `val` in its place in `side`, unless `side` holds it. Says whether
/// it was put in.
fn insert_sorted(side: &mut Vec<u32>, val: u32) -> (grew: bool)
    requires
        sorted(old(side)@),
    ensures
        sorted(final(side)@),
        grew == !old(side)@.contains(val),
        grew ==> final(side)@ == old(side)@.insert(rank(old(side)@, val, 0), val),
        grew ==> final(side)@.len() == old(side)@.len() + 1,
        !grew ==> final(side)@ == old(side)@,
{
    let mut at: usize = 0;
    while at < side.len() && side[at] < val
        invariant
            at <= side@.len(),
            *side == *old(side),
            sorted(side@),
            rank(side@, val, 0) == rank(side@, val, at as int),
            forall|i: int| 0 <= i < at ==> side@[i] < val,
        decreases side@.len() - at,
    {
        at += 1;
    }
    if at < side.len() && side[at] == val {
        return false;
    }
    proof {
        assert forall|i: int| 0 <= i < side@.len() implies side@[i] != val by {
            if i >= at {
                assert(side@[at as int] <= side@[i]);
            }
        }
    }
    side.insert(at, val);
    true
}

impl State {
    /// The side of the smallest values, in rising order.
    pub closed spec fn smallest(&self) -> Seq<u32> {
        self.heap_min@
    }

    /// The side of the largest values, in rising order.
    pub closed spec fn largest(&self) -> Seq<u32> {
        self.heap_max@
    }

    /// The number of values that each side keeps.
    pub closed spec fn max_size(&self) -> usize {
        self.max_size
    }

    /// Both sides rise and are within their size.
    pub open spec fn wf(&self) -> bool {
        &&& sorted(self.smallest())
        &&& sorted(self.largest())
        &&& self.smallest().len() <= self.max_size()
        &&& self.largest().len() <= self.max_size()
    }

    /// A sketch of nothing. So that a short stream gives a full sketch too,
    /// the side of the smallest values starts filled with the greatest
    /// value there is, and the side of the largest with zero.
    pub fn new() -> (state: Self)
        ensures
            state.wf(),
            state.max_size() == MAX_SIZE,
            state.smallest() == Seq::new(MAX_SIZE as nat, |i: int| u32::MAX),
            state.largest() == Seq::new(MAX_SIZE as nat, |i: int| 0u32),
    {
        let max_size = MAX_SIZE;
        let mut heap_min: Vec<u32> = Vec::new();
        let mut heap_max: Vec<u32> = Vec::new();
        let mut i: usize = 0;
        while i < max_size
            invariant
                i <= max_size,
                max_size == MAX_SIZE,
                heap_min@ == Seq::new(i as nat, |j: int| u32::MAX),
                heap_max@ == Seq::new(i as nat, |j: int| 0u32),
            decreases max_size - i,
        {
            heap_min.push(u32::MAX);
            heap_max.push(0);
            i += 1;
            assert(heap_min@ =~= Seq::new(i as nat, |j: int| u32::MAX));
            assert(heap_max@ =~= Seq::new(i as nat, |j: int| 0u32));
        }
        Self { max_size, heap_min, heap_max }
    }

    /// Takes one value into the sketch.
    pub fn push(&mut self, val: u32)
        requires
            old(self).wf(),
        ensures
            final(self).wf(),
            final(self).max_size() == old(self).max_size(),
            final(self).smallest() == pushed_min(
                old(self).smallest(),
                val,
                old(self).max_size() as int,
            ),
            final(self).largest() == pushed_max(
                old(self).largest(),
                val,
                old(self).max_size() as int,
            ),
    {
        if insert_sorted(&mut self.heap_min, val) {
            if self.heap_min.len() > self.max_size {
                let ghost grown = self.heap_min@;
                self.heap_min.pop();
                assert(self.heap_min@ =~= grown.drop_last());
                assert forall|i: int, j: int| 0 <= i <= j < self.heap_min@.len() implies
                    self.heap_min@[i] <= self.heap_min@[j] by {
                    assert(grown[i] <= grown[j]);
                }
            }
        }
        if insert_sorted(&mut self.heap_max, val) {
            if self.heap_max.len() > self.max_size {
                let ghost grown = self.heap_max@;
                self.heap_max.remove(0);
                assert(self.heap_max@ =~= grown.drop_first());
                assert forall|i: int, j: int| 0 <= i <= j < self.heap_max@.len() implies
                    self.heap_max@[i] <= self.heap_max@[j] by {
                    assert(grown[i + 1] <= grown[j + 1]);
                }
            }
        }
    }

    /// The sketch as text: the smallest values in rising order, a bar, and
    /// the largest values in falling order, every value in eight
    /// hexadecimal digits and followed by a comma.
    pub fn render(&self) -> (text: Vec<char>)
        requires
            self.wf(),
        ensures
            text@ == listed(self.smallest(), self.smallest().len() as int).push('|') + listed(
                self.largest().reverse(),
                self.largest().len() as int,
            ),
    {
        let mut text: Vec<char> = Vec::new();
        let mut i: usize = 0;
        while i < self.heap_min.len()
            invariant
                i <= self.heap_min@.len(),
                text@ == listed(self.heap_min@, i as int),
            decreases self.heap_min@.len() - i,
        {
            push_hex8(self.heap_min[i], &mut text);
            text.push(',');
            assert(text@ =~= listed(self.heap_min@, i + 1));
            i += 1;
        }
        text.push('|');
        let ghost head = text@;
        let ghost falling = self.heap_max@.reverse();
        let n = self.heap_max.len();
        let mut k: usize = 0;
        while k < n
            invariant
                k <= n,
                n == self.heap_max@.len(),
                falling == self.heap_max@.reverse(),
                text@ == head + listed(falling, k as int),
            decreases n - k,
        {
            push_hex8(self.heap_max[n - 1 - k], &mut text);
            text.push(',');
            assert(text@ =~= head + listed(falling, k + 1));
            k += 1;
        }
        text
    }
}

} // verus!
