//! A pool of interned strings. Interning a text gives a shared handle to the
//! one copy that the pool holds of it, so that equal texts share their
//! storage. The pool is a plain list that is searched from the front.

use vstd::prelude::*;
use std::rc::Rc;
use std::hash::BuildHasher;

verus! {

/// The hash of a text.
pub type HashValue = u64;

/// What can be made from a text and its hash, and found again by them.
pub trait FromHashableSource: Sized {
    /// The hash that the value was made with.
    spec fn hash_value(&self) -> HashValue;

    /// The text that the value was made from.
    spec fn text(&self) -> Seq<char>;

    /// Makes the value of `v`, whose hash the caller has computed.
    fn from_hashed(hash: HashValue, v: &str) -> (made: Self)
        ensures
            made.hash_value() == hash,
            made.text() == v@,
    ;

    fn get_hash(&self) -> (hash: HashValue)
        ensures
            hash == self.hash_value(),
    ;

    /// Whether the value was made from `key`.
    fn spells(&self, key: &str) -> (same: bool)
        ensures
            same == (self.text() == key@),
    ;

    /// Whether the two values were made from the same text.
    fn like(&self, other: &Self) -> (same: bool)
        ensures
            same == (self.text() == other.text()),
    ;
}

/// An interned string, with the hash that it was found by.
#[derive(Debug)]
pub struct PooledStr {
    hash: HashValue,
    value: String,
}

impl PooledStr {
    /// The string.
    pub fn as_str(&self) -> (s: &str)
        ensures
            s@ == self.text(),
    {
        self.value.as_str()
    }
}

impl FromHashableSource for PooledStr {
    closed spec fn hash_value(&self) -> HashValue {
        self.hash
    }

    closed spec fn text(&self) -> Seq<char> {
        self.value@
    }

    fn from_hashed(hash: HashValue, val: &str) -> (made: PooledStr) {
        PooledStr { hash, value: val.to_owned() }
    }

    fn get_hash(&self) -> (hash: HashValue) {
        self.hash
    }

    fn spells(&self, key: &str) -> (same: bool) {
        let key = key.to_owned();
        self.value == key
    }

    fn like(&self, other: &Self) -> (same: bool) {
        self.value == other.value
    }
}

/// `std::hash::BuildHasher::hash_one` on a text. What it gives depends on
/// how the builder was seeded, so nothing is claimed of it.
#[verifier::external_body]
fn hash_one<BH: BuildHasher>(builder: &BH, key: &str) -> HashValue {
    builder.hash_one(key)
}

/// The pool. It holds on to everything that was interned in it.
pub struct DumbSet<T, BH> {
    bins: Vec<Rc<T>>,
    builder_hash: BH,
}

impl<T: FromHashableSource, BH: BuildHasher> DumbSet<T, BH> {
    /// What the pool holds, oldest first.
    pub closed spec fn view(&self) -> Seq<T> {
        Seq::new(self.bins@.len(), |i: int| *self.bins@[i])
    }

    /// The first place at or behind `from` that holds the text `key` under
    /// the hash `hash`; the length of `held` where there is none.
    pub open spec fn first_match(held: Seq<T>, hash: HashValue, key: Seq<char>, from: int) -> int
        decreases held.len() - from,
    {
        if from < 0 || from >= held.len() {
            held.len() as int
        } else if held[from].hash_value() == hash && held[from].text() == key {
            from
        } else {
            Self::first_match(held, hash, key, from + 1)
        }
    }

    /// An empty pool that hashes as `builder_hash` has it. Two pools made
    /// with the same builder find each other's values.
    pub fn from_builder(builder_hash: BH) -> (pool: Self)
        ensures
            pool@ == Seq::<T>::empty(),
    {
        let pool = Self { bins: Vec::new(), builder_hash };
        assert(pool@ =~= Seq::<T>::empty());
        pool
    }

    /// Interns `key`, whose hash under the pool's builder is `hash`: gives
    /// the oldest value that the pool holds of that text under that hash,
    /// or, where there is none, makes one and holds it.
    pub fn intern_hashed(&mut self, hash: HashValue, key: &str) -> (found: Rc<T>)
        ensures
            found.hash_value() == hash,
            found.text() == key@,
            Self::first_match(old(self)@, hash, key@, 0) < old(self)@.len() ==> final(self)@
                == old(self)@ && *found == old(self)@[Self::first_match(old(self)@, hash, key@, 0)],
            Self::first_match(old(self)@, hash, key@, 0) == old(self)@.len() ==> final(self)@
                == old(self)@.push(*found),
    {
        let mut i: usize = 0;
        while i < self.bins.len()
            invariant
                i <= self.bins@.len(),
                *self == *old(self),
                Self::first_match(self@, hash, key@, 0) == Self::first_match(
                    self@,
                    hash,
                    key@,
                    i as int,
                ),
            decreases self.bins@.len() - i,
        {
            let rc: &Rc<T> = &self.bins[i];
            assert(self@[i as int] == **rc);
            if rc.get_hash() == hash && rc.spells(key) {
                return rc.clone();
            }
            i += 1;
        }
        let newval = Rc::new(T::from_hashed(hash, key));
        self.bins.push(newval.clone());
        assert(self@ =~= old(self)@.push(*newval));
        newval
    }

    /// Interns `key`: gives the value that the pool holds of that text, or
    /// makes one and holds it. Either way the pool then holds what it held
    /// before and, once, what is given out.
    pub fn intern(&mut self, key: &str) -> (found: Rc<T>)
        ensures
            found.text() == key@,
            final(self)@ == old(self)@ || final(self)@ == old(self)@.push(*found),
            final(self)@.contains(*found),
    {
        let hash = hash_one(&self.builder_hash, key);
        let found = self.intern_hashed(hash, key);
        proof {
            let at = Self::first_match(old(self)@, hash, key@, 0);
            Self::lemma_first_match(old(self)@, hash, key@, 0);
            if at < old(self)@.len() {
                assert(self@[at] == *found);
            } else {
                assert(self@[old(self)@.len() as int] == *found);
            }
        }
        found
    }

    /// Where `first_match` points.
    pub proof fn lemma_first_match(held: Seq<T>, hash: HashValue, key: Seq<char>, from: int)
        requires
            0 <= from <= held.len(),
        ensures
            from <= Self::first_match(held, hash, key, from) <= held.len(),
        decreases held.len() - from,
    {
        if from < held.len() {
            Self::lemma_first_match(held, hash, key, from + 1);
        }
    }

    /// Holds `val` too, unless the pool holds a value of the same text and
    /// hash already.
    pub fn implant(&mut self, val: &Rc<T>)
        ensures
            Self::first_match(old(self)@, val.hash_value(), val.text(), 0) < old(self)@.len()
                ==> final(self)@ == old(self)@,
            Self::first_match(old(self)@, val.hash_value(), val.text(), 0) == old(self)@.len()
                ==> final(self)@ == old(self)@.push(**val),
    {
        let hash = val.get_hash();
        let mut i: usize = 0;
        while i < self.bins.len()
            invariant
                i <= self.bins@.len(),
                *self == *old(self),
                hash == val.hash_value(),
                Self::first_match(self@, hash, val.text(), 0) == Self::first_match(
                    self@,
                    hash,
                    val.text(),
                    i as int,
                ),
            decreases self.bins@.len() - i,
        {
            let rc: &Rc<T> = &self.bins[i];
            assert(self@[i as int] == **rc);
            if rc.get_hash() == hash && rc.like(val) {
                return ;
            }
            i += 1;
        }
        self.bins.push(val.clone());
        assert(self@ =~= old(self)@.push(**val));
    }

    /// What the pool holds, oldest first.
    pub fn iter(&self) -> (held: Vec<Rc<T>>)
        ensures
            held@.len() == self@.len(),
            forall|i: int| 0 <= i < held@.len() ==> *(#[trigger] held@[i]) == self@[i],
    {
        let mut held: Vec<Rc<T>> = Vec::new();
        let mut i: usize = 0;
        while i < self.bins.len()
            invariant
                i <= self.bins@.len(),
                held@.len() == i,
                forall|j: int| 0 <= j < i ==> *(#[trigger] held@[j]) == self@[j],
            decreases self.bins@.len() - i,
        {
            held.push(self.bins[i].clone());
            i += 1;
        }
        held
    }
}

} // verus!
