//! Counts of what a collector did: its runs, what it allocated and what it
//! moved.

use vstd::prelude::*;

verus! {

/// The counts, as one value.
#[derive(Clone, Copy, Debug, PartialEq, Eq)]
pub struct StatInfo {
    pub gc_count: usize,
    pub alloc_size: usize,
    pub alloc_count: usize,
    pub move_size: usize,
    pub move_count: usize,
}

impl StatInfo {
    /// No run, nothing allocated, nothing moved.
    pub open spec fn zero() -> StatInfo {
        StatInfo { gc_count: 0, alloc_size: 0, alloc_count: 0, move_size: 0, move_count: 0 }
    }
}

impl Default for StatInfo {
    fn default() -> (info: Self)
        ensures
            info == StatInfo::zero(),
    {
        StatInfo { gc_count: 0, alloc_size: 0, alloc_count: 0, move_size: 0, move_count: 0 }
    }
}

/// Gathers the counts of a collector.
pub trait Stat {
    /// What has been gathered since the counts were last fetched.
    spec fn info(&self) -> StatInfo;

    /// Whether anything is gathered at all.
    spec fn counts(&self) -> bool;

    /// Notes one run of the collector.
    fn gc(&mut self)
        requires
            old(self).counts() ==> old(self).info().gc_count < usize::MAX,
        ensures
            final(self).counts() == old(self).counts(),
            final(self).info() == if old(self).counts() {
                StatInfo { gc_count: (old(self).info().gc_count + 1) as usize, ..old(self).info() }
            } else {
                old(self).info()
            },
    ;

    /// Notes one allocation of `size` words.
    fn alloc_obj(&mut self, size: usize)
        requires
            old(self).counts() ==> old(self).info().alloc_count < usize::MAX && old(
                self,
            ).info().alloc_size + size <= usize::MAX,
        ensures
            final(self).counts() == old(self).counts(),
            final(self).info() == if old(self).counts() {
                StatInfo {
                    alloc_size: (old(self).info().alloc_size + size) as usize,
                    alloc_count: (old(self).info().alloc_count + 1) as usize,
                    ..old(self).info()
                }
            } else {
                old(self).info()
            },
    ;

    /// Notes one move of an object of `size` words.
    fn move_obj(&mut self, size: usize)
        requires
            old(self).counts() ==> old(self).info().move_count < usize::MAX && old(
                self,
            ).info().move_size + size <= usize::MAX,
        ensures
            final(self).counts() == old(self).counts(),
            final(self).info() == if old(self).counts() {
                StatInfo {
                    move_size: (old(self).info().move_size + size) as usize,
                    move_count: (old(self).info().move_count + 1) as usize,
                    ..old(self).info()
                }
            } else {
                old(self).info()
            },
    ;

    /// Gives out what has been gathered and starts again from nothing.
    fn fetch_stat(&mut self) -> (info: StatInfo)
        ensures
            info == old(self).info(),
            final(self).counts() == old(self).counts(),
            final(self).info() == StatInfo::zero(),
    ;
}

/// One count.
pub struct Counter {
    cnt: usize,
}

impl Counter {
    /// The count.
    pub closed spec fn view(&self) -> usize {
        self.cnt
    }

    /// A count of nothing.
    pub fn new() -> (counter: Self)
        ensures
            counter@ == 0,
    {
        Counter { cnt: 0 }
    }

    /// Counts one more.
    pub fn inc(&mut self)
        requires
            old(self)@ < usize::MAX,
        ensures
            final(self)@ == old(self)@ + 1,
    {
        self.cnt = self.cnt + 1;
    }

    /// Counts `val` more.
    pub fn add(&mut self, val: usize)
        requires
            old(self)@ + val <= usize::MAX,
        ensures
            final(self)@ == old(self)@ + val,
    {
        self.cnt = self.cnt + val;
    }

    /// Gives the count out and starts again from nothing.
    pub fn take(&mut self) -> (count: usize)
        ensures
            count == old(self)@,
            final(self)@ == 0,
    {
        let count = self.cnt;
        self.cnt = 0;
        count
    }
}

/// Counts for one thread.
pub struct SimpleStat {
    gc_count: Counter,
    alloc_size: Counter,
    alloc_count: Counter,
    move_size: Counter,
    move_count: Counter,
}

impl Default for SimpleStat {
    fn default() -> (stat: Self)
        ensures
            stat.counts(),
            stat.info() == StatInfo::zero(),
    {
        SimpleStat {
            gc_count: Counter::new(),
            alloc_size: Counter::new(),
            alloc_count: Counter::new(),
            move_size: Counter::new(),
            move_count: Counter::new(),
        }
    }
}

impl Stat for SimpleStat {
    closed spec fn info(&self) -> StatInfo {
        StatInfo {
            gc_count: self.gc_count@,
            alloc_size: self.alloc_size@,
            alloc_count: self.alloc_count@,
            move_size: self.move_size@,
            move_count: self.move_count@,
        }
    }

    open spec fn counts(&self) -> bool {
        true
    }

    fn gc(&mut self) {
        self.gc_count.inc()
    }

    fn alloc_obj(&mut self, size: usize) {
        self.alloc_size.add(size);
        self.alloc_count.inc();
    }

    fn move_obj(&mut self, size: usize) {
        self.move_size.add(size);
        self.move_count.inc();
    }

    fn fetch_stat(&mut self) -> (info: StatInfo) {
        StatInfo {
            gc_count: self.gc_count.take(),
            alloc_size: self.alloc_size.take(),
            alloc_count: self.alloc_count.take(),
            move_size: self.move_size.take(),
            move_count: self.move_count.take(),
        }
    }
}

/// Gathers nothing.
pub struct NullStat {}

impl Stat for NullStat {
    open spec fn info(&self) -> StatInfo {
        StatInfo::zero()
    }

    open spec fn counts(&self) -> bool {
        false
    }

    fn gc(&mut self) {
    }

    fn alloc_obj(&mut self, _size: usize) {
    }

    fn move_obj(&mut self, _size: usize) {
    }

    fn fetch_stat(&mut self) -> (info: StatInfo) {
        Default::default()
    }
}

} // verus!
