//! Watching a file for changes: what is remembered of the file, and the
//! decision whether it has to be read again.

use vstd::prelude::*;

verus! {

/// What tells one state of a file from another: its size and the time of
/// its last change, in seconds since the epoch and nanoseconds of the
/// second.
#[derive(Clone, Copy, Debug, PartialEq, Eq, Structural)]
pub struct FileState {
    pub size: u64,
    pub modified_secs: u64,
    pub modified_nanos: u32,
}

/// The watcher of the file at `path`, with the state that the file was
/// last read in.
#[derive(Debug)]
pub struct FileWatcher<P> {
    pub path: P,
    pub prev_state: Option<FileState>,
}

impl<P> FileWatcher<P> {
    /// A watcher that has not read the file yet.
    pub fn new(path: P) -> (watcher: Self)
        ensures
            watcher.path == path,
            watcher.prev_state is None,
    {
        Self { path, prev_state: None }
    }

    /// Takes note of the state that the file is found in, and says whether
    /// the file has to be read: whether that is another state than the one
    /// it was last read in.
    pub fn try_refresh(&mut self, new_state: FileState) -> (read: bool)
        ensures
            read == (old(self).prev_state != Some(new_state)),
            final(self).prev_state == Some(new_state),
            final(self).path == old(self).path,
    {
        let same = match self.prev_state {
            Some(prev) => prev == new_state,
            None => false,
        };
        if same {
            false
        } else {
            self.prev_state = Some(new_state);
            true
        }
    }
}

} // verus!
