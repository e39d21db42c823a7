//! The decision at the heart of watching a configuration file: reload
//! exactly when the file's modification stamp changes.

use vstd::prelude::*;

verus! {

/// How often, in milliseconds, a watcher looks at the file unless told
/// otherwise.
pub const DEFAULT_POLL_MS: u64 = 1000;

/// Watches a configuration file for changes.
pub struct ConfigWatcher;

/// What a watcher remembers between two looks at the file: the
/// modification stamp last seen (nanoseconds from the Unix epoch, negative
/// before it), or nothing when the stamp could not be read.
pub struct WatchState {
    pub last_modified: Option<i128>,
}

impl ConfigWatcher {
    /// The state after the first look at the file.
    pub fn start(initial: Option<i128>) -> (s: WatchState)
        ensures
            s.last_modified == initial,
    {
        WatchState { last_modified: initial }
    }

    /// Takes in the stamp seen on the latest look. Returns whether the file
    /// is to be loaded again: exactly when the stamp differs from the one
    /// remembered. The state then remembers the latest stamp.
    pub fn observe(state: &mut WatchState, current: Option<i128>) -> (reload: bool)
        ensures
            reload == (current != old(state).last_modified),
            final(state).last_modified == current,
    {
        let changed = match (state.last_modified, current) {
            (Some(a), Some(b)) => a != b,
            (None, None) => false,
            _ => true,
        };
        if changed {
            state.last_modified = current;
        }
        changed
    }
}

} // verus!
