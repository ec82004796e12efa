//! The registry of open shard handles.
//!
//! Only one day is current at a time, so the registry is one slot: it holds
//! the day whose handle is open, or nothing. The handle itself, a file or
//! whatever stands for it, is kept by whoever performs the router's actions.

use crate::date::DateKey;
use vstd::prelude::*;

verus! {

/// Which day's handle is open.
#[derive(Clone, Copy, Debug)]
pub struct Registry {
    slot: Option<DateKey>,
}

impl View for Registry {
    type V = Option<DateKey>;

    closed spec fn view(&self) -> Option<DateKey> {
        self.slot
    }
}

impl Registry {
    /// A registry with no handle open.
    pub fn new() -> (registry: Registry)
        ensures
            registry@ is None,
    {
        Registry { slot: None }
    }

    /// The day whose handle is open.
    pub fn open_date(&self) -> (date: Option<DateKey>)
        ensures
            date == self@,
    {
        self.slot
    }

    /// Makes the handle of `key` the open one. Returns whether it has to be
    /// created: `false` where it was open already. The slot holds one
    /// handle: that of another day gives way to the new one.
    pub fn get_or_create(&mut self, key: DateKey) -> (created: bool)
        ensures
            final(self)@ == Some(key),
            created == (old(self)@ != Some(key)),
    {
        let created = match self.slot {
            Some(open) => open != key,
            None => true,
        };
        self.slot = Some(key);
        created
    }

    /// Releases the handle of `key`. Returns whether there was one; nothing
    /// changes where the open handle, if any, is that of another day.
    pub fn evict(&mut self, key: DateKey) -> (released: bool)
        ensures
            released == (old(self)@ == Some(key)),
            final(self)@ == if released {
                None
            } else {
                old(self)@
            },
    {
        match self.slot {
            Some(open) => {
                if open == key {
                    self.slot = None;
                    true
                } else {
                    false
                }
            },
            None => false,
        }
    }
}

} // verus!
