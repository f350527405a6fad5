//! The precision guard's memory: the closing speed last seen for each pair.

use std::collections::HashMap;
use vstd::prelude::*;
use crate::pairs::{make_percision_key, pair_key};

verus! {

/// The closing speed last recorded for each unordered pair of slots. An
/// entry appears when a pair is first recorded and is overwritten from then
/// on; nothing is ever deleted.
pub struct PercisionTable<S> {
    entries: HashMap<u64, S>,
}

impl<S> View for PercisionTable<S> {
    type V = Map<u64, S>;

    /// The recorded speeds, by the key of the pair.
    closed spec fn view(&self) -> Map<u64, S> {
        self.entries@
    }
}

impl<S> PercisionTable<S> {
    /// A table without entries.
    pub fn new() -> (table: Self)
        ensures
            table@ == Map::<u64, S>::empty(),
    {
        PercisionTable { entries: HashMap::new() }
    }

    /// The speed recorded for the pair of `i` and `j`, in either order.
    pub fn get(&self, i: usize, j: usize) -> (speed: Option<&S>)
        ensures
            match speed {
                Some(s) => self@.contains_key(pair_key(i, j)) && *s == self@[pair_key(i, j)],
                None => !self@.contains_key(pair_key(i, j)),
            },
    {
        let key = make_percision_key(i, j);
        self.entries.get(&key)
    }

    /// Records `speed` for the pair of `i` and `j`, in either order, in place
    /// of what was recorded before.
    pub fn insert(&mut self, i: usize, j: usize, speed: S)
        ensures
            final(self)@ == old(self)@.insert(pair_key(i, j), speed),
    {
        self.entries.insert(make_percision_key(i, j), speed);
    }
}

} // verus!
