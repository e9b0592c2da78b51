//! Small end-to-end walkthroughs of the containers, written as verified
//! routines so the checked assertions document what the contracts give a
//! caller.

use vstd::prelude::*;

use crate::map::AssociativeMap;
use crate::registry::OwnershipRegistry;
use crate::sequence::DynamicSequence;

verus! {

/// A budgeted plan: an amount to spend and a statement of priorities.
pub struct Plan {
    pub budget: i32,
    pub priorities: String,
}

/// Walks a plan's budget through the ownership registry: register it, take
/// and return a shared claim, then move it back out.
pub fn do_school() {
    let mut registry: OwnershipRegistry<i32> = OwnershipRegistry::new();
    let id = registry.register(1_000_000);
    if let Ok(guard) = registry.acquire_shared(id) {
        let released = registry.release(guard);
        assert(released is Ok);
    }
    let budget = registry.move_out(id);
    assert(budget == Ok::<i32, crate::errors::ErrorKind>(1_000_000));
}

/// Walks the growable sequence and the map: append, upsert, and observe
/// that overwriting a key hands the prior value back.
pub fn do_learn() {
    let mut lessons: DynamicSequence<u64> = DynamicSequence::new();
    lessons.push(2);
    lessons.push(1);
    assert(lessons@.len() == 2);

    let mut hours: AssociativeMap<u64, i32> = AssociativeMap::new();
    let fresh = hours.insert(1, 10);
    assert(fresh is None);
    let replaced = hours.insert(1, 20);
    assert(replaced == Some(10i32));
}

} // verus!
