//! Per-value ownership records and scoped borrow claims.
//!
//! An [`OwnershipRegistry`] maps each registered value to exactly one owner
//! id and a [`BorrowState`].  Borrows are taken and returned through
//! move-only [`BorrowGuard`]s, and any request that would violate the
//! many-readers-or-one-writer rule fails immediately with a named error.

use vstd::prelude::*;

use crate::errors::ErrorKind;
use crate::errors::fails_with;

verus! {

/// The borrow state of one live record: at most one exclusive claim, or any
/// number (at least one) of shared claims, never both.
#[derive(Clone, Copy, Debug, PartialEq, Eq, Structural)]
pub enum BorrowState {
    Unborrowed,
    SharedBorrowed { count: usize },
    ExclusiveBorrowed,
}

/// One record of the registry: either a live value with its borrow state, or
/// the trace left behind once the value was moved out.
pub enum OwnershipRecord<T> {
    Live { state: BorrowState, value: T },
    Moved,
}

/// A scoped claim against one ownership record.
///
/// A guard is produced by exactly one `acquire_*` call and consumed by
/// exactly one `release`; it is deliberately neither copyable nor clonable,
/// so transferring a guard transfers the claim.
pub struct BorrowGuard {
    owner: usize,
    exclusive: bool,
}

impl BorrowGuard {
    /// The owner id this guard's claim is against.
    pub closed spec fn owner_id(self) -> int {
        self.owner as int
    }

    /// Whether this guard holds the exclusive (read-and-write) claim.
    pub closed spec fn is_exclusive(self) -> bool {
        self.exclusive
    }

    /// The owner id this guard was acquired for.
    pub fn owner(&self) -> (id: usize)
        ensures
            id == self.owner_id(),
    {
        self.owner
    }

    /// Whether this guard is the exclusive one.
    pub fn exclusive(&self) -> (e: bool)
        ensures
            e == self.is_exclusive(),
    {
        self.exclusive
    }
}

/// The borrow state after one more shared claim is taken.
pub open spec fn bumped_shared(s: BorrowState) -> BorrowState {
    match s {
        BorrowState::Unborrowed => BorrowState::SharedBorrowed { count: 1 },
        BorrowState::SharedBorrowed { count } => BorrowState::SharedBorrowed {
            count: (count + 1) as usize,
        },
        BorrowState::ExclusiveBorrowed => BorrowState::ExclusiveBorrowed,
    }
}

/// The borrow state after one shared claim is returned.
pub open spec fn dropped_shared(s: BorrowState) -> BorrowState {
    match s {
        BorrowState::SharedBorrowed { count } => if count <= 1 {
            BorrowState::Unborrowed
        } else {
            BorrowState::SharedBorrowed { count: (count - 1) as usize }
        },
        _ => s,
    }
}

/// Whether a record is either gone or live without any outstanding claim.
pub open spec fn record_quiet<T>(r: OwnershipRecord<T>) -> bool {
    match r {
        OwnershipRecord::Live { state, .. } => state == BorrowState::Unborrowed,
        OwnershipRecord::Moved => true,
    }
}

/// Tracks, per live value, exactly one owner and a borrow state.
///
/// Owner ids are handed out densely, starting at zero, and are never reused:
/// a moved-out record keeps its position as a tombstone so that any later use
/// of its id is detected.
pub struct OwnershipRegistry<T> {
    entries: Vec<OwnershipRecord<T>>,
}

impl<T> View for OwnershipRegistry<T> {
    type V = Seq<OwnershipRecord<T>>;

    closed spec fn view(&self) -> Seq<OwnershipRecord<T>> {
        self.entries@
    }
}

impl<T> OwnershipRegistry<T> {
    /// Whether `id` names a record whose value is still held here.
    pub open spec fn is_live(self, id: int) -> bool {
        0 <= id < self@.len() && self@[id] is Live
    }

    /// The borrow state of the record at `id`.
    pub open spec fn state_of(self, id: int) -> BorrowState
        recommends
            self.is_live(id),
    {
        self@[id]->state
    }

    /// The value held by the record at `id`.
    pub open spec fn value_of(self, id: int) -> T
        recommends
            self.is_live(id),
    {
        self@[id]->value
    }

    /// An empty registry with no records.
    pub fn new() -> (r: Self)
        ensures
            r@ == Seq::<OwnershipRecord<T>>::empty(),
    {
        OwnershipRegistry { entries: Vec::new() }
    }

    /// How many records (live or moved) this registry has handed ids for.
    pub fn record_count(&self) -> (n: usize)
        ensures
            n == self@.len(),
    {
        self.entries.len()
    }

    /// The current borrow state of `id`, or `None` once the id is dead.
    pub fn record_state(&self, id: usize) -> (s: Option<BorrowState>)
        ensures
            self.is_live(id as int) ==> s == Some(self.state_of(id as int)),
            !self.is_live(id as int) ==> s is None,
    {
        if id >= self.entries.len() {
            return None;
        }
        match &self.entries[id] {
            OwnershipRecord::Live { state, .. } => Some(*state),
            OwnershipRecord::Moved => None,
        }
    }

    /// Takes ownership of `value`, creating an unborrowed record for it.
    pub fn register(&mut self, value: T) -> (id: usize)
        ensures
            final(self)@ == old(self)@.push(
                OwnershipRecord::Live { state: BorrowState::Unborrowed, value },
            ),
            id == old(self)@.len(),
    {
        let id = self.entries.len();
        self.entries.push(OwnershipRecord::Live { state: BorrowState::Unborrowed, value });
        id
    }

    /// Transfers the value out of record `id`, invalidating the id.
    ///
    /// Fails with `UseAfterMove` when the id is dead (and keeps failing so on
    /// every retry), and with `BorrowConflict` while any claim is live.
    pub fn move_out(&mut self, id: usize) -> (r: Result<T, ErrorKind>)
        ensures
            !old(self).is_live(id as int) ==> fails_with(r, ErrorKind::UseAfterMove) && final(self)@ == old(self)@,
            old(self).is_live(id as int) && old(self).state_of(id as int)
                != BorrowState::Unborrowed ==> fails_with(r, ErrorKind::BorrowConflict) && final(self)@ == old(self)@,
            old(self).is_live(id as int) && old(self).state_of(id as int)
                == BorrowState::Unborrowed ==> (r matches Ok(v) && v == old(self).value_of(
                id as int,
            ) && final(self)@ == old(self)@.update(id as int, OwnershipRecord::Moved)),
    {
        if id >= self.entries.len() {
            return Err(ErrorKind::UseAfterMove);
        }
        match &self.entries[id] {
            OwnershipRecord::Moved => {
                return Err(ErrorKind::UseAfterMove);
            },
            OwnershipRecord::Live { state: BorrowState::Unborrowed, .. } => {},
            OwnershipRecord::Live { .. } => {
                return Err(ErrorKind::BorrowConflict);
            },
        }
        let record = self.entries.remove(id);
        self.entries.insert(id, OwnershipRecord::Moved);
        proof {
            assert(self.entries@ =~= old(self)@.update(id as int, OwnershipRecord::Moved));
        }
        match record {
            OwnershipRecord::Live { value, .. } => Ok(value),
            OwnershipRecord::Moved => unreached(),
        }
    }

    /// Takes a shared (read) claim on record `id`.
    ///
    /// Legal while the record is unborrowed or already shared; a second
    /// shared claim simply increments the count.
    pub fn acquire_shared(&mut self, id: usize) -> (r: Result<BorrowGuard, ErrorKind>)
        requires
            old(self).is_live(id as int) ==> (old(self).state_of(id as int)
                matches BorrowState::SharedBorrowed { count } ==> count < usize::MAX),
        ensures
            !old(self).is_live(id as int) ==> fails_with(r, ErrorKind::UseAfterMove) && final(self)@ == old(self)@,
            old(self).is_live(id as int) && old(self).state_of(id as int)
                is ExclusiveBorrowed ==> fails_with(r, ErrorKind::BorrowConflict) && final(self)@
                == old(self)@,
            old(self).is_live(id as int) && !(old(self).state_of(id as int)
                is ExclusiveBorrowed) ==> (r matches Ok(g) && g.owner_id() == id
                && !g.is_exclusive() && final(self)@ == old(self)@.update(
                id as int,
                OwnershipRecord::Live {
                    state: bumped_shared(old(self).state_of(id as int)),
                    value: old(self).value_of(id as int),
                },
            )),
    {
        if id >= self.entries.len() {
            return Err(ErrorKind::UseAfterMove);
        }
        let new_count: usize;
        match &self.entries[id] {
            OwnershipRecord::Moved => {
                return Err(ErrorKind::UseAfterMove);
            },
            OwnershipRecord::Live { state: BorrowState::ExclusiveBorrowed, .. } => {
                return Err(ErrorKind::BorrowConflict);
            },
            OwnershipRecord::Live { state: BorrowState::Unborrowed, .. } => {
                new_count = 1;
            },
            OwnershipRecord::Live { state: BorrowState::SharedBorrowed { count }, .. } => {
                new_count = *count + 1;
            },
        }
        let record = self.entries.remove(id);
        let value = match record {
            OwnershipRecord::Live { value, .. } => value,
            OwnershipRecord::Moved => unreached(),
        };
        self.entries.insert(
            id,
            OwnershipRecord::Live { state: BorrowState::SharedBorrowed { count: new_count }, value },
        );
        proof {
            assert(self.entries@ =~= old(self)@.update(
                id as int,
                OwnershipRecord::Live {
                    state: bumped_shared(old(self).state_of(id as int)),
                    value: old(self).value_of(id as int),
                },
            ));
        }
        Ok(BorrowGuard { owner: id, exclusive: false })
    }

    /// Takes the exclusive (read-and-write) claim on record `id`.
    ///
    /// Legal only while the record is entirely unborrowed: any live claim,
    /// shared or exclusive, makes this fail with `BorrowConflict`.
    pub fn acquire_exclusive(&mut self, id: usize) -> (r: Result<BorrowGuard, ErrorKind>)
        ensures
            !old(self).is_live(id as int) ==> fails_with(r, ErrorKind::UseAfterMove) && final(self)@ == old(self)@,
            old(self).is_live(id as int) && old(self).state_of(id as int)
                != BorrowState::Unborrowed ==> fails_with(r, ErrorKind::BorrowConflict) && final(self)@ == old(self)@,
            old(self).is_live(id as int) && old(self).state_of(id as int)
                == BorrowState::Unborrowed ==> (r matches Ok(g) && g.owner_id() == id
                && g.is_exclusive() && final(self)@ == old(self)@.update(
                id as int,
                OwnershipRecord::Live {
                    state: BorrowState::ExclusiveBorrowed,
                    value: old(self).value_of(id as int),
                },
            )),
    {
        if id >= self.entries.len() {
            return Err(ErrorKind::UseAfterMove);
        }
        match &self.entries[id] {
            OwnershipRecord::Moved => {
                return Err(ErrorKind::UseAfterMove);
            },
            OwnershipRecord::Live { state: BorrowState::Unborrowed, .. } => {},
            OwnershipRecord::Live { .. } => {
                return Err(ErrorKind::BorrowConflict);
            },
        }
        let record = self.entries.remove(id);
        let value = match record {
            OwnershipRecord::Live { value, .. } => value,
            OwnershipRecord::Moved => unreached(),
        };
        self.entries.insert(
            id,
            OwnershipRecord::Live { state: BorrowState::ExclusiveBorrowed, value },
        );
        proof {
            assert(self.entries@ =~= old(self)@.update(
                id as int,
                OwnershipRecord::Live {
                    state: BorrowState::ExclusiveBorrowed,
                    value: old(self).value_of(id as int),
                },
            ));
        }
        Ok(BorrowGuard { owner: id, exclusive: true })
    }

    /// Returns a claim, consuming its guard.
    ///
    /// A shared guard decrements the count, reverting to unborrowed at zero;
    /// the exclusive guard reverts the record to unborrowed.  A guard whose
    /// record is dead fails with `UseAfterFree`; one whose kind does not
    /// match the record's state fails with `BorrowConflict`.
    pub fn release(&mut self, guard: BorrowGuard) -> (r: Result<(), ErrorKind>)
        ensures
            !old(self).is_live(guard.owner_id()) ==> fails_with(r, ErrorKind::UseAfterFree)
                && final(self)@ == old(self)@,
            old(self).is_live(guard.owner_id()) && guard.is_exclusive() ==> if old(self).state_of(guard.owner_id()) is ExclusiveBorrowed {
                r is Ok && final(self)@ == old(self)@.update(
                    guard.owner_id(),
                    OwnershipRecord::Live {
                        state: BorrowState::Unborrowed,
                        value: old(self).value_of(guard.owner_id()),
                    },
                )
            } else {
                fails_with(r, ErrorKind::BorrowConflict) && final(self)@ == old(self)@
            },
            old(self).is_live(guard.owner_id()) && !guard.is_exclusive() ==> if old(self).state_of(guard.owner_id()) is SharedBorrowed {
                r is Ok && final(self)@ == old(self)@.update(
                    guard.owner_id(),
                    OwnershipRecord::Live {
                        state: dropped_shared(old(self).state_of(guard.owner_id())),
                        value: old(self).value_of(guard.owner_id()),
                    },
                )
            } else {
                fails_with(r, ErrorKind::BorrowConflict) && final(self)@ == old(self)@
            },
    {
        let id = guard.owner;
        if id >= self.entries.len() {
            return Err(ErrorKind::UseAfterFree);
        }
        let new_state: BorrowState;
        match &self.entries[id] {
            OwnershipRecord::Moved => {
                return Err(ErrorKind::UseAfterFree);
            },
            OwnershipRecord::Live { state: BorrowState::ExclusiveBorrowed, .. } => {
                if !guard.exclusive {
                    return Err(ErrorKind::BorrowConflict);
                }
                new_state = BorrowState::Unborrowed;
            },
            OwnershipRecord::Live { state: BorrowState::SharedBorrowed { count }, .. } => {
                if guard.exclusive {
                    return Err(ErrorKind::BorrowConflict);
                }
                new_state = if *count <= 1 {
                    BorrowState::Unborrowed
                } else {
                    BorrowState::SharedBorrowed { count: *count - 1 }
                };
            },
            OwnershipRecord::Live { state: BorrowState::Unborrowed, .. } => {
                return Err(ErrorKind::BorrowConflict);
            },
        }
        let record = self.entries.remove(id);
        let value = match record {
            OwnershipRecord::Live { value, .. } => value,
            OwnershipRecord::Moved => unreached(),
        };
        self.entries.insert(id, OwnershipRecord::Live { state: new_state, value });
        proof {
            assert(self.entries@ =~= old(self)@.update(
                id as int,
                OwnershipRecord::Live { state: new_state, value: old(self).value_of(id as int) },
            ));
        }
        Ok(())
    }

    /// Whether no record has an outstanding claim.
    pub open spec fn quiescent(self) -> bool {
        forall|i: int| 0 <= i < self@.len() ==> record_quiet(#[trigger] self@[i])
    }
}

impl<T: Copy> OwnershipRegistry<T> {
    /// Duplicates the value of record `id` into a fresh unborrowed record.
    ///
    /// Only copyable value kinds offer this.  The source record's state is
    /// unaffected; reading its value is refused only while the exclusive
    /// claim is live.
    pub fn clone_value(&mut self, id: usize) -> (r: Result<usize, ErrorKind>)
        ensures
            !old(self).is_live(id as int) ==> fails_with(r, ErrorKind::UseAfterMove) && final(self)@ == old(self)@,
            old(self).is_live(id as int) && old(self).state_of(id as int)
                is ExclusiveBorrowed ==> fails_with(r, ErrorKind::BorrowConflict) && final(self)@
                == old(self)@,
            old(self).is_live(id as int) && !(old(self).state_of(id as int)
                is ExclusiveBorrowed) ==> (r matches Ok(nid) && nid == old(self)@.len() && final(self)@ == old(self)@.push(
                OwnershipRecord::Live {
                    state: BorrowState::Unborrowed,
                    value: old(self).value_of(id as int),
                },
            )),
    {
        if id >= self.entries.len() {
            return Err(ErrorKind::UseAfterMove);
        }
        let value: T;
        match &self.entries[id] {
            OwnershipRecord::Moved => {
                return Err(ErrorKind::UseAfterMove);
            },
            OwnershipRecord::Live { state: BorrowState::ExclusiveBorrowed, .. } => {
                return Err(ErrorKind::BorrowConflict);
            },
            OwnershipRecord::Live { value: v, .. } => {
                value = *v;
            },
        }
        let nid = self.entries.len();
        self.entries.push(OwnershipRecord::Live { state: BorrowState::Unborrowed, value });
        Ok(nid)
    }
}

impl<T> OwnershipRegistry<T> {
    /// Moving a value out kills its id for good: the registry that
    /// `move_out` leaves behind no longer holds record `id` live, and every
    /// operation on a dead id fails with `UseAfterMove` while leaving the
    /// registry unchanged — so the failure repeats on every retry.
    pub proof fn lemma_moved_out_is_dead(pre: Self, post: Self, id: int)
        requires
            0 <= id < pre@.len(),
            post@ == pre@.update(id, OwnershipRecord::<T>::Moved),
        ensures
            !post.is_live(id),
    {
    }

    /// Tears the registry down, dropping every still-held value.
    ///
    /// A guard that is still live at this point has outlived the records it
    /// refers to: that is reported as `UseAfterFree`.
    pub fn teardown(self) -> (r: Result<(), ErrorKind>)
        ensures
            r is Ok <==> self.quiescent(),
            r matches Err(e) ==> e == ErrorKind::UseAfterFree,
    {
        let mut i: usize = 0;
        let n = self.entries.len();
        while i < n
            invariant
                n == self@.len(),
                i <= n,
                forall|k: int| 0 <= k < i ==> record_quiet(#[trigger] self@[k]),
            decreases n - i,
        {
            match &self.entries[i] {
                OwnershipRecord::Live { state: BorrowState::Unborrowed, .. } => {},
                OwnershipRecord::Moved => {},
                OwnershipRecord::Live { .. } => {
                    return Err(ErrorKind::UseAfterFree);
                },
            }
            i = i + 1;
        }
        Ok(())
    }
}

} // verus!
