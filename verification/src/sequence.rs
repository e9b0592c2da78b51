//! A contiguous, resizable, order-preserving container with runtime-checked
//! borrow discipline.
//!
//! A [`DynamicSequence`] owns its elements in a contiguous backing store with
//! a tracked capacity.  When a push finds the store full, the store is
//! regrown and a generation counter advances; every [`StorageGuard`] records
//! the generation it was acquired under, and a guard whose generation has
//! since advanced is stale: dereferencing it fails with `StaleBorrow` rather
//! than reading storage that no longer exists.

use vstd::prelude::*;

use crate::compare::ThreeWayCompare;
use crate::errors::ErrorKind;
use crate::errors::fails_with;
use crate::sorter::sort_result;
use crate::sorter::sort_vec;

verus! {

/// Capacity given to the backing store when none was asked for.
pub const MIN_CAPACITY: usize = 4;

/// The capacity after the backing store is regrown from capacity `c`.
pub open spec fn grown_capacity(c: int) -> int {
    if c == 0 {
        MIN_CAPACITY as int
    } else if c <= usize::MAX / 2 {
        2 * c
    } else {
        usize::MAX as int
    }
}

/// A claim on a sequence's element storage, taken for the duration of a
/// traversal.
///
/// Guards are move-only: one `iter_shared` or `iter_mut` call produces each
/// guard and one `release` consumes it.  A guard remembers the storage
/// generation it was acquired under.
pub struct StorageGuard {
    generation: u64,
    exclusive: bool,
}

impl StorageGuard {
    /// The storage generation this guard was acquired under.
    pub closed spec fn spec_generation(self) -> int {
        self.generation as int
    }

    /// Whether this guard holds the exclusive (read-and-write) claim.
    pub closed spec fn spec_exclusive(self) -> bool {
        self.exclusive
    }

    /// The storage generation this guard was acquired under.
    pub fn generation(&self) -> (g: u64)
        ensures
            g == self.spec_generation(),
    {
        self.generation
    }

    /// Whether this guard is the exclusive one.
    pub fn exclusive(&self) -> (e: bool)
        ensures
            e == self.spec_exclusive(),
    {
        self.exclusive
    }
}

/// A growable sequence of owned values plus the bookkeeping that makes
/// aliasing hazards detectable at runtime: a capacity (always at least the
/// length), a generation that advances on every reallocation, and the counts
/// of live claims on the element storage.
pub struct DynamicSequence<T> {
    data: Vec<T>,
    cap: usize,
    generation: u64,
    shared: usize,
    exclusive: bool,
}

impl<T> View for DynamicSequence<T> {
    type V = Seq<T>;

    closed spec fn view(&self) -> Seq<T> {
        self.data@
    }
}

impl<T> DynamicSequence<T> {
    #[verifier::type_invariant]
    spec fn wf(self) -> bool {
        &&& self.data@.len() <= self.cap
        &&& self.generation <= self.cap
        &&& self.exclusive ==> self.shared == 0
    }

    /// The tracked capacity of the backing store.
    pub closed spec fn spec_capacity(self) -> int {
        self.cap as int
    }

    /// The current storage generation; it advances on every reallocation.
    pub closed spec fn spec_generation(self) -> int {
        self.generation as int
    }

    /// How many shared claims on the element storage are live.
    pub closed spec fn spec_shared(self) -> int {
        self.shared as int
    }

    /// Whether the exclusive claim on the element storage is live.
    pub closed spec fn spec_exclusive(self) -> bool {
        self.exclusive
    }

    /// Whether `g` was acquired under an earlier storage generation and so
    /// must fail on its next dereference.
    pub open spec fn is_stale(self, g: StorageGuard) -> bool {
        g.spec_generation() != self.spec_generation()
    }

    /// Whether the accounting (capacity, generation, claims) of `self` and
    /// `other` agree; used to say an operation left them untouched.
    pub open spec fn same_accounting(self, other: Self) -> bool {
        &&& self.spec_capacity() == other.spec_capacity()
        &&& self.spec_generation() == other.spec_generation()
        &&& self.spec_shared() == other.spec_shared()
        &&& self.spec_exclusive() == other.spec_exclusive()
    }

    /// An empty sequence with the default initial capacity.
    pub fn new() -> (r: Self)
        ensures
            r@ == Seq::<T>::empty(),
            r.spec_capacity() == MIN_CAPACITY,
            r.spec_generation() == 0,
            r.spec_shared() == 0,
            !r.spec_exclusive(),
    {
        DynamicSequence {
            data: Vec::new(),
            cap: MIN_CAPACITY,
            generation: 0,
            shared: 0,
            exclusive: false,
        }
    }

    /// An empty sequence whose backing store starts at `initial_capacity`.
    pub fn with_capacity(initial_capacity: usize) -> (r: Self)
        ensures
            r@ == Seq::<T>::empty(),
            r.spec_capacity() == initial_capacity,
            r.spec_generation() == 0,
            r.spec_shared() == 0,
            !r.spec_exclusive(),
    {
        DynamicSequence {
            data: Vec::new(),
            cap: initial_capacity,
            generation: 0,
            shared: 0,
            exclusive: false,
        }
    }

    /// A fresh sequence that takes over the elements of `data`.
    pub(crate) fn from_vec(data: Vec<T>) -> (r: Self)
        ensures
            r@ == data@,
            r.spec_generation() == 0,
            r.spec_shared() == 0,
            !r.spec_exclusive(),
            r.spec_capacity() >= r@.len(),
    {
        let len = data.len();
        let cap = if len < MIN_CAPACITY {
            MIN_CAPACITY
        } else {
            len
        };
        DynamicSequence { data, cap, generation: 0, shared: 0, exclusive: false }
    }

    /// The number of elements held.
    pub fn len(&self) -> (n: usize)
        ensures
            n == self@.len(),
    {
        self.data.len()
    }

    /// The tracked capacity.  It never falls below the length.
    pub fn capacity(&self) -> (c: usize)
        ensures
            c == self.spec_capacity(),
            c >= self@.len(),
    {
        proof {
            use_type_invariant(&*self);
        }
        self.cap
    }

    /// The current storage generation.
    pub fn generation(&self) -> (g: u64)
        ensures
            g == self.spec_generation(),
    {
        self.generation
    }

    /// How many shared claims on the element storage are live.
    pub fn shared_count(&self) -> (n: usize)
        ensures
            n == self.spec_shared(),
    {
        self.shared
    }

    /// Whether the exclusive claim on the element storage is live.
    pub fn has_exclusive(&self) -> (e: bool)
        ensures
            e == self.spec_exclusive(),
    {
        self.exclusive
    }

    /// Appends `value`, regrowing the backing store first when it is full.
    ///
    /// Regrowing reallocates: the generation advances and every live claim
    /// on the old storage is dropped, so guards acquired before this push
    /// are stale from here on.
    pub fn push(&mut self, value: T)
        requires
            old(self)@.len() < usize::MAX,
        ensures
            final(self)@ == old(self)@.push(value),
            old(self)@.len() < old(self).spec_capacity() ==> final(self).same_accounting(
                *old(self),
            ),
            old(self)@.len() == old(self).spec_capacity() ==> final(self).spec_generation() == old(self).spec_generation() + 1 && final(self).spec_capacity() == grown_capacity(
                old(self).spec_capacity(),
            ) && final(self).spec_shared() == 0 && !final(self).spec_exclusive(),
    {
        proof {
            use_type_invariant(&*self);
        }
        if self.data.len() == self.cap {
            let new_cap: usize = if self.cap == 0 {
                MIN_CAPACITY
            } else if self.cap <= usize::MAX / 2 {
                self.cap * 2
            } else {
                usize::MAX
            };
            self.cap = new_cap;
            self.generation = self.generation + 1;
            self.shared = 0;
            self.exclusive = false;
        }
        let mut data: Vec<T> = Vec::new();
        std::mem::swap(&mut data, &mut self.data);
        data.push(value);
        self.data = data;
    }

    /// Borrow-form read: absent rather than failing when `index` is past the
    /// end.  The shared access lasts only for this call.
    pub fn get(&self, index: usize) -> (r: Option<&T>)
        ensures
            index < self@.len() ==> (r matches Some(v) && *v == self@[index as int]),
            index >= self@.len() ==> r is None,
    {
        if index < self.data.len() {
            Some(&self.data[index])
        } else {
            None
        }
    }

    /// Borrow-form mutable read: absent rather than failing when `index` is
    /// past the end.  The exclusive access lasts only for this call.
    pub fn get_mut(&mut self, index: usize) -> (r: Option<&mut T>)
        ensures
            index >= old(self)@.len() ==> r is None && final(self)@ == old(self)@,
            index < old(self)@.len() ==> (r matches Some(p) && *p == old(self)@[index as int]
                && final(self)@ == old(self)@.update(index as int, *final(p))),
            final(self).same_accounting(*old(self)),
    {
        proof {
            use_type_invariant(&*self);
        }
        if index < self.data.len() {
            Some(&mut self.data[index])
        } else {
            None
        }
    }

    /// Direct indexed read: unlike `get`, an index at or past the length is
    /// an `IndexOutOfBounds` error.
    pub fn index(&self, index: usize) -> (r: Result<&T, ErrorKind>)
        ensures
            index < self@.len() ==> (r matches Ok(v) && *v == self@[index as int]),
            index >= self@.len() ==> fails_with(r, ErrorKind::IndexOutOfBounds),
    {
        if index < self.data.len() {
            Ok(&self.data[index])
        } else {
            Err(ErrorKind::IndexOutOfBounds)
        }
    }

    /// Direct indexed write.  The exclusive access lasts only for this call,
    /// so it is refused with `BorrowConflict` while any claim is live; an
    /// index past the end is `IndexOutOfBounds`.  The prior element is
    /// dropped.
    pub fn set(&mut self, index: usize, value: T) -> (r: Result<(), ErrorKind>)
        ensures
            final(self).same_accounting(*old(self)),
            old(self).spec_shared() > 0 || old(self).spec_exclusive() ==> fails_with(
                r,
                ErrorKind::BorrowConflict,
            ) && final(self)@ == old(self)@,
            old(self).spec_shared() == 0 && !old(self).spec_exclusive() && index >= old(self)@.len() ==> fails_with(r, ErrorKind::IndexOutOfBounds) && final(self)@ == old(self)@,
            old(self).spec_shared() == 0 && !old(self).spec_exclusive() && index < old(self)@.len() ==> r is Ok && final(self)@ == old(self)@.update(index as int, value),
    {
        proof {
            use_type_invariant(&*self);
        }
        if self.shared > 0 || self.exclusive {
            return Err(ErrorKind::BorrowConflict);
        }
        if index >= self.data.len() {
            return Err(ErrorKind::IndexOutOfBounds);
        }
        let mut data: Vec<T> = Vec::new();
        std::mem::swap(&mut data, &mut self.data);
        let _prior = data.remove(index);
        data.insert(index, value);
        self.data = data;
        proof {
            assert(self.data@ =~= old(self)@.update(index as int, value));
        }
        Ok(())
    }

    /// Starts a shared traversal: takes one shared claim on the element
    /// storage, to be returned with `release`.  Refused with
    /// `BorrowConflict` while the exclusive claim is live.  Traversals are
    /// restartable: any number of shared claims may be live at once.
    pub fn iter_shared(&mut self) -> (r: Result<StorageGuard, ErrorKind>)
        requires
            old(self).spec_shared() < usize::MAX,
        ensures
            final(self)@ == old(self)@,
            final(self).spec_capacity() == old(self).spec_capacity(),
            final(self).spec_generation() == old(self).spec_generation(),
            final(self).spec_exclusive() == old(self).spec_exclusive(),
            old(self).spec_exclusive() ==> fails_with(r, ErrorKind::BorrowConflict) && final(self).spec_shared() == old(self).spec_shared(),
            !old(self).spec_exclusive() ==> (r matches Ok(g) && !g.spec_exclusive()
                && g.spec_generation() == old(self).spec_generation() && final(self).spec_shared()
                == old(self).spec_shared() + 1),
    {
        proof {
            use_type_invariant(&*self);
        }
        if self.exclusive {
            return Err(ErrorKind::BorrowConflict);
        }
        self.shared = self.shared + 1;
        Ok(StorageGuard { generation: self.generation, exclusive: false })
    }

    /// Starts a mutating traversal: takes the exclusive claim on the element
    /// storage, to be returned with `release`.  Refused with
    /// `BorrowConflict` while any claim, shared or exclusive, is live.
    pub fn iter_mut(&mut self) -> (r: Result<StorageGuard, ErrorKind>)
        ensures
            final(self)@ == old(self)@,
            final(self).spec_capacity() == old(self).spec_capacity(),
            final(self).spec_generation() == old(self).spec_generation(),
            final(self).spec_shared() == old(self).spec_shared(),
            old(self).spec_shared() > 0 || old(self).spec_exclusive() ==> fails_with(
                r,
                ErrorKind::BorrowConflict,
            ) && final(self).spec_exclusive() == old(self).spec_exclusive(),
            old(self).spec_shared() == 0 && !old(self).spec_exclusive() ==> (r matches Ok(g)
                && g.spec_exclusive() && g.spec_generation() == old(self).spec_generation()
                && final(self).spec_exclusive()),
    {
        proof {
            use_type_invariant(&*self);
        }
        if self.shared > 0 || self.exclusive {
            return Err(ErrorKind::BorrowConflict);
        }
        self.exclusive = true;
        Ok(StorageGuard { generation: self.generation, exclusive: true })
    }

    /// Reads the element at `index` through a guard.
    ///
    /// A stale guard fails with `StaleBorrow` instead of reaching storage
    /// that a reallocation has replaced; an index past the end is
    /// `IndexOutOfBounds`.
    pub fn read_at(&self, g: &StorageGuard, index: usize) -> (r: Result<&T, ErrorKind>)
        ensures
            self.is_stale(*g) ==> fails_with(r, ErrorKind::StaleBorrow),
            !self.is_stale(*g) && index >= self@.len() ==> fails_with(
                r,
                ErrorKind::IndexOutOfBounds,
            ),
            !self.is_stale(*g) && index < self@.len() ==> (r matches Ok(v) && *v == self@[
                index as int
            ]),
    {
        if g.generation != self.generation {
            return Err(ErrorKind::StaleBorrow);
        }
        if index >= self.data.len() {
            return Err(ErrorKind::IndexOutOfBounds);
        }
        Ok(&self.data[index])
    }

    /// Writes `value` at `index` through a guard; the prior element is
    /// dropped.
    ///
    /// Only the exclusive guard may write (`BorrowConflict` otherwise); a
    /// stale guard fails with `StaleBorrow`; an index past the end is
    /// `IndexOutOfBounds`.
    pub fn write_at(&mut self, g: &StorageGuard, index: usize, value: T) -> (r: Result<
        (),
        ErrorKind,
    >)
        ensures
            final(self).same_accounting(*old(self)),
            !g.spec_exclusive() ==> fails_with(r, ErrorKind::BorrowConflict) && final(self)@ == old(self)@,
            g.spec_exclusive() && old(self).is_stale(*g) ==> fails_with(r, ErrorKind::StaleBorrow)
                && final(self)@ == old(self)@,
            g.spec_exclusive() && !old(self).is_stale(*g) && index >= old(self)@.len()
                ==> fails_with(r, ErrorKind::IndexOutOfBounds) && final(self)@ == old(self)@,
            g.spec_exclusive() && !old(self).is_stale(*g) && index < old(self)@.len() ==> r is Ok
                && final(self)@ == old(self)@.update(index as int, value),
    {
        proof {
            use_type_invariant(&*self);
        }
        if !g.exclusive {
            return Err(ErrorKind::BorrowConflict);
        }
        if g.generation != self.generation {
            return Err(ErrorKind::StaleBorrow);
        }
        if index >= self.data.len() {
            return Err(ErrorKind::IndexOutOfBounds);
        }
        let mut data: Vec<T> = Vec::new();
        std::mem::swap(&mut data, &mut self.data);
        let _prior = data.remove(index);
        data.insert(index, value);
        self.data = data;
        proof {
            assert(self.data@ =~= old(self)@.update(index as int, value));
        }
        Ok(())
    }

    /// Returns a claim, consuming its guard.
    ///
    /// Releasing a stale guard succeeds and changes nothing: its claim
    /// already died with the reallocation that outdated it.  A current-
    /// generation guard returns its claim; one that does not match any live
    /// claim fails with `BorrowConflict`.
    pub fn release(&mut self, g: StorageGuard) -> (r: Result<(), ErrorKind>)
        ensures
            final(self)@ == old(self)@,
            final(self).spec_capacity() == old(self).spec_capacity(),
            final(self).spec_generation() == old(self).spec_generation(),
            old(self).is_stale(g) ==> r is Ok && final(self).spec_shared() == old(self).spec_shared() && final(self).spec_exclusive() == old(self).spec_exclusive(),
            !old(self).is_stale(g) && !g.spec_exclusive() ==> if old(self).spec_shared() > 0 {
                r is Ok && final(self).spec_shared() == old(self).spec_shared() - 1 && final(self).spec_exclusive() == old(self).spec_exclusive()
            } else {
                fails_with(r, ErrorKind::BorrowConflict) && final(self).spec_shared() == old(self).spec_shared() && final(self).spec_exclusive() == old(self).spec_exclusive()
            },
            !old(self).is_stale(g) && g.spec_exclusive() ==> if old(self).spec_exclusive() {
                r is Ok && !final(self).spec_exclusive() && final(self).spec_shared() == old(self).spec_shared()
            } else {
                fails_with(r, ErrorKind::BorrowConflict) && final(self).spec_shared() == old(self).spec_shared() && final(self).spec_exclusive() == old(self).spec_exclusive()
            },
    {
        proof {
            use_type_invariant(&*self);
        }
        if g.generation != self.generation {
            return Ok(());
        }
        if g.exclusive {
            if !self.exclusive {
                return Err(ErrorKind::BorrowConflict);
            }
            self.exclusive = false;
            Ok(())
        } else {
            if self.shared == 0 {
                return Err(ErrorKind::BorrowConflict);
            }
            self.shared = self.shared - 1;
            Ok(())
        }
    }

    /// Destroys the sequence, dropping every owned element in index order.
    ///
    /// A claim still live at this point is a guard that outlives its
    /// storage: that contract violation is reported as `UseAfterFree`.
    pub fn dispose(self) -> (r: Result<(), ErrorKind>)
        ensures
            r is Ok <==> self.spec_shared() == 0 && !self.spec_exclusive(),
            r matches Err(e) ==> e == ErrorKind::UseAfterFree,
    {
        if self.shared > 0 || self.exclusive {
            return Err(ErrorKind::UseAfterFree);
        }
        Ok(())
    }
}

impl<T: ThreeWayCompare> DynamicSequence<T> {
    /// Sorts the elements in place, holding the exclusive claim for the
    /// duration; see [`sort_result`] for what the outcome guarantees.
    ///
    /// Refused with `BorrowConflict` while any claim on the storage is live.
    /// On `IncomparableElements` the sequence is left valid, holding the
    /// same elements in some order.
    pub fn sort_in_place(&mut self) -> (r: Result<(), ErrorKind>)
        ensures
            final(self).same_accounting(*old(self)),
            old(self).spec_shared() > 0 || old(self).spec_exclusive() ==> fails_with(
                r,
                ErrorKind::BorrowConflict,
            ) && final(self)@ == old(self)@,
            old(self).spec_shared() == 0 && !old(self).spec_exclusive() ==> {
                &&& final(self)@.to_multiset() == old(self)@.to_multiset()
                &&& crate::sorter::all_comparable(old(self)@) ==> r is Ok
                &&& crate::sorter::sorted_by(old(self)@) ==> r is Ok
                &&& r is Ok ==> sort_result(old(self)@, final(self)@)
                &&& r matches Err(e) ==> e == ErrorKind::IncomparableElements
                    && !crate::sorter::all_comparable(old(self)@)
            },
    {
        proof {
            use_type_invariant(&*self);
        }
        if self.shared > 0 || self.exclusive {
            return Err(ErrorKind::BorrowConflict);
        }
        let mut data: Vec<T> = Vec::new();
        std::mem::swap(&mut data, &mut self.data);
        let r = sort_vec(&mut data);
        self.data = data;
        r
    }
}

/// After a reallocation the generation has strictly advanced, so a guard
/// acquired before it is stale: its next use through `read_at` or `write_at`
/// fails with `StaleBorrow`, never silently reading the old storage.
pub proof fn lemma_reallocation_invalidates<T>(
    pre: DynamicSequence<T>,
    post: DynamicSequence<T>,
    g: StorageGuard,
)
    requires
        g.spec_generation() == pre.spec_generation(),
        post.spec_generation() > pre.spec_generation(),
    ensures
        post.is_stale(g),
{
}

} // verus!
