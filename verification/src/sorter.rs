//! A comparison-based sorter, generic over the ordering capability.
//!
//! The algorithm is bubble sort: repeated passes over the elements swap
//! adjacent out-of-order neighbours.  Only a strictly greater left
//! neighbour triggers a swap — equal-or-less never does — so an input that
//! is already in order, tied elements included, is handed back exactly as
//! it was.  When the ordering is partial and a comparison reports two
//! elements unrelated, the sort stops with `IncomparableElements`, leaving
//! the same elements behind in some order.

use vstd::prelude::*;

use crate::compare::Comparison;
use crate::compare::ThreeWayCompare;
use crate::compare::is_le;
use crate::compare::le;
use crate::compare::lemma_tied_pair;
use crate::errors::ErrorKind;
use crate::errors::fails_with;
use crate::sequence::DynamicSequence;

verus! {

/// Every adjacent pair of `s` is in equal-or-less order.
pub open spec fn sorted_by<T: ThreeWayCompare>(s: Seq<T>) -> bool {
    forall|k: int| 0 <= k < s.len() - 1 ==> #[trigger] le(s[k], s[k + 1])
}

/// Every pair of elements of `s` is related by the ordering.
pub open spec fn all_comparable<T: ThreeWayCompare>(s: Seq<T>) -> bool {
    forall|i: int, j: int|
        0 <= i < s.len() && 0 <= j < s.len() ==> #[trigger] T::cmp_spec(s[i], s[j])
            != Comparison::Incomparable
}

/// The elements the ordering ties with `x`.
pub open spec fn tied_with<T: ThreeWayCompare>(x: T) -> spec_fn(T) -> bool {
    |e: T| T::cmp_spec(e, x) == Comparison::Equal
}

/// Stability: equal elements never reorder.  For every pivot `x`, the
/// subsequence of elements tied with `x` is the same, in the same order,
/// in `input` and in `out`.
pub open spec fn stable_for<T: ThreeWayCompare>(input: Seq<T>, out: Seq<T>) -> bool {
    forall|x: T| #![trigger out.filter(tied_with(x))]
        out.filter(tied_with(x)) == input.filter(tied_with(x))
}

/// What a successful sort of `input` into `out` guarantees: the same
/// elements (as a multiset), every adjacent pair of the output in order,
/// stability for tied elements, and an input that was already in order
/// handed back exactly as it was.
pub open spec fn sort_result<T: ThreeWayCompare>(input: Seq<T>, out: Seq<T>) -> bool {
    &&& out.to_multiset() == input.to_multiset()
    &&& sorted_by(out)
    &&& stable_for(input, out)
    &&& sorted_by(input) ==> out == input
}

/// Sorting is idempotent: whenever one successful sort produces `once` from
/// `xs` and a second successful sort produces `twice` from `once`, the
/// second sort changed nothing.
pub proof fn lemma_sort_idempotent<T: ThreeWayCompare>(xs: Seq<T>, once: Seq<T>, twice: Seq<T>)
    requires
        sort_result(xs, once),
        sort_result(once, twice),
    ensures
        twice == once,
{
}

spec fn sorted_from<T: ThreeWayCompare>(s: Seq<T>, from: int) -> bool {
    forall|k: int| from <= k < s.len() - 1 ==> #[trigger] le(s[k], s[k + 1])
}

spec fn partitioned<T: ThreeWayCompare>(s: Seq<T>, from: int) -> bool {
    forall|k: int, m: int| 0 <= k < from <= m < s.len() ==> #[trigger] le(s[k], s[m])
}

/// Two sequences with the same elements have the same comparability: a
/// pairwise-comparable collection stays so however it is rearranged.
proof fn lemma_multiset_comparable<T: ThreeWayCompare>(a: Seq<T>, b: Seq<T>, i: int, j: int)
    requires
        a.to_multiset() == b.to_multiset(),
        all_comparable(a),
        0 <= i < b.len(),
        0 <= j < b.len(),
    ensures
        T::cmp_spec(b[i], b[j]) != Comparison::Incomparable,
{
    broadcast use vstd::seq_lib::group_to_multiset_ensures;

    assert(b.contains(b[i]));
    assert(b.contains(b[j]));
    assert(a.to_multiset().count(b[i]) > 0);
    assert(a.to_multiset().count(b[j]) > 0);
    assert(a.contains(b[i]));
    assert(a.contains(b[j]));
    let ii = choose|k: int| 0 <= k < a.len() && a[k] == b[i];
    let jj = choose|k: int| 0 <= k < a.len() && a[k] == b[j];
    assert(T::cmp_spec(a[ii], a[jj]) != Comparison::Incomparable);
}

/// Swapping an adjacent pair of which at most one satisfies `p` leaves the
/// filtered subsequence untouched.
proof fn lemma_swap_preserves_filter<T>(s: Seq<T>, j: int, p: spec_fn(T) -> bool)
    requires
        0 <= j,
        j + 1 < s.len(),
        !(p(s[j]) && p(s[j + 1])),
    ensures
        s.update(j, s[j + 1]).update(j + 1, s[j]).filter(p) == s.filter(p),
{
    broadcast use Seq::filter_distributes_over_add;

    let t = s.update(j, s[j + 1]).update(j + 1, s[j]);
    let pre = s.subrange(0, j);
    let mid = s.subrange(j, j + 2);
    let suf = s.subrange(j + 2, s.len() as int);
    let tmid = t.subrange(j, j + 2);
    assert(s =~= (pre + mid) + suf);
    assert(t =~= (pre + tmid) + suf);
    assert(mid =~= seq![s[j], s[j + 1]]);
    assert(tmid =~= seq![s[j + 1], s[j]]);
    assert(mid.filter(p) == tmid.filter(p)) by {
        reveal_with_fuel(Seq::filter, 4);
        assert(mid.drop_last() =~= seq![s[j]]);
        assert(tmid.drop_last() =~= seq![s[j + 1]]);
        assert(seq![s[j]].drop_last() =~= Seq::<T>::empty());
        assert(seq![s[j + 1]].drop_last() =~= Seq::<T>::empty());
    }
    assert(s.filter(p) == ((pre + mid) + suf).filter(p));
    assert(t.filter(p) == ((pre + tmid) + suf).filter(p));
    assert(((pre + mid) + suf).filter(p) == (pre.filter(p) + mid.filter(p)) + suf.filter(p));
    assert(((pre + tmid) + suf).filter(p) == (pre.filter(p) + tmid.filter(p)) + suf.filter(p));
}

/// Sorts the vector in place by bubble sort.
///
/// On success the result is `sort_result` of the input; pairwise-comparable
/// input is always sorted successfully, and input that is already in order
/// (so no comparison can report `Greater` or `Incomparable`) is returned
/// untouched.  On failure the same elements are still there, in some order.
pub fn sort_vec<T: ThreeWayCompare>(v: &mut Vec<T>) -> (r: Result<(), ErrorKind>)
    ensures
        final(v)@.len() == old(v)@.len(),
        final(v)@.to_multiset() == old(v)@.to_multiset(),
        all_comparable(old(v)@) ==> r is Ok,
        sorted_by(old(v)@) ==> r is Ok,
        r is Ok ==> sort_result(old(v)@, final(v)@),
        r matches Err(e) ==> e == ErrorKind::IncomparableElements && !all_comparable(old(v)@),
{
    broadcast use vstd::seq_lib::group_to_multiset_ensures;
    broadcast use vstd::multiset::group_multiset_axioms;

    let n = v.len();
    if n <= 1 {
        return Ok(());
    }
    let mut done: usize = 0;
    while done < n - 1
        invariant
            n == v@.len(),
            n == old(v)@.len(),
            1 < n,
            done < n,
            v@.to_multiset() == old(v)@.to_multiset(),
            stable_for(old(v)@, v@),
            sorted_from(v@, n - done),
            partitioned(v@, n - done),
            sorted_by(old(v)@) ==> v@ == old(v)@,
        decreases n - done,
    {
        let mut j: usize = 0;
        while j < n - 1 - done
            invariant
                n == v@.len(),
                n == old(v)@.len(),
                1 < n,
                done < n - 1,
                j <= n - 1 - done,
                v@.to_multiset() == old(v)@.to_multiset(),
                stable_for(old(v)@, v@),
                sorted_from(v@, n - done),
                partitioned(v@, n - done),
                forall|k: int| 0 <= k < j ==> le(v@[k], v@[j as int]),
                sorted_by(old(v)@) ==> v@ == old(v)@,
            decreases n - 1 - done - j,
        {
            let c = v[j].compare(&v[j + 1]);
            match c {
                Comparison::Incomparable => {
                    proof {
                        if all_comparable(old(v)@) {
                            lemma_multiset_comparable(
                                old(v)@,
                                v@,
                                j as int,
                                j + 1,
                            );
                        }
                        if sorted_by(old(v)@) {
                            assert(le(v@[j as int], v@[j + 1]));
                        }
                    }
                    return Err(ErrorKind::IncomparableElements);
                },
                Comparison::Greater => {
                    proof {
                        T::lemma_flip(v@[j as int], v@[j + 1]);
                        T::lemma_flip(v@[j + 1], v@[j as int]);
                        if sorted_by(old(v)@) {
                            assert(le(v@[j as int], v@[j + 1]));
                        }
                    }
                    let ghost s = v@;
                    let a = v.remove(j);
                    v.insert(j + 1, a);
                    proof {
                        broadcast use vstd::seq_lib::group_to_multiset_ensures;
                        broadcast use vstd::multiset::group_multiset_axioms;

                        assert(v@ == s.remove(j as int).insert(j + 1, s[j as int]));
                        assert(s.remove(j as int).to_multiset() == s.to_multiset().remove(
                            s[j as int],
                        ));
                        assert(s.remove(j as int).insert(j + 1, s[j as int]).to_multiset() == s
                            .remove(j as int).to_multiset().insert(s[j as int]));
                        assert(v@ =~= s.update(j as int, s[j + 1]).update(j + 1, s[j as int]));
                        assert(s.contains(s[j as int]));
                        assert(s.to_multiset().count(s[j as int]) > 0);
                        assert(v@.to_multiset() =~= s.to_multiset());
                        assert forall|x: T| #[trigger] v@.filter(tied_with(x)) == old(v)@.filter(
                            tied_with(x),
                        ) by {
                            let p = tied_with::<T>(x);
                            if p(s[j as int]) && p(s[j + 1]) {
                                lemma_tied_pair(s[j as int], s[j + 1], x);
                            }
                            lemma_swap_preserves_filter(s, j as int, p);
                            assert(s.filter(p) == old(v)@.filter(p));
                        }
                        assert forall|k: int, m: int|
                            0 <= k < n - done <= m < n implies #[trigger] le(v@[k], v@[m]) by {
                            assert(v@[m] == s[m]);
                            if k == j {
                                assert(v@[k] == s[j + 1]);
                            } else if k == j + 1 {
                                assert(v@[k] == s[j as int]);
                            } else {
                                assert(v@[k] == s[k]);
                            }
                        }
                        assert forall|k: int| 0 <= k < j + 1 implies #[trigger] le(v@[k], v@[j + 1]) by {
                            if k < j {
                                assert(v@[k] == s[k]);
                                assert(le(s[k], s[j as int]));
                            }
                        }
                        assert(sorted_from(v@, n - done)) by {
                            assert forall|k: int| n - done <= k < n - 1 implies #[trigger] le(
                                v@[k],
                                v@[k + 1],
                            ) by {
                                assert(v@[k] == s[k] && v@[k + 1] == s[k + 1]);
                                assert(le(s[k], s[k + 1]));
                            }
                        }
                    }
                },
                _ => {
                    proof {
                        assert(is_le(c));
                        assert forall|k: int| 0 <= k < j + 1 implies #[trigger] le(v@[k], v@[j + 1]) by {
                            if k < j {
                                T::lemma_transitive(v@[k], v@[j as int], v@[j + 1]);
                            }
                        }
                    }
                },
            }
            j = j + 1;
        }
        proof {
            assert(sorted_from(v@, n - done - 1)) by {
                assert forall|k: int| n - done - 1 <= k < n - 1 implies #[trigger] le(v@[k], v@[k + 1]) by {
                    if k == n - 1 - done {
                        assert(le(v@[k], v@[k + 1]));
                    }
                }
            }
            assert(partitioned(v@, n - done - 1)) by {
                assert forall|k: int, m: int|
                    0 <= k < n - done - 1 <= m < n implies #[trigger] le(v@[k], v@[m]) by {
                    if m == n - 1 - done {
                        assert(le(v@[k], v@[m]));
                    }
                }
            }
        }
        done = done + 1;
    }
    proof {
        // Passes stopped with one unsettled position at the front; the
        // partition at index 1 closes the remaining adjacent pair.
        assert(sorted_by(v@)) by {
            assert forall|k: int| 0 <= k < n - 1 implies #[trigger] le(v@[k], v@[k + 1]) by {
                if k == 0 {
                    assert(le(v@[0], v@[k + 1]));
                }
            }
        }
    }
    Ok(())
}

/// Sorts a copy of the sequence's elements into a fresh sequence, leaving
/// the input untouched; see [`sort_result`] for what success guarantees.
///
/// Reading the elements is refused with `BorrowConflict` while the
/// exclusive claim on the input's storage is live.
pub fn sort<T: ThreeWayCompare + Copy>(s: &DynamicSequence<T>) -> (r: Result<
    DynamicSequence<T>,
    ErrorKind,
>)
    ensures
        s.spec_exclusive() ==> fails_with(r, ErrorKind::BorrowConflict),
        !s.spec_exclusive() ==> {
            &&& (r matches Ok(out) ==> sort_result(s@, out@))
            &&& (r matches Err(e) ==> e == ErrorKind::IncomparableElements && !all_comparable(
                s@,
            ))
            &&& (all_comparable(s@) ==> r is Ok)
            &&& (sorted_by(s@) ==> r is Ok)
        },
{
    if s.has_exclusive() {
        return Err(ErrorKind::BorrowConflict);
    }
    let n = s.len();
    let mut data: Vec<T> = Vec::new();
    let mut i: usize = 0;
    while i < n
        invariant
            n == s@.len(),
            i <= n,
            data@ == s@.subrange(0, i as int),
        decreases n - i,
    {
        let e: T = match s.get(i) {
            Some(p) => *p,
            None => unreached(),
        };
        data.push(e);
        i = i + 1;
    }
    proof {
        assert(data@ == s@);
    }
    match sort_vec(&mut data) {
        Ok(()) => Ok(DynamicSequence::from_vec(data)),
        Err(e) => Err(e),
    }
}

} // verus!
