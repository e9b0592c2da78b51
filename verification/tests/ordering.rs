use borrowtrack::compare::Comparison;
use borrowtrack::compare::Labeled;
use borrowtrack::compare::ThreeWayCompare;
use borrowtrack::errors::ErrorKind;
use borrowtrack::map::AssociativeMap;
use borrowtrack::sequence::DynamicSequence;
use borrowtrack::sorter::sort;
use borrowtrack::sorter::sort_vec;
use borrowtrack::usage::Plan;

#[test]
fn three_way_comparison_outcomes() {
    assert_eq!(3u64.compare(&5), Comparison::Less);
    assert_eq!(5u64.compare(&5), Comparison::Equal);
    assert_eq!(7u64.compare(&5), Comparison::Greater);
    assert_eq!(Some(1u64).compare(&None), Comparison::Incomparable);
    assert_eq!(None::<u64>.compare(&None), Comparison::Equal);
}

#[test]
fn sort_orders_and_is_idempotent() {
    let mut v: Vec<u64> = vec![5, 1, 4, 2, 3, 3];
    sort_vec(&mut v).unwrap();
    assert_eq!(v, vec![1, 2, 3, 3, 4, 5]);
    let once = v.clone();
    sort_vec(&mut v).unwrap();
    assert_eq!(v, once);
}

#[test]
fn sort_handles_empty_and_single() {
    let mut empty: Vec<u64> = vec![];
    sort_vec(&mut empty).unwrap();
    assert!(empty.is_empty());
    let mut one: Vec<u64> = vec![9];
    sort_vec(&mut one).unwrap();
    assert_eq!(one, vec![9]);
}

#[test]
fn sort_is_stable_for_tied_ranks() {
    let mut tied = vec![
        Labeled { rank: 1, label: 'a' },
        Labeled { rank: 1, label: 'b' },
    ];
    sort_vec(&mut tied).unwrap();
    assert_eq!(tied[0].label, 'a');
    assert_eq!(tied[1].label, 'b');

    let mut mixed = vec![
        Labeled { rank: 2, label: 'a' },
        Labeled { rank: 1, label: 'x' },
        Labeled { rank: 2, label: 'b' },
    ];
    sort_vec(&mut mixed).unwrap();
    assert_eq!(mixed[0], Labeled { rank: 1, label: 'x' });
    assert_eq!(mixed[1], Labeled { rank: 2, label: 'a' });
    assert_eq!(mixed[2], Labeled { rank: 2, label: 'b' });
}

#[test]
fn incomparable_elements_fail_the_sort() {
    let mut v: Vec<Option<u64>> = vec![Some(2), None, Some(1)];
    assert_eq!(sort_vec(&mut v), Err(ErrorKind::IncomparableElements));
    assert_eq!(v.len(), 3);
    assert!(v.contains(&Some(1)));
    assert!(v.contains(&Some(2)));
    assert!(v.contains(&None));
}

#[test]
fn in_place_sort_needs_no_live_claims() {
    let mut s: DynamicSequence<u64> = DynamicSequence::new();
    s.push(3);
    s.push(1);
    s.push(2);
    let g = s.iter_shared().unwrap();
    assert_eq!(s.sort_in_place(), Err(ErrorKind::BorrowConflict));
    s.release(g).unwrap();
    assert_eq!(s.sort_in_place(), Ok(()));
    assert_eq!(s.get(0), Some(&1));
    assert_eq!(s.get(1), Some(&2));
    assert_eq!(s.get(2), Some(&3));
}

#[test]
fn map_insert_overwrites_and_returns_prior() {
    let mut m: AssociativeMap<u64, String> = AssociativeMap::new();
    assert_eq!(m.insert(1, String::from("germany")), None);
    assert_eq!(m.insert(2, String::from("france")), None);
    assert_eq!(m.insert(1, String::from("uganda")), Some(String::from("germany")));
    assert_eq!(m.get(&1).map(|v| v.as_str()), Some("uganda"));
    assert_eq!(m.get(&2).map(|v| v.as_str()), Some("france"));
    assert_eq!(m.get(&3), None);
}

#[test]
fn or_insert_inserts_only_when_absent() {
    let mut m: AssociativeMap<u64, String> = AssociativeMap::new();
    m.insert(2, String::from("france"));
    {
        let v = m.or_insert(2, String::from("spain"));
        assert_eq!(v.as_str(), "france");
    }
    {
        let v = m.or_insert(4, String::from("usa"));
        assert_eq!(v.as_str(), "usa");
    }
    assert_eq!(m.get(&2).map(|v| v.as_str()), Some("france"));
    assert_eq!(m.get(&4).map(|v| v.as_str()), Some("usa"));
}

#[test]
fn and_modify_updates_present_keys_only() {
    let mut m: AssociativeMap<u64, String> = AssociativeMap::new();
    m.insert(3, String::from("united kingdom"));
    m.and_modify(&3, |mut v: String| {
        v.push_str(" of great britain");
        v
    });
    assert_eq!(m.get(&3).map(|v| v.as_str()), Some("united kingdom of great britain"));
    m.and_modify(&9, |v: String| v);
    assert_eq!(m.get(&9), None);
}

#[test]
fn end_to_end_sort_and_upsert() {
    let mut s: DynamicSequence<u64> = DynamicSequence::new();
    for x in [5u64, 1, 4, 2, 3] {
        s.push(x);
    }
    let sorted = sort(&s).unwrap();
    let want = [1u64, 2, 3, 4, 5];
    assert_eq!(sorted.len(), 5);
    for (i, w) in want.iter().enumerate() {
        assert_eq!(sorted.get(i), Some(w));
    }
    for (i, w) in [5u64, 1, 4, 2, 3].iter().enumerate() {
        assert_eq!(s.get(i), Some(w));
    }

    let mut m: AssociativeMap<u64, String> = AssociativeMap::new();
    m.insert(1, String::from("a"));
    m.insert(2, String::from("b"));
    assert_eq!(m.insert(1, String::from("c")), Some(String::from("a")));
    assert_eq!(m.get(&1).map(|v| v.as_str()), Some("c"));
    assert_eq!(m.get(&2).map(|v| v.as_str()), Some("b"));
}

#[test]
fn copying_sort_refused_under_exclusive_claim() {
    let mut s: DynamicSequence<u64> = DynamicSequence::new();
    s.push(2);
    s.push(1);
    let g = s.iter_mut().unwrap();
    assert!(matches!(sort(&s), Err(ErrorKind::BorrowConflict)));
    s.release(g).unwrap();
    let sorted = sort(&s).unwrap();
    assert_eq!(sorted.get(0), Some(&1));
    assert_eq!(sorted.get(1), Some(&2));
}

#[test]
fn walkthroughs_run() {
    borrowtrack::usage::do_school();
    borrowtrack::usage::do_learn();
    let plan = Plan { budget: 600_000, priorities: String::from("Increase teacher salary") };
    assert_eq!(plan.budget, 600_000);
    assert_eq!(plan.priorities.as_str(), "Increase teacher salary");
}
