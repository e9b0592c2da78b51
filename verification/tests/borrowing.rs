use borrowtrack::errors::ErrorKind;
use borrowtrack::registry::BorrowState;
use borrowtrack::registry::OwnershipRegistry;
use borrowtrack::sequence::DynamicSequence;

#[test]
fn length_tracks_pushes_and_capacity_covers_length() {
    let mut s: DynamicSequence<u64> = DynamicSequence::new();
    for k in 0..10u64 {
        assert_eq!(s.len() as u64, k);
        assert!(s.capacity() >= s.len());
        s.push(k);
    }
    assert_eq!(s.len(), 10);
    assert!(s.capacity() >= 10);
}

#[test]
fn exclusive_conflicts_with_live_shared() {
    let mut reg: OwnershipRegistry<u64> = OwnershipRegistry::new();
    let id = reg.register(7);
    let g1 = reg.acquire_shared(id).unwrap();
    assert!(matches!(reg.acquire_exclusive(id), Err(ErrorKind::BorrowConflict)));
    let g2 = reg.acquire_shared(id).unwrap();
    assert_eq!(reg.record_state(id), Some(BorrowState::SharedBorrowed { count: 2 }));
    reg.release(g1).unwrap();
    reg.release(g2).unwrap();
    assert_eq!(reg.record_state(id), Some(BorrowState::Unborrowed));
    let g3 = reg.acquire_exclusive(id).unwrap();
    assert!(matches!(reg.acquire_shared(id), Err(ErrorKind::BorrowConflict)));
    reg.release(g3).unwrap();
}

#[test]
fn guard_goes_stale_after_reallocation() {
    let mut s: DynamicSequence<u64> = DynamicSequence::with_capacity(1);
    s.push(10);
    let g = s.iter_shared().unwrap();
    assert_eq!(s.read_at(&g, 0), Ok(&10));
    s.push(20);
    assert_eq!(s.read_at(&g, 0), Err(ErrorKind::StaleBorrow));
    assert_eq!(s.shared_count(), 0);
    assert_eq!(s.release(g), Ok(()));
    assert_eq!(s.get(0), Some(&10));
    assert_eq!(s.get(1), Some(&20));
}

#[test]
fn use_after_move_fails_every_time() {
    let mut reg: OwnershipRegistry<String> = OwnershipRegistry::new();
    let id = reg.register(String::from("alpha"));
    assert_eq!(reg.move_out(id), Ok(String::from("alpha")));
    assert_eq!(reg.move_out(id), Err(ErrorKind::UseAfterMove));
    assert_eq!(reg.move_out(id), Err(ErrorKind::UseAfterMove));
    assert!(matches!(reg.acquire_shared(id), Err(ErrorKind::UseAfterMove)));
    assert!(matches!(reg.acquire_exclusive(id), Err(ErrorKind::UseAfterMove)));
    assert_eq!(reg.record_state(id), None);
}

#[test]
fn move_out_refused_while_borrowed() {
    let mut reg: OwnershipRegistry<u64> = OwnershipRegistry::new();
    let id = reg.register(3);
    let g = reg.acquire_shared(id).unwrap();
    assert_eq!(reg.move_out(id), Err(ErrorKind::BorrowConflict));
    reg.release(g).unwrap();
    assert_eq!(reg.move_out(id), Ok(3));
}

#[test]
fn clone_value_copies_and_respects_exclusive() {
    let mut reg: OwnershipRegistry<u64> = OwnershipRegistry::new();
    let id = reg.register(5);
    let nid = reg.clone_value(id).unwrap();
    assert_ne!(id, nid);
    assert_eq!(reg.move_out(nid), Ok(5));
    let g = reg.acquire_exclusive(id).unwrap();
    assert_eq!(reg.clone_value(id), Err(ErrorKind::BorrowConflict));
    reg.release(g).unwrap();
    assert_eq!(reg.move_out(id), Ok(5));
}

#[test]
fn registry_teardown_reports_live_guards() {
    let mut reg: OwnershipRegistry<u64> = OwnershipRegistry::new();
    let id = reg.register(1);
    let _guard = reg.acquire_shared(id).unwrap();
    assert_eq!(reg.teardown(), Err(ErrorKind::UseAfterFree));

    let mut quiet: OwnershipRegistry<u64> = OwnershipRegistry::new();
    let qid = quiet.register(2);
    let g = quiet.acquire_shared(qid).unwrap();
    quiet.release(g).unwrap();
    assert_eq!(quiet.teardown(), Ok(()));
}

#[test]
fn sequence_dispose_reports_live_guards() {
    let mut s: DynamicSequence<u64> = DynamicSequence::new();
    s.push(1);
    let _guard = s.iter_shared().unwrap();
    assert_eq!(s.dispose(), Err(ErrorKind::UseAfterFree));

    let mut quiet: DynamicSequence<u64> = DynamicSequence::new();
    quiet.push(1);
    assert_eq!(quiet.dispose(), Ok(()));
}

#[test]
fn direct_index_distinguishes_out_of_bounds() {
    let mut s: DynamicSequence<u64> = DynamicSequence::new();
    s.push(4);
    assert_eq!(s.index(0), Ok(&4));
    assert_eq!(s.index(1), Err(ErrorKind::IndexOutOfBounds));
    assert_eq!(s.get(1), None);
}

#[test]
fn get_mut_edits_in_place() {
    let mut s: DynamicSequence<u64> = DynamicSequence::new();
    s.push(1);
    s.push(2);
    if let Some(p) = s.get_mut(1) {
        *p = 7;
    }
    assert_eq!(s.get(1), Some(&7));
    assert!(s.get_mut(9).is_none());
}

#[test]
fn direct_set_respects_bounds_and_claims() {
    let mut s: DynamicSequence<u64> = DynamicSequence::new();
    s.push(1);
    s.push(2);
    assert_eq!(s.set(1, 5), Ok(()));
    assert_eq!(s.get(1), Some(&5));
    assert_eq!(s.set(9, 5), Err(ErrorKind::IndexOutOfBounds));
    let g = s.iter_shared().unwrap();
    assert_eq!(s.set(0, 7), Err(ErrorKind::BorrowConflict));
    s.release(g).unwrap();
    assert_eq!(s.set(0, 7), Ok(()));
    assert_eq!(s.get(0), Some(&7));
}

#[test]
fn guarded_writes_need_the_exclusive_guard() {
    let mut s: DynamicSequence<u64> = DynamicSequence::new();
    s.push(1);
    s.push(2);
    let g = s.iter_mut().unwrap();
    assert!(matches!(s.iter_shared(), Err(ErrorKind::BorrowConflict)));
    assert_eq!(s.write_at(&g, 0, 9), Ok(()));
    assert_eq!(s.read_at(&g, 0), Ok(&9));
    assert_eq!(s.write_at(&g, 9, 1), Err(ErrorKind::IndexOutOfBounds));
    s.release(g).unwrap();
    let g2 = s.iter_shared().unwrap();
    assert_eq!(s.write_at(&g2, 0, 7), Err(ErrorKind::BorrowConflict));
    s.release(g2).unwrap();
}

#[test]
fn stale_exclusive_guard_cannot_write() {
    let mut s: DynamicSequence<u64> = DynamicSequence::with_capacity(1);
    s.push(1);
    let g = s.iter_mut().unwrap();
    s.push(2);
    assert_eq!(s.write_at(&g, 0, 9), Err(ErrorKind::StaleBorrow));
    assert_eq!(s.get(0), Some(&1));
    assert_eq!(s.release(g), Ok(()));
}

#[test]
fn generation_advances_only_on_reallocation() {
    let mut s: DynamicSequence<u64> = DynamicSequence::with_capacity(2);
    assert_eq!(s.generation(), 0);
    s.push(1);
    s.push(2);
    assert_eq!(s.generation(), 0);
    s.push(3);
    assert_eq!(s.generation(), 1);
    assert!(s.capacity() >= 3);
}
