use summonerd::admission::{banned_contains, bid_for, AdmissionError, MIN_BID_AMOUNT};
use summonerd::coordinator::CeremonyError;
use summonerd::ledger::{bytes_eq, LedgerError, Slot, Storage, TipSource};

fn fresh() -> Storage {
    Storage::initialize(false, vec![0xAA, 0xBB]).unwrap()
}

fn tip_bytes(s: &Storage) -> (bool, Vec<u8>) {
    match s.current_crs() {
        TipSource::Root(p) => (true, p.clone()),
        TipSource::Contribution(p) => (false, p.clone()),
    }
}

#[test]
fn fresh_store_tip_is_root() {
    let s = fresh();
    assert_eq!(s.current_slot(), 0);
    assert_eq!(tip_bytes(&s), (true, vec![0xAA, 0xBB]));
    assert_eq!(s.root(), &vec![0xAA, 0xBB]);
}

#[test]
fn initialize_over_existing_store_fails() {
    assert_eq!(Storage::initialize(true, vec![1]).err(), Some(LedgerError::AlreadyExists));
}

#[test]
fn commit_assigns_next_slot_and_moves_tip() {
    let mut s = fresh();
    assert_eq!(s.commit_contribution(vec![7], vec![1, 2, 3], 0), Ok(1));
    assert_eq!(s.current_slot(), 1);
    assert_eq!(tip_bytes(&s), (false, vec![1, 2, 3]));
    assert_eq!(s.commit_contribution(vec![8], vec![4], 1), Ok(2));
    assert_eq!(s.current_slot(), 2);
    assert_eq!(tip_bytes(&s), (false, vec![4]));
    assert_eq!(s.root(), &vec![0xAA, 0xBB]);
}

#[test]
fn slot_numbers_are_gap_free() {
    let mut s = fresh();
    for k in 0..5u64 {
        assert_eq!(s.commit_contribution(vec![k as u8], vec![k as u8, 1], k), Ok(k + 1));
    }
    let rows = s.rows();
    assert_eq!(rows.len(), 6);
    for (i, row) in rows.iter().enumerate() {
        assert_eq!(row.slot_number, i as u64);
        assert_eq!(row.is_root, i == 0);
        assert_eq!(row.contributor.is_none(), i == 0);
    }
    assert!(s.slot(5).is_some());
    assert!(s.slot(6).is_none());
}

#[test]
fn stale_tip_conflicts_then_retry_succeeds() {
    let mut s = fresh();
    assert_eq!(s.commit_contribution(vec![1], vec![10], 0), Ok(1));
    assert_eq!(s.commit_contribution(vec![2], vec![20], 0), Err(LedgerError::Conflict));
    assert_eq!(s.current_slot(), 1);
    assert_eq!(tip_bytes(&s), (false, vec![10]));
    assert_eq!(s.commit_contribution(vec![2], vec![21], 1), Ok(2));
    assert_eq!(tip_bytes(&s), (false, vec![21]));
}

#[test]
fn reload_keeps_slot_and_tip() {
    let mut s = fresh();
    for k in 0..3u64 {
        s.commit_contribution(vec![k as u8 + 1], vec![9, k as u8], k).unwrap();
    }
    let rows: Vec<Slot> = s
        .rows()
        .iter()
        .map(|r| Slot {
            slot_number: r.slot_number,
            is_root: r.is_root,
            payload: r.payload.clone(),
            contributor: r.contributor.clone(),
        })
        .collect();
    let before = tip_bytes(&s);
    let t = Storage::load(true, rows).unwrap();
    assert_eq!(t.current_slot(), 3);
    assert_eq!(tip_bytes(&t), before);
    assert_eq!(t.root(), &vec![0xAA, 0xBB]);
}

#[test]
fn load_errors() {
    assert_eq!(Storage::load(false, vec![]).err(), Some(LedgerError::StoreUnavailable));
    assert_eq!(Storage::load(true, vec![]).err(), Some(LedgerError::MissingRoot));
    let gap = vec![
        Slot { slot_number: 0, is_root: true, payload: vec![1], contributor: None },
        Slot { slot_number: 2, is_root: false, payload: vec![2], contributor: Some(vec![3]) },
    ];
    assert_eq!(Storage::load(true, gap).err(), Some(LedgerError::CorruptSlot(1)));
    let no_root = vec![Slot { slot_number: 0, is_root: false, payload: vec![1], contributor: None }];
    assert_eq!(Storage::load(true, no_root).err(), Some(LedgerError::CorruptSlot(0)));
    let anonymous = vec![
        Slot { slot_number: 0, is_root: true, payload: vec![1], contributor: None },
        Slot { slot_number: 1, is_root: false, payload: vec![2], contributor: None },
    ];
    assert_eq!(Storage::load(true, anonymous).err(), Some(LedgerError::CorruptSlot(1)));
}

#[test]
fn load_or_initialize_branches_on_existence() {
    let s = Storage::load_or_initialize(false, vec![], vec![5]).unwrap();
    assert_eq!(s.current_slot(), 0);
    assert_eq!(s.root(), &vec![5]);
    let rows = vec![
        Slot { slot_number: 0, is_root: true, payload: vec![6], contributor: None },
        Slot { slot_number: 1, is_root: false, payload: vec![7], contributor: Some(vec![1]) },
    ];
    let t = Storage::load_or_initialize(true, rows, vec![5]).unwrap();
    assert_eq!(t.current_slot(), 1);
    assert_eq!(t.root(), &vec![6]);
    assert_eq!(Storage::load_or_initialize(true, vec![], vec![5]).err(), Some(LedgerError::MissingRoot));
}

#[test]
fn bid_threshold() {
    assert_eq!(MIN_BID_AMOUNT, 1);
    assert_eq!(bid_for(0), None);
    assert_eq!(bid_for(1), Some(1));
    assert_eq!(bid_for(5), Some(5));
    assert_eq!(bid_for(u128::MAX), Some(u128::MAX));
}

#[test]
fn admission_rejects_banned_and_repeat_contributors() {
    let mut s = fresh();
    let banned = vec![vec![9, 9]];
    assert!(banned_contains(&banned, &vec![9, 9]));
    assert!(!banned_contains(&banned, &vec![9]));
    assert_eq!(s.can_contribute(&vec![9, 9], 100, &banned), Err(AdmissionError::Banned));
    assert_eq!(s.can_contribute(&vec![4], 100, &banned), Ok(Some(100)));
    s.commit_contribution(vec![4], vec![1], 0).unwrap();
    assert!(s.has_contributed(&vec![4]));
    assert!(!s.has_contributed(&vec![4, 0]));
    assert_eq!(s.can_contribute(&vec![4], 100, &banned), Err(AdmissionError::AlreadyContributed));
}

#[test]
fn byte_equality() {
    assert!(bytes_eq(&vec![], &vec![]));
    assert!(bytes_eq(&vec![1, 2], &vec![1, 2]));
    assert!(!bytes_eq(&vec![1, 2], &vec![1, 3]));
    assert!(!bytes_eq(&vec![1], &vec![1, 2]));
}

#[test]
fn ceremony_scenario_with_two_contenders() {
    let mut s = fresh();
    let none: Vec<Vec<u8>> = vec![];
    let a = vec![0xA];
    let b = vec![0xB];
    let c = vec![0xC];
    assert_eq!(s.can_contribute(&a, 0, &none), Ok(None));
    assert_eq!(s.can_contribute(&b, 5, &none), Ok(Some(5)));
    // B and C both validated against the root, slot 0.
    assert_eq!(s.attempt_contribution(b.clone(), 5, &none, 0, Some(vec![0xB1])), Ok(1));
    assert_eq!(s.current_slot(), 1);
    assert_eq!(tip_bytes(&s), (false, vec![0xB1]));
    assert_eq!(
        s.attempt_contribution(c.clone(), 3, &none, 0, Some(vec![0xC1])),
        Err(CeremonyError::Ledger(LedgerError::Conflict))
    );
    assert_eq!(s.current_slot(), 1);
    // C re-validates against slot 1's tip and succeeds.
    assert_eq!(s.attempt_contribution(c, 3, &none, 1, Some(vec![0xC2])), Ok(2));
    assert_eq!(tip_bytes(&s), (false, vec![0xC2]));
}

#[test]
fn attempt_errors() {
    let mut s = fresh();
    let banned = vec![vec![1]];
    assert_eq!(s.attempt_contribution(vec![2], 0, &banned, 0, Some(vec![1])), Err(CeremonyError::Ineligible));
    assert_eq!(
        s.attempt_contribution(vec![1], 9, &banned, 0, Some(vec![1])),
        Err(CeremonyError::Admission(AdmissionError::Banned))
    );
    assert_eq!(s.attempt_contribution(vec![2], 9, &banned, 0, None), Err(CeremonyError::Rejected));
    assert_eq!(s.current_slot(), 0);
    assert_eq!(s.attempt_contribution(vec![2], 9, &banned, 0, Some(vec![3])), Ok(1));
    assert_eq!(
        s.attempt_contribution(vec![2], 9, &banned, 1, Some(vec![4])),
        Err(CeremonyError::Admission(AdmissionError::AlreadyContributed))
    );
}
