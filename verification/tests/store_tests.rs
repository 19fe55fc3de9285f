use authcore::errors::Error;
use authcore::store::{CodeStore, CODE_LENGTH, CODE_TTL_SECONDS};

#[test]
fn issued_code_has_configured_length() {
    let mut store = CodeStore::new();
    let code = store.issue(11, 1_000).expect("issue");
    assert_eq!(code.len(), CODE_LENGTH);
}

#[test]
fn issued_code_redeems_exactly_once() {
    let mut store = CodeStore::new();
    let code = store.issue(11, 1_000).expect("issue");
    assert_eq!(store.redeem(&code, 1_100), Ok(11));
    assert_eq!(store.redeem(&code, 1_100), Err(Error::NotFound));
}

#[test]
fn code_is_live_just_before_ttl_elapses() {
    let mut store = CodeStore::new();
    let code = store.issue(5, 1_000).expect("issue");
    assert_eq!(store.redeem(&code, 1_000 + CODE_TTL_SECONDS - 1), Ok(5));
}

#[test]
fn code_not_redeemed_within_ttl_is_not_found() {
    let mut store = CodeStore::new();
    let code = store.issue(5, 1_000).expect("issue");
    assert_eq!(
        store.redeem(&code, 1_000 + CODE_TTL_SECONDS),
        Err(Error::NotFound)
    );
}

#[test]
fn lapsed_code_stays_gone_even_for_an_earlier_instant() {
    let mut store = CodeStore::new();
    let code = store.issue(5, 1_000).expect("issue");
    assert_eq!(store.redeem(&code, 2_000), Err(Error::NotFound));
    assert_eq!(store.redeem(&code, 1_001), Err(Error::NotFound));
}

#[test]
fn insert_is_set_if_absent() {
    let mut store = CodeStore::new();
    assert!(store.insert(vec![1, 2, 3], 8, 100));
    assert!(!store.insert(vec![1, 2, 3], 9, 200));
    assert_eq!(store.redeem(&[1, 2, 3], 50), Ok(8));
}

#[test]
fn absent_code_is_not_found() {
    let mut store = CodeStore::new();
    assert_eq!(store.redeem(&[1, 2, 3], 0), Err(Error::NotFound));
}

#[test]
fn two_issued_codes_differ() {
    let mut store = CodeStore::new();
    let a = store.issue(1, 1_000).expect("issue");
    let b = store.issue(2, 1_000).expect("issue");
    assert_ne!(a, b);
}

#[test]
fn sweep_evicts_lapsed_entries_and_keeps_live_ones() {
    let mut store = CodeStore::new();
    assert!(store.insert(vec![1], 1, 100));
    assert!(store.insert(vec![2], 2, 200));
    store.sweep(100);
    assert_eq!(store.redeem(&[1], 50), Err(Error::NotFound));
    assert_eq!(store.redeem(&[2], 150), Ok(2));
}

#[test]
fn redeeming_one_code_leaves_others_bound() {
    let mut store = CodeStore::new();
    let a = store.issue(1, 1_000).expect("issue");
    let b = store.issue(2, 1_000).expect("issue");
    assert_eq!(store.redeem(&a, 1_001), Ok(1));
    assert_eq!(store.redeem(&b, 1_002), Ok(2));
}
