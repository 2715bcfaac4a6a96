use scbc::ledger::Ledger;
use scbc::record::{
    trust_rating_sum, update_domain_type, update_trust_rating, PhoneRecord, SPAM_THRESHOLD,
};

#[test]
fn empty_store_contains_nothing() {
    let ledger = Ledger::new();
    assert!(!ledger.contains(&b"+1555".to_vec()));
    assert!(ledger.get(&b"+1555".to_vec()).is_none());
}

#[test]
fn insert_then_lookup() {
    let mut ledger = Ledger::new();
    ledger.insert(b"+1555".to_vec(), PhoneRecord::fresh());
    assert!(ledger.contains(&b"+1555".to_vec()));
    assert!(!ledger.contains(&b"+1777".to_vec()));
    let record = ledger.get(&b"+1555".to_vec()).unwrap();
    assert_eq!(record, &PhoneRecord::fresh());
}

#[test]
fn case_variants_are_distinct_keys() {
    // No normalization: byte-for-byte distinct identifiers get distinct records.
    let mut ledger = Ledger::new();
    ledger.insert(b"+1555 ".to_vec(), PhoneRecord::fresh());
    assert!(!ledger.contains(&b"+1555".to_vec()));
}

#[test]
fn insert_overwrites_existing_record() {
    let mut ledger = Ledger::new();
    ledger.insert(b"+1555".to_vec(), PhoneRecord::fresh());
    let mut replacement = PhoneRecord::fresh();
    replacement.trust_rating = [7u8; 16];
    ledger.insert(b"+1555".to_vec(), replacement);
    assert_eq!(
        ledger.get(&b"+1555".to_vec()).unwrap().trust_rating,
        [7u8; 16]
    );
}

#[test]
fn upsert_behaves_as_insert() {
    let mut ledger = Ledger::new();
    ledger.upsert(b"+1555".to_vec(), PhoneRecord::fresh());
    let mut replacement = PhoneRecord::fresh();
    replacement.domain = b"spam".to_vec();
    ledger.upsert(b"+1555".to_vec(), replacement);
    assert_eq!(
        ledger.get(&b"+1555".to_vec()).unwrap().domain,
        b"spam".to_vec()
    );
}

#[test]
fn trust_update_is_uniform_broadcast() {
    let rating = [0u8, 1, 2, 3, 4, 5, 6, 7, 8, 9, 10, 11, 12, 13, 14, 250];
    let bumped = update_trust_rating(&rating, 10);
    assert_eq!(
        bumped,
        [10u8, 11, 12, 13, 14, 15, 16, 17, 18, 19, 20, 21, 22, 23, 24, 255]
    );
}

#[test]
fn trust_sum_is_wide() {
    // 16 slots of 255 sum to 4080, far past what an 8-bit sum could hold.
    assert_eq!(trust_rating_sum(&[255u8; 16]), 4080);
    assert_eq!(trust_rating_sum(&[10u8; 16]), 160);
    assert_eq!(trust_rating_sum(&[0u8; 16]), 0);
    assert!(trust_rating_sum(&[10u8; 16]) > SPAM_THRESHOLD);
}

#[test]
fn domain_update_replaces_content() {
    let domain = b"normal".to_vec();
    let updated = update_domain_type(&domain, b"spam");
    // Clear-then-write: no residue of the longer previous tag remains.
    assert_eq!(updated, b"spam".to_vec());
}
