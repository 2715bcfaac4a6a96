use scbc::ledger::Ledger;
use scbc::pallet::{Error, Event, Pallet};
use scbc::record::{update_trust_rating, TRUST_INCREMENT};

#[test]
fn register_then_duplicate_fails() {
    let mut ledger = Ledger::new();
    let r1 = Pallet::register_phone_number(&mut ledger, b"+1555".to_vec());
    assert_eq!(
        r1,
        Ok(Event::RegisterPhoneNumber {
            phone_number: b"+1555".to_vec()
        })
    );
    let r2 = Pallet::register_phone_number(&mut ledger, b"+1555".to_vec());
    assert_eq!(r2, Err(Error::PhoneNumberAlreadyRegistered));
}

#[test]
fn fresh_registration_defaults() {
    let mut ledger = Ledger::new();
    Pallet::register_phone_number(&mut ledger, b"+1555".to_vec()).unwrap();
    let record = ledger.get(&b"+1555".to_vec()).unwrap();
    assert_eq!(record.trust_rating, [0u8; 16]);
    assert!(record.spam_transactions.is_empty());
    assert_eq!(record.domain, b"normal".to_vec());
    assert_eq!(record.unique_id, [0u8; 16]);
}

#[test]
fn inspect_unregistered_fails() {
    let ledger = Ledger::new();
    let r = Pallet::get_phone_number_details(&ledger, b"+1555".to_vec());
    assert_eq!(r, Err(Error::PhoneNumberNotRegistered));
}

#[test]
fn inspect_is_idempotent() {
    let mut ledger = Ledger::new();
    Pallet::register_phone_number(&mut ledger, b"+1555".to_vec()).unwrap();
    let before = ledger.get(&b"+1555".to_vec()).unwrap();
    let r1 = Pallet::get_phone_number_details(&ledger, b"+1555".to_vec());
    let r2 = Pallet::get_phone_number_details(&ledger, b"+1555".to_vec());
    let r3 = Pallet::get_phone_number_details(&ledger, b"+1555".to_vec());
    assert_eq!(r1, r2);
    assert_eq!(r2, r3);
    assert_eq!(
        r1,
        Ok(Event::GetPhoneNumberDetails {
            unique_id: [0u8; 16]
        })
    );
    let after = ledger.get(&b"+1555".to_vec()).unwrap();
    assert_eq!(before, after);
}

#[test]
fn report_spam_auto_heals_absent_id() {
    let mut ledger = Ledger::new();
    let r = Pallet::report_spam(
        &mut ledger,
        b"+1555".to_vec(),
        b"alice".to_vec(),
        vec![0xAA],
        b"t0".to_vec(),
    );
    assert_eq!(
        r,
        Ok(Event::ReportSPAM {
            caller: b"alice".to_vec(),
            phone_number: b"+1555".to_vec(),
            timestamp: b"t0".to_vec(),
        })
    );
    let record = ledger.get(&b"+1555".to_vec()).unwrap();
    assert_eq!(record.trust_rating, [10u8; 16]);
    assert_eq!(record.spam_transactions, vec![vec![0xAA]]);
    // The very first report already pushes the trust sum to 160 > 50.
    assert_eq!(record.domain, b"spam".to_vec());
}

#[test]
fn trust_rating_saturates_at_255() {
    let mut rating = [0u8; 16];
    for _ in 0..30 {
        rating = update_trust_rating(&rating, TRUST_INCREMENT);
    }
    assert_eq!(rating, [255u8; 16]);
    // One more update must not wrap back to 0.
    rating = update_trust_rating(&rating, TRUST_INCREMENT);
    assert_eq!(rating, [255u8; 16]);
}

#[test]
fn spam_log_grows_by_one_per_report() {
    let mut ledger = Ledger::new();
    for n in 1..=5usize {
        // The same reference every time: repeats are not deduplicated.
        Pallet::report_spam(
            &mut ledger,
            b"+1555".to_vec(),
            b"alice".to_vec(),
            vec![0xAA],
            b"t".to_vec(),
        )
        .unwrap();
        let record = ledger.get(&b"+1555".to_vec()).unwrap();
        assert_eq!(record.spam_transactions.len(), n);
    }
}

#[test]
fn spam_domain_never_reverts() {
    let mut ledger = Ledger::new();
    Pallet::report_spam(
        &mut ledger,
        b"+1555".to_vec(),
        b"alice".to_vec(),
        vec![0x01],
        b"t0".to_vec(),
    )
    .unwrap();
    assert_eq!(
        ledger.get(&b"+1555".to_vec()).unwrap().domain,
        b"spam".to_vec()
    );
    // A duplicate registration, inspections, and further reports on this
    // and other identifiers leave the classification alone.
    let _ = Pallet::register_phone_number(&mut ledger, b"+1555".to_vec());
    let _ = Pallet::get_phone_number_details(&ledger, b"+1555".to_vec());
    Pallet::register_phone_number(&mut ledger, b"+1777".to_vec()).unwrap();
    Pallet::report_spam(
        &mut ledger,
        b"+1555".to_vec(),
        b"bob".to_vec(),
        vec![0x02],
        b"t1".to_vec(),
    )
    .unwrap();
    assert_eq!(
        ledger.get(&b"+1555".to_vec()).unwrap().domain,
        b"spam".to_vec()
    );
}

#[test]
fn full_scenario() {
    let mut ledger = Ledger::new();

    let r = Pallet::register_phone_number(&mut ledger, b"+1555".to_vec());
    assert!(r.is_ok());
    let record = ledger.get(&b"+1555".to_vec()).unwrap();
    assert_eq!(record.domain, b"normal".to_vec());
    assert!(record.spam_transactions.is_empty());

    let r = Pallet::register_phone_number(&mut ledger, b"+1555".to_vec());
    assert_eq!(r, Err(Error::PhoneNumberAlreadyRegistered));

    let r = Pallet::report_spam(
        &mut ledger,
        b"+1555".to_vec(),
        b"carol".to_vec(),
        vec![0xAA],
        b"t0".to_vec(),
    );
    assert!(r.is_ok());
    let record = ledger.get(&b"+1555".to_vec()).unwrap();
    assert_eq!(record.trust_rating, [10u8; 16]);
    assert_eq!(record.spam_transactions, vec![vec![0xAA]]);
    assert_eq!(record.domain, b"spam".to_vec());

    let r = Pallet::get_phone_number_details(&ledger, b"+1555".to_vec());
    assert_eq!(
        r,
        Ok(Event::GetPhoneNumberDetails {
            unique_id: [0u8; 16]
        })
    );
}
