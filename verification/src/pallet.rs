//! The reputation state machine: validates and applies one operation at a
//! time against the ledger store, returning either a notification for the
//! host to deliver or a typed failure.

use vstd::prelude::*;

use crate::ledger::Ledger;
use crate::record::{
    clone_bytes, fresh_record, reported_record, spam_tag_vec, trust_rating_sum,
    update_domain_type, update_trust_rating, PhoneRecord, RecordView, SPAM_THRESHOLD,
    TRUST_INCREMENT,
};

verus! {

/// The typed failures an operation can signal. Only
/// `PhoneNumberAlreadyRegistered` and `PhoneNumberNotRegistered` are
/// triggered by the operations defined here; the rest are reserved for
/// future operations and must not be wired to behaviour.
#[derive(Clone, Copy, Debug, PartialEq, Eq, Structural)]
pub enum Error {
    /// The phone number is already registered
    PhoneNumberAlreadyRegistered,
    /// The domain is already registered
    DomainAlreadyRegistered,
    /// The phone number is not registered
    PhoneNumberNotRegistered,
    /// The domain is not registered
    DomainNotRegistered,
    /// The phone number is not spam
    PhoneNumberNotSpam,
    /// The domain is not spam
    DomainNotSpam,
    /// The phone number is spam
    PhoneNumberSpam,
    /// The domain is spam
    DomainSpam,
}

/// The notification emitted on a successful operation, for the host's
/// eventing layer to deliver.
#[derive(Debug, PartialEq, Eq)]
pub enum Event {
    RegisterPhoneNumber { phone_number: Vec<u8> },
    GetPhoneNumberDetails { unique_id: [u8; 16] },
    ReportSPAM { caller: Vec<u8>, phone_number: Vec<u8>, timestamp: Vec<u8> },
}

/// Mathematical model of an [`Event`].
pub enum EventView {
    RegisterPhoneNumber { phone_number: Seq<u8> },
    GetPhoneNumberDetails { unique_id: Seq<u8> },
    ReportSPAM { caller: Seq<u8>, phone_number: Seq<u8>, timestamp: Seq<u8> },
}

impl View for Event {
    type V = EventView;

    open spec fn view(&self) -> EventView {
        match self {
            Event::RegisterPhoneNumber { phone_number } => EventView::RegisterPhoneNumber {
                phone_number: phone_number@,
            },
            Event::GetPhoneNumberDetails { unique_id } => EventView::GetPhoneNumberDetails {
                unique_id: unique_id@,
            },
            Event::ReportSPAM { caller, phone_number, timestamp } => EventView::ReportSPAM {
                caller: caller@,
                phone_number: phone_number@,
                timestamp: timestamp@,
            },
        }
    }
}

/// An operation's outcome with the notification taken to its model.
pub open spec fn result_view(r: Result<Event, Error>) -> Result<EventView, Error> {
    match r {
        Ok(event) => Ok(event@),
        Err(e) => Err(e),
    }
}

/// The store after registering `phone_number`: unchanged when the
/// identifier already has a record, else extended with a fresh record.
pub open spec fn register_map(
    m: Map<Seq<u8>, RecordView>,
    phone_number: Seq<u8>,
) -> Map<Seq<u8>, RecordView> {
    if m.contains_key(phone_number) {
        m
    } else {
        m.insert(phone_number, fresh_record())
    }
}

/// The outcome of registering `phone_number` against store `m`.
pub open spec fn register_result(
    m: Map<Seq<u8>, RecordView>,
    phone_number: Seq<u8>,
) -> Result<EventView, Error> {
    if m.contains_key(phone_number) {
        Err(Error::PhoneNumberAlreadyRegistered)
    } else {
        Ok(EventView::RegisterPhoneNumber { phone_number })
    }
}

/// The outcome of inspecting `phone_number` in store `m`; the store itself
/// is never changed by an inspection.
pub open spec fn inspect_result(
    m: Map<Seq<u8>, RecordView>,
    phone_number: Seq<u8>,
) -> Result<EventView, Error> {
    if m.contains_key(phone_number) {
        Ok(EventView::GetPhoneNumberDetails { unique_id: m[phone_number].unique_id })
    } else {
        Err(Error::PhoneNumberNotRegistered)
    }
}

/// The store after a spam report against `phone_number`: the identifier's
/// record — a fresh one if it was never seen — with the report applied.
pub open spec fn report_spam_map(
    m: Map<Seq<u8>, RecordView>,
    phone_number: Seq<u8>,
    reference: Seq<u8>,
) -> Map<Seq<u8>, RecordView> {
    let current = if m.contains_key(phone_number) {
        m[phone_number]
    } else {
        fresh_record()
    };
    m.insert(phone_number, reported_record(current, reference))
}

/// The outcome of a spam report: it always succeeds.
pub open spec fn report_spam_result(
    caller: Seq<u8>,
    phone_number: Seq<u8>,
    timestamp: Seq<u8>,
) -> Result<EventView, Error> {
    Ok(EventView::ReportSPAM { caller, phone_number, timestamp })
}

/// The reputation state machine. Each operation takes the host-owned
/// [`Ledger`] by reference, together with the already-authenticated inputs,
/// and applies a single atomic read-modify-write (or a pure read).
pub struct Pallet;

impl Pallet {
    /// Registers `phone_number` with a freshly initialized record. Fails
    /// with [`Error::PhoneNumberAlreadyRegistered`] — leaving the store
    /// untouched — exactly when the identifier already has a record.
    pub fn register_phone_number(ledger: &mut Ledger, phone_number: Vec<u8>) -> (r: Result<
        Event,
        Error,
    >)
        requires
            old(ledger).wf(),
        ensures
            final(ledger).wf(),
            final(ledger)@ == register_map(old(ledger)@, phone_number@),
            result_view(r) == register_result(old(ledger)@, phone_number@),
    {
        if ledger.contains(&phone_number) {
            return Err(Error::PhoneNumberAlreadyRegistered);
        }
        let registered = clone_bytes(&phone_number);
        ledger.insert(phone_number, PhoneRecord::fresh());
        Ok(Event::RegisterPhoneNumber { phone_number: registered })
    }

    /// Surfaces the reserved `unique_id` of the record for `phone_number`.
    /// Read-only: the store is taken by shared reference. Fails with
    /// [`Error::PhoneNumberNotRegistered`] exactly when the identifier has
    /// no record.
    pub fn get_phone_number_details(ledger: &Ledger, phone_number: Vec<u8>) -> (r: Result<
        Event,
        Error,
    >)
        requires
            ledger.wf(),
        ensures
            result_view(r) == inspect_result(ledger@, phone_number@),
    {
        match ledger.get(&phone_number) {
            Some(record) => Ok(Event::GetPhoneNumberDetails { unique_id: record.unique_id }),
            None => Err(Error::PhoneNumberNotRegistered),
        }
    }

    /// Records a spam report against `phone_number`: fetches the record —
    /// default-initializing one for a never-seen identifier — bumps every
    /// trust slot, appends `reference` to the log, reclassifies the domain
    /// as `"spam"` when the new trust sum strictly exceeds the threshold,
    /// and writes the record back. Never fails.
    pub fn report_spam(
        ledger: &mut Ledger,
        phone_number: Vec<u8>,
        caller: Vec<u8>,
        reference: Vec<u8>,
        timestamp: Vec<u8>,
    ) -> (r: Result<Event, Error>)
        requires
            old(ledger).wf(),
        ensures
            final(ledger).wf(),
            final(ledger)@ == report_spam_map(old(ledger)@, phone_number@, reference@),
            result_view(r) == report_spam_result(caller@, phone_number@, timestamp@),
    {
        let updated = match ledger.get(&phone_number) {
            Some(record) => apply_report(record, reference),
            None => {
                let fresh = PhoneRecord::fresh();
                apply_report(&fresh, reference)
            },
        };
        let key = clone_bytes(&phone_number);
        ledger.upsert(key, updated);
        Ok(Event::ReportSPAM { caller, phone_number, timestamp })
    }
}

/// One spam report applied to a record: the read-modify-write core shared
/// by both the seen and the never-seen paths of a report.
fn apply_report(record: &PhoneRecord, reference: Vec<u8>) -> (updated: PhoneRecord)
    ensures
        updated@ == reported_record(record@, reference@),
{
    let trust_rating = update_trust_rating(&record.trust_rating, TRUST_INCREMENT);
    let mut spam_transactions = clone_hashes(&record.spam_transactions);
    spam_transactions.push(reference);
    let domain = if trust_rating_sum(&trust_rating) > SPAM_THRESHOLD {
        let tag = spam_tag_vec();
        update_domain_type(&record.domain, tag.as_slice())
    } else {
        clone_bytes(&record.domain)
    };
    let updated = PhoneRecord {
        trust_rating,
        spam_transactions,
        domain,
        unique_id: record.unique_id,
    };
    proof {
        assert(updated@ =~= reported_record(record@, reference@));
    }
    updated
}

/// An owned copy of a transaction log.
fn clone_hashes(transactions: &Vec<Vec<u8>>) -> (r: Vec<Vec<u8>>)
    ensures
        crate::record::hashes_view(r) == crate::record::hashes_view(*transactions),
{
    let mut r: Vec<Vec<u8>> = Vec::new();
    let mut i: usize = 0;
    while i < transactions.len()
        invariant
            i <= transactions.len(),
            r@.len() == i,
            forall|j: int| 0 <= j < i ==> r@[j]@ == transactions@[j]@,
        decreases transactions.len() - i,
    {
        r.push(clone_bytes(&transactions[i]));
        i += 1;
    }
    proof {
        assert(crate::record::hashes_view(r) =~= crate::record::hashes_view(*transactions));
    }
    r
}

} // verus!
