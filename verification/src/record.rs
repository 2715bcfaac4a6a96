//! The per-identifier trust record and the two update algorithms that
//! spam reports run on it.

use vstd::prelude::*;

verus! {

/// Number of slots in a record's trust-rating bank.
pub const TRUST_SLOTS: usize = 16;

/// Amount saturating-added to every trust slot on each spam report.
pub const TRUST_INCREMENT: u8 = 10;

/// A record whose trust-rating sum strictly exceeds this is classified as spam.
pub const SPAM_THRESHOLD: u32 = 50;

/// Mathematical model of a [`PhoneRecord`].
#[verifier::ext_equal]
pub struct RecordView {
    pub trust_rating: Seq<u8>,
    pub spam_transactions: Seq<Seq<u8>>,
    pub domain: Seq<u8>,
    pub unique_id: Seq<u8>,
}

/// The byte content of the `"normal"` classification tag.
pub open spec fn normal_tag() -> Seq<u8> {
    seq![110u8, 111u8, 114u8, 109u8, 97u8, 108u8]
}

/// The byte content of the `"spam"` classification tag.
pub open spec fn spam_tag() -> Seq<u8> {
    seq![115u8, 112u8, 97u8, 109u8]
}

/// A freshly created record: zeroed counters, no logged reports, a zeroed
/// reserved identifier, and the `"normal"` classification.
pub open spec fn fresh_record() -> RecordView {
    RecordView {
        trust_rating: Seq::new(TRUST_SLOTS as nat, |i: int| 0u8),
        spam_transactions: Seq::empty(),
        domain: normal_tag(),
        unique_id: Seq::new(TRUST_SLOTS as nat, |i: int| 0u8),
    }
}

/// Saturating addition on one 8-bit slot: clamps at 255, never wraps.
pub open spec fn sat_add_u8(slot: u8, adjustment: u8) -> u8 {
    if slot + adjustment > 255 {
        255u8
    } else {
        (slot + adjustment) as u8
    }
}

/// Every slot of the bank independently saturating-added with `adjustment`.
pub open spec fn bumped_rating(rating: Seq<u8>, adjustment: u8) -> Seq<u8> {
    rating.map_values(|slot: u8| sat_add_u8(slot, adjustment))
}

/// Sum of all slots, as an unbounded integer: the summation never wraps.
pub open spec fn rating_sum(rating: Seq<u8>) -> int
    decreases rating.len(),
{
    if rating.len() == 0 {
        0
    } else {
        rating_sum(rating.drop_last()) + rating.last()
    }
}

/// The sequence of byte strings held by a transaction log.
pub open spec fn hashes_view(transactions: Vec<Vec<u8>>) -> Seq<Seq<u8>> {
    transactions@.map_values(|t: Vec<u8>| t@)
}

/// The record after one spam report: every slot bumped by
/// [`TRUST_INCREMENT`], the reference appended to the log, and the domain
/// set to `"spam"` when the new sum strictly exceeds [`SPAM_THRESHOLD`].
pub open spec fn reported_record(r: RecordView, reference: Seq<u8>) -> RecordView {
    let bumped = bumped_rating(r.trust_rating, TRUST_INCREMENT);
    RecordView {
        trust_rating: bumped,
        spam_transactions: r.spam_transactions.push(reference),
        domain: if rating_sum(bumped) > SPAM_THRESHOLD as int {
            spam_tag()
        } else {
            r.domain
        },
        unique_id: r.unique_id,
    }
}

/// One ledger record: the 16-slot trust-rating bank, the append-only log of
/// spam-report references, the classification tag, and a reserved 16-byte
/// identifier assigned at creation.
#[derive(Debug, PartialEq, Eq)]
pub struct PhoneRecord {
    pub trust_rating: [u8; 16],
    pub spam_transactions: Vec<Vec<u8>>,
    pub domain: Vec<u8>,
    pub unique_id: [u8; 16],
}

impl View for PhoneRecord {
    type V = RecordView;

    open spec fn view(&self) -> RecordView {
        RecordView {
            trust_rating: self.trust_rating@,
            spam_transactions: hashes_view(self.spam_transactions),
            domain: self.domain@,
            unique_id: self.unique_id@,
        }
    }
}

/// The `"normal"` tag as bytes.
pub fn normal_tag_vec() -> (r: Vec<u8>)
    ensures
        r@ == normal_tag(),
{
    let mut r: Vec<u8> = Vec::new();
    r.push(110);
    r.push(111);
    r.push(114);
    r.push(109);
    r.push(97);
    r.push(108);
    proof {
        assert(r@ =~= normal_tag());
    }
    r
}

/// The `"spam"` tag as bytes.
pub fn spam_tag_vec() -> (r: Vec<u8>)
    ensures
        r@ == spam_tag(),
{
    let mut r: Vec<u8> = Vec::new();
    r.push(115);
    r.push(112);
    r.push(97);
    r.push(109);
    proof {
        assert(r@ =~= spam_tag());
    }
    r
}

/// An owned copy of a byte string.
pub fn clone_bytes(bytes: &Vec<u8>) -> (r: Vec<u8>)
    ensures
        r@ == bytes@,
{
    let mut r: Vec<u8> = Vec::new();
    let mut i: usize = 0;
    while i < bytes.len()
        invariant
            i <= bytes.len(),
            r@ == bytes@.take(i as int),
        decreases bytes.len() - i,
    {
        r.push(bytes[i]);
        proof {
            assert(bytes@.take(i + 1 as int) =~= bytes@.take(i as int).push(bytes@[i as int]));
        }
        i += 1;
    }
    proof {
        assert(bytes@.take(bytes@.len() as int) =~= bytes@);
    }
    r
}

impl PhoneRecord {
    /// A freshly initialized record, as created on first registration or on
    /// a spam report against a never-seen identifier.
    pub fn fresh() -> (r: PhoneRecord)
        ensures
            r@ == fresh_record(),
    {
        let r = PhoneRecord {
            trust_rating: [0u8; 16],
            spam_transactions: Vec::new(),
            domain: normal_tag_vec(),
            unique_id: [0u8; 16],
        };
        proof {
            assert(r.trust_rating@ =~= fresh_record().trust_rating);
            assert(r.unique_id@ =~= fresh_record().unique_id);
            assert(hashes_view(r.spam_transactions) =~= fresh_record().spam_transactions);
            assert(r@ =~= fresh_record());
        }
        r
    }
}

/// The trust-rating update algorithm: a uniform broadcast update that
/// saturating-adds `adjustment` to every slot of the bank.
pub fn update_trust_rating(current_rating: &[u8; 16], adjustment: u8) -> (new_rating: [u8; 16])
    ensures
        new_rating@ == bumped_rating(current_rating@, adjustment),
{
    let mut new_rating: [u8; 16] = *current_rating;
    let mut i: usize = 0;
    while i < 16
        invariant
            i <= 16,
            forall|j: int| 0 <= j < i ==> new_rating@[j] == sat_add_u8(current_rating@[j], adjustment),
            forall|j: int| i <= j < 16 ==> new_rating@[j] == current_rating@[j],
        decreases 16 - i,
    {
        new_rating[i] = new_rating[i].saturating_add(adjustment);
        i += 1;
    }
    proof {
        assert(new_rating@ =~= bumped_rating(current_rating@, adjustment));
    }
    new_rating
}

/// The domain-update algorithm: replaces the tag's entire byte content with
/// `new_type` (clear-then-write, not append).
pub fn update_domain_type(current_domain: &Vec<u8>, new_type: &[u8]) -> (new_domain: Vec<u8>)
    ensures
        new_domain@ == new_type@,
{
    let mut new_domain = clone_bytes(current_domain);
    new_domain.clear();
    let mut i: usize = 0;
    while i < new_type.len()
        invariant
            i <= new_type.len(),
            new_domain@ == new_type@.take(i as int),
        decreases new_type.len() - i,
    {
        new_domain.push(new_type[i]);
        proof {
            assert(new_type@.take(i + 1 as int) =~= new_type@.take(i as int).push(new_type@[i as int]));
        }
        i += 1;
    }
    proof {
        assert(new_type@.take(new_type@.len() as int) =~= new_type@);
    }
    new_domain
}

/// Sum of the 16 slots, computed in a wide-enough integer so the summation
/// cannot wrap.
pub fn trust_rating_sum(rating: &[u8; 16]) -> (s: u32)
    ensures
        s == rating_sum(rating@),
{
    let mut s: u32 = 0;
    let mut i: usize = 0;
    while i < 16
        invariant
            i <= 16,
            s == rating_sum(rating@.take(i as int)),
            s <= 255 * i,
        decreases 16 - i,
    {
        proof {
            assert(rating@.take(i + 1 as int).drop_last() =~= rating@.take(i as int));
        }
        s = s + rating[i] as u32;
        i += 1;
    }
    proof {
        assert(rating@.take(16) =~= rating@);
    }
    s
}

} // verus!
