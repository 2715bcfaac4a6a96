//! Laws of the reputation state machine, stated over its mathematical
//! model and proved for every store and every operation sequence.

use vstd::prelude::*;

use crate::pallet::{
    inspect_result, register_map, register_result, report_spam_map, Error, EventView,
};
use crate::record::{
    bumped_rating, fresh_record, rating_sum, reported_record, sat_add_u8, spam_tag, RecordView,
    TRUST_INCREMENT, TRUST_SLOTS,
};

verus! {

/// One operation of the state machine, as its mathematical model. Only the
/// inputs that can affect the store appear; a report's caller and
/// timestamp are carried through to the notification unread.
pub enum Op {
    Register { phone_number: Seq<u8> },
    Inspect { phone_number: Seq<u8> },
    ReportSpam { phone_number: Seq<u8>, reference: Seq<u8> },
}

/// The store after one operation.
pub open spec fn step(m: Map<Seq<u8>, RecordView>, op: Op) -> Map<Seq<u8>, RecordView> {
    match op {
        Op::Register { phone_number } => register_map(m, phone_number),
        Op::Inspect { .. } => m,
        Op::ReportSpam { phone_number, reference } => report_spam_map(m, phone_number, reference),
    }
}

/// The store after a whole sequence of operations, applied in order.
pub open spec fn run(m: Map<Seq<u8>, RecordView>, ops: Seq<Op>) -> Map<Seq<u8>, RecordView>
    decreases ops.len(),
{
    if ops.len() == 0 {
        m
    } else {
        step(run(m, ops.drop_last()), ops.last())
    }
}

/// Idempotent lookup: an inspection leaves the store untouched, and
/// inspecting again — any number of times — returns the same result.
pub proof fn lemma_inspect_idempotent(m: Map<Seq<u8>, RecordView>, phone_number: Seq<u8>)
    ensures
        step(m, Op::Inspect { phone_number }) == m,
        inspect_result(step(m, Op::Inspect { phone_number }), phone_number) == inspect_result(
            m,
            phone_number,
        ),
{
}

/// No operation ever removes a record: a registered identifier stays
/// registered across any single operation.
pub proof fn lemma_step_preserves_keys(m: Map<Seq<u8>, RecordView>, op: Op, key: Seq<u8>)
    requires
        m.contains_key(key),
    ensures
        step(m, op).contains_key(key),
{
}

/// No operation sequence ever removes a record.
pub proof fn lemma_run_preserves_keys(m: Map<Seq<u8>, RecordView>, ops: Seq<Op>, key: Seq<u8>)
    requires
        m.contains_key(key),
    ensures
        run(m, ops).contains_key(key),
    decreases ops.len(),
{
    if ops.len() > 0 {
        lemma_run_preserves_keys(m, ops.drop_last(), key);
        lemma_step_preserves_keys(run(m, ops.drop_last()), ops.last(), key);
    }
}

/// Registration uniqueness: the first registration of an identifier
/// succeeds, and after any further operations whatsoever, registering it
/// again fails with `PhoneNumberAlreadyRegistered` and leaves the store as
/// it was.
pub proof fn lemma_registration_unique(
    m: Map<Seq<u8>, RecordView>,
    phone_number: Seq<u8>,
    ops: Seq<Op>,
)
    requires
        !m.contains_key(phone_number),
    ensures
        register_result(m, phone_number) == Ok::<EventView, Error>(
            EventView::RegisterPhoneNumber { phone_number },
        ),
        register_result(run(register_map(m, phone_number), ops), phone_number) == Err::<
            EventView,
            Error,
        >(Error::PhoneNumberAlreadyRegistered),
        register_map(run(register_map(m, phone_number), ops), phone_number) == run(
            register_map(m, phone_number),
            ops,
        ),
{
    lemma_run_preserves_keys(register_map(m, phone_number), ops, phone_number);
}

/// Auto-heal: a spam report against a never-seen identifier succeeds and
/// creates its record directly — every trust slot at the increment, exactly
/// the one logged reference, and, the new trust sum already exceeding the
/// threshold, the `"spam"` classification.
pub proof fn lemma_report_spam_auto_heal(
    m: Map<Seq<u8>, RecordView>,
    phone_number: Seq<u8>,
    reference: Seq<u8>,
)
    requires
        !m.contains_key(phone_number),
    ensures
        report_spam_map(m, phone_number, reference).contains_key(phone_number),
        report_spam_map(m, phone_number, reference)[phone_number].trust_rating == Seq::new(
            TRUST_SLOTS as nat,
            |i: int| TRUST_INCREMENT,
        ),
        report_spam_map(m, phone_number, reference)[phone_number].spam_transactions == seq![
            reference,
        ],
        report_spam_map(m, phone_number, reference)[phone_number].domain == spam_tag(),
{
    let record = reported_record(fresh_record(), reference);
    assert(record.trust_rating =~= Seq::new(TRUST_SLOTS as nat, |i: int| TRUST_INCREMENT));
    lemma_rating_sum_constant(TRUST_INCREMENT, TRUST_SLOTS as nat);
    assert(rating_sum(record.trust_rating) == 160);
    assert(record.spam_transactions =~= seq![reference]);
}

/// The sum of a bank whose every slot holds `slot` is `slot` times the
/// number of slots.
pub proof fn lemma_rating_sum_constant(slot: u8, n: nat)
    ensures
        rating_sum(Seq::new(n, |i: int| slot)) == slot * n,
    decreases n,
{
    if n > 0 {
        lemma_rating_sum_constant(slot, (n - 1) as nat);
        assert(Seq::new(n, |i: int| slot).drop_last() =~= Seq::new((n - 1) as nat, |i: int| slot));
        assert(slot * n == slot * (n - 1) + slot) by (nonlinear_arith)
            requires n >= 1,
        ;
        assert(rating_sum(Seq::new(n, |i: int| slot)) == slot * (n - 1) + slot);
    } else {
        assert(slot * n == 0) by (nonlinear_arith)
            requires n == 0,
        ;
    }
}

/// The bank after `n` successive trust-rating updates by the fixed
/// increment.
pub open spec fn bumped_n(rating: Seq<u8>, n: nat) -> Seq<u8>
    decreases n,
{
    if n == 0 {
        rating
    } else {
        bumped_rating(bumped_n(rating, (n - 1) as nat), TRUST_INCREMENT)
    }
}

/// Closed form of repeated updates: a slot holds its start plus the
/// increment times the number of updates, clamped at 255 — it never wraps.
pub proof fn lemma_bumped_n_value(rating: Seq<u8>, n: nat, i: int)
    requires
        0 <= i < rating.len(),
    ensures
        bumped_n(rating, n).len() == rating.len(),
        bumped_n(rating, n)[i] as int == if rating[i] + TRUST_INCREMENT * n > 255 {
            255
        } else {
            rating[i] + TRUST_INCREMENT * n
        },
    decreases n,
{
    if n > 0 {
        lemma_bumped_n_value(rating, (n - 1) as nat, i);
        assert(bumped_n(rating, n)[i] == sat_add_u8(bumped_n(rating, (n - 1) as nat)[i], TRUST_INCREMENT));
        assert(TRUST_INCREMENT * n == TRUST_INCREMENT * (n - 1) + TRUST_INCREMENT)
            by (nonlinear_arith)
            requires n >= 1,
        ;
    }
}

/// A single update never lowers any slot.
pub proof fn lemma_bump_monotone(rating: Seq<u8>, adjustment: u8, i: int)
    requires
        0 <= i < rating.len(),
    ensures
        bumped_rating(rating, adjustment)[i] >= rating[i],
{
}

/// Saturation: thirty updates by the fixed increment drive every slot of a
/// 16-slot bank to exactly 255, with no wraparound, wherever it started.
pub proof fn lemma_saturation(rating: Seq<u8>)
    requires
        rating.len() == TRUST_SLOTS as nat,
    ensures
        forall|i: int| 0 <= i < TRUST_SLOTS ==> bumped_n(rating, 30)[i] == 255,
{
    assert forall|i: int| 0 <= i < TRUST_SLOTS implies bumped_n(rating, 30)[i] == 255 by {
        lemma_bumped_n_value(rating, 30, i);
    }
}

/// The length of an identifier's spam-transaction log, zero when it has no
/// record.
pub open spec fn spam_log_len(m: Map<Seq<u8>, RecordView>, phone_number: Seq<u8>) -> int {
    if m.contains_key(phone_number) {
        m[phone_number].spam_transactions.len() as int
    } else {
        0
    }
}

/// How many operations of a sequence are spam reports naming
/// `phone_number`.
pub open spec fn count_reports(ops: Seq<Op>, phone_number: Seq<u8>) -> int
    decreases ops.len(),
{
    if ops.len() == 0 {
        0
    } else {
        count_reports(ops.drop_last(), phone_number) + match ops.last() {
            Op::ReportSpam { phone_number: reported, .. } => if reported == phone_number {
                1int
            } else {
                0int
            },
            _ => 0int,
        }
    }
}

/// One operation grows an identifier's log by one entry when it is a spam
/// report naming it — whether or not the reference repeats an earlier one —
/// and leaves the log's length unchanged otherwise.
pub proof fn lemma_step_spam_log(m: Map<Seq<u8>, RecordView>, op: Op, phone_number: Seq<u8>)
    ensures
        spam_log_len(step(m, op), phone_number) == spam_log_len(m, phone_number) + match op {
            Op::ReportSpam { phone_number: reported, .. } => if reported == phone_number {
                1int
            } else {
                0int
            },
            _ => 0int,
        },
{
}

/// Append-only spam log: after any operation sequence, an identifier's log
/// has grown by exactly the number of spam reports naming it.
pub proof fn lemma_spam_log_append_only(
    m: Map<Seq<u8>, RecordView>,
    ops: Seq<Op>,
    phone_number: Seq<u8>,
)
    ensures
        spam_log_len(run(m, ops), phone_number) == spam_log_len(m, phone_number) + count_reports(
            ops,
            phone_number,
        ),
    decreases ops.len(),
{
    if ops.len() > 0 {
        lemma_spam_log_append_only(m, ops.drop_last(), phone_number);
        lemma_step_spam_log(run(m, ops.drop_last()), ops.last(), phone_number);
    }
}

/// Whether an identifier's record exists and is classified as spam.
pub open spec fn is_spam(m: Map<Seq<u8>, RecordView>, phone_number: Seq<u8>) -> bool {
    m.contains_key(phone_number) && m[phone_number].domain == spam_tag()
}

/// No single operation reverts a spam classification.
pub proof fn lemma_step_no_reversion(m: Map<Seq<u8>, RecordView>, op: Op, phone_number: Seq<u8>)
    requires
        is_spam(m, phone_number),
    ensures
        is_spam(step(m, op), phone_number),
{
}

/// No reversion: once an identifier is classified as spam, no operation
/// sequence this core defines brings it back to `"normal"`.
pub proof fn lemma_no_reversion(m: Map<Seq<u8>, RecordView>, ops: Seq<Op>, phone_number: Seq<u8>)
    requires
        is_spam(m, phone_number),
    ensures
        is_spam(run(m, ops), phone_number),
    decreases ops.len(),
{
    if ops.len() > 0 {
        lemma_no_reversion(m, ops.drop_last(), phone_number);
        lemma_step_no_reversion(run(m, ops.drop_last()), ops.last(), phone_number);
    }
}

} // verus!
