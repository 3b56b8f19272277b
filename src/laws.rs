use vstd::prelude::*;
use crate::backend::{
    activate_outcome, cancel_outcome, evolves, incoming_report, incoming_state, invoice_index, issue_outcome,
    lemma_evolves_refl, lemma_invoice_index, lemma_outgoing_index, outgoing_index, outgoing_state, payment_outcome,
    outgoing_report, settle_outcome, settled, stream_ended, wf, is_payment_hash, BackendView, EventStream, WaitPaymentView,
};
use crate::quote::quoted;
use crate::types::{
    may_follow, Bolt11IncomingOptions, CurrencyUnit, IdentifierView, IncomingPaymentOptions, MakePaymentView,
    OutgoingPaymentOptions, PaymentError, PaymentQuoteResponse,
};

verus! {

proof fn lemma_settled_prefix(s: Seq<(int, u64)>, n: int, k: int)
    requires
        0 <= n <= s.len(),
    ensures
        settled(s.subrange(0, n), k).len() <= settled(s, k).len(),
    decreases s.len(),
{
    if n < s.len() {
        assert(s.drop_last().subrange(0, n) =~= s.subrange(0, n));
        lemma_settled_prefix(s.drop_last(), n, k);
    } else {
        assert(s.subrange(0, n) =~= s);
    }
}

proof fn lemma_settled_none(s: Seq<(int, u64)>, k: int)
    requires
        forall|i: int| 0 <= i < s.len() ==> (#[trigger] s[i]).0 < k,
    ensures
        settled(s, k).len() == 0,
    decreases s.len(),
{
    if s.len() > 0 {
        assert(s.last() == s[s.len() - 1]);
        lemma_settled_none(s.drop_last(), k);
    }
}

proof fn lemma_issue_wf(a: BackendView, unit: CurrencyUnit, o: IncomingPaymentOptions, request: Seq<char>, hash: Seq<u8>)
    requires
        wf(a),
    ensures
        wf(issue_outcome(a, unit, o, request, hash).1),
{
    let b = issue_outcome(a, unit, o, request, hash).1;
    if b != a {
        let id = IdentifierView::PaymentHash(hash);
        assert(invoice_index(a, id) is None);
        assert forall|i: int, j: int|
            0 <= i < j < b.invoices.len() implies (#[trigger] b.invoices[i]).id != (#[trigger] b.invoices[j]).id by {
            if j == a.invoices.len() {
                assert(b.invoices[i] == a.invoices[i]);
            } else {
                assert(b.invoices[i] == a.invoices[i]);
                assert(b.invoices[j] == a.invoices[j]);
            }
        }
        assert forall|k: int| 0 <= k < b.invoices.len() implies is_payment_hash((#[trigger] b.invoices[k]).id) by {
            if k < a.invoices.len() {
                assert(b.invoices[k] == a.invoices[k]);
            }
        }
    }
}

proof fn lemma_payment_wf(a: BackendView, unit: CurrencyUnit, o: OutgoingPaymentOptions)
    requires
        wf(a),
    ensures
        wf(payment_outcome(a, unit, o).1),
{
    let b = payment_outcome(a, unit, o).1;
    if b != a {
        let id = b.outgoing.last().payment_lookup_id;
        assert(outgoing_index(a, id) is None);
        assert forall|i: int, j: int|
            0 <= i < j < b.outgoing.len() implies (#[trigger] b.outgoing[i]).payment_lookup_id
                != (#[trigger] b.outgoing[j]).payment_lookup_id by {
            if j == a.outgoing.len() {
                assert(b.outgoing[i] == a.outgoing[i]);
            } else {
                assert(b.outgoing[i] == a.outgoing[i]);
                assert(b.outgoing[j] == a.outgoing[j]);
            }
        }
    }
}

proof fn lemma_settle_wf(a: BackendView, id: IdentifierView, amount: u64)
    requires
        wf(a),
    ensures
        wf(settle_outcome(a, id, amount).1),
{
    let b = settle_outcome(a, id, amount).1;
    assert forall|i: int| 0 <= i < b.settlements.len() implies 0 <= (#[trigger] b.settlements[i]).0
        < b.invoices.len() by {
        if i < a.settlements.len() {
            assert(b.settlements[i] == a.settlements[i]);
        }
    }
}

/// Every operation that changes the backend keeps its invariant and keeps
/// every invoice, payment received and outgoing payment as it was.
pub proof fn operations_extend_state(
    a: BackendView,
    unit: CurrencyUnit,
    incoming: IncomingPaymentOptions,
    request: Seq<char>,
    hash: Seq<u8>,
    outgoing: OutgoingPaymentOptions,
    id: IdentifierView,
    amount: u64,
)
    requires
        wf(a),
    ensures
        wf(issue_outcome(a, unit, incoming, request, hash).1) && evolves(a, issue_outcome(a, unit, incoming, request, hash).1),
        wf(payment_outcome(a, unit, outgoing).1) && evolves(a, payment_outcome(a, unit, outgoing).1),
        wf(settle_outcome(a, id, amount).1) && evolves(a, settle_outcome(a, id, amount).1),
        wf(activate_outcome(a).1) && evolves(a, activate_outcome(a).1),
        wf(cancel_outcome(a)) && evolves(a, cancel_outcome(a)),
{
    lemma_issue_wf(a, unit, incoming, request, hash);
    lemma_payment_wf(a, unit, outgoing);
    lemma_settle_wf(a, id, amount);
    lemma_evolves_refl(a);
    let b1 = issue_outcome(a, unit, incoming, request, hash).1;
    assert(b1.invoices.subrange(0, a.invoices.len() as int) =~= a.invoices);
    let b2 = payment_outcome(a, unit, outgoing).1;
    assert(b2.outgoing.subrange(0, a.outgoing.len() as int) =~= a.outgoing);
    assert(b2.outgoing_msat.subrange(0, a.outgoing_msat.len() as int) =~= a.outgoing_msat);
    let b3 = settle_outcome(a, id, amount).1;
    assert(b3.settlements.subrange(0, a.settlements.len() as int) =~= a.settlements);
}

/// Extending is transitive, so any run of operations extends the state it
/// started from.
pub proof fn evolves_transitive(a: BackendView, b: BackendView, c: BackendView)
    requires
        evolves(a, b),
        evolves(b, c),
    ensures
        evolves(a, c),
{
    assert(c.invoices.subrange(0, a.invoices.len() as int) =~= b.invoices.subrange(0, a.invoices.len() as int));
    assert(c.settlements.subrange(0, a.settlements.len() as int) =~= b.settlements.subrange(
        0,
        a.settlements.len() as int,
    ));
    assert(c.outgoing.subrange(0, a.outgoing.len() as int) =~= b.outgoing.subrange(0, a.outgoing.len() as int));
    assert(c.outgoing_msat.subrange(0, a.outgoing_msat.len() as int) =~= b.outgoing_msat.subrange(
        0,
        a.outgoing_msat.len() as int,
    ));
}

/// No regression: as the backend moves from state `a` to a later state `b`,
/// the state a probe reports for a payment only moves forward, so a payment
/// reported paid is reported paid ever after.
pub proof fn paid_is_final(a: BackendView, b: BackendView, id: IdentifierView)
    requires
        wf(a),
        wf(b),
        evolves(a, b),
    ensures
        incoming_state(a, id) matches Some(s) ==> (incoming_state(b, id) matches Some(t) && may_follow(s, t)),
        outgoing_state(a, id) matches Some(s) ==> (outgoing_state(b, id) matches Some(t) && may_follow(s, t)),
        incoming_report(a, id) matches Ok(s) ==> (incoming_report(b, id) matches Ok(t) && s.len() <= t.len()),
        outgoing_report(a, id) matches Ok(p) ==> outgoing_report(b, id) == Ok::<MakePaymentView, PaymentError>(p),
{
    if let Some(k) = invoice_index(a, id) {
        lemma_invoice_index(a, k);
        assert(b.invoices.subrange(0, a.invoices.len() as int)[k] == a.invoices[k]);
        lemma_invoice_index(b, k);
        lemma_settled_prefix(b.settlements, a.settlements.len() as int, k);
    }
    if let Some(k) = outgoing_index(a, id) {
        lemma_outgoing_index(a, k);
        assert(b.outgoing.subrange(0, a.outgoing.len() as int)[k] == a.outgoing[k]);
        lemma_outgoing_index(b, k);
    }
}

/// Idempotent payment: paying the same request a second time, after the
/// first payment went through, returns the first outcome and spends nothing
/// more.
pub proof fn repeated_payment_spends_once(a: BackendView, unit: CurrencyUnit, o: OutgoingPaymentOptions)
    requires
        wf(a),
        payment_outcome(a, unit, o).0 is Ok,
    ensures
        payment_outcome(payment_outcome(a, unit, o).1, unit, o) == payment_outcome(a, unit, o),
{
    let b = payment_outcome(a, unit, o).1;
    lemma_payment_wf(a, unit, o);
    if b != a {
        lemma_outgoing_index(b, a.outgoing.len() as int);
    } else {
        if let OutgoingPaymentOptions::Bolt11(p) = o {
            let id = IdentifierView::PaymentHash(p.payment_hash@);
            let k = outgoing_index(a, id)->Some_0;
            assert(a.outgoing[k].payment_lookup_id == id);
        }
    }
}

/// A payment spends what its quote announced, in the quoted unit: the
/// quoted amount plus the quoted fee, so never less than the quoted amount.
/// This holds of a repeated payment too.
pub proof fn payment_spends_quote(a: BackendView, unit: CurrencyUnit, o: OutgoingPaymentOptions, q: Result<PaymentQuoteResponse, PaymentError>)
    requires
        wf(a),
        quoted(a.fee_percent, unit, o, q),
        q is Ok,
        payment_outcome(a, unit, o).0 is Ok,
    ensures
        payment_outcome(a, unit, o).0->Ok_0.unit == q->Ok_0.unit,
        payment_outcome(a, unit, o).0->Ok_0.total_spent == q->Ok_0.amount + q->Ok_0.fee,
        payment_outcome(a, unit, o).0->Ok_0.total_spent >= q->Ok_0.amount,
{
    if let OutgoingPaymentOptions::Bolt11(p) = o {
        let id = IdentifierView::PaymentHash(p.payment_hash@);
        if let Some(k) = outgoing_index(a, id) {
            assert(a.outgoing[k].payment_lookup_id == id);
        }
    }
}

/// Cancelling ends the subscription: the backend reports it inactive, every
/// stream handed out so far has ended and stays ended after a new
/// subscription, and a new subscription can start.
pub proof fn cancel_ends_streams(a: BackendView, s: EventStream)
    requires
        s.generation <= a.generation,
    ensures
        !cancel_outcome(a).active,
        stream_ended(cancel_outcome(a), s),
        cancel_outcome(a).generation < u64::MAX ==> activate_outcome(cancel_outcome(a)).0 is Ok,
        stream_ended(activate_outcome(cancel_outcome(a)).1, s),
{
}

/// At most one subscription: while one is active, starting another is
/// refused and changes nothing.
pub proof fn one_subscription_at_a_time(a: BackendView)
    requires
        activate_outcome(a).0 is Ok,
    ensures
        activate_outcome(activate_outcome(a).1) == (
        Err::<u64, PaymentError>(PaymentError::EventStreamActive),
        activate_outcome(a).1),
{
}

/// Round trip: an invoice issued for `amount` in `unit` and then paid
/// exactly that amount is reported with one payment of `amount` in `unit`.
pub proof fn invoice_round_trip(
    a: BackendView,
    unit: CurrencyUnit,
    o: Bolt11IncomingOptions,
    request: Seq<char>,
    hash: Seq<u8>,
)
    requires
        wf(a),
        issue_outcome(a, unit, IncomingPaymentOptions::Bolt11(o), request, hash).0 is Ok,
    ensures
        ({
            let (r, b) = issue_outcome(a, unit, IncomingPaymentOptions::Bolt11(o), request, hash);
            let id = r->Ok_0.request_lookup_id;
            let (s, c) = settle_outcome(b, id, o.amount);
            s is Ok && incoming_report(c, id) == Ok::<Seq<WaitPaymentView>, PaymentError>(
                seq![WaitPaymentView { payment_identifier: id, payment_amount: o.amount, payment_preimage: None, unit }],
            )
        }),
{
    let (r, b) = issue_outcome(a, unit, IncomingPaymentOptions::Bolt11(o), request, hash);
    let n = a.invoices.len() as int;
    let id = r->Ok_0.request_lookup_id;
    lemma_issue_wf(a, unit, IncomingPaymentOptions::Bolt11(o), request, hash);
    lemma_invoice_index(b, n);
    let c = settle_outcome(b, id, o.amount).1;
    lemma_settle_wf(b, id, o.amount);
    lemma_invoice_index(c, n);
    lemma_settled_none(b.settlements, n);
    assert(c.settlements.drop_last() =~= b.settlements);
    assert(settled(c.settlements, n) =~= seq![o.amount]);
    let rep = incoming_report(c, id);
    assert(rep->Ok_0 =~= seq![WaitPaymentView { payment_identifier: id, payment_amount: o.amount, payment_preimage: None, unit }]);
}

} // verus!
