use vstd::prelude::*;
use crate::quote::{fee_ceiling, fee_for, in_unit, payment_msat, quote, quoted, to_unit, MAX_FEE_PERCENT};
use crate::types::{
    CreateIncomingPaymentResponse, CurrencyUnit, InvoiceTerms, IssuedInvoice, HASH_LEN, Event, IdentifierView, IncomingPaymentOptions,
    MakePaymentResponse, MakePaymentView, OutgoingPaymentOptions, PaymentError, PaymentIdentifier,
    PaymentQuoteResponse, PaymentState, Settings, WaitPaymentResponse, proof_view, copy_bytes,
};

verus! {

/// Fee ceiling a new backend quotes and charges, in percent.
pub const DEFAULT_FEE_PERCENT: u64 = 1;

/// An invoice the backend issued.
struct Invoice {
    id: PaymentIdentifier,
    amount: u64,
    unit: CurrencyUnit,
    expiry: Option<u64>,
}

/// A payment received on an invoice, by the invoice's position.
struct Settlement {
    invoice: usize,
    amount: u64,
}

pub struct InvoiceView {
    pub id: IdentifierView,
    pub amount: u64,
    pub unit: CurrencyUnit,
    pub expiry: Option<u64>,
}

/// The state of a backend.
pub struct BackendView {
    /// Fee ceiling in percent.
    pub fee_percent: u64,
    /// Unit the backend advertises.
    pub unit: CurrencyUnit,
    /// Issued invoices, in order of issue.
    pub invoices: Seq<InvoiceView>,
    /// Received payments: the invoice's position and the amount, in order of arrival.
    pub settlements: Seq<(int, u64)>,
    /// Outgoing payments, in order of submission.
    pub outgoing: Seq<MakePaymentView>,
    /// The amount in millisatoshi that each outgoing payment moved.
    pub outgoing_msat: Seq<u64>,
    /// Whether the payment-event subscription is active.
    pub active: bool,
    /// Number of the latest subscription.
    pub generation: u64,
}

/// One confirmed incoming payment, as a value.
pub struct WaitPaymentView {
    pub payment_identifier: IdentifierView,
    pub payment_amount: u64,
    pub payment_preimage: Option<Seq<u8>>,
    pub unit: CurrencyUnit,
}

impl View for WaitPaymentResponse {
    type V = WaitPaymentView;

    open spec fn view(&self) -> WaitPaymentView {
        WaitPaymentView {
            payment_identifier: self.payment_identifier@,
            payment_amount: self.payment_amount,
            payment_preimage: proof_view(self.payment_preimage),
            unit: self.unit,
        }
    }
}

/// An issued invoice, as a value.
pub struct IssuedView {
    pub request_lookup_id: IdentifierView,
    pub request: Seq<char>,
    pub expiry: Option<u64>,
}

/// A handle on one payment-event subscription: its number and the position
/// of the next payment it delivers.
#[derive(Clone, Copy, Debug)]
pub struct EventStream {
    pub generation: u64,
    pub cursor: usize,
}

/// What polling a subscription yields.
#[derive(Debug)]
pub enum StreamPoll {
    /// The next payment.
    Event(Event),
    /// No payment yet; poll again later.
    Idle,
    /// The subscription has ended and delivers nothing more.
    Completed,
}

/// An in-memory Lightning backend: it issues invoices, quotes and pays
/// outgoing requests, answers status probes and runs one payment-event
/// subscription at a time.
pub struct TemplateBackend {
    fee_percent: u64,
    unit: CurrencyUnit,
    invoices: Vec<Invoice>,
    settlements: Vec<Settlement>,
    outgoing: Vec<MakePaymentResponse>,
    outgoing_msat: Vec<u64>,
    wait_invoice_active: bool,
    generation: u64,
}

impl View for TemplateBackend {
    type V = BackendView;

    closed spec fn view(&self) -> BackendView {
        BackendView {
            fee_percent: self.fee_percent,
            unit: self.unit,
            invoices: self.invoices@.map_values(
                |i: Invoice| InvoiceView { id: i.id@, amount: i.amount, unit: i.unit, expiry: i.expiry },
            ),
            settlements: self.settlements@.map_values(|s: Settlement| (s.invoice as int, s.amount)),
            outgoing: self.outgoing@.map_values(|p: MakePaymentResponse| p@),
            outgoing_msat: self.outgoing_msat@,
            active: self.wait_invoice_active,
            generation: self.generation,
        }
    }
}

/// What paying `msat` in `unit` costs at a fee ceiling of `percent`: the
/// amount in `unit` plus the fee on it.
pub open spec fn charged(msat: u64, unit: CurrencyUnit, percent: u64) -> nat {
    in_unit(msat as nat, unit) + fee_ceiling(in_unit(msat as nat, unit), percent as nat)
}

/// An identifier that is a payment hash of the right length.
pub open spec fn is_payment_hash(id: IdentifierView) -> bool {
    match id {
        IdentifierView::PaymentHash(h) => h.len() == HASH_LEN,
        IdentifierView::CustomId(_) => false,
    }
}

/// An invoice amount in millisatoshi.
pub open spec fn msat_of(amount: u64, unit: CurrencyUnit) -> nat {
    match unit {
        CurrencyUnit::Sat => (amount * 1000) as nat,
        CurrencyUnit::Msat => amount as nat,
    }
}

/// What the node is asked to issue an invoice for: BOLT11 only, in the
/// backend's unit, for an amount that fits in millisatoshi. The result is
/// that amount in millisatoshi.
pub open spec fn terms_outcome(v: BackendView, unit: CurrencyUnit, o: IncomingPaymentOptions) -> Result<
    nat,
    PaymentError,
> {
    match o {
        IncomingPaymentOptions::Bolt12(_) => Err(PaymentError::UnsupportedPaymentOption),
        IncomingPaymentOptions::Bolt11(b) => if unit != v.unit {
            Err(PaymentError::UnsupportedPaymentOption)
        } else if msat_of(b.amount, unit) > u64::MAX {
            Err(PaymentError::AmountOverflow)
        } else {
            Ok(msat_of(b.amount, unit))
        },
    }
}

pub open spec fn description_view(d: Option<String>) -> Option<Seq<char>> {
    match d {
        Some(s) => Some(s@),
        None => None,
    }
}

/// The terms carry the request's description and expiry.
pub open spec fn terms_match(t: InvoiceTerms, o: IncomingPaymentOptions) -> bool {
    match o {
        IncomingPaymentOptions::Bolt11(b) => t.unix_expiry == b.unix_expiry && description_view(t.description)
            == description_view(b.description),
        IncomingPaymentOptions::Bolt12(_) => false,
    }
}

/// The backend's invariant: invoices carry distinct payment hashes, every
/// payment received names an issued invoice, no two outgoing payments share
/// an identifier, and every outgoing payment is paid in full.
pub open spec fn wf(v: BackendView) -> bool {
    &&& v.fee_percent <= MAX_FEE_PERCENT
    &&& forall|i: int, j: int|
        0 <= i < j < v.invoices.len() ==> (#[trigger] v.invoices[i]).id != (#[trigger] v.invoices[j]).id
    &&& forall|k: int| 0 <= k < v.invoices.len() ==> is_payment_hash((#[trigger] v.invoices[k]).id)
    &&& forall|i: int| 0 <= i < v.settlements.len() ==> 0 <= (#[trigger] v.settlements[i]).0 < v.invoices.len()
    &&& forall|i: int, j: int|
        0 <= i < j < v.outgoing.len() ==> (#[trigger] v.outgoing[i]).payment_lookup_id
            != (#[trigger] v.outgoing[j]).payment_lookup_id
    &&& v.outgoing_msat.len() == v.outgoing.len()
    &&& forall|k: int|
        0 <= k < v.outgoing.len() ==> (#[trigger] v.outgoing[k]).status == PaymentState::Paid
            && v.outgoing[k].total_spent == charged(v.outgoing_msat[k], v.outgoing[k].unit, v.fee_percent)
}

/// Position of the invoice that carries `id`, if any.
pub open spec fn invoice_index(v: BackendView, id: IdentifierView) -> Option<int> {
    if exists|k: int| 0 <= k < v.invoices.len() && v.invoices[k].id == id {
        Some(choose|k: int| 0 <= k < v.invoices.len() && v.invoices[k].id == id)
    } else {
        None
    }
}

/// Position of the outgoing payment that carries `id`, if any.
pub open spec fn outgoing_index(v: BackendView, id: IdentifierView) -> Option<int> {
    if exists|k: int| 0 <= k < v.outgoing.len() && v.outgoing[k].payment_lookup_id == id {
        Some(choose|k: int| 0 <= k < v.outgoing.len() && v.outgoing[k].payment_lookup_id == id)
    } else {
        None
    }
}

/// The amounts received on the `k`th invoice, in order of arrival.
pub open spec fn settled(s: Seq<(int, u64)>, k: int) -> Seq<u64>
    decreases s.len(),
{
    if s.len() == 0 {
        Seq::empty()
    } else if s.last().0 == k {
        settled(s.drop_last(), k).push(s.last().1)
    } else {
        settled(s.drop_last(), k)
    }
}

/// What a status probe reports for `id`: one entry per payment received on
/// its invoice.
pub open spec fn incoming_report(v: BackendView, id: IdentifierView) -> Result<Seq<WaitPaymentView>, PaymentError> {
    match invoice_index(v, id) {
        None => Err(PaymentError::UnknownPaymentIdentifier),
        Some(k) => Ok(
            settled(v.settlements, k).map_values(
                |a: u64|
                    WaitPaymentView {
                        payment_identifier: id,
                        payment_amount: a,
                        payment_preimage: None,
                        unit: v.invoices[k].unit,
                    },
            ),
        ),
    }
}

/// What a status probe reports for the outgoing payment `id`.
pub open spec fn outgoing_report(v: BackendView, id: IdentifierView) -> Result<MakePaymentView, PaymentError> {
    match outgoing_index(v, id) {
        None => Err(PaymentError::UnknownPaymentIdentifier),
        Some(k) => Ok(v.outgoing[k]),
    }
}

/// State of the invoice `id`: paid once any payment was received on it.
pub open spec fn incoming_state(v: BackendView, id: IdentifierView) -> Option<PaymentState> {
    match invoice_index(v, id) {
        None => None,
        Some(k) => Some(
            if settled(v.settlements, k).len() > 0 {
                PaymentState::Paid
            } else {
                PaymentState::Unpaid
            },
        ),
    }
}

/// State of the outgoing payment `id`.
pub open spec fn outgoing_state(v: BackendView, id: IdentifierView) -> Option<PaymentState> {
    match outgoing_index(v, id) {
        None => None,
        Some(k) => Some(v.outgoing[k].status),
    }
}

/// Recording an invoice the node issued for `o`, with payment request
/// `request` and payment hash `hash`: the terms must hold, the hash must be
/// 32 bytes and carried by no earlier invoice. The invoice's identifier is
/// its payment hash.
pub open spec fn issue_outcome(
    v: BackendView,
    unit: CurrencyUnit,
    o: IncomingPaymentOptions,
    request: Seq<char>,
    hash: Seq<u8>,
) -> (Result<IssuedView, PaymentError>, BackendView) {
    let id = IdentifierView::PaymentHash(hash);
    match terms_outcome(v, unit, o) {
        Err(e) => (Err(e), v),
        Ok(_) => if hash.len() != HASH_LEN {
            (Err(PaymentError::InvalidPaymentHash), v)
        } else if invoice_index(v, id) is Some {
            (Err(PaymentError::DuplicatePaymentHash), v)
        } else {
            match o {
                IncomingPaymentOptions::Bolt11(b) => (
                    Ok(IssuedView { request_lookup_id: id, request, expiry: b.unix_expiry }),
                    BackendView {
                        invoices: v.invoices.push(InvoiceView { id, amount: b.amount, unit, expiry: b.unix_expiry }),
                        ..v
                    },
                ),
                IncomingPaymentOptions::Bolt12(_) => (Err(PaymentError::UnsupportedPaymentOption), v),
            }
        },
    }
}

/// Paying an outgoing request. A request already submitted, for the same
/// amount in the same unit, gets its earlier outcome back and nothing is
/// spent again; in another unit or for another amount it is refused. A new
/// one is paid in full, for its amount in `unit` plus the fee ceiling.
pub open spec fn payment_outcome(v: BackendView, unit: CurrencyUnit, o: OutgoingPaymentOptions) -> (
    Result<MakePaymentView, PaymentError>,
    BackendView,
) {
    match o {
        OutgoingPaymentOptions::Bolt12(_) => (Err(PaymentError::UnsupportedPaymentOption), v),
        OutgoingPaymentOptions::Bolt11(b) => match payment_msat(b) {
            None => (Err(PaymentError::AmountlessInvoice), v),
            Some(m) => {
                let id = IdentifierView::PaymentHash(b.payment_hash@);
                match outgoing_index(v, id) {
                    Some(k) => if v.outgoing[k].unit != unit {
                        (Err(PaymentError::UnitMismatch), v)
                    } else if v.outgoing_msat[k] != m {
                        (Err(PaymentError::AmountMismatch), v)
                    } else {
                        (Ok(v.outgoing[k]), v)
                    },
                    None => {
                        let total = charged(m, unit, v.fee_percent);
                        if total > u64::MAX {
                            (Err(PaymentError::AmountOverflow), v)
                        } else {
                            let rec = MakePaymentView {
                                payment_lookup_id: id,
                                payment_proof: None,
                                status: PaymentState::Paid,
                                total_spent: total as u64,
                                unit,
                            };
                            (
                                Ok(rec),
                                BackendView { outgoing: v.outgoing.push(rec), outgoing_msat: v.outgoing_msat.push(m), ..v },
                            )
                        }
                    },
                }
            },
        },
    }
}

/// Receiving `amount` on the invoice `id`.
pub open spec fn settle_outcome(v: BackendView, id: IdentifierView, amount: u64) -> (
    Result<(), PaymentError>,
    BackendView,
) {
    match invoice_index(v, id) {
        None => (Err(PaymentError::UnknownPaymentIdentifier), v),
        Some(k) => (Ok(()), BackendView { settlements: v.settlements.push((k, amount)), ..v }),
    }
}

/// Starting the payment-event subscription: refused while one is active.
pub open spec fn activate_outcome(v: BackendView) -> (Result<u64, PaymentError>, BackendView) {
    if v.active {
        (Err(PaymentError::EventStreamActive), v)
    } else if v.generation == u64::MAX {
        (Err(PaymentError::SubscriptionLimit), v)
    } else {
        (Ok((v.generation + 1) as u64), BackendView { active: true, generation: (v.generation + 1) as u64, ..v })
    }
}

pub open spec fn cancel_outcome(v: BackendView) -> BackendView {
    BackendView { active: false, ..v }
}

/// Whether the subscription `s` has ended: it is not the active one.
pub open spec fn stream_ended(v: BackendView, s: EventStream) -> bool {
    !v.active || s.generation != v.generation
}

/// The payment the `i`th settlement delivers to a subscriber.
pub open spec fn event_at(v: BackendView, i: int) -> WaitPaymentView {
    WaitPaymentView {
        payment_identifier: v.invoices[v.settlements[i].0].id,
        payment_amount: v.settlements[i].1,
        payment_preimage: None,
        unit: v.invoices[v.settlements[i].0].unit,
    }
}

/// `b` extends `a`: its settings are the same, and it keeps every invoice,
/// payment received and outgoing payment of `a` as it was.
pub open spec fn evolves(a: BackendView, b: BackendView) -> bool {
    &&& b.fee_percent == a.fee_percent
    &&& a.invoices.len() <= b.invoices.len()
    &&& b.invoices.subrange(0, a.invoices.len() as int) == a.invoices
    &&& a.settlements.len() <= b.settlements.len()
    &&& b.settlements.subrange(0, a.settlements.len() as int) == a.settlements
    &&& a.outgoing.len() <= b.outgoing.len()
    &&& b.outgoing.subrange(0, a.outgoing.len() as int) == a.outgoing
    &&& a.outgoing_msat.len() <= b.outgoing_msat.len()
    &&& b.outgoing_msat.subrange(0, a.outgoing_msat.len() as int) == a.outgoing_msat
}

/// What a payment of `o` in `unit` costs, where the request names an amount.
pub open spec fn payment_charge(v: BackendView, unit: CurrencyUnit, o: OutgoingPaymentOptions) -> Option<nat> {
    match o {
        OutgoingPaymentOptions::Bolt11(b) => match payment_msat(b) {
            Some(m) => Some(charged(m, unit, v.fee_percent)),
            None => None,
        },
        OutgoingPaymentOptions::Bolt12(_) => None,
    }
}

pub open spec fn stream_result(r: Result<EventStream, PaymentError>) -> Result<u64, PaymentError> {
    match r {
        Ok(s) => Ok(s.generation),
        Err(e) => Err(e),
    }
}

proof fn lemma_settled_step(s: Seq<(int, u64)>, i: int, k: int)
    requires
        0 <= i < s.len(),
    ensures
        settled(s.subrange(0, i + 1), k) == if s[i].0 == k {
            settled(s.subrange(0, i), k).push(s[i].1)
        } else {
            settled(s.subrange(0, i), k)
        },
{
    assert(s.subrange(0, i + 1).drop_last() =~= s.subrange(0, i));
}

pub open spec fn issued_view(r: Result<CreateIncomingPaymentResponse, PaymentError>) -> Result<IssuedView, PaymentError> {
    match r {
        Ok(c) => Ok(IssuedView { request_lookup_id: c.request_lookup_id@, request: c.request@, expiry: c.expiry }),
        Err(e) => Err(e),
    }
}

pub open spec fn payment_view(r: Result<MakePaymentResponse, PaymentError>) -> Result<MakePaymentView, PaymentError> {
    match r {
        Ok(p) => Ok(p@),
        Err(e) => Err(e),
    }
}

pub open spec fn responses_view(r: Result<Vec<WaitPaymentResponse>, PaymentError>) -> Result<Seq<WaitPaymentView>, PaymentError> {
    match r {
        Ok(v) => Ok(v@.map_values(|w: WaitPaymentResponse| w@)),
        Err(e) => Err(e),
    }
}


pub open spec fn initial(unit: CurrencyUnit, fee_percent: u64) -> BackendView {
    BackendView {
        fee_percent,
        unit,
        invoices: Seq::empty(),
        settlements: Seq::empty(),
        outgoing: Seq::empty(),
        outgoing_msat: Seq::empty(),
        active: false,
        generation: 0,
    }
}

/// The name of a unit as the backend advertises it.
pub open spec fn unit_name(u: CurrencyUnit) -> Seq<char> {
    match u {
        CurrencyUnit::Sat => "sat"@,
        CurrencyUnit::Msat => "msat"@,
    }
}

pub(crate) proof fn lemma_evolves_refl(v: BackendView)
    ensures
        evolves(v, v),
{
    assert(v.invoices.subrange(0, v.invoices.len() as int) =~= v.invoices);
    assert(v.settlements.subrange(0, v.settlements.len() as int) =~= v.settlements);
    assert(v.outgoing.subrange(0, v.outgoing.len() as int) =~= v.outgoing);
    assert(v.outgoing_msat.subrange(0, v.outgoing_msat.len() as int) =~= v.outgoing_msat);
}

pub(crate) proof fn lemma_invoice_index(v: BackendView, k: int)
    requires
        wf(v),
        0 <= k < v.invoices.len(),
    ensures
        invoice_index(v, v.invoices[k].id) == Some(k),
{
    let id = v.invoices[k].id;
    assert(v.invoices[k].id == id);
    let j = choose|j: int| 0 <= j < v.invoices.len() && v.invoices[j].id == id;
    if j < k {
        assert(v.invoices[j].id != v.invoices[k].id);
    } else if k < j {
        assert(v.invoices[k].id != v.invoices[j].id);
    }
}

pub(crate) proof fn lemma_outgoing_index(v: BackendView, k: int)
    requires
        wf(v),
        0 <= k < v.outgoing.len(),
    ensures
        outgoing_index(v, v.outgoing[k].payment_lookup_id) == Some(k),
{
    let id = v.outgoing[k].payment_lookup_id;
    assert(v.outgoing[k].payment_lookup_id == id);
    let j = choose|j: int| 0 <= j < v.outgoing.len() && v.outgoing[j].payment_lookup_id == id;
    if j < k {
        assert(v.outgoing[j].payment_lookup_id != v.outgoing[k].payment_lookup_id);
    } else if k < j {
        assert(v.outgoing[k].payment_lookup_id != v.outgoing[j].payment_lookup_id);
    }
}

impl Default for TemplateBackend {
    fn default() -> (r: Self)
        ensures
            r@ == initial(CurrencyUnit::Sat, DEFAULT_FEE_PERCENT),
            wf(r@),
    {
        let r = TemplateBackend {
            fee_percent: DEFAULT_FEE_PERCENT,
            unit: CurrencyUnit::Sat,
            invoices: Vec::new(),
            settlements: Vec::new(),
            outgoing: Vec::new(),
            outgoing_msat: Vec::new(),
            wait_invoice_active: false,
            generation: 0,
        };
        assert(r@.invoices =~= Seq::empty());
        assert(r@.settlements =~= Seq::empty());
        assert(r@.outgoing =~= Seq::empty());
        assert(r@.outgoing_msat =~= Seq::empty());
        r
    }
}

impl TemplateBackend {
    /// A backend in sats with the default fee ceiling.
    pub fn new() -> (r: Result<Self, PaymentError>)
        ensures
            r matches Ok(b) && b@ == initial(CurrencyUnit::Sat, DEFAULT_FEE_PERCENT)
                && wf(b@),
    {
        Ok(Self::default())
    }

    /// A backend with the given unit and fee ceiling in percent; a fee
    /// ceiling above 100 percent is refused.
    pub fn with_settings(unit: CurrencyUnit, fee_percent: u64) -> (r: Result<Self, PaymentError>)
        ensures
            fee_percent > MAX_FEE_PERCENT ==> r == Err::<Self, PaymentError>(PaymentError::InvalidFeePercent),
            fee_percent <= MAX_FEE_PERCENT ==> (r matches Ok(b) && b@ == initial(unit, fee_percent)
                && wf(b@)),
    {
        if fee_percent > MAX_FEE_PERCENT {
            return Err(PaymentError::InvalidFeePercent);
        }
        let r = TemplateBackend {
            fee_percent,
            unit,
            invoices: Vec::new(),
            settlements: Vec::new(),
            outgoing: Vec::new(),
            outgoing_msat: Vec::new(),
            wait_invoice_active: false,
            generation: 0,
        };
        assert(r@.invoices =~= Seq::empty());
        assert(r@.settlements =~= Seq::empty());
        assert(r@.outgoing =~= Seq::empty());
        assert(r@.outgoing_msat =~= Seq::empty());
        Ok(r)
    }

    /// The capabilities the backend advertises: BOLT11 only, without
    /// multi-path payments, in its unit.
    pub fn get_settings(&self) -> (r: Settings)
        ensures
            r.bolt11,
            !r.bolt12,
            !r.mpp,
            !r.amp,
            r.unit@ == unit_name(self@.unit),
    {
        let unit = match self.unit {
            CurrencyUnit::Sat => "sat".to_owned(),
            CurrencyUnit::Msat => "msat".to_owned(),
        };
        Settings { bolt11: true, bolt12: false, mpp: false, amp: false, unit }
    }

    /// Whether the payment-event subscription is active.
    pub fn is_wait_invoice_active(&self) -> (r: bool)
        ensures
            r == self@.active,
    {
        self.wait_invoice_active
    }

    /// Ends the payment-event subscription; every stream handed out before
    /// completes.
    pub fn cancel_wait_invoice(&mut self)
        requires
            wf(old(self)@),
        ensures
            final(self)@ == cancel_outcome(old(self)@),
            wf(final(self)@),
            evolves(old(self)@, final(self)@),
    {
        proof {
            lemma_evolves_refl(self@);
        }
        self.wait_invoice_active = false;
    }

    fn find_invoice(&self, id: &PaymentIdentifier) -> (r: Option<usize>)
        requires
            wf(self@),
        ensures
            match r {
                Some(k) => invoice_index(self@, id@) == Some(k as int) && k < self.invoices@.len(),
                None => invoice_index(self@, id@) is None,
            },
    {
        let mut i: usize = 0;
        while i < self.invoices.len()
            invariant
                wf(self@),
                i <= self.invoices@.len(),
                forall|j: int| 0 <= j < i ==> self@.invoices[j].id != id@,
            decreases self.invoices.len() - i,
        {
            assert(self@.invoices[i as int].id == self.invoices@[i as int].id@);
            if self.invoices[i].id.same_as(id) {
                proof {
                    lemma_invoice_index(self@, i as int);
                }
                return Some(i);
            }
            i = i + 1;
        }
        None
    }

    fn find_outgoing(&self, id: &PaymentIdentifier) -> (r: Option<usize>)
        requires
            wf(self@),
        ensures
            match r {
                Some(k) => outgoing_index(self@, id@) == Some(k as int) && k < self.outgoing@.len(),
                None => outgoing_index(self@, id@) is None,
            },
    {
        let mut i: usize = 0;
        while i < self.outgoing.len()
            invariant
                wf(self@),
                i <= self.outgoing@.len(),
                forall|j: int| 0 <= j < i ==> self@.outgoing[j].payment_lookup_id != id@,
            decreases self.outgoing.len() - i,
        {
            assert(self@.outgoing[i as int] == self.outgoing@[i as int]@);
            if self.outgoing[i].payment_lookup_id.same_as(id) {
                proof {
                    lemma_outgoing_index(self@, i as int);
                }
                return Some(i);
            }
            i = i + 1;
        }
        None
    }

    /// What to ask the node for to issue an invoice for `options`: the
    /// amount in millisatoshi, the description and the expiry.
    pub fn invoice_terms(&self, unit: &CurrencyUnit, options: &IncomingPaymentOptions) -> (r: Result<
        InvoiceTerms,
        PaymentError,
    >)
        requires
            wf(self@),
        ensures
            match terms_outcome(self@, *unit, *options) {
                Ok(m) => r matches Ok(t) && t.amount_msat == m && terms_match(t, *options),
                Err(e) => r == Err::<InvoiceTerms, PaymentError>(e),
            },
    {
        match options {
            IncomingPaymentOptions::Bolt12(_) => Err(PaymentError::UnsupportedPaymentOption),
            IncomingPaymentOptions::Bolt11(b) => {
                if *unit != self.unit {
                    return Err(PaymentError::UnsupportedPaymentOption);
                }
                let amount_msat = match unit {
                    CurrencyUnit::Sat => {
                        if b.amount > u64::MAX / 1000 {
                            return Err(PaymentError::AmountOverflow);
                        }
                        b.amount * 1000
                    },
                    CurrencyUnit::Msat => b.amount,
                };
                let description = match &b.description {
                    Some(d) => Some(d.clone()),
                    None => None,
                };
                Ok(InvoiceTerms { amount_msat, description, unix_expiry: b.unix_expiry })
            },
        }
    }

    /// Records the invoice the node issued for `options` and returns it.
    /// The terms must hold as `invoice_terms` states them; the payment hash
    /// must be 32 bytes and new to the backend. The invoice is looked up by
    /// its payment hash, and its expiry is the requested one.
    pub fn create_incoming_payment_request(
        &mut self,
        unit: &CurrencyUnit,
        options: IncomingPaymentOptions,
        issued: IssuedInvoice,
    ) -> (r: Result<CreateIncomingPaymentResponse, PaymentError>)
        requires
            wf(old(self)@),
        ensures
            (issued_view(r), final(self)@) == issue_outcome(
                old(self)@,
                *unit,
                options,
                issued.request@,
                issued.payment_hash@,
            ),
            wf(final(self)@),
            evolves(old(self)@, final(self)@),
    {
        proof {
            lemma_evolves_refl(self@);
        }
        match options {
            IncomingPaymentOptions::Bolt12(_) => Err(PaymentError::UnsupportedPaymentOption),
            IncomingPaymentOptions::Bolt11(b) => {
                if *unit != self.unit {
                    return Err(PaymentError::UnsupportedPaymentOption);
                }
                match unit {
                    CurrencyUnit::Sat => {
                        if b.amount > u64::MAX / 1000 {
                            return Err(PaymentError::AmountOverflow);
                        }
                    },
                    CurrencyUnit::Msat => {},
                }
                if issued.payment_hash.len() != HASH_LEN {
                    return Err(PaymentError::InvalidPaymentHash);
                }
                let id = PaymentIdentifier::PaymentHash(copy_bytes(&issued.payment_hash));
                if self.find_invoice(&id).is_some() {
                    return Err(PaymentError::DuplicatePaymentHash);
                }
                let ghost before = self@;
                let ghost idv = id@;
                self.invoices.push(Invoice { id, amount: b.amount, unit: *unit, expiry: b.unix_expiry });
                assert(self@.invoices =~= before.invoices.push(
                    InvoiceView { id: idv, amount: b.amount, unit: *unit, expiry: b.unix_expiry },
                ));
                assert(self@.settlements =~= before.settlements);
                assert(self@.outgoing =~= before.outgoing);
                assert(self@.invoices.subrange(0, before.invoices.len() as int) =~= before.invoices);
                assert forall|i: int, j: int|
                    0 <= i < j < self@.invoices.len() implies (#[trigger] self@.invoices[i]).id
                        != (#[trigger] self@.invoices[j]).id by {
                    assert(before.invoices.len() == self@.invoices.len() - 1);
                    if j == before.invoices.len() {
                        assert(before.invoices[i] == self@.invoices[i]);
                    } else {
                        assert(before.invoices[i] == self@.invoices[i]);
                        assert(before.invoices[j] == self@.invoices[j]);
                    }
                }
                assert forall|k: int| 0 <= k < self@.invoices.len() implies is_payment_hash(
                    (#[trigger] self@.invoices[k]).id,
                ) by {
                    if k < before.invoices.len() {
                        assert(before.invoices[k] == self@.invoices[k]);
                    }
                }
                Ok(
                    CreateIncomingPaymentResponse {
                        request_lookup_id: PaymentIdentifier::PaymentHash(issued.payment_hash),
                        request: issued.request,
                        expiry: b.unix_expiry,
                    },
                )
            },
        }
    }

    /// Quotes an outgoing payment without touching the backend's state.
    pub fn get_payment_quote(&self, unit: &CurrencyUnit, options: OutgoingPaymentOptions) -> (r: Result<
        PaymentQuoteResponse,
        PaymentError,
    >)
        requires
            wf(self@),
        ensures
            quoted(self@.fee_percent, *unit, options, r),
    {
        quote(self.fee_percent, *unit, &options)
    }

    /// Pays an outgoing request, once: a request whose payment hash was
    /// paid before gets the earlier outcome back, provided the unit and the
    /// amount are the same. A successful payment is paid, in `unit`, and
    /// spends the request's amount plus the fee ceiling.
    pub fn make_payment(&mut self, unit: &CurrencyUnit, options: OutgoingPaymentOptions) -> (r: Result<
        MakePaymentResponse,
        PaymentError,
    >)
        requires
            wf(old(self)@),
        ensures
            (payment_view(r), final(self)@) == payment_outcome(old(self)@, *unit, options),
            r matches Ok(p) ==> (p.unit == *unit && p.status == PaymentState::Paid && payment_charge(
                old(self)@,
                *unit,
                options,
            ) == Some(p.total_spent as nat)),
            wf(final(self)@),
            evolves(old(self)@, final(self)@),
    {
        proof {
            lemma_evolves_refl(self@);
        }
        match &options {
            OutgoingPaymentOptions::Bolt12(_) => Err(PaymentError::UnsupportedPaymentOption),
            OutgoingPaymentOptions::Bolt11(b) => {
                let msat = match b.invoice_amount_msat {
                    Some(a) => a,
                    None => match b.amount_msat {
                        Some(a) => a,
                        None => {
                            return Err(PaymentError::AmountlessInvoice);
                        },
                    },
                };
                let id = PaymentIdentifier::PaymentHash(copy_bytes(&b.payment_hash));
                match self.find_outgoing(&id) {
                    Some(k) => {
                        assert(self@.outgoing[k as int] == self.outgoing@[k as int]@);
                        if self.outgoing[k].unit != *unit {
                            return Err(PaymentError::UnitMismatch);
                        }
                        if self.outgoing_msat[k] != msat {
                            return Err(PaymentError::AmountMismatch);
                        }
                        Ok(self.outgoing[k].copy())
                    },
                    None => {
                        let amount = to_unit(msat, *unit);
                        let fee = fee_for(amount, self.fee_percent);
                        match amount.checked_add(fee) {
                            None => Err(PaymentError::AmountOverflow),
                            Some(total) => {
                                let rec = MakePaymentResponse {
                                    payment_lookup_id: id,
                                    payment_proof: None,
                                    status: PaymentState::Paid,
                                    total_spent: total,
                                    unit: *unit,
                                };
                                let out = rec.copy();
                                let ghost before = self@;
                                let ghost rv = rec@;
                                self.outgoing.push(rec);
                                self.outgoing_msat.push(msat);
                                assert(self@.outgoing =~= before.outgoing.push(rv));
                                assert(self@.outgoing_msat =~= before.outgoing_msat.push(msat));
                                assert forall|k: int| 0 <= k < self@.outgoing.len() implies (#[trigger] self@.outgoing[k]).status
                                    == PaymentState::Paid && self@.outgoing[k].total_spent == charged(
                                    self@.outgoing_msat[k],
                                    self@.outgoing[k].unit,
                                    self@.fee_percent,
                                ) by {
                                    if k < before.outgoing.len() {
                                        assert(before.outgoing[k] == self@.outgoing[k]);
                                        assert(before.outgoing_msat[k] == self@.outgoing_msat[k]);
                                    }
                                }
                                assert(self@.outgoing.subrange(0, before.outgoing.len() as int) =~= before.outgoing);
                                assert(self@.outgoing_msat.subrange(0, before.outgoing_msat.len() as int) =~= before.outgoing_msat);
                                assert(self@.invoices =~= before.invoices);
                                assert(self@.settlements =~= before.settlements);
                                assert forall|i: int, j: int|
                                    0 <= i < j < self@.outgoing.len() implies (#[trigger] self@.outgoing[i]).payment_lookup_id
                                        != (#[trigger] self@.outgoing[j]).payment_lookup_id by {
                                    if j == before.outgoing.len() {
                                        assert(before.outgoing[i] == self@.outgoing[i]);
                                    }
                                }
                                Ok(out)
                            },
                        }
                    },
                }
            },
        }
    }

    /// Records `amount` received on the invoice `id`, as a payment arriving
    /// from the network would.
    pub fn settle_invoice(&mut self, id: &PaymentIdentifier, amount: u64) -> (r: Result<(), PaymentError>)
        requires
            wf(old(self)@),
        ensures
            (r, final(self)@) == settle_outcome(old(self)@, id@, amount),
            wf(final(self)@),
            evolves(old(self)@, final(self)@),
    {
        proof {
            lemma_evolves_refl(self@);
        }
        match self.find_invoice(id) {
            None => Err(PaymentError::UnknownPaymentIdentifier),
            Some(k) => {
                let ghost before = self@;
                self.settlements.push(Settlement { invoice: k, amount });
                assert(self@.settlements =~= before.settlements.push((k as int, amount)));
                assert(self@.invoices =~= before.invoices);
                assert(self@.outgoing =~= before.outgoing);
                assert(self@.settlements.subrange(0, before.settlements.len() as int) =~= before.settlements);
                Ok(())
            },
        }
    }

    /// Every payment received on the invoice `id`, in order of arrival;
    /// empty while it is unpaid.
    pub fn check_incoming_payment_status(&self, id: &PaymentIdentifier) -> (r: Result<
        Vec<WaitPaymentResponse>,
        PaymentError,
    >)
        requires
            wf(self@),
        ensures
            responses_view(r) == incoming_report(self@, id@),
    {
        let k = match self.find_invoice(id) {
            None => {
                return Err(PaymentError::UnknownPaymentIdentifier);
            },
            Some(k) => k,
        };
        let unit = self.invoices[k].unit;
        assert(unit == self@.invoices[k as int].unit);
        let ghost s = self@.settlements;
        let mut out: Vec<WaitPaymentResponse> = Vec::new();
        let mut i: usize = 0;
        while i < self.settlements.len()
            invariant
                s == self@.settlements,
                i <= self.settlements@.len(),
                out@.len() == settled(s.subrange(0, i as int), k as int).len(),
                forall|j: int|
                    0 <= j < out@.len() ==> (#[trigger] out@[j])@ == (WaitPaymentView {
                        payment_identifier: id@,
                        payment_amount: settled(s.subrange(0, i as int), k as int)[j],
                        payment_preimage: None,
                        unit,
                    }),
            decreases self.settlements.len() - i,
        {
            proof {
                lemma_settled_step(s, i as int, k as int);
            }
            assert(s[i as int] == (self.settlements@[i as int].invoice as int, self.settlements@[i as int].amount));
            if self.settlements[i].invoice == k {
                out.push(
                    WaitPaymentResponse {
                        payment_identifier: id.copy(),
                        payment_amount: self.settlements[i].amount,
                        payment_preimage: None,
                        unit,
                    },
                );
            }
            i = i + 1;
        }
        assert(s.subrange(0, s.len() as int) =~= s);
        assert(out@.map_values(|w: WaitPaymentResponse| w@) =~= settled(s, k as int).map_values(
            |a: u64|
                WaitPaymentView {
                    payment_identifier: id@,
                    payment_amount: a,
                    payment_preimage: None,
                    unit: self@.invoices[k as int].unit,
                },
        ));
        Ok(out)
    }

    /// The latest state of the outgoing payment `id`.
    pub fn check_outgoing_payment(&self, id: &PaymentIdentifier) -> (r: Result<MakePaymentResponse, PaymentError>)
        requires
            wf(self@),
        ensures
            payment_view(r) == outgoing_report(self@, id@),
    {
        match self.find_outgoing(id) {
            None => Err(PaymentError::UnknownPaymentIdentifier),
            Some(k) => {
                assert(self@.outgoing[k as int] == self.outgoing@[k as int]@);
                Ok(self.outgoing[k].copy())
            },
        }
    }

    /// Starts the payment-event subscription. While one is active a second
    /// is refused and nothing changes. The stream delivers the payments
    /// received from now on.
    pub fn wait_payment_event(&mut self) -> (r: Result<EventStream, PaymentError>)
        requires
            wf(old(self)@),
        ensures
            (stream_result(r), final(self)@) == activate_outcome(old(self)@),
            r matches Ok(s) ==> s.cursor == old(self)@.settlements.len(),
            wf(final(self)@),
            evolves(old(self)@, final(self)@),
    {
        proof {
            lemma_evolves_refl(self@);
        }
        if self.wait_invoice_active {
            return Err(PaymentError::EventStreamActive);
        }
        if self.generation == u64::MAX {
            return Err(PaymentError::SubscriptionLimit);
        }
        self.generation = self.generation + 1;
        self.wait_invoice_active = true;
        Ok(EventStream { generation: self.generation, cursor: self.settlements.len() })
    }

    /// Polls the subscription `stream`: the next payment it has not yet
    /// delivered, `Idle` when there is none, `Completed` once the
    /// subscription has ended.
    pub fn next_event(&self, stream: &mut EventStream) -> (r: StreamPoll)
        requires
            wf(self@),
        ensures
            stream_ended(self@, *old(stream)) ==> (r is Completed && *final(stream) == *old(stream)),
            !stream_ended(self@, *old(stream)) && old(stream).cursor < self@.settlements.len() ==> (
            r matches StreamPoll::Event(Event::PaymentReceived(w)) && w@ == event_at(self@, old(stream).cursor as int)
                && final(stream).cursor == old(stream).cursor + 1 && final(stream).generation == old(stream).generation),
            !stream_ended(self@, *old(stream)) && old(stream).cursor >= self@.settlements.len() ==> (r is Idle
                && *final(stream) == *old(stream)),
    {
        if !self.wait_invoice_active || stream.generation != self.generation {
            return StreamPoll::Completed;
        }
        if stream.cursor >= self.settlements.len() {
            return StreamPoll::Idle;
        }
        let i = stream.cursor;
        let k = self.settlements[i].invoice;
        assert(self@.settlements[i as int] == (k as int, self.settlements@[i as int].amount));
        assert(self@.invoices[k as int].id == self.invoices@[k as int].id@);
        let w = WaitPaymentResponse {
            payment_identifier: self.invoices[k].id.copy(),
            payment_amount: self.settlements[i].amount,
            payment_preimage: None,
            unit: self.invoices[k].unit,
        };
        stream.cursor = i + 1;
        StreamPoll::Event(Event::PaymentReceived(w))
    }
}

} // verus!
