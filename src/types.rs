use vstd::prelude::*;

verus! {

/// The unit attached to every amount.
#[derive(Clone, Copy, Debug, PartialEq, Eq, Structural)]
pub enum CurrencyUnit {
    Sat,
    Msat,
}

/// State of a payment, incoming or outgoing.
#[derive(Clone, Copy, Debug, PartialEq, Eq, Structural)]
pub enum PaymentState {
    Unpaid,
    Pending,
    Paid,
    Failed,
}

/// Paid and Failed are final.
pub open spec fn is_terminal(s: PaymentState) -> bool {
    s == PaymentState::Paid || s == PaymentState::Failed
}

/// Whether a payment reported in state `a` may later be reported in state
/// `b`: states only move forward, and a final state never changes.
pub open spec fn may_follow(a: PaymentState, b: PaymentState) -> bool {
    a == b || match a {
        PaymentState::Unpaid => b != PaymentState::Unpaid,
        PaymentState::Pending => is_terminal(b),
        _ => false,
    }
}

/// Length of a payment hash in bytes.
pub const HASH_LEN: usize = 32;

/// What names a payment across every operation of the backend.
#[derive(Debug)]
pub enum PaymentIdentifier {
    PaymentHash(Vec<u8>),
    CustomId(String),
}

/// The value an identifier stands for.
pub enum IdentifierView {
    PaymentHash(Seq<u8>),
    CustomId(Seq<char>),
}

impl View for PaymentIdentifier {
    type V = IdentifierView;

    open spec fn view(&self) -> IdentifierView {
        match self {
            PaymentIdentifier::PaymentHash(h) => IdentifierView::PaymentHash(h@),
            PaymentIdentifier::CustomId(s) => IdentifierView::CustomId(s@),
        }
    }
}

pub fn bytes_equal(a: &Vec<u8>, b: &Vec<u8>) -> (r: bool)
    ensures
        r == (a@ == b@),
{
    if a.len() != b.len() {
        return false;
    }
    let mut i: usize = 0;
    while i < a.len()
        invariant
            a.len() == b.len(),
            i <= a.len(),
            a@.subrange(0, i as int) == b@.subrange(0, i as int),
        decreases a.len() - i,
    {
        if a[i] != b[i] {
            assert(a@[i as int] != b@[i as int]);
            return false;
        }
        assert(a@.subrange(0, i + 1) =~= a@.subrange(0, i as int).push(a@[i as int]));
        assert(b@.subrange(0, i + 1) =~= b@.subrange(0, i as int).push(b@[i as int]));
        i = i + 1;
    }
    assert(a@ =~= a@.subrange(0, i as int));
    assert(b@ =~= b@.subrange(0, i as int));
    true
}

pub fn copy_bytes(a: &Vec<u8>) -> (r: Vec<u8>)
    ensures
        r@ == a@,
{
    let mut r: Vec<u8> = Vec::new();
    let mut i: usize = 0;
    while i < a.len()
        invariant
            i <= a.len(),
            r@ == a@.subrange(0, i as int),
        decreases a.len() - i,
    {
        r.push(a[i]);
        assert(a@.subrange(0, i + 1) =~= a@.subrange(0, i as int).push(a@[i as int]));
        i = i + 1;
    }
    assert(a@ =~= a@.subrange(0, i as int));
    r
}

impl PaymentIdentifier {
    /// Whether two identifiers name the same payment.
    pub fn same_as(&self, other: &PaymentIdentifier) -> (r: bool)
        ensures
            r == (self@ == other@),
    {
        match (self, other) {
            (PaymentIdentifier::PaymentHash(a), PaymentIdentifier::PaymentHash(b)) => bytes_equal(a, b),
            (PaymentIdentifier::CustomId(a), PaymentIdentifier::CustomId(b)) => *a == *b,
            _ => false,
        }
    }

    /// A copy of the identifier.
    pub fn copy(&self) -> (r: PaymentIdentifier)
        ensures
            r@ == self@,
    {
        match self {
            PaymentIdentifier::PaymentHash(h) => PaymentIdentifier::PaymentHash(copy_bytes(h)),
            PaymentIdentifier::CustomId(s) => PaymentIdentifier::CustomId(s.clone()),
        }
    }
}


/// Why an operation of the backend was refused.
#[derive(Clone, Copy, Debug, PartialEq, Eq, Structural)]
pub enum PaymentError {
    /// The payment protocol variant is not one the backend handles.
    UnsupportedPaymentOption,
    /// An outgoing request names no amount and the caller supplied none.
    AmountlessInvoice,
    /// No payment of the backend carries the identifier.
    UnknownPaymentIdentifier,
    /// The payment-event subscription is already active.
    EventStreamActive,
    /// The backend has used up its subscription numbers.
    SubscriptionLimit,
    /// A request paid before is paid again in another unit.
    UnitMismatch,
    /// A request paid before is paid again for another amount.
    AmountMismatch,
    /// A fee ceiling above 100 percent.
    InvalidFeePercent,
    /// A payment hash that is not 32 bytes long.
    InvalidPaymentHash,
    /// A payment hash that an earlier invoice carries.
    DuplicatePaymentHash,
    /// An amount does not fit in 64 bits.
    AmountOverflow,
}

/// A BOLT11 invoice to be issued.
#[derive(Clone, Debug)]
pub struct Bolt11IncomingOptions {
    pub amount: u64,
    pub description: Option<String>,
    pub unix_expiry: Option<u64>,
}

/// A BOLT12 offer to be issued.
#[derive(Clone, Debug)]
pub struct Bolt12IncomingOptions {
    pub amount: Option<u64>,
    pub description: Option<String>,
    pub unix_expiry: Option<u64>,
}

#[derive(Clone, Debug)]
pub enum IncomingPaymentOptions {
    Bolt11(Bolt11IncomingOptions),
    Bolt12(Bolt12IncomingOptions),
}

/// A decoded BOLT11 invoice to be paid.
#[derive(Clone, Debug)]
pub struct Bolt11OutgoingOptions {
    /// Payment hash of the invoice.
    pub payment_hash: Vec<u8>,
    /// Amount the invoice declares, in millisatoshi.
    pub invoice_amount_msat: Option<u64>,
    /// Amount the caller supplies for an amountless invoice, in millisatoshi.
    pub amount_msat: Option<u64>,
}

/// A BOLT12 offer to be paid.
#[derive(Clone, Debug)]
pub struct Bolt12OutgoingOptions {
    pub offer: String,
    pub amount_msat: Option<u64>,
}

#[derive(Clone, Debug)]
pub enum OutgoingPaymentOptions {
    Bolt11(Bolt11OutgoingOptions),
    Bolt12(Bolt12OutgoingOptions),
}

/// What a node is asked to issue an invoice for.
#[derive(Debug)]
pub struct InvoiceTerms {
    pub amount_msat: u64,
    pub description: Option<String>,
    pub unix_expiry: Option<u64>,
}

/// What the node handed back for an invoice: its encoded payment request
/// and its payment hash.
#[derive(Debug)]
pub struct IssuedInvoice {
    pub request: String,
    pub payment_hash: Vec<u8>,
}

/// An issued invoice.
#[derive(Debug)]
pub struct CreateIncomingPaymentResponse {
    pub request_lookup_id: PaymentIdentifier,
    pub request: String,
    pub expiry: Option<u64>,
}

/// An estimate for an outgoing payment.
#[derive(Debug)]
pub struct PaymentQuoteResponse {
    pub request_lookup_id: Option<PaymentIdentifier>,
    pub amount: u64,
    pub fee: u64,
    pub unit: CurrencyUnit,
    pub state: PaymentState,
}

/// The outcome of an outgoing payment.
#[derive(Debug)]
pub struct MakePaymentResponse {
    pub payment_lookup_id: PaymentIdentifier,
    pub payment_proof: Option<Vec<u8>>,
    pub status: PaymentState,
    pub total_spent: u64,
    pub unit: CurrencyUnit,
}

/// One confirmed incoming payment.
#[derive(Debug)]
pub struct WaitPaymentResponse {
    pub payment_identifier: PaymentIdentifier,
    pub payment_amount: u64,
    pub payment_preimage: Option<Vec<u8>>,
    pub unit: CurrencyUnit,
}

/// What the payment-event subscription delivers.
#[derive(Debug)]
pub enum Event {
    PaymentReceived(WaitPaymentResponse),
}

/// The capabilities the backend advertises.
#[derive(Clone, Debug)]
pub struct Settings {
    pub bolt11: bool,
    pub bolt12: bool,
    pub mpp: bool,
    pub amp: bool,
    pub unit: String,
}

pub open spec fn proof_view(p: Option<Vec<u8>>) -> Option<Seq<u8>> {
    match p {
        Some(v) => Some(v@),
        None => None,
    }
}

pub fn copy_proof(p: &Option<Vec<u8>>) -> (r: Option<Vec<u8>>)
    ensures
        proof_view(r) == proof_view(*p),
{
    match p {
        Some(v) => Some(copy_bytes(v)),
        None => None,
    }
}

/// An outgoing payment as a value.
pub struct MakePaymentView {
    pub payment_lookup_id: IdentifierView,
    pub payment_proof: Option<Seq<u8>>,
    pub status: PaymentState,
    pub total_spent: u64,
    pub unit: CurrencyUnit,
}

impl View for MakePaymentResponse {
    type V = MakePaymentView;

    open spec fn view(&self) -> MakePaymentView {
        MakePaymentView {
            payment_lookup_id: self.payment_lookup_id@,
            payment_proof: proof_view(self.payment_proof),
            status: self.status,
            total_spent: self.total_spent,
            unit: self.unit,
        }
    }
}

impl MakePaymentResponse {
    /// A copy of the response.
    pub fn copy(&self) -> (r: MakePaymentResponse)
        ensures
            r@ == self@,
    {
        MakePaymentResponse {
            payment_lookup_id: self.payment_lookup_id.copy(),
            payment_proof: copy_proof(&self.payment_proof),
            status: self.status,
            total_spent: self.total_spent,
            unit: self.unit,
        }
    }
}

} // verus!
