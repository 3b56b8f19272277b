//! An in-memory Lightning payment backend for a Cashu-style mint, with the
//! configuration it is started from.
//!
//! The backend issues invoices, quotes and executes outgoing payments,
//! answers status probes and drives a single payment-event subscription.
//! Every operation is stated over a mathematical model of the backend's
//! state, and the laws that tie the operations together are proved.

mod backend;
mod laws;
mod quote;
mod settings;
mod types;

pub use backend::{EventStream, StreamPoll, TemplateBackend, DEFAULT_FEE_PERCENT};
pub use quote::{fee_for, quote, to_unit, MAX_FEE_PERCENT};
pub use settings::{parse_port, parse_tls_flag, BackendConfig, Config, EnvVars, DEFAULT_SERVER_PORT, MAX_PORT};
pub use types::{
    Bolt11IncomingOptions, Bolt11OutgoingOptions, Bolt12IncomingOptions, Bolt12OutgoingOptions,
    CreateIncomingPaymentResponse, CurrencyUnit, Event, InvoiceTerms, IssuedInvoice, HASH_LEN, IncomingPaymentOptions, MakePaymentResponse,
    OutgoingPaymentOptions, PaymentError, PaymentIdentifier, PaymentQuoteResponse, PaymentState,
    Settings, WaitPaymentResponse,
};
