use std::str::FromStr;
use std::time::Duration;

use cdk_common::bitcoin::hashes::sha256;
use cdk_common::bitcoin::secp256k1::{Secp256k1, SecretKey};
use cdk_common::lightning_invoice::{Bolt11Invoice, Currency, InvoiceBuilder, PaymentSecret};
use payment_backend::{
    fee_for, to_unit, Bolt11IncomingOptions, Bolt11OutgoingOptions, Bolt12IncomingOptions,
    Bolt12OutgoingOptions, CreateIncomingPaymentResponse, CurrencyUnit, Event, IncomingPaymentOptions,
    InvoiceTerms, IssuedInvoice, OutgoingPaymentOptions, PaymentError, PaymentIdentifier, PaymentState,
    StreamPoll, TemplateBackend,
};

/// Issues a signed BOLT11 invoice for `terms`, as a node would; `seed`
/// makes its preimage.
fn node_issue(terms: &InvoiceTerms, seed: u8) -> IssuedInvoice {
    let secp = Secp256k1::new();
    let key = SecretKey::from_slice(&[0x42; 32]).unwrap();
    let hash = <sha256::Hash as cdk_common::bitcoin::hashes::Hash>::hash(&[seed; 32]);
    let invoice = InvoiceBuilder::new(Currency::Bitcoin)
        .description(terms.description.clone().unwrap_or_default())
        .payment_hash(hash)
        .payment_secret(PaymentSecret([seed; 32]))
        .duration_since_epoch(Duration::from_secs(1_700_000_000))
        .min_final_cltv_expiry_delta(144)
        .amount_milli_satoshis(terms.amount_msat)
        .build_signed(|m| secp.sign_ecdsa_recoverable(m, &key))
        .unwrap();
    IssuedInvoice { request: invoice.to_string(), payment_hash: <sha256::Hash as cdk_common::bitcoin::hashes::Hash>::to_byte_array(hash).to_vec() }
}

fn issue(
    b: &mut TemplateBackend,
    unit: CurrencyUnit,
    options: IncomingPaymentOptions,
    seed: u8,
) -> Result<CreateIncomingPaymentResponse, PaymentError> {
    let terms = b.invoice_terms(&unit, &options)?;
    let issued = node_issue(&terms, seed);
    b.create_incoming_payment_request(&unit, options, issued)
}

fn invoice(amount: u64, description: &str) -> IncomingPaymentOptions {
    IncomingPaymentOptions::Bolt11(Bolt11IncomingOptions {
        amount,
        description: Some(description.to_string()),
        unix_expiry: None,
    })
}

fn outgoing(hash_byte: u8, invoice_amount_msat: Option<u64>, amount_msat: Option<u64>) -> OutgoingPaymentOptions {
    OutgoingPaymentOptions::Bolt11(Bolt11OutgoingOptions {
        payment_hash: vec![hash_byte; 32],
        invoice_amount_msat,
        amount_msat,
    })
}

#[test]
fn invoice_for_1000_sat_is_paid_once() {
    let mut b = TemplateBackend::new().unwrap();
    let created = issue(&mut b, CurrencyUnit::Sat, invoice(1000, "test"), 1).unwrap();
    let decoded = Bolt11Invoice::from_str(&created.request).unwrap();
    assert_eq!(decoded.amount_milli_satoshis(), Some(1_000_000));
    match &created.request_lookup_id {
        PaymentIdentifier::PaymentHash(h) => assert_eq!(h.as_slice(), <sha256::Hash as cdk_common::bitcoin::hashes::Hash>::as_byte_array(decoded.payment_hash())),
        other => panic!("lookup id is not a payment hash: {:?}", other),
    }
    assert!(created.expiry.is_none());
    let before = b.check_incoming_payment_status(&created.request_lookup_id).unwrap();
    assert!(before.is_empty());
    b.settle_invoice(&created.request_lookup_id, 1000).unwrap();
    let after = b.check_incoming_payment_status(&created.request_lookup_id).unwrap();
    assert_eq!(after.len(), 1);
    assert_eq!(after[0].payment_amount, 1000);
    assert_eq!(after[0].unit, CurrencyUnit::Sat);
    assert!(after[0].payment_identifier.same_as(&created.request_lookup_id));
}

#[test]
fn invoice_round_trip_keeps_amount_and_unit() {
    let mut b = TemplateBackend::with_settings(CurrencyUnit::Msat, 1).unwrap();
    let first = issue(&mut b, CurrencyUnit::Msat, invoice(7, "a"), 2).unwrap();
    let second = issue(&mut b, CurrencyUnit::Msat, invoice(4242, "b"), 3).unwrap();
    assert!(!first.request_lookup_id.same_as(&second.request_lookup_id));
    assert_ne!(first.request, second.request);
    b.settle_invoice(&second.request_lookup_id, 4242).unwrap();
    let got = b.check_incoming_payment_status(&second.request_lookup_id).unwrap();
    assert_eq!(got.len(), 1);
    assert_eq!(got[0].payment_amount, 4242);
    assert_eq!(got[0].unit, CurrencyUnit::Msat);
    assert!(b.check_incoming_payment_status(&first.request_lookup_id).unwrap().is_empty());
}

#[test]
fn partial_settlements_are_itemised() {
    let mut b = TemplateBackend::new().unwrap();
    let created = issue(&mut b, CurrencyUnit::Sat, invoice(100, "mpp"), 4).unwrap();
    b.settle_invoice(&created.request_lookup_id, 60).unwrap();
    b.settle_invoice(&created.request_lookup_id, 40).unwrap();
    let got = b.check_incoming_payment_status(&created.request_lookup_id).unwrap();
    let amounts: Vec<u64> = got.iter().map(|w| w.payment_amount).collect();
    assert_eq!(amounts, vec![60, 40]);
}

#[test]
fn invoice_expiry_is_surfaced() {
    let mut b = TemplateBackend::new().unwrap();
    let opts = IncomingPaymentOptions::Bolt11(Bolt11IncomingOptions {
        amount: 5,
        description: None,
        unix_expiry: Some(1_700_000_000),
    });
    let created = issue(&mut b, CurrencyUnit::Sat, opts, 5).unwrap();
    assert_eq!(created.expiry, Some(1_700_000_000));
}

#[test]
fn bolt12_is_unsupported() {
    let mut b = TemplateBackend::new().unwrap();
    let opts = IncomingPaymentOptions::Bolt12(Bolt12IncomingOptions {
        amount: Some(1),
        description: None,
        unix_expiry: None,
    });
    assert_eq!(
        issue(&mut b, CurrencyUnit::Sat, opts, 6).unwrap_err(),
        PaymentError::UnsupportedPaymentOption
    );
    let pay = OutgoingPaymentOptions::Bolt12(Bolt12OutgoingOptions { offer: "lno1".to_string(), amount_msat: Some(1) });
    assert_eq!(
        b.get_payment_quote(&CurrencyUnit::Sat, pay.clone()).unwrap_err(),
        PaymentError::UnsupportedPaymentOption
    );
    assert_eq!(b.make_payment(&CurrencyUnit::Sat, pay).unwrap_err(), PaymentError::UnsupportedPaymentOption);
}

#[test]
fn quote_on_5000_msat_invoice() {
    let b = TemplateBackend::new().unwrap();
    let q = b.get_payment_quote(&CurrencyUnit::Msat, outgoing(1, Some(5000), None)).unwrap();
    assert_eq!(q.amount, 5000);
    assert_eq!(q.fee, 50);
    assert!(q.fee <= (5000 + 99) / 100);
    assert_eq!(q.unit, CurrencyUnit::Msat);
    assert_eq!(q.state, PaymentState::Unpaid);
    match q.request_lookup_id {
        Some(PaymentIdentifier::PaymentHash(h)) => assert_eq!(h, vec![1u8; 32]),
        _ => panic!("quote without payment hash"),
    }
}

#[test]
fn quote_in_sat_rounds_up() {
    let b = TemplateBackend::new().unwrap();
    let q = b.get_payment_quote(&CurrencyUnit::Sat, outgoing(2, Some(1_500), None)).unwrap();
    assert_eq!(q.amount, 2);
    assert_eq!(q.fee, 1);
}

#[test]
fn quote_has_no_side_effects() {
    let b = TemplateBackend::new().unwrap();
    let id = PaymentIdentifier::PaymentHash(vec![3u8; 32]);
    assert_eq!(b.check_outgoing_payment(&id).unwrap_err(), PaymentError::UnknownPaymentIdentifier);
    for _ in 0..5 {
        let q = b.get_payment_quote(&CurrencyUnit::Sat, outgoing(3, Some(10_000), None)).unwrap();
        assert_eq!(q.amount, 10);
        assert_eq!(q.fee, 1);
    }
    assert_eq!(b.check_outgoing_payment(&id).unwrap_err(), PaymentError::UnknownPaymentIdentifier);
}

#[test]
fn amountless_invoice_needs_an_amount() {
    let mut b = TemplateBackend::new().unwrap();
    assert_eq!(
        b.get_payment_quote(&CurrencyUnit::Sat, outgoing(4, None, None)).unwrap_err(),
        PaymentError::UnsupportedPaymentOption
    );
    assert_eq!(b.make_payment(&CurrencyUnit::Sat, outgoing(4, None, None)).unwrap_err(), PaymentError::AmountlessInvoice);
    let q = b.get_payment_quote(&CurrencyUnit::Msat, outgoing(4, None, Some(300))).unwrap();
    assert_eq!(q.amount, 300);
    assert_eq!(q.fee, 3);
}

#[test]
fn invoice_amount_wins_over_caller_amount() {
    let b = TemplateBackend::new().unwrap();
    let q = b.get_payment_quote(&CurrencyUnit::Msat, outgoing(5, Some(800), Some(9_999))).unwrap();
    assert_eq!(q.amount, 800);
}

#[test]
fn paying_twice_spends_once() {
    let mut b = TemplateBackend::new().unwrap();
    let first = b.make_payment(&CurrencyUnit::Sat, outgoing(6, Some(21_000), None)).unwrap();
    assert_eq!(first.status, PaymentState::Paid);
    assert_eq!(first.total_spent, 21 + 1);
    assert_eq!(first.unit, CurrencyUnit::Sat);
    let second = b.make_payment(&CurrencyUnit::Sat, outgoing(6, Some(21_000), None)).unwrap();
    assert!(second.payment_lookup_id.same_as(&first.payment_lookup_id));
    assert_eq!(second.total_spent, first.total_spent);
    assert_eq!(second.status, first.status);
    let probed = b.check_outgoing_payment(&first.payment_lookup_id).unwrap();
    assert_eq!(probed.total_spent, 22);
}

#[test]
fn total_spent_is_at_least_quoted_amount() {
    let mut b = TemplateBackend::with_settings(CurrencyUnit::Msat, 3).unwrap();
    let q = b.get_payment_quote(&CurrencyUnit::Msat, outgoing(7, Some(1_000), None)).unwrap();
    let p = b.make_payment(&CurrencyUnit::Msat, outgoing(7, Some(1_000), None)).unwrap();
    assert_eq!(q.fee, 30);
    assert_eq!(p.total_spent, q.amount + q.fee);
}

#[test]
fn payment_total_overflow_is_refused() {
    let mut b = TemplateBackend::new().unwrap();
    assert_eq!(
        b.make_payment(&CurrencyUnit::Msat, outgoing(8, Some(u64::MAX), None)).unwrap_err(),
        PaymentError::AmountOverflow
    );
    let id = PaymentIdentifier::PaymentHash(vec![8u8; 32]);
    assert_eq!(b.check_outgoing_payment(&id).unwrap_err(), PaymentError::UnknownPaymentIdentifier);
}

#[test]
fn paid_stays_paid() {
    let mut b = TemplateBackend::new().unwrap();
    let created = issue(&mut b, CurrencyUnit::Sat, invoice(10, "x"), 7).unwrap();
    b.settle_invoice(&created.request_lookup_id, 10).unwrap();
    let paid = b.make_payment(&CurrencyUnit::Sat, outgoing(9, Some(5_000), None)).unwrap();
    for i in 0..3u8 {
        let other = issue(&mut b, CurrencyUnit::Sat, invoice(1, "y"), 40 + i).unwrap();
        b.settle_invoice(&other.request_lookup_id, 1).unwrap();
        b.make_payment(&CurrencyUnit::Sat, outgoing(20 + i, Some(1_000), None)).unwrap();
        assert_eq!(b.check_incoming_payment_status(&created.request_lookup_id).unwrap().len(), 1);
        assert_eq!(b.check_outgoing_payment(&paid.payment_lookup_id).unwrap().status, PaymentState::Paid);
    }
}

#[test]
fn unknown_identifiers_are_reported() {
    let mut b = TemplateBackend::new().unwrap();
    let id = PaymentIdentifier::CustomId("nothing".to_string());
    assert_eq!(b.check_incoming_payment_status(&id).unwrap_err(), PaymentError::UnknownPaymentIdentifier);
    assert_eq!(b.check_outgoing_payment(&id).unwrap_err(), PaymentError::UnknownPaymentIdentifier);
    assert_eq!(b.settle_invoice(&id, 1).unwrap_err(), PaymentError::UnknownPaymentIdentifier);
}

#[test]
fn fee_ceiling_above_100_percent_is_refused() {
    assert_eq!(TemplateBackend::with_settings(CurrencyUnit::Sat, 101).err(), Some(PaymentError::InvalidFeePercent));
    assert!(TemplateBackend::with_settings(CurrencyUnit::Sat, 100).is_ok());
}

#[test]
fn second_subscription_is_refused() {
    let mut b = TemplateBackend::new().unwrap();
    assert!(!b.is_wait_invoice_active());
    let stream = b.wait_payment_event().unwrap();
    assert_eq!(stream.generation, 1);
    assert!(b.is_wait_invoice_active());
    assert_eq!(b.wait_payment_event().unwrap_err(), PaymentError::EventStreamActive);
    assert!(b.is_wait_invoice_active());
}

#[test]
fn cancel_completes_the_stream() {
    let mut b = TemplateBackend::new().unwrap();
    let created = issue(&mut b, CurrencyUnit::Sat, invoice(50, "s"), 9).unwrap();
    let mut stream = b.wait_payment_event().unwrap();
    assert!(matches!(b.next_event(&mut stream), StreamPoll::Idle));
    b.settle_invoice(&created.request_lookup_id, 50).unwrap();
    match b.next_event(&mut stream) {
        StreamPoll::Event(Event::PaymentReceived(w)) => {
            assert_eq!(w.payment_amount, 50);
            assert_eq!(w.unit, CurrencyUnit::Sat);
            assert!(w.payment_identifier.same_as(&created.request_lookup_id));
        }
        other => panic!("expected a payment, got {:?}", other),
    }
    assert!(matches!(b.next_event(&mut stream), StreamPoll::Idle));
    b.cancel_wait_invoice();
    assert!(!b.is_wait_invoice_active());
    b.settle_invoice(&created.request_lookup_id, 1).unwrap();
    assert!(matches!(b.next_event(&mut stream), StreamPoll::Completed));
    let mut fresh = b.wait_payment_event().unwrap();
    assert!(b.is_wait_invoice_active());
    assert!(matches!(b.next_event(&mut stream), StreamPoll::Completed));
    assert!(matches!(b.next_event(&mut fresh), StreamPoll::Idle));
}

#[test]
fn settings_advertise_bolt11_only() {
    let s = TemplateBackend::new().unwrap().get_settings();
    assert!(s.bolt11);
    assert!(!s.bolt12);
    assert!(!s.mpp);
    assert!(!s.amp);
    assert_eq!(s.unit, "sat");
    let m = TemplateBackend::with_settings(CurrencyUnit::Msat, 1).unwrap().get_settings();
    assert_eq!(m.unit, "msat");
}

#[test]
fn fee_and_unit_formulas() {
    assert_eq!(fee_for(5000, 1), 50);
    assert_eq!(fee_for(1, 1), 1);
    assert_eq!(fee_for(0, 1), 0);
    assert_eq!(fee_for(150, 1), 2);
    assert_eq!(fee_for(u64::MAX, 100), u64::MAX);
    assert_eq!(to_unit(1_500, CurrencyUnit::Sat), 2);
    assert_eq!(to_unit(2_000, CurrencyUnit::Sat), 2);
    assert_eq!(to_unit(1_500, CurrencyUnit::Msat), 1_500);
}

#[test]
fn invoice_in_another_unit_is_refused() {
    let mut b = TemplateBackend::new().unwrap();
    assert_eq!(
        issue(&mut b, CurrencyUnit::Msat, invoice(1000, "msat"), 10).unwrap_err(),
        PaymentError::UnsupportedPaymentOption
    );
    assert!(issue(&mut b, CurrencyUnit::Sat, invoice(1000, "sat"), 11).is_ok());
}

#[test]
fn repeat_payment_in_another_unit_is_refused() {
    let mut b = TemplateBackend::new().unwrap();
    let first = b.make_payment(&CurrencyUnit::Sat, outgoing(30, Some(5_000), None)).unwrap();
    assert_eq!(first.total_spent, 6);
    assert_eq!(first.unit, CurrencyUnit::Sat);
    let q = b.get_payment_quote(&CurrencyUnit::Msat, outgoing(30, Some(5_000), None)).unwrap();
    assert_eq!(q.amount, 5000);
    assert_eq!(
        b.make_payment(&CurrencyUnit::Msat, outgoing(30, Some(5_000), None)).unwrap_err(),
        PaymentError::UnitMismatch
    );
    let again = b.make_payment(&CurrencyUnit::Sat, outgoing(30, Some(5_000), None)).unwrap();
    assert_eq!(again.total_spent, 6);
}

#[test]
fn repeat_payment_for_another_amount_is_refused() {
    let mut b = TemplateBackend::new().unwrap();
    b.make_payment(&CurrencyUnit::Msat, outgoing(31, None, Some(2_000))).unwrap();
    assert_eq!(
        b.make_payment(&CurrencyUnit::Msat, outgoing(31, None, Some(3_000))).unwrap_err(),
        PaymentError::AmountMismatch
    );
}

#[test]
fn invoice_terms_in_millisatoshi() {
    let b = TemplateBackend::new().unwrap();
    let t = b.invoice_terms(&CurrencyUnit::Sat, &invoice(1000, "test")).unwrap();
    assert_eq!(t.amount_msat, 1_000_000);
    assert_eq!(t.description.as_deref(), Some("test"));
    assert_eq!(t.unix_expiry, None);
    assert_eq!(
        b.invoice_terms(&CurrencyUnit::Sat, &invoice(u64::MAX / 1000 + 1, "big")).unwrap_err(),
        PaymentError::AmountOverflow
    );
    assert_eq!(b.invoice_terms(&CurrencyUnit::Sat, &invoice(u64::MAX / 1000, "max")).unwrap().amount_msat, u64::MAX / 1000 * 1000);
    let m = TemplateBackend::with_settings(CurrencyUnit::Msat, 1).unwrap();
    assert_eq!(m.invoice_terms(&CurrencyUnit::Msat, &invoice(1234, "m")).unwrap().amount_msat, 1234);
}

#[test]
fn reused_payment_hash_is_refused() {
    let mut b = TemplateBackend::new().unwrap();
    let terms = b.invoice_terms(&CurrencyUnit::Sat, &invoice(5, "a")).unwrap();
    b.create_incoming_payment_request(&CurrencyUnit::Sat, invoice(5, "a"), node_issue(&terms, 50)).unwrap();
    assert_eq!(
        b.create_incoming_payment_request(&CurrencyUnit::Sat, invoice(5, "a"), node_issue(&terms, 50)).unwrap_err(),
        PaymentError::DuplicatePaymentHash
    );
}

#[test]
fn short_payment_hash_is_refused() {
    let mut b = TemplateBackend::new().unwrap();
    let issued = IssuedInvoice { request: "lnbc1".to_string(), payment_hash: vec![1u8; 31] };
    assert_eq!(
        b.create_incoming_payment_request(&CurrencyUnit::Sat, invoice(5, "a"), issued).unwrap_err(),
        PaymentError::InvalidPaymentHash
    );
}
