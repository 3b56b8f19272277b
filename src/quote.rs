use vstd::prelude::*;
use crate::types::{
    copy_bytes, Bolt11OutgoingOptions, CurrencyUnit, IdentifierView, OutgoingPaymentOptions,
    PaymentError, PaymentIdentifier, PaymentQuoteResponse, PaymentState,
};

verus! {

/// Largest fee percentage a backend may be configured with.
pub const MAX_FEE_PERCENT: u64 = 100;

/// An amount in millisatoshi expressed in `unit`, rounded up to a whole unit.
pub open spec fn in_unit(msat: nat, unit: CurrencyUnit) -> nat {
    match unit {
        CurrencyUnit::Msat => msat,
        CurrencyUnit::Sat => (msat + 999) / 1000,
    }
}

/// The fee ceiling: `percent` of the amount, rounded up.
pub open spec fn fee_ceiling(amount: nat, percent: nat) -> nat {
    (amount * percent + 99) / 100
}

/// The amount an outgoing BOLT11 payment moves, in millisatoshi: the amount
/// the invoice declares, else the amount the caller supplies.
pub open spec fn payment_msat(o: Bolt11OutgoingOptions) -> Option<u64> {
    match o.invoice_amount_msat {
        Some(a) => Some(a),
        None => o.amount_msat,
    }
}

/// Converts millisatoshi to `unit`, rounding up.
pub fn to_unit(msat: u64, unit: CurrencyUnit) -> (r: u64)
    ensures
        r == in_unit(msat as nat, unit),
{
    match unit {
        CurrencyUnit::Msat => msat,
        CurrencyUnit::Sat => {
            let whole = msat / 1000;
            if msat % 1000 == 0 {
                whole
            } else {
                whole + 1
            }
        },
    }
}

/// The fee for an amount: `percent` of it, rounded up. Never more than the
/// amount itself.
pub fn fee_for(amount: u64, percent: u64) -> (r: u64)
    requires
        percent <= MAX_FEE_PERCENT,
    ensures
        r == fee_ceiling(amount as nat, percent as nat),
        r <= amount,
{
    proof {
        assert((amount as int) * (percent as int) <= (amount as int) * 100) by (nonlinear_arith)
            requires
                percent <= 100,
        ;
    }
    let wide = (amount as u128) * (percent as u128) + 99;
    let r = wide / 100;
    assert(r <= amount as u128);
    r as u64
}

/// What quoting `options` at `percent` in `unit` returns.
pub open spec fn quoted(
    percent: u64,
    unit: CurrencyUnit,
    options: OutgoingPaymentOptions,
    r: Result<PaymentQuoteResponse, PaymentError>,
) -> bool {
    match options {
        OutgoingPaymentOptions::Bolt12(_) => r == Err::<PaymentQuoteResponse, PaymentError>(
            PaymentError::UnsupportedPaymentOption,
        ),
        OutgoingPaymentOptions::Bolt11(o) => match payment_msat(o) {
            None => r == Err::<PaymentQuoteResponse, PaymentError>(
                PaymentError::UnsupportedPaymentOption,
            ),
            Some(m) => match r {
                Ok(q) => q.amount == in_unit(m as nat, unit) && q.fee == fee_ceiling(
                    q.amount as nat,
                    percent as nat,
                ) && q.unit == unit && q.state == PaymentState::Unpaid && match q.request_lookup_id {
                    Some(id) => id@ == IdentifierView::PaymentHash(o.payment_hash@),
                    None => false,
                },
                Err(_) => false,
            },
        },
    }
}

/// Quotes an outgoing payment: its amount in `unit` and the fee ceiling at
/// `percent`. BOLT12 offers are not handled, nor an amountless invoice
/// for which the caller supplies no amount. A quote is always unpaid.
pub fn quote(percent: u64, unit: CurrencyUnit, options: &OutgoingPaymentOptions) -> (r: Result<
    PaymentQuoteResponse,
    PaymentError,
>)
    requires
        percent <= MAX_FEE_PERCENT,
    ensures
        quoted(percent, unit, *options, r),
{
    match options {
        OutgoingPaymentOptions::Bolt12(_) => Err(PaymentError::UnsupportedPaymentOption),
        OutgoingPaymentOptions::Bolt11(o) => {
            let msat = match o.invoice_amount_msat {
                Some(a) => a,
                None => match o.amount_msat {
                    Some(a) => a,
                    None => {
                        return Err(PaymentError::UnsupportedPaymentOption);
                    },
                },
            };
            let amount = to_unit(msat, unit);
            let fee = fee_for(amount, percent);
            Ok(
                PaymentQuoteResponse {
                    request_lookup_id: Some(PaymentIdentifier::PaymentHash(copy_bytes(&o.payment_hash))),
                    amount,
                    fee,
                    unit,
                    state: PaymentState::Unpaid,
                },
            )
        },
    }
}

} // verus!
