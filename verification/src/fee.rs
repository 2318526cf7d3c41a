//! What a transaction costs.

use crate::value::Value;
use vstd::prelude::*;

verus! {

/// A fee that grows with the number of inputs and outputs: a constant, a
/// coefficient for every input and output, and an amount for a certificate.
#[derive(Clone, Copy, Debug, PartialEq, Eq, Structural)]
pub struct LinearFee {
    pub constant: u64,
    pub coefficient: u64,
    pub certificate: u64,
}

/// The fee of a transaction with the given numbers of inputs and outputs,
/// with or without a certificate, capped at the largest amount.
pub open spec fn linear_fee(fee: LinearFee, has_certificate: bool, inputs: u8, outputs: u8) -> u64 {
    let total = fee.constant as nat + fee.coefficient as nat * (inputs as nat + outputs as nat) + (
    if has_certificate {
        fee.certificate as nat
    } else {
        0
    });
    crate::stake::clamp_u64(total)
}

impl LinearFee {
    /// The fee with the given parts.
    pub fn new(constant: u64, coefficient: u64, certificate: u64) -> (r: LinearFee)
        ensures
            r == (LinearFee { constant, coefficient, certificate }),
    {
        LinearFee { constant, coefficient, certificate }
    }

    /// The fee of a transaction.
    pub fn calculate(&self, has_certificate: bool, inputs: u8, outputs: u8) -> (r: Value)
        ensures
            r.0 == linear_fee(*self, has_certificate, inputs, outputs),
    {
        let count: u128 = inputs as u128 + outputs as u128;
        proof {
            assert(self.coefficient as nat * (inputs as nat + outputs as nat) <= u64::MAX * 510)
                by (nonlinear_arith)
                requires
                    self.coefficient <= u64::MAX,
                    inputs as nat + outputs as nat <= 510,
            ;
        }
        let certificate: u128 = if has_certificate {
            self.certificate as u128
        } else {
            0
        };
        let total: u128 = self.constant as u128 + (self.coefficient as u128) * count + certificate;
        if total <= u64::MAX as u128 {
            Value(total as u64)
        } else {
            Value(u64::MAX)
        }
    }
}

} // verus!
