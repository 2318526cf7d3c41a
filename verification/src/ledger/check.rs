//! Checks on certificates that need no state.

use crate::certificate::pool::{PoolRegistration, PoolRegistrationView, PoolSignature};
use vstd::prelude::*;

verus! {

/// Largest number of owners of a pool.
pub const CHECK_POOL_REG_MAXIMUM_OWNERS: usize = 31;

/// Largest number of operators of a pool.
pub const CHECK_POOL_REG_MAXIMUM_OPERATORS: usize = 3;

/// Why a registration of a pool is refused on its own.
#[derive(Clone, Copy, Debug, PartialEq, Eq, Structural)]
pub enum RegistrationError {
    ManagementThresholdZero,
    ManagementThresholdAbove,
    TooManyOwners,
    TooManyOperators,
}

/// Why the registration is refused, if it is: in this order, its management
/// threshold is zero; the threshold is above the number of owners; it has
/// too many owners; it has too many operators.
pub open spec fn registration_error(r: PoolRegistrationView) -> Option<RegistrationError> {
    if r.permissions.threshold() == 0 {
        Some(RegistrationError::ManagementThresholdZero)
    } else if r.permissions.threshold() as int > r.owners.len() {
        Some(RegistrationError::ManagementThresholdAbove)
    } else if r.owners.len() > CHECK_POOL_REG_MAXIMUM_OWNERS {
        Some(RegistrationError::TooManyOwners)
    } else if r.operators.len() > CHECK_POOL_REG_MAXIMUM_OPERATORS {
        Some(RegistrationError::TooManyOperators)
    } else {
        None
    }
}

/// Whether the signature of a pool certificate has an acceptable number of
/// signatures: the operator's, or from one to
/// `CHECK_POOL_REG_MAXIMUM_OWNERS` of owners.
pub open spec fn signature_count_fits(s: PoolSignature) -> bool {
    match s {
        PoolSignature::Operator(_) => true,
        PoolSignature::Owners(o) => 0 < o.signatures@.len() <= CHECK_POOL_REG_MAXIMUM_OWNERS,
    }
}

/// Checks the registration of a pool on its own.
pub fn valid_pool_registration_certificate(auth_cert: &PoolRegistration) -> (r: Result<
    (),
    RegistrationError,
>)
    ensures
        match r {
            Ok(_) => registration_error(auth_cert@) is None,
            Err(e) => registration_error(auth_cert@) == Some(e),
        },
{
    let threshold = auth_cert.management_threshold();
    if threshold == 0 {
        return Err(RegistrationError::ManagementThresholdZero);
    }
    if threshold as usize > auth_cert.owners.len() {
        return Err(RegistrationError::ManagementThresholdAbove);
    }
    if auth_cert.owners.len() > CHECK_POOL_REG_MAXIMUM_OWNERS {
        return Err(RegistrationError::TooManyOwners);
    }
    if auth_cert.operators.len() > CHECK_POOL_REG_MAXIMUM_OPERATORS {
        return Err(RegistrationError::TooManyOperators);
    }
    Ok(())
}

/// Checks the number of signatures of a pool certificate.
pub fn valid_pool_signature(sig: &PoolSignature) -> (r: bool)
    ensures
        r == signature_count_fits(*sig),
{
    match sig {
        PoolSignature::Operator(_) => true,
        PoolSignature::Owners(o) => o.signatures.len() > 0 && o.signatures.len()
            <= CHECK_POOL_REG_MAXIMUM_OWNERS,
    }
}

} // verus!
