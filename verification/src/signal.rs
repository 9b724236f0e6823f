//! The wake signal that resumes a suspended pull.

use std::task::Waker;
use vstd::prelude::*;

verus! {

/// `std::task::Waker`, held as an opaque value: the registry stores it while a
/// pull is suspended and hands it back to the runtime by invoking it.
#[verifier::external_type_specification]
#[verifier::external_body]
pub struct ExWaker(Waker);

/// `std::task::Waker::wake` consumes the signal and asks the runtime to poll
/// the task it belongs to. Nothing is claimed about its effect.
pub assume_specification[ Waker::wake ](waker: Waker)
;

} // verus!
