//! Why a capture can be refused.

use vstd::prelude::*;

verus! {

/// The ways in which a transaction can lack a valid payer. The payer is the
/// address at index 0 of the account table, and it has to sign and to be
/// writable.
#[derive(Clone, Copy, Debug, PartialEq, Eq, Structural)]
pub enum CaptureError {
    /// The account table is empty, so there is no address at index 0.
    MissingPayer,
    /// The address at index 0 is not among the signers.
    PayerNotSigner,
    /// The address at index 0 signs but is not writable.
    PayerNotWritable,
}

impl CaptureError {
    /// A sentence that says what is wrong.
    pub fn message(&self) -> (text: &'static str)
        ensures
            text@ == match *self {
                CaptureError::MissingPayer => "the transaction has no payer: its account table is empty"@,
                CaptureError::PayerNotSigner => "the payer at index 0 does not sign the transaction"@,
                CaptureError::PayerNotWritable => "the payer at index 0 is not writable"@,
            },
    {
        match self {
            CaptureError::MissingPayer => "the transaction has no payer: its account table is empty",
            CaptureError::PayerNotSigner => "the payer at index 0 does not sign the transaction",
            CaptureError::PayerNotWritable => "the payer at index 0 is not writable",
        }
    }
}

} // verus!
