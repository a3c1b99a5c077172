//! The reasons for which a spend is refused, and the status each one ends with.

use vstd::prelude::*;

verus! {

/// Why a spend was refused. The first refusal ends the validation.
#[derive(Clone, Copy, Debug, PartialEq, Eq, Structural)]
pub enum Error {
    /// No unlock proof is attached to the first input of the script group.
    ItemMissing,
    /// Arguments that should name a sealed out point do not parse as one.
    BadRGBPPLock,
    /// The unlock proof is absent where a redirection points, or does not parse.
    BadRGBPPUnlock,
    /// Arguments that should describe a time-locked exit do not parse as one.
    BadBTCTimeLock,
    /// The sealed out point is not among the inputs of the Bitcoin transaction.
    UtxoSealMismatch,
    /// The Bitcoin transaction holds no commitment, or the proof declares that
    /// it covers no input or no output.
    BadBtcCommitment,
    /// The proof names a commitment version other than the supported one.
    UnknownCommitmentVersion,
    /// A cell outside the committed prefix carries a type script, or the digest
    /// computed here differs from the commitment.
    CommitmentMismatch,
    /// An output with a type script is neither sealed anew nor put behind a
    /// valid time-locked exit.
    OutputCellWithUnknownLock,
    /// A failure raised outside this crate (by the host, the Bitcoin parser or
    /// the light client), with the status it came with.
    Outside(i8),
}

impl Error {
    /// The status of each refusal. The refusals of this crate have distinct
    /// statuses. A failure raised outside keeps its own, unless that is zero:
    /// zero says that the spend is accepted, so such a failure ends with -1.
    pub open spec fn spec_code(self) -> i8 {
        match self {
            Error::ItemMissing => 2,
            Error::BadRGBPPLock => 5,
            Error::BadRGBPPUnlock => 6,
            Error::BadBTCTimeLock => 7,
            Error::UtxoSealMismatch => 8,
            Error::BadBtcCommitment => 9,
            Error::UnknownCommitmentVersion => 10,
            Error::CommitmentMismatch => 11,
            Error::OutputCellWithUnknownLock => 12,
            Error::Outside(status) => if status == 0 {
                -1i8
            } else {
                status
            },
        }
    }

    /// The status that identifies this refusal.
    pub fn code(self) -> (status: i8)
        ensures
            status == self.spec_code(),
    {
        match self {
            Error::ItemMissing => 2,
            Error::BadRGBPPLock => 5,
            Error::BadRGBPPUnlock => 6,
            Error::BadBTCTimeLock => 7,
            Error::UtxoSealMismatch => 8,
            Error::BadBtcCommitment => 9,
            Error::UnknownCommitmentVersion => 10,
            Error::CommitmentMismatch => 11,
            Error::OutputCellWithUnknownLock => 12,
            Error::Outside(status) => if status == 0 {
                -1
            } else {
                status
            },
        }
    }
}

/// The status a validation ends with: zero where the spend is accepted, the
/// refusal's own status where it is not.
pub open spec fn exit_status(outcome: Result<(), Error>) -> i8 {
    match outcome {
        Ok(_) => 0,
        Err(e) => e.spec_code(),
    }
}

/// Two refusals of this crate with the same status are the same refusal.
pub proof fn lemma_codes_identify(a: Error, b: Error)
    requires
        !(a is Outside),
        !(b is Outside),
        a.spec_code() == b.spec_code(),
    ensures
        a == b,
{
}

/// A validation ends with status zero only where the spend is accepted.
pub proof fn lemma_only_success_exits_with_zero(outcome: Result<(), Error>)
    ensures
        exit_status(outcome) == 0 <==> outcome is Ok,
{
}

} // verus!
