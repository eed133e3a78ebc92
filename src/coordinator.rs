use vstd::prelude::*;

use crate::admission::{admission_spec, AdmissionError};
use crate::ledger::{accepts, appended, tip_number, LedgerError, SlotView, Storage};

verus! {

/// Why one contribution attempt did not commit.
#[derive(PartialEq, Eq, Structural, Debug, Clone, Copy)]
pub enum CeremonyError {
    /// The address has bid less than the minimum.
    Ineligible,
    /// The address may not contribute at all.
    Admission(AdmissionError),
    /// The contribution did not pass validation against the tip.
    Rejected,
    /// The ledger refused the append.
    Ledger(LedgerError),
}

/// The outcome of one contribution attempt on the ledger `v`, where `valid`
/// tells whether the contribution passed validation against slot `observed`.
pub open spec fn attempt_spec(
    v: Seq<SlotView>,
    address: Seq<u8>,
    total_sent: u128,
    banned: Seq<Vec<u8>>,
    observed: u64,
    valid: bool,
) -> Result<u64, CeremonyError> {
    match admission_spec(v, address, total_sent, banned) {
        Err(e) => Err(CeremonyError::Admission(e)),
        Ok(None) => Err(CeremonyError::Ineligible),
        Ok(Some(_)) => if !valid {
            Err(CeremonyError::Rejected)
        } else if accepts(v, observed) {
            Ok(v.len() as u64)
        } else if observed != tip_number(v) {
            Err(CeremonyError::Ledger(LedgerError::Conflict))
        } else {
            Err(CeremonyError::Ledger(LedgerError::Full))
        },
    }
}

impl Storage {
    /// One contribution attempt by `address`, which has sent `total_sent`
    /// to the ceremony. `validated` holds the contribution's payload when it
    /// passed validation against the tip of slot `observed`, and nothing when
    /// it failed. The attempt is admitted first, then the validated
    /// contribution is appended; on any failure nothing is written.
    pub fn attempt_contribution(
        &mut self,
        address: Vec<u8>,
        total_sent: u128,
        banned: &Vec<Vec<u8>>,
        observed: u64,
        validated: Option<Vec<u8>>,
    ) -> (r: Result<u64, CeremonyError>)
        requires
            old(self).wf(),
        ensures
            final(self).wf(),
            r == attempt_spec(old(self)@, address@, total_sent, banned@, observed, validated is Some),
            r is Ok ==> final(self)@ == appended(old(self)@, address@, validated->Some_0@),
            r is Err ==> final(self)@ == old(self)@,
    {
        match self.can_contribute(&address, total_sent, banned) {
            Err(e) => Err(CeremonyError::Admission(e)),
            Ok(None) => Err(CeremonyError::Ineligible),
            Ok(Some(_)) => match validated {
                None => Err(CeremonyError::Rejected),
                Some(payload) => match self.commit_contribution(address, payload, observed) {
                    Ok(n) => Ok(n),
                    Err(e) => Err(CeremonyError::Ledger(e)),
                },
            },
        }
    }
}

} // verus!
