use vstd::prelude::*;

use crate::ledger::{bytes_eq, contributed, Storage};

verus! {

/// The least cumulative amount an address must have sent to be admitted.
pub const MIN_BID_AMOUNT: u128 = 1;

/// Why an address may not contribute, whatever it has bid.
#[derive(PartialEq, Eq, Structural, Debug, Clone, Copy)]
pub enum AdmissionError {
    /// The address is on the ban list.
    Banned,
    /// The address already holds a slot of the ledger.
    AlreadyContributed,
}

/// The bid an address with `total_sent` makes: none below the minimum.
pub open spec fn bid_spec(total_sent: u128) -> Option<u128> {
    if total_sent < MIN_BID_AMOUNT {
        None
    } else {
        Some(total_sent)
    }
}

/// Whether `address` is one of `banned`.
pub open spec fn is_banned(banned: Seq<Vec<u8>>, address: Seq<u8>) -> bool {
    exists|i: int| 0 <= i < banned.len() && #[trigger] banned[i]@ == address
}

/// The bid that the observed cumulative amount `total_sent` stands for, or
/// `None` when it is under the minimum.
pub fn bid_for(total_sent: u128) -> (r: Option<u128>)
    ensures
        r == bid_spec(total_sent),
{
    if total_sent < MIN_BID_AMOUNT {
        None
    } else {
        Some(total_sent)
    }
}

/// Whether `address` is one of `banned`.
pub fn banned_contains(banned: &Vec<Vec<u8>>, address: &Vec<u8>) -> (r: bool)
    ensures
        r == is_banned(banned@, address@),
{
    let mut i: usize = 0;
    while i < banned.len()
        invariant
            0 <= i <= banned@.len(),
            forall|j: int| 0 <= j < i ==> banned@[j]@ != address@,
        decreases banned@.len() - i,
    {
        if bytes_eq(&banned[i], address) {
            return true;
        }
        i += 1;
    }
    false
}

impl Storage {
    /// Whether `address`, which has sent `total_sent` in all to the
    /// ceremony, may contribute: its bid when it may, `None` when the amount
    /// is under the minimum, an error when it is banned or has contributed.
    pub fn can_contribute(&self, address: &Vec<u8>, total_sent: u128, banned: &Vec<Vec<u8>>) -> (r: Result<Option<u128>, AdmissionError>)
        requires
            self.wf(),
        ensures
            r == admission_spec(self@, address@, total_sent, banned@),
    {
        if banned_contains(banned, address) {
            return Err(AdmissionError::Banned);
        }
        if self.has_contributed(address) {
            return Err(AdmissionError::AlreadyContributed);
        }
        Ok(bid_for(total_sent))
    }
}

/// The outcome of admission for `address` on the ledger `v`.
pub open spec fn admission_spec(
    v: Seq<crate::ledger::SlotView>,
    address: Seq<u8>,
    total_sent: u128,
    banned: Seq<Vec<u8>>,
) -> Result<Option<u128>, AdmissionError> {
    if is_banned(banned, address) {
        Err(AdmissionError::Banned)
    } else if contributed(v, address) {
        Err(AdmissionError::AlreadyContributed)
    } else {
        Ok(bid_spec(total_sent))
    }
}

} // verus!
