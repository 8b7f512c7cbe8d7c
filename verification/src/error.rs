//! Why the engine turns a call down.

use vstd::prelude::*;

verus! {

/// The reason a call was rejected. A rejected call changes nothing.
#[derive(Clone, Copy, Debug, PartialEq, Eq, Structural)]
pub enum DaoError {
    /// The description has 280 characters or more.
    DescriptionTooLong,
    /// The policy table of a policy change is not one the engine accepts.
    InvalidPolicy,
    /// No proposal has this id.
    NotFound,
    /// The proposal is past the stage the call needs: voting needs it open,
    /// finalizing needs it undecided.
    AlreadyFinalized,
    /// The caller has voted on this proposal before.
    AlreadyVoted,
    /// The voting period has not expired and no majority has formed.
    Undecided,
    /// The policy does not answer for the proposal: the tier that decides
    /// it, or the last, is a ratio with denominator zero, or there is no
    /// tier at all.
    UndefinedThreshold,
    /// A deadline would not fit in 64 bits.
    Overflow,
}

impl DaoError {
    /// The words that describe the error.
    pub open spec fn text(self) -> Seq<char> {
        match self {
            DaoError::DescriptionTooLong => "Description length is too long"@,
            DaoError::InvalidPolicy => "Policy must be a sorted table whose last item is a ratio of at least 1/2"@,
            DaoError::NotFound => "No proposal with such id"@,
            DaoError::AlreadyFinalized => "Proposal already finalized"@,
            DaoError::AlreadyVoted => "Already voted"@,
            DaoError::Undecided => "voting period has not expired and no majority vote yet"@,
            DaoError::UndefinedThreshold => "The policy does not answer for this proposal"@,
            DaoError::Overflow => "A deadline does not fit in 64 bits"@,
        }
    }

    /// The words that describe the error, for the caller to see.
    pub fn reason(&self) -> (r: &'static str)
        ensures
            r@ == self.text(),
    {
        match self {
            DaoError::DescriptionTooLong => "Description length is too long",
            DaoError::InvalidPolicy => "Policy must be a sorted table whose last item is a ratio of at least 1/2",
            DaoError::NotFound => "No proposal with such id",
            DaoError::AlreadyFinalized => "Proposal already finalized",
            DaoError::AlreadyVoted => "Already voted",
            DaoError::Undecided => "voting period has not expired and no majority vote yet",
            DaoError::UndefinedThreshold => "The policy does not answer for this proposal",
            DaoError::Overflow => "A deadline does not fit in 64 bits",
        }
    }
}

} // verus!
