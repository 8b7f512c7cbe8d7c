//! A governance engine for a small council: members file proposals, vote on
//! them under an amount-sensitive threshold policy, and approved proposals
//! take effect exactly once.

pub mod dao;
pub mod error;
pub mod laws;
pub mod policy;
pub mod proposal;

pub use dao::{FediDAO, Member, Transfer};
pub use error::DaoError;
pub use policy::{answers, check_policy, vote_requirement, NumOrRatio, PolicyItem};
pub use proposal::{
    compute_status, Ballot, Proposal, ProposalInput, ProposalKind, ProposalStatus, Vote,
    MAX_DESCRIPTION_LENGTH,
};
