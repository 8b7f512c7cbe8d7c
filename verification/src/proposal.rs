//! A single proposal: what it asks for, who voted, and the status machine
//! that takes it from open voting to a final status.

use crate::error::DaoError;
use crate::policy::{
    answers, check_policy, max_votes, policy_answers, required_votes, valid_policy,
    vote_requirement, PolicyItem,
};
use vstd::prelude::*;
use vstd::string::StrSliceExecFns;

verus! {

/// A description must be shorter than this many characters.
pub const MAX_DESCRIPTION_LENGTH: usize = 280;

/// A member's choice on a proposal.
#[derive(Clone, Copy, Debug, PartialEq, Eq, Structural)]
pub enum Vote {
    Yes,
    No,
}

#[derive(Clone, Copy, Debug, PartialEq, Eq, Structural)]
pub enum ProposalStatus {
    /// Proposal is in active voting stage.
    Vote,
    /// Proposal has successfully passed.
    Success,
    /// Proposal was rejected by the vote.
    Reject,
    /// Vote for proposal has failed (not enough votes).
    Fail,
    /// The uncontested minimum of votes was reached; finalization waits for
    /// a grace period in which a member may still object.
    Delay,
}

impl ProposalStatus {
    /// A status that never changes again.
    pub open spec fn terminal(self) -> bool {
        self != ProposalStatus::Vote && self != ProposalStatus::Delay
    }

    pub fn is_finalized(&self) -> (r: bool)
        ensures
            r == self.terminal(),
    {
        match self {
            ProposalStatus::Vote => false,
            ProposalStatus::Delay => false,
            _ => true,
        }
    }
}

/// The status of a proposal with the given tallies at time `now`.
///
/// Enough Yes votes to reach the ceiling succeed at once. Reaching the
/// amount's own threshold without any No succeeds once the deadline has
/// passed and waits in `Delay` before. Enough No votes to reach the ceiling
/// reject. Otherwise the proposal fails once the deadline has passed or
/// everybody has voted, and stays open until then.
pub open spec fn status_for(
    policy: Seq<PolicyItem>,
    council: nat,
    amount: Option<u128>,
    yes: nat,
    no: nat,
    now: nat,
    deadline: nat,
) -> ProposalStatus {
    let ceiling = max_votes(policy, council);
    if yes >= ceiling {
        ProposalStatus::Success
    } else if yes >= required_votes(policy, amount, council) && no == 0 {
        if now > deadline {
            ProposalStatus::Success
        } else {
            ProposalStatus::Delay
        }
    } else if no >= ceiling {
        ProposalStatus::Reject
    } else if now > deadline || yes + no == council {
        ProposalStatus::Fail
    } else {
        ProposalStatus::Vote
    }
}

/// Computes the status of a proposal from its tallies, the policy, the
/// council size and the clock.
pub fn compute_status(
    policy: &[PolicyItem],
    num_council: u64,
    amount: Option<u128>,
    yes: u64,
    no: u64,
    now: u64,
    deadline: u64,
) -> (s: ProposalStatus)
    requires
        policy_answers(policy@, amount),
    ensures
        s == status_for(
            policy@,
            num_council as nat,
            amount,
            yes as nat,
            no as nat,
            now as nat,
            deadline as nat,
        ),
{
    let votes_required: u64 = vote_requirement(policy, num_council, amount);
    let ceiling: u64 = policy[policy.len() - 1].num_votes(num_council);
    if yes >= ceiling {
        ProposalStatus::Success
    } else if yes >= votes_required && no == 0 {
        if now > deadline {
            ProposalStatus::Success
        } else {
            ProposalStatus::Delay
        }
    } else if no >= ceiling {
        ProposalStatus::Reject
    } else if now > deadline || yes as u128 + no as u128 == num_council as u128 {
        ProposalStatus::Fail
    } else {
        ProposalStatus::Vote
    }
}

/// What a proposal asks for.
#[derive(Debug, PartialEq, Eq)]
pub enum ProposalKind {
    /// Remove the target from the council.
    RemoveCouncil,
    /// Pay `amount` to the target.
    Payout { amount: u128 },
    /// Set the voting period of later proposals.
    ChangeVotePeriod { vote_period: u64 },
    /// Replace the policy table.
    ChangePolicy { policy: Vec<PolicyItem> },
}

/// The mathematical value of a [`ProposalKind`].
pub enum KindView {
    RemoveCouncil,
    Payout { amount: u128 },
    ChangeVotePeriod { vote_period: u64 },
    ChangePolicy { policy: Seq<PolicyItem> },
}

impl KindView {
    /// A policy change must carry a policy the engine accepts; every other
    /// kind is admissible as it is.
    pub open spec fn admissible(self) -> bool {
        self matches KindView::ChangePolicy { policy } ==> valid_policy(policy)
    }

    /// The amount that selects the policy tier: a payout's, and none for the
    /// other kinds.
    pub open spec fn amount(self) -> Option<u128> {
        match self {
            KindView::Payout { amount } => Some(amount),
            _ => None,
        }
    }
}

impl View for ProposalKind {
    type V = KindView;

    open spec fn view(&self) -> KindView {
        match *self {
            ProposalKind::RemoveCouncil => KindView::RemoveCouncil,
            ProposalKind::Payout { amount } => KindView::Payout { amount },
            ProposalKind::ChangeVotePeriod { vote_period } => KindView::ChangeVotePeriod {
                vote_period,
            },
            ProposalKind::ChangePolicy { policy } => KindView::ChangePolicy { policy: policy@ },
        }
    }
}

impl Clone for ProposalKind {
    fn clone(&self) -> (r: Self)
        ensures
            r@ == self@,
    {
        match self {
            ProposalKind::RemoveCouncil => ProposalKind::RemoveCouncil,
            ProposalKind::Payout { amount } => ProposalKind::Payout { amount: *amount },
            ProposalKind::ChangeVotePeriod { vote_period } => ProposalKind::ChangeVotePeriod {
                vote_period: *vote_period,
            },
            ProposalKind::ChangePolicy { policy } => {
                let copy = policy.clone();
                assert(copy@ =~= policy@);
                ProposalKind::ChangePolicy { policy: copy }
            },
        }
    }
}

/// What a member hands in to file a proposal.
#[derive(Debug, PartialEq, Eq)]
pub struct ProposalInput {
    pub target: String,
    pub description: String,
    pub kind: ProposalKind,
}

/// The mathematical value of a [`ProposalInput`].
pub struct InputView {
    pub target: Seq<char>,
    pub description: Seq<char>,
    pub kind: KindView,
}

impl View for ProposalInput {
    type V = InputView;

    open spec fn view(&self) -> InputView {
        InputView { target: self.target@, description: self.description@, kind: self.kind@ }
    }
}

impl InputView {
    /// Why a proposal filed at `now` under the given voting period is turned
    /// down, if it is: the description is checked first, then the policy
    /// table of a policy change, then the deadline.
    pub open spec fn refusal(self, now: nat, vote_period: nat) -> Option<DaoError> {
        if self.description.len() >= MAX_DESCRIPTION_LENGTH {
            Some(DaoError::DescriptionTooLong)
        } else if !self.kind.admissible() {
            Some(DaoError::InvalidPolicy)
        } else if now + vote_period > u64::MAX {
            Some(DaoError::Overflow)
        } else {
            None
        }
    }
}

/// One recorded vote.
#[derive(Debug, PartialEq, Eq)]
pub struct Ballot {
    pub voter: String,
    pub vote: Vote,
}

/// The mathematical value of a [`Ballot`].
pub struct BallotView {
    pub voter: Seq<char>,
    pub vote: Vote,
}

impl View for Ballot {
    type V = BallotView;

    open spec fn view(&self) -> BallotView {
        BallotView { voter: self.voter@, vote: self.vote }
    }
}

/// The values of a run of ballots, in the order they were cast.
pub open spec fn ballots(votes: Seq<Ballot>) -> Seq<BallotView> {
    votes.map_values(|b: Ballot| b@)
}

/// How many of `votes` chose `choice`.
pub open spec fn tally(votes: Seq<BallotView>, choice: Vote) -> nat
    decreases votes.len(),
{
    if votes.len() == 0 {
        0
    } else {
        tally(votes.drop_last(), choice) + if votes.last().vote == choice {
            1nat
        } else {
            0nat
        }
    }
}

/// No voter appears twice.
pub open spec fn distinct_voters(votes: Seq<BallotView>) -> bool {
    forall|i: int, j: int| 0 <= i < j < votes.len() ==> votes[i].voter != votes[j].voter
}

/// Every ballot is a Yes or a No, so the two tallies add up to the number of
/// ballots.
pub proof fn lemma_tallies_add_up(votes: Seq<BallotView>)
    ensures
        tally(votes, Vote::Yes) + tally(votes, Vote::No) == votes.len(),
    decreases votes.len(),
{
    if votes.len() > 0 {
        lemma_tallies_add_up(votes.drop_last());
    }
}

/// One more ballot raises the tally of its choice by one and leaves the
/// other tally as it was.
pub proof fn lemma_tally_push(votes: Seq<BallotView>, ballot: BallotView, choice: Vote)
    ensures
        tally(votes.push(ballot), choice) == tally(votes, choice) + if ballot.vote == choice {
            1nat
        } else {
            0nat
        },
{
    assert(votes.push(ballot).drop_last() =~= votes);
}

/// The mathematical value of a [`Proposal`].
pub struct ProposalView {
    pub status: ProposalStatus,
    pub proposer: Seq<char>,
    pub target: Seq<char>,
    pub description: Seq<char>,
    pub kind: KindView,
    pub vote_period_end: nat,
    pub vote_yes: nat,
    pub vote_no: nat,
    pub votes: Seq<BallotView>,
}

impl ProposalView {
    /// A proposal as it is filed: open for voting, with no votes yet.
    pub open spec fn fresh(proposer: Seq<char>, input: InputView, deadline: nat) -> ProposalView {
        ProposalView {
            status: ProposalStatus::Vote,
            proposer,
            target: input.target,
            description: input.description,
            kind: input.kind,
            vote_period_end: deadline,
            vote_yes: 0,
            vote_no: 0,
            votes: Seq::empty(),
        }
    }

    /// The invariant of a proposal: nobody voted twice, the tallies count
    /// the ballots, the description is short enough and a policy change
    /// carries an acceptable policy.
    pub open spec fn wf(self) -> bool {
        &&& distinct_voters(self.votes)
        &&& self.vote_yes == tally(self.votes, Vote::Yes)
        &&& self.vote_no == tally(self.votes, Vote::No)
        &&& self.description.len() < MAX_DESCRIPTION_LENGTH
        &&& self.kind.admissible()
    }

    /// The tallies fit a council of the given size: no more ballots than
    /// members, and room for one more while the proposal is open, unless
    /// the council is empty.
    pub open spec fn within(self, council: nat) -> bool {
        &&& self.vote_yes + self.vote_no <= council
        &&& self.status == ProposalStatus::Vote ==> self.vote_yes + self.vote_no < council
            || council == 0
    }

    /// The amount that selects the policy tier.
    pub open spec fn amount(self) -> Option<u128> {
        self.kind.amount()
    }

    /// Whether `who` has a ballot on this proposal.
    pub open spec fn has_voted(self, who: Seq<char>) -> bool {
        exists|i: int| 0 <= i < self.votes.len() && (#[trigger] self.votes[i]).voter == who
    }

    /// The status the tallies give at time `now`, under the given policy and
    /// council size.
    pub open spec fn status_at(self, policy: Seq<PolicyItem>, council: nat, now: nat) -> ProposalStatus {
        status_for(
            policy,
            council,
            self.amount(),
            self.vote_yes,
            self.vote_no,
            now,
            self.vote_period_end,
        )
    }

    /// The proposal with one more ballot and the matching tally raised.
    pub open spec fn tallied(self, voter: Seq<char>, choice: Vote) -> ProposalView {
        ProposalView {
            vote_yes: if choice == Vote::Yes {
                self.vote_yes + 1
            } else {
                self.vote_yes
            },
            vote_no: if choice == Vote::No {
                self.vote_no + 1
            } else {
                self.vote_no
            },
            votes: self.votes.push(BallotView { voter, vote: choice }),
            ..self
        }
    }

    /// What finalizing answers: the final status, or why there is none. A
    /// proposal that has a final status is turned down first; then one for
    /// which the policy does not answer; then one whose tallies do not
    /// decide yet.
    pub open spec fn settle_result(self, policy: Seq<PolicyItem>, council: nat, now: nat) -> Result<
        ProposalStatus,
        DaoError,
    > {
        if self.status.terminal() {
            Err(DaoError::AlreadyFinalized)
        } else if !policy_answers(policy, self.amount()) {
            Err(DaoError::UndefinedThreshold)
        } else if !self.status_at(policy, council, now).terminal() {
            Err(DaoError::Undecided)
        } else {
            Ok(self.status_at(policy, council, now))
        }
    }

    /// The proposal after finalizing: the final status is set where there is
    /// one, and nothing else changes.
    pub open spec fn settled(self, policy: Seq<PolicyItem>, council: nat, now: nat) -> ProposalView {
        match self.settle_result(policy, council, now) {
            Ok(status) => ProposalView { status, ..self },
            Err(_) => self,
        }
    }

    /// What a vote answers: the status the proposal moves to, or why the
    /// vote is turned down.
    ///
    /// Only an open proposal takes votes. A vote that arrives after the
    /// deadline is not counted and finalizes the proposal instead. A vote
    /// in time is turned down if the voter has voted before; then if the
    /// policy does not answer for the proposal; then if it moves the
    /// proposal to `Delay` and the new deadline does not fit in 64 bits.
    pub open spec fn vote_result(
        self,
        voter: Seq<char>,
        choice: Vote,
        policy: Seq<PolicyItem>,
        council: nat,
        now: nat,
        grace_period: nat,
    ) -> Result<ProposalStatus, DaoError> {
        if self.status != ProposalStatus::Vote {
            Err(DaoError::AlreadyFinalized)
        } else if now > self.vote_period_end {
            self.settle_result(policy, council, now)
        } else if self.has_voted(voter) {
            Err(DaoError::AlreadyVoted)
        } else if !policy_answers(policy, self.amount()) {
            Err(DaoError::UndefinedThreshold)
        } else {
            let next = self.tallied(voter, choice).status_at(policy, council, now);
            if next == ProposalStatus::Delay && now + grace_period > u64::MAX {
                Err(DaoError::Overflow)
            } else {
                Ok(next)
            }
        }
    }

    /// Whether a vote is recorded: it is in time and is not turned down.
    pub open spec fn records(
        self,
        voter: Seq<char>,
        choice: Vote,
        policy: Seq<PolicyItem>,
        council: nat,
        now: nat,
        grace_period: nat,
    ) -> bool {
        &&& now <= self.vote_period_end
        &&& self.vote_result(voter, choice, policy, council, now, grace_period) is Ok
    }

    /// The proposal after a vote. A vote that moves the proposal to `Delay`
    /// sets the deadline to `now + grace_period`; no other call changes a
    /// deadline.
    pub open spec fn voted(
        self,
        voter: Seq<char>,
        choice: Vote,
        policy: Seq<PolicyItem>,
        council: nat,
        now: nat,
        grace_period: nat,
    ) -> ProposalView {
        match self.vote_result(voter, choice, policy, council, now, grace_period) {
            Err(_) => self,
            Ok(status) => if now > self.vote_period_end {
                ProposalView { status, ..self }
            } else if status == ProposalStatus::Delay {
                ProposalView {
                    status,
                    vote_period_end: now + grace_period,
                    ..self.tallied(voter, choice)
                }
            } else {
                ProposalView { status, ..self.tallied(voter, choice) }
            },
        }
    }
}

impl Clone for Ballot {
    fn clone(&self) -> (r: Self)
        ensures
            r@ == self@,
    {
        Ballot { voter: self.voter.clone(), vote: self.vote }
    }
}

/// One governance item: what is asked, by whom, until when it can be voted
/// on, and the votes so far.
#[derive(Debug, PartialEq, Eq)]
pub struct Proposal {
    status: ProposalStatus,
    proposer: String,
    target: String,
    description: String,
    kind: ProposalKind,
    vote_period_end: u64,
    vote_yes: u64,
    vote_no: u64,
    votes: Vec<Ballot>,
}

impl View for Proposal {
    type V = ProposalView;

    closed spec fn view(&self) -> ProposalView {
        ProposalView {
            status: self.status,
            proposer: self.proposer@,
            target: self.target@,
            description: self.description@,
            kind: self.kind@,
            vote_period_end: self.vote_period_end as nat,
            vote_yes: self.vote_yes as nat,
            vote_no: self.vote_no as nat,
            votes: ballots(self.votes@),
        }
    }
}

impl Clone for Proposal {
    fn clone(&self) -> (r: Self)
        ensures
            r@ == self@,
    {
        let mut votes: Vec<Ballot> = Vec::new();
        let mut i: usize = 0;
        while i < self.votes.len()
            invariant
                0 <= i <= self.votes@.len(),
                ballots(votes@) == ballots(self.votes@).take(i as int),
            decreases self.votes@.len() - i,
        {
            let ballot = self.votes[i].clone();
            let ghost copied = votes@;
            votes.push(ballot);
            assert(ballots(votes@) =~= ballots(copied).push(ballot@));
            assert(ballots(self.votes@).take(i + 1) =~= ballots(self.votes@).take(i as int).push(
                self.votes@[i as int]@,
            ));
            i += 1;
        }
        assert(ballots(votes@) =~= ballots(self.votes@));
        Proposal {
            status: self.status,
            proposer: self.proposer.clone(),
            target: self.target.clone(),
            description: self.description.clone(),
            kind: self.kind.clone(),
            vote_period_end: self.vote_period_end,
            vote_yes: self.vote_yes,
            vote_no: self.vote_no,
            votes,
        }
    }
}

impl Proposal {
    /// Files a proposal at time `now`: open for voting until
    /// `now + vote_period`, with no votes yet.
    pub fn new(proposer: String, input: ProposalInput, now: u64, vote_period: u64) -> (r: Result<
        Proposal,
        DaoError,
    >)
        ensures
            match r {
                Ok(p) => {
                    &&& input@.refusal(now as nat, vote_period as nat) is None
                    &&& p@ == ProposalView::fresh(proposer@, input@, (now + vote_period) as nat)
                    &&& p@.wf()
                },
                Err(e) => input@.refusal(now as nat, vote_period as nat) == Some(e),
            },
    {
        if input.description.as_str().unicode_len() >= MAX_DESCRIPTION_LENGTH {
            return Err(DaoError::DescriptionTooLong);
        }
        match &input.kind {
            ProposalKind::ChangePolicy { policy } => {
                if !check_policy(policy.as_slice()) {
                    return Err(DaoError::InvalidPolicy);
                }
            },
            _ => {},
        }
        let vote_period_end: u64 = match now.checked_add(vote_period) {
            Some(end) => end,
            None => {
                return Err(DaoError::Overflow);
            },
        };
        let p = Proposal {
            status: ProposalStatus::Vote,
            proposer,
            target: input.target,
            description: input.description,
            kind: input.kind,
            vote_period_end,
            vote_yes: 0,
            vote_no: 0,
            votes: Vec::new(),
        };
        assert(p@.votes =~= Seq::<BallotView>::empty());
        Ok(p)
    }

    /// Rebuilds a proposal from stored parts. Answers `None` unless the
    /// parts make a well-formed proposal.
    pub fn restore(
        status: ProposalStatus,
        proposer: String,
        target: String,
        description: String,
        kind: ProposalKind,
        vote_period_end: u64,
        vote_yes: u64,
        vote_no: u64,
        votes: Vec<Ballot>,
    ) -> (r: Option<Proposal>)
        ensures
            ({
                let stored = ProposalView {
                    status,
                    proposer: proposer@,
                    target: target@,
                    description: description@,
                    kind: kind@,
                    vote_period_end: vote_period_end as nat,
                    vote_yes: vote_yes as nat,
                    vote_no: vote_no as nat,
                    votes: ballots(votes@),
                };
                match r {
                    Some(p) => p@ == stored && stored.wf(),
                    None => !stored.wf(),
                }
            }),
    {
        let p = Proposal {
            status,
            proposer,
            target,
            description,
            kind,
            vote_period_end,
            vote_yes,
            vote_no,
            votes,
        };
        if p.is_well_formed() {
            Some(p)
        } else {
            None
        }
    }

    /// Whether the proposal meets its invariant.
    pub fn is_well_formed(&self) -> (r: bool)
        ensures
            r == self@.wf(),
    {
        if self.description.as_str().unicode_len() >= MAX_DESCRIPTION_LENGTH {
            return false;
        }
        match &self.kind {
            ProposalKind::ChangePolicy { policy } => {
                if !check_policy(policy.as_slice()) {
                    return false;
                }
            },
            _ => {},
        }
        let n: usize = self.votes.len();
        let mut yes: u64 = 0;
        let mut no: u64 = 0;
        let mut j: usize = 0;
        while j < n
            invariant
                0 <= j <= n,
                n == self.votes@.len(),
                yes == tally(self@.votes.take(j as int), Vote::Yes),
                no == tally(self@.votes.take(j as int), Vote::No),
                distinct_voters(self@.votes.take(j as int)),
            decreases n - j,
        {
            let mut i: usize = 0;
            while i < j
                invariant
                    0 <= i <= j < n,
                    n == self.votes@.len(),
                    forall|k: int| 0 <= k < i ==> (#[trigger] self@.votes[k]).voter != self@.votes[j as int].voter,
                decreases j - i,
            {
                if self.votes[i].voter == self.votes[j].voter {
                    assert(self@.votes[i as int].voter == self@.votes[j as int].voter);
                    return false;
                }
                i += 1;
            }
            proof {
                let shorter = self@.votes.take(j as int);
                let longer = self@.votes.take(j + 1);
                assert(longer =~= shorter.push(self@.votes[j as int]));
                lemma_tally_push(shorter, self@.votes[j as int], Vote::Yes);
                lemma_tally_push(shorter, self@.votes[j as int], Vote::No);
                lemma_tallies_add_up(longer);
                assert forall|a: int, b: int| 0 <= a < b < longer.len() implies longer[a].voter
                    != longer[b].voter by {
                    if b < j {
                        assert(shorter[a].voter != shorter[b].voter);
                    } else {
                        assert(self@.votes[a].voter != self@.votes[j as int].voter);
                    }
                }
            }
            match self.votes[j].vote {
                Vote::Yes => {
                    yes += 1;
                },
                Vote::No => {
                    no += 1;
                },
            }
            j += 1;
        }
        assert(self@.votes.take(n as int) =~= self@.votes);
        yes == self.vote_yes && no == self.vote_no
    }

    pub fn status(&self) -> (r: ProposalStatus)
        ensures
            r == self@.status,
    {
        self.status
    }

    pub fn proposer(&self) -> (r: &String)
        ensures
            r@ == self@.proposer,
    {
        &self.proposer
    }

    pub fn target(&self) -> (r: &String)
        ensures
            r@ == self@.target,
    {
        &self.target
    }

    pub fn description(&self) -> (r: &String)
        ensures
            r@ == self@.description,
    {
        &self.description
    }

    pub fn kind(&self) -> (r: &ProposalKind)
        ensures
            r@ == self@.kind,
    {
        &self.kind
    }

    pub fn vote_period_end(&self) -> (r: u64)
        ensures
            r == self@.vote_period_end,
    {
        self.vote_period_end
    }

    pub fn vote_yes(&self) -> (r: u64)
        ensures
            r == self@.vote_yes,
    {
        self.vote_yes
    }

    pub fn vote_no(&self) -> (r: u64)
        ensures
            r == self@.vote_no,
    {
        self.vote_no
    }

    /// The ballots in the order they were cast.
    pub fn votes(&self) -> (r: &Vec<Ballot>)
        ensures
            ballots(r@) == self@.votes,
    {
        &self.votes
    }

    /// The amount a payout moves; `None` for the other kinds.
    pub fn get_amount(&self) -> (r: Option<u128>)
        ensures
            r == self@.amount(),
    {
        match self.kind {
            ProposalKind::Payout { amount } => Some(amount),
            _ => None,
        }
    }

    /// Whether `who` has a ballot on this proposal.
    pub fn has_voted(&self, who: &String) -> (r: bool)
        ensures
            r == self@.has_voted(who@),
    {
        let mut i: usize = 0;
        while i < self.votes.len()
            invariant
                0 <= i <= self.votes@.len(),
                forall|j: int| 0 <= j < i ==> (#[trigger] ballots(self.votes@)[j]).voter != who@,
            decreases self.votes@.len() - i,
        {
            if self.votes[i].voter == *who {
                assert(ballots(self.votes@)[i as int].voter == who@);
                return true;
            }
            i += 1;
        }
        false
    }

    /// Compute new vote status given the policy, the council size and the
    /// current timestamp.
    pub fn vote_status(&self, policy: &[PolicyItem], num_council: u64, now: u64) -> (r:
        ProposalStatus)
        requires
            policy_answers(policy@, self@.amount()),
        ensures
            r == self@.status_at(policy@, num_council as nat, now as nat),
    {
        compute_status(
            policy,
            num_council,
            self.get_amount(),
            self.vote_yes,
            self.vote_no,
            now,
            self.vote_period_end,
        )
    }

    /// Finalizes the proposal: sets the final status that the tallies give at
    /// `now`. Fails, and changes nothing, if the proposal has a final status
    /// already, the policy does not answer for it, or the tallies do not
    /// decide yet.
    pub fn settle(&mut self, policy: &[PolicyItem], num_council: u64, now: u64) -> (r: Result<
        ProposalStatus,
        DaoError,
    >)
        ensures
            r == old(self)@.settle_result(policy@, num_council as nat, now as nat),
            final(self)@ == old(self)@.settled(policy@, num_council as nat, now as nat),
            old(self)@.wf() ==> final(self)@.wf(),
    {
        if self.status.is_finalized() {
            return Err(DaoError::AlreadyFinalized);
        }
        if !answers(policy, self.get_amount()) {
            return Err(DaoError::UndefinedThreshold);
        }
        let status = self.vote_status(policy, num_council, now);
        if !status.is_finalized() {
            return Err(DaoError::Undecided);
        }
        self.status = status;
        Ok(status)
    }

    /// Records `voter`'s choice and moves the proposal to the status the new
    /// tallies give. A vote that arrives after the deadline is not recorded
    /// and finalizes the proposal instead. A rejected vote changes nothing.
    pub fn cast(
        &mut self,
        voter: String,
        choice: Vote,
        policy: &[PolicyItem],
        num_council: u64,
        now: u64,
        grace_period: u64,
    ) -> (r: Result<ProposalStatus, DaoError>)
        requires
            old(self)@.wf(),
        ensures
            r == old(self)@.vote_result(
                voter@,
                choice,
                policy@,
                num_council as nat,
                now as nat,
                grace_period as nat,
            ),
            final(self)@ == old(self)@.voted(
                voter@,
                choice,
                policy@,
                num_council as nat,
                now as nat,
                grace_period as nat,
            ),
            final(self)@.wf(),
    {
        if self.status != ProposalStatus::Vote {
            return Err(DaoError::AlreadyFinalized);
        }
        if self.vote_period_end < now {
            return self.settle(policy, num_council, now);
        }
        if self.has_voted(&voter) {
            return Err(DaoError::AlreadyVoted);
        }
        if !answers(policy, self.get_amount()) {
            return Err(DaoError::UndefinedThreshold);
        }
        let ghost ballot = BallotView { voter: voter@, vote: choice };
        proof {
            lemma_tally_push(self@.votes, ballot, Vote::Yes);
            lemma_tally_push(self@.votes, ballot, Vote::No);
            lemma_tallies_add_up(self@.votes.push(ballot));
        }
        // The ballot goes in first, so that the tallies are known to fit;
        // it is taken out again if the vote is refused below.
        self.votes.push(Ballot { voter, vote: choice });
        assert(ballots(self.votes@) =~= old(self)@.votes.push(ballot));
        assert(self.votes@.len() == self.votes.len());
        let yes: u64 = match choice {
            Vote::Yes => self.vote_yes + 1,
            Vote::No => self.vote_yes,
        };
        let no: u64 = match choice {
            Vote::Yes => self.vote_no,
            Vote::No => self.vote_no + 1,
        };
        let next = compute_status(
            policy,
            num_council,
            self.get_amount(),
            yes,
            no,
            now,
            self.vote_period_end,
        );
        let mut deadline: u64 = self.vote_period_end;
        if next == ProposalStatus::Delay {
            match now.checked_add(grace_period) {
                Some(end) => {
                    deadline = end;
                },
                None => {
                    self.votes.pop();
                    assert(self.votes@ =~= old(self).votes@);
                    return Err(DaoError::Overflow);
                },
            }
        }
        self.vote_yes = yes;
        self.vote_no = no;
        self.status = next;
        self.vote_period_end = deadline;
        Ok(next)
    }
}

} // verus!
