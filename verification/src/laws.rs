//! What holds of the engine whatever is asked of it, stated over its
//! mathematical values and proved.

use crate::dao::{
    lemma_council_without_len, lemma_enacted_wf, lemma_joined_wf, lemma_seat_from, DaoView,
    TransferView,
};
use crate::error::DaoError;
use crate::policy::{max_votes, policy_answers, valid_policy, PolicyItem};
use crate::proposal::{
    distinct_voters, lemma_tallies_add_up, lemma_tally_push, status_for, BallotView, InputView, ProposalStatus,
    ProposalView, Vote,
};
use vstd::prelude::*;

verus! {

/// Under an acceptable policy the ceiling, which is what a proposal without
/// an amount needs, never asks for more votes than the council has members.
pub proof fn law_ceiling_within_council(policy: Seq<PolicyItem>, council: nat)
    requires
        valid_policy(policy),
    ensures
        max_votes(policy, council) <= council,
{
}

/// A vote keeps a proposal well formed: nobody appears twice among the
/// voters and the tallies count the ballots.
pub proof fn law_vote_keeps_wf(
    p: ProposalView,
    voter: Seq<char>,
    choice: Vote,
    policy: Seq<PolicyItem>,
    council: nat,
    now: nat,
    grace_period: nat,
)
    requires
        p.wf(),
    ensures
        p.voted(voter, choice, policy, council, now, grace_period).wf(),
{
    let ballot = BallotView { voter, vote: choice };
    lemma_tally_push(p.votes, ballot, Vote::Yes);
    lemma_tally_push(p.votes, ballot, Vote::No);
}

/// A vote is recorded exactly when the proposal is open, the vote is in
/// time, the voter has not voted before, the policy answers for the
/// proposal and, if the vote moves the proposal to `Delay`, the new
/// deadline fits in 64 bits.
pub proof fn law_vote_is_recorded(
    p: ProposalView,
    voter: Seq<char>,
    choice: Vote,
    policy: Seq<PolicyItem>,
    council: nat,
    now: nat,
    grace_period: nat,
)
    ensures
        p.records(voter, choice, policy, council, now, grace_period) <==> {
            &&& p.status == ProposalStatus::Vote
            &&& now <= p.vote_period_end
            &&& !p.has_voted(voter)
            &&& policy_answers(policy, p.amount())
            &&& p.tallied(voter, choice).status_at(policy, council, now) == ProposalStatus::Delay
                ==> now + grace_period <= u64::MAX
        },
{
}

/// A recorded vote raises exactly one tally, by exactly one, and appends
/// the voter's ballot; a vote that is not recorded leaves tallies and
/// ballots as they were.
pub proof fn law_vote_counts_once(
    p: ProposalView,
    voter: Seq<char>,
    choice: Vote,
    policy: Seq<PolicyItem>,
    council: nat,
    now: nat,
    grace_period: nat,
)
    ensures
        ({
            let after = p.voted(voter, choice, policy, council, now, grace_period);
            if p.records(voter, choice, policy, council, now, grace_period) {
                &&& after.votes == p.votes.push(BallotView { voter, vote: choice })
                &&& after.vote_yes == p.vote_yes + if choice == Vote::Yes {
                    1nat
                } else {
                    0nat
                }
                &&& after.vote_no == p.vote_no + if choice == Vote::No {
                    1nat
                } else {
                    0nat
                }
                &&& p.vote_yes + p.vote_no == p.votes.len() ==> after.vote_yes + after.vote_no
                    == after.votes.len()
                &&& distinct_voters(p.votes) ==> distinct_voters(after.votes)
            } else {
                &&& after.vote_yes == p.vote_yes
                &&& after.vote_no == p.vote_no
                &&& after.votes == p.votes
            }
        }),
{
}

/// While the council keeps its size a vote keeps the tallies within it,
/// unless the vote is recorded while the council is empty.
pub proof fn law_vote_keeps_tallies_within(
    p: ProposalView,
    voter: Seq<char>,
    choice: Vote,
    policy: Seq<PolicyItem>,
    council: nat,
    now: nat,
    grace_period: nat,
)
    requires
        p.within(council),
        council > 0 || !p.records(voter, choice, policy, council, now, grace_period),
    ensures
        p.voted(voter, choice, policy, council, now, grace_period).within(council),
{
}

/// A proposal with a final status takes no vote and cannot be finalized
/// again: both calls fail and leave it exactly as it is.
pub proof fn law_final_status_stays(
    p: ProposalView,
    voter: Seq<char>,
    choice: Vote,
    policy: Seq<PolicyItem>,
    council: nat,
    now: nat,
    grace_period: nat,
)
    requires
        p.status.terminal(),
    ensures
        p.vote_result(voter, choice, policy, council, now, grace_period) == Err::<
            ProposalStatus,
            DaoError,
        >(DaoError::AlreadyFinalized),
        p.voted(voter, choice, policy, council, now, grace_period) == p,
        p.settle_result(policy, council, now) == Err::<ProposalStatus, DaoError>(
            DaoError::AlreadyFinalized,
        ),
        p.settled(policy, council, now) == p,
{
}

/// A vote changes the deadline only when it moves the proposal from `Vote`
/// to `Delay`, and then to `now + grace_period`. No vote reopens a proposal
/// that has left `Vote`.
pub proof fn law_vote_moves_deadline_on_delay_only(
    p: ProposalView,
    voter: Seq<char>,
    choice: Vote,
    policy: Seq<PolicyItem>,
    council: nat,
    now: nat,
    grace_period: nat,
)
    ensures
        ({
            let after = p.voted(voter, choice, policy, council, now, grace_period);
            &&& after.vote_period_end != p.vote_period_end ==> {
                &&& p.status == ProposalStatus::Vote
                &&& after.status == ProposalStatus::Delay
                &&& after.vote_period_end == now + grace_period
            }
            &&& after.status == ProposalStatus::Vote ==> p.status == ProposalStatus::Vote
        }),
{
}

/// Finalizing never changes a deadline, a tally or a ballot, and never
/// reopens a proposal.
pub proof fn law_settle_changes_status_only(
    p: ProposalView,
    policy: Seq<PolicyItem>,
    council: nat,
    now: nat,
)
    ensures
        p.settled(policy, council, now) == (ProposalView {
            status: p.settled(policy, council, now).status,
            ..p
        }),
        p.settled(policy, council, now).status != p.status ==> p.settled(
            policy,
            council,
            now,
        ).status.terminal(),
{
}

/// Once the deadline has passed the tallies always decide: the status they
/// give is final. So a late vote, and finalizing after the deadline, never
/// fail with `Undecided`.
pub proof fn law_deadline_decides(p: ProposalView, policy: Seq<PolicyItem>, council: nat, now: nat)
    requires
        now > p.vote_period_end,
    ensures
        p.status_at(policy, council, now).terminal(),
{
}

/// A call that can change the engine, with everything it is given.
pub enum Call {
    Join { account: Seq<char>, name: Seq<char> },
    AddProposal { input: InputView, proposer: Seq<char>, now: nat },
    Vote { id: nat, choice: Vote, voter: Seq<char>, now: nat },
    Finalize { id: nat, now: nat },
}

/// The engine after one call.
pub open spec fn step(dao: DaoView, call: Call) -> DaoView {
    match call {
        Call::Join { account, name } => dao.joined(account, name),
        Call::AddProposal { input, proposer, now } => dao.added(input, proposer, now),
        Call::Vote { id, choice, voter, now } => dao.voted(id, choice, voter, now),
        Call::Finalize { id, now } => dao.finalized(id, now),
    }
}

/// The engine after a run of calls, made one after the other.
pub open spec fn run(dao: DaoView, calls: Seq<Call>) -> DaoView
    decreases calls.len(),
{
    if calls.len() == 0 {
        dao
    } else {
        step(run(dao, calls.drop_last()), calls.last())
    }
}

/// No call breaks the engine's invariant: the policy stays acceptable, no
/// account holds two seats, and in every proposal each voter appears once
/// and the tallies count the ballots.
pub proof fn law_step_keeps_wf(dao: DaoView, call: Call)
    requires
        dao.wf(),
    ensures
        step(dao, call).wf(),
{
    match call {
        Call::Join { account, name } => {
            lemma_joined_wf(dao, account, name);
        },
        Call::AddProposal { input, proposer, now } => {
            let after = dao.added(input, proposer, now);
            assert forall|i: int| 0 <= i < after.proposals.len() implies (
            #[trigger] after.proposals[i]).wf() by {
                if i < dao.proposals.len() {
                    assert(after.proposals[i] == dao.proposals[i]);
                }
            }
        },
        Call::Vote { id, choice, voter, now } => {
            if dao.vote_result(id, choice, voter, now) is Ok {
                let p = dao.proposals[id as int];
                let next = p.voted(
                    voter,
                    choice,
                    dao.policy,
                    dao.council.len(),
                    now,
                    dao.grace_period,
                );
                law_vote_keeps_wf(
                    p,
                    voter,
                    choice,
                    dao.policy,
                    dao.council.len(),
                    now,
                    dao.grace_period,
                );
                lemma_decision_keeps_wf(dao, id as int, next);
            }
        },
        Call::Finalize { id, now } => {
            if dao.finalize_result(id, now) is Ok {
                let next = dao.proposals[id as int].settled(dao.policy, dao.council.len(), now);
                lemma_decision_keeps_wf(dao, id as int, next);
            }
        },
    }
}

/// Putting a well-formed proposal in the place of a stored one, and
/// enacting it if it succeeded, keeps the engine well formed.
proof fn lemma_decision_keeps_wf(dao: DaoView, id: int, next: ProposalView)
    requires
        dao.wf(),
        next.wf(),
        0 <= id < dao.proposals.len(),
    ensures
        dao.with_decision(id, next).wf(),
{
    lemma_enacted_wf(dao, next);
    let after = dao.with_decision(id, next);
    assert forall|i: int| 0 <= i < after.proposals.len() implies (#[trigger] after.proposals[i]).wf() by {
        if i != id {
            assert(after.proposals[i] == dao.proposals[i]);
        }
    }
}

/// No run of calls breaks the engine's invariant.
pub proof fn law_run_keeps_wf(dao: DaoView, calls: Seq<Call>)
    requires
        dao.wf(),
    ensures
        run(dao, calls).wf(),
    decreases calls.len(),
{
    if calls.len() > 0 {
        law_run_keeps_wf(dao, calls.drop_last());
        law_step_keeps_wf(run(dao, calls.drop_last()), calls.last());
    }
}

/// Proposals are never deleted, and a call touches at most the proposal it
/// names: every other stored proposal stays exactly as it is.
pub proof fn law_step_touches_one(dao: DaoView, call: Call, j: int)
    requires
        0 <= j < dao.proposals.len(),
    ensures
        step(dao, call).proposals.len() >= dao.proposals.len(),
        step(dao, call).proposals[j] != dao.proposals[j] ==> (call matches Call::Vote { id, .. }
            && id == j) || (call matches Call::Finalize { id, .. } && id == j),
{
}

/// A call that is turned down changes nothing: not the council, not the
/// configuration, not a single proposal.
pub proof fn law_rejected_call_changes_nothing(
    dao: DaoView,
    id: nat,
    choice: Vote,
    voter: Seq<char>,
    input: InputView,
    now: nat,
)
    ensures
        dao.vote_result(id, choice, voter, now) is Err ==> dao.voted(id, choice, voter, now) == dao,
        dao.finalize_result(id, now) is Err ==> dao.finalized(id, now) == dao,
        dao.add_result(input, now) is Err ==> dao.added(input, voter, now) == dao,
{
}

/// Once a proposal has a final status, a vote on it and finalizing it both
/// fail with `AlreadyFinalized` and change nothing at all.
pub proof fn law_final_calls_fail(dao: DaoView, id: nat, choice: Vote, voter: Seq<char>, now: nat)
    requires
        id < dao.proposals.len(),
        dao.proposals[id as int].status.terminal(),
    ensures
        dao.vote_result(id, choice, voter, now) == Err::<Option<TransferView>, DaoError>(
            DaoError::AlreadyFinalized,
        ),
        dao.voted(id, choice, voter, now) == dao,
        dao.finalize_result(id, now) == Err::<Option<TransferView>, DaoError>(
            DaoError::AlreadyFinalized,
        ),
        dao.finalized(id, now) == dao,
{
}

/// Once a proposal has a final status, no call changes its status, its
/// tallies, its ballots or anything else of it.
pub proof fn law_step_final_stays(dao: DaoView, call: Call, j: int)
    requires
        0 <= j < dao.proposals.len(),
        dao.proposals[j].status.terminal(),
    ensures
        j < step(dao, call).proposals.len(),
        step(dao, call).proposals[j] == dao.proposals[j],
{
}

/// Once a proposal has a final status, it stays as it is through every run
/// of calls.
pub proof fn law_run_final_stays(dao: DaoView, calls: Seq<Call>, j: int)
    requires
        0 <= j < dao.proposals.len(),
        dao.proposals[j].status.terminal(),
    ensures
        j < run(dao, calls).proposals.len(),
        run(dao, calls).proposals[j] == dao.proposals[j],
    decreases calls.len(),
{
    if calls.len() > 0 {
        law_run_final_stays(dao, calls.drop_last(), j);
        law_step_final_stays(run(dao, calls.drop_last()), calls.last(), j);
    }
}

/// A vote on a stored, open proposal that comes in time from somebody who
/// has not voted is recorded, provided the policy answers for the proposal
/// and a move to `Delay` gives a deadline that fits in 64 bits. The stored
/// proposal then holds one more ballot, the voter's, and the matching
/// tally is up by one; no other proposal changes.
pub proof fn law_vote_records_ballot(dao: DaoView, id: nat, choice: Vote, voter: Seq<char>, now: nat)
    requires
        id < dao.proposals.len(),
        dao.proposals[id as int].status == ProposalStatus::Vote,
        now <= dao.proposals[id as int].vote_period_end,
        !dao.proposals[id as int].has_voted(voter),
        policy_answers(dao.policy, dao.proposals[id as int].amount()),
        dao.proposals[id as int].tallied(voter, choice).status_at(
            dao.policy,
            dao.council.len(),
            now,
        ) == ProposalStatus::Delay ==> now + dao.grace_period <= u64::MAX,
    ensures
        dao.records(id, choice, voter, now),
        dao.vote_result(id, choice, voter, now) is Ok,
        ({
            let before = dao.proposals[id as int];
            let after = dao.voted(id, choice, voter, now).proposals[id as int];
            &&& dao.voted(id, choice, voter, now).proposals.len() == dao.proposals.len()
            &&& after.votes == before.votes.push(BallotView { voter, vote: choice })
            &&& after.vote_yes == before.vote_yes + if choice == Vote::Yes {
                1nat
            } else {
                0nat
            }
            &&& after.vote_no == before.vote_no + if choice == Vote::No {
                1nat
            } else {
                0nat
            }
            &&& before.wf() ==> distinct_voters(after.votes) && after.vote_yes + after.vote_no
                == after.votes.len()
        }),
{
    let before = dao.proposals[id as int];
    if before.wf() {
        law_vote_keeps_wf(
            before,
            voter,
            choice,
            dao.policy,
            dao.council.len(),
            now,
            dao.grace_period,
        );
        lemma_tallies_add_up(before.votes.push(BallotView { voter, vote: choice }));
    }
}

/// A payment is answered only by the call that makes the proposal succeed,
/// and after it every vote on the proposal and every attempt to finalize it
/// fails: what a proposal asks for is done once.
pub proof fn law_vote_pays_once(
    dao: DaoView,
    id: nat,
    choice: Vote,
    voter: Seq<char>,
    now: nat,
    later_choice: Vote,
    later_voter: Seq<char>,
    later: nat,
)
    requires
        dao.vote_result(id, choice, voter, now) matches Ok(Some(_)),
    ensures
        !dao.proposals[id as int].status.terminal(),
        dao.voted(id, choice, voter, now).proposals[id as int].status == ProposalStatus::Success,
        dao.voted(id, choice, voter, now).vote_result(id, later_choice, later_voter, later) is Err,
        dao.voted(id, choice, voter, now).finalize_result(id, later) is Err,
{
}

/// After a proposal was finalized, every vote on it and every further
/// attempt to finalize it fails.
pub proof fn law_finalize_once(
    dao: DaoView,
    id: nat,
    now: nat,
    later_choice: Vote,
    later_voter: Seq<char>,
    later: nat,
)
    requires
        dao.finalize_result(id, now) is Ok,
    ensures
        !dao.proposals[id as int].status.terminal(),
        dao.finalized(id, now).proposals[id as int].status.terminal(),
        dao.finalized(id, now).vote_result(id, later_choice, later_voter, later) is Err,
        dao.finalized(id, now).finalize_result(id, later) is Err,
{
}

/// The moves the status machine allows: `Vote` may move to any status,
/// `Delay` to a final one, and a final status moves nowhere.
pub open spec fn may_follow(before: ProposalStatus, after: ProposalStatus) -> bool {
    ||| after == before
    ||| before == ProposalStatus::Vote
    ||| before == ProposalStatus::Delay && after.terminal()
}

/// Whatever is called, the status of a stored proposal moves only as the
/// status machine allows.
pub proof fn law_step_follows_status_machine(dao: DaoView, call: Call, j: int)
    requires
        0 <= j < dao.proposals.len(),
    ensures
        j < step(dao, call).proposals.len(),
        may_follow(dao.proposals[j].status, step(dao, call).proposals[j].status),
{
}

/// Under an acceptable policy a proposal that every member of the council
/// has approved succeeds at once, whatever the clock says.
pub proof fn law_unanimous_yes_succeeds(
    policy: Seq<PolicyItem>,
    council: nat,
    amount: Option<u128>,
    no: nat,
    now: nat,
    deadline: nat,
)
    requires
        valid_policy(policy),
    ensures
        status_for(policy, council, amount, council, no, now, deadline) == ProposalStatus::Success,
{
}

/// A call changes the deadline of a stored proposal only if it is a vote
/// that moves that proposal from `Vote` to `Delay`, and then to the time of
/// the vote plus the grace period. No call reopens a proposal that has left
/// `Vote`.
pub proof fn law_step_moves_deadline_on_delay_only(dao: DaoView, call: Call, j: int)
    requires
        0 <= j < dao.proposals.len(),
    ensures
        j < step(dao, call).proposals.len(),
        step(dao, call).proposals[j].vote_period_end != dao.proposals[j].vote_period_end ==> {
            &&& dao.proposals[j].status == ProposalStatus::Vote
            &&& step(dao, call).proposals[j].status == ProposalStatus::Delay
            &&& call matches Call::Vote { id, now, .. }
            &&& id == j
            &&& step(dao, call).proposals[j].vote_period_end == now + dao.grace_period
        },
        step(dao, call).proposals[j].status == ProposalStatus::Vote ==> dao.proposals[j].status
            == ProposalStatus::Vote,
{
}

/// A deadline only moves forward, provided that the vote which moves it
/// comes no earlier than one grace period before the deadline.
pub proof fn law_step_deadline_moves_forward(dao: DaoView, call: Call, j: int)
    requires
        0 <= j < dao.proposals.len(),
        call matches Call::Vote { now, .. } ==> now + dao.grace_period
            >= dao.proposals[j].vote_period_end,
    ensures
        j < step(dao, call).proposals.len(),
        step(dao, call).proposals[j].vote_period_end >= dao.proposals[j].vote_period_end,
{
}

/// How often the deadline of proposal `j` changes over a run of calls.
pub open spec fn deadline_changes(dao: DaoView, calls: Seq<Call>, j: int) -> nat
    decreases calls.len(),
{
    if calls.len() == 0 {
        0
    } else {
        let before = run(dao, calls.drop_last()).proposals[j].vote_period_end;
        let after = run(dao, calls).proposals[j].vote_period_end;
        deadline_changes(dao, calls.drop_last(), j) + if after != before {
            1nat
        } else {
            0nat
        }
    }
}

/// Over any run of calls the deadline of a proposal changes at most once,
/// and not at all once the proposal has left `Vote`.
pub proof fn law_deadline_changes_once(dao: DaoView, calls: Seq<Call>, j: int)
    requires
        0 <= j < dao.proposals.len(),
    ensures
        j < run(dao, calls).proposals.len(),
        deadline_changes(dao, calls, j) <= 1,
        dao.proposals[j].status != ProposalStatus::Vote ==> deadline_changes(dao, calls, j) == 0,
        deadline_changes(dao, calls, j) == 1 ==> run(dao, calls).proposals[j].status
            != ProposalStatus::Vote,
        run(dao, calls).proposals[j].status == ProposalStatus::Vote ==> dao.proposals[j].status
            == ProposalStatus::Vote,
    decreases calls.len(),
{
    if calls.len() > 0 {
        law_deadline_changes_once(dao, calls.drop_last(), j);
        law_step_moves_deadline_on_delay_only(run(dao, calls.drop_last()), calls.last(), j);
    }
}

/// A newly founded engine is well formed and, having no proposals, has all
/// tallies within the council.
pub proof fn law_founded_engine(
    vote_period: nat,
    grace_period: nat,
    public_key: Seq<char>,
    domain: Seq<char>,
)
    ensures
        DaoView::founded(vote_period, grace_period, public_key, domain).wf(),
        DaoView::founded(vote_period, grace_period, public_key, domain).tallies_within_council(),
{
}

/// Joining keeps all tallies within the council.
pub proof fn law_join_keeps_tallies_within(dao: DaoView, account: Seq<char>, name: Seq<char>)
    requires
        dao.tallies_within_council(),
    ensures
        dao.joined(account, name).tallies_within_council(),
{
    let after = dao.joined(account, name);
    lemma_seat_from(dao.council, account, 0);
    assert forall|i: int| 0 <= i < after.proposals.len() implies (
    #[trigger] after.proposals[i]).within(after.council.len()) by {
        assert(dao.proposals[i].within(dao.council.len()));
    }
}

/// Filing a proposal keeps all tallies within the council, whatever the
/// council is.
pub proof fn law_add_keeps_tallies_within(
    dao: DaoView,
    input: InputView,
    proposer: Seq<char>,
    now: nat,
)
    requires
        dao.tallies_within_council(),
    ensures
        dao.added(input, proposer, now).tallies_within_council(),
{
    let after = dao.added(input, proposer, now);
    assert forall|i: int| 0 <= i < after.proposals.len() implies (
    #[trigger] after.proposals[i]).within(after.council.len()) by {
        if i < dao.proposals.len() {
            assert(dao.proposals[i].within(dao.council.len()));
        }
    }
}

/// A vote keeps all tallies within the council, unless it is recorded
/// while the council is empty or makes a removal succeed that takes a
/// member off the council.
pub proof fn law_vote_keeps_tallies_within_council(
    dao: DaoView,
    id: nat,
    choice: Vote,
    voter: Seq<char>,
    now: nat,
)
    requires
        dao.tallies_within_council(),
        dao.council.len() > 0 || !dao.records(id, choice, voter, now),
    ensures
        dao.voted(id, choice, voter, now).council.len() <= dao.council.len(),
        dao.voted(id, choice, voter, now).council.len() == dao.council.len() ==> dao.voted(
            id,
            choice,
            voter,
            now,
        ).tallies_within_council(),
{
    let after = dao.voted(id, choice, voter, now);
    if dao.vote_result(id, choice, voter, now) is Ok {
        let p = dao.proposals[id as int];
        assert(p.within(dao.council.len()));
        law_vote_keeps_tallies_within(
            p,
            voter,
            choice,
            dao.policy,
            dao.council.len(),
            now,
            dao.grace_period,
        );
        lemma_council_without_len(dao, after.proposals[id as int].target);
        if after.council.len() == dao.council.len() {
            assert forall|i: int| 0 <= i < after.proposals.len() implies (
            #[trigger] after.proposals[i]).within(after.council.len()) by {
                if i != id {
                    assert(dao.proposals[i].within(dao.council.len()));
                }
            }
        }
    }
}

/// Finalizing keeps all tallies within the council, unless it makes a
/// removal succeed that takes a member off the council.
pub proof fn law_finalize_keeps_tallies_within_council(dao: DaoView, id: nat, now: nat)
    requires
        dao.tallies_within_council(),
    ensures
        dao.finalized(id, now).council.len() <= dao.council.len(),
        dao.finalized(id, now).council.len() == dao.council.len() ==> dao.finalized(
            id,
            now,
        ).tallies_within_council(),
{
    let after = dao.finalized(id, now);
    if dao.finalize_result(id, now) is Ok {
        let p = dao.proposals[id as int];
        assert(p.within(dao.council.len()));
        lemma_council_without_len(dao, p.target);
        if after.council.len() == dao.council.len() {
            assert forall|i: int| 0 <= i < after.proposals.len() implies (
            #[trigger] after.proposals[i]).within(after.council.len()) by {
                if i != id {
                    assert(dao.proposals[i].within(dao.council.len()));
                }
            }
        }
    }
}

/// Over a run of calls the council holds: no call takes a seat away, and
/// no vote is recorded while the council is empty.
pub open spec fn council_holds(dao: DaoView, calls: Seq<Call>) -> bool
    decreases calls.len(),
{
    calls.len() == 0 || {
        let before = run(dao, calls.drop_last());
        &&& council_holds(dao, calls.drop_last())
        &&& step(before, calls.last()).council.len() >= before.council.len()
        &&& calls.last() matches Call::Vote { id, choice, voter, now } ==> before.council.len() > 0
            || !before.records(id, choice, voter, now)
    }
}

/// Through every run of calls over which the council holds, no proposal
/// has more ballots than the council has members.
pub proof fn law_run_keeps_tallies_within(dao: DaoView, calls: Seq<Call>)
    requires
        dao.tallies_within_council(),
        council_holds(dao, calls),
    ensures
        run(dao, calls).tallies_within_council(),
    decreases calls.len(),
{
    if calls.len() > 0 {
        law_run_keeps_tallies_within(dao, calls.drop_last());
        let before = run(dao, calls.drop_last());
        match calls.last() {
            Call::Join { account, name } => {
                law_join_keeps_tallies_within(before, account, name);
            },
            Call::AddProposal { input, proposer, now } => {
                law_add_keeps_tallies_within(before, input, proposer, now);
            },
            Call::Vote { id, choice, voter, now } => {
                law_vote_keeps_tallies_within_council(before, id, choice, voter, now);
            },
            Call::Finalize { id, now } => {
                law_finalize_keeps_tallies_within_council(before, id, now);
            },
        }
    }
}

} // verus!
