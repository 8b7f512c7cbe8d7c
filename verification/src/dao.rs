//! The engine: it owns the council, the configuration and the proposals,
//! and applies what an approved proposal asks for exactly once.

use crate::error::DaoError;
use crate::policy::{check_policy, valid_policy, NumOrRatio, PolicyItem};
use crate::proposal::{
    InputView, KindView, Proposal, ProposalInput, ProposalKind, ProposalStatus, ProposalView, Vote,
};
use std::collections::HashMap;
use vstd::prelude::*;

verus! {

broadcast use vstd::std_specs::hash::group_hash_axioms;

/// A seat on the council: an account and the name it joined under.
#[derive(Debug, PartialEq, Eq)]
pub struct Member {
    pub account: String,
    pub name: String,
}

/// The mathematical value of a [`Member`].
pub struct MemberView {
    pub account: Seq<char>,
    pub name: Seq<char>,
}

impl View for Member {
    type V = MemberView;

    open spec fn view(&self) -> MemberView {
        MemberView { account: self.account@, name: self.name@ }
    }
}

/// The values of the council's seats, in their order.
pub open spec fn seats(council: Seq<Member>) -> Seq<MemberView> {
    council.map_values(|m: Member| m@)
}

/// The names of the council's members, seat by seat.
pub open spec fn names(council: Seq<MemberView>) -> Seq<Seq<char>> {
    council.map_values(|m: MemberView| m.name)
}

/// The values of a run of strings.
pub open spec fn texts(strings: Seq<String>) -> Seq<Seq<char>> {
    strings.map_values(|s: String| s@)
}

/// No account holds two seats.
pub open spec fn distinct_accounts(council: Seq<MemberView>) -> bool {
    forall|i: int, j: int| 0 <= i < j < council.len() ==> council[i].account != council[j].account
}

/// The first seat from `from` on that `account` holds, or the number of
/// seats if it holds none.
pub open spec fn seat_from(council: Seq<MemberView>, account: Seq<char>, from: int) -> int
    decreases council.len() - from,
{
    if from >= council.len() {
        council.len() as int
    } else if council[from].account == account {
        from
    } else {
        seat_from(council, account, from + 1)
    }
}

/// The seat that `account` holds, or the number of seats if it holds none.
pub open spec fn seat_of(council: Seq<MemberView>, account: Seq<char>) -> int {
    seat_from(council, account, 0)
}

/// What `seat_from` returns, said without recursion.
pub proof fn lemma_seat_from(council: Seq<MemberView>, account: Seq<char>, from: int)
    requires
        0 <= from <= council.len(),
    ensures
        from <= seat_from(council, account, from) <= council.len(),
        forall|j: int|
            from <= j < seat_from(council, account, from) ==> (#[trigger] council[j]).account
                != account,
        seat_from(council, account, from) < council.len() ==> council[seat_from(
            council,
            account,
            from,
        )].account == account,
    decreases council.len() - from,
{
    if from < council.len() && council[from].account != account {
        lemma_seat_from(council, account, from + 1);
    }
}

/// A payment that an approved payout asks the host to make.
#[derive(Debug, PartialEq, Eq)]
pub struct Transfer {
    pub target: String,
    pub amount: u128,
}

/// The mathematical value of a [`Transfer`].
pub struct TransferView {
    pub target: Seq<char>,
    pub amount: u128,
}

impl View for Transfer {
    type V = TransferView;

    open spec fn view(&self) -> TransferView {
        TransferView { target: self.target@, amount: self.amount }
    }
}

/// The value of what `vote` and `finalize` answer.
pub open spec fn outcome(r: Result<Option<Transfer>, DaoError>) -> Result<
    Option<TransferView>,
    DaoError,
> {
    match r {
        Ok(Some(t)) => Ok(Some(t@)),
        Ok(None) => Ok(None),
        Err(e) => Err(e),
    }
}

/// The payment a proposal asks for once it has succeeded: a payout's amount
/// to its target, and none for the other kinds.
pub open spec fn transfer_due(p: ProposalView) -> Option<TransferView> {
    match p.kind {
        KindView::Payout { amount } => Some(TransferView { target: p.target, amount }),
        _ => None,
    }
}

/// The policy the engine starts with: a single tier that asks for more than
/// half of the council.
pub open spec fn initial_policy() -> Seq<PolicyItem> {
    seq![PolicyItem { max_amount: 0, votes: NumOrRatio::Ratio(1, 2) }]
}

/// The mathematical value of the engine.
pub struct DaoView {
    pub vote_period: nat,
    pub grace_period: nat,
    pub policy: Seq<PolicyItem>,
    pub council: Seq<MemberView>,
    pub proposals: Seq<ProposalView>,
    pub public_key: Seq<char>,
    pub domain: Seq<char>,
}

impl DaoView {
    /// The invariant of the engine: an acceptable policy, no account with
    /// two seats, and every proposal well formed.
    pub open spec fn wf(self) -> bool {
        &&& valid_policy(self.policy)
        &&& distinct_accounts(self.council)
        &&& forall|i: int| 0 <= i < self.proposals.len() ==> (#[trigger] self.proposals[i]).wf()
    }

    /// Every proposal's tallies fit the council as it is now.
    pub open spec fn tallies_within_council(self) -> bool {
        forall|i: int|
            0 <= i < self.proposals.len() ==> (#[trigger] self.proposals[i]).within(
                self.council.len(),
            )
    }

    /// The engine as it is founded: the initial policy, nobody on the
    /// council, no proposals.
    pub open spec fn founded(
        vote_period: nat,
        grace_period: nat,
        public_key: Seq<char>,
        domain: Seq<char>,
    ) -> DaoView {
        DaoView {
            vote_period,
            grace_period,
            policy: initial_policy(),
            council: Seq::empty(),
            proposals: Seq::empty(),
            public_key,
            domain,
        }
    }

    /// The engine after `account` has joined under `name`: a member that
    /// joins again keeps its seat and takes the new name, a new one takes
    /// the next seat.
    pub open spec fn joined(self, account: Seq<char>, name: Seq<char>) -> DaoView {
        let seat = seat_of(self.council, account);
        let member = MemberView { account, name };
        DaoView {
            council: if seat < self.council.len() {
                self.council.update(seat, member)
            } else {
                self.council.push(member)
            },
            ..self
        }
    }

    /// The council without `account`: the last member moves to the seat
    /// that becomes free. A council that does not hold the account stays as
    /// it is.
    pub open spec fn council_without(self, account: Seq<char>) -> Seq<MemberView> {
        let seat = seat_of(self.council, account);
        if seat < self.council.len() {
            self.council.update(seat, self.council.last()).drop_last()
        } else {
            self.council
        }
    }

    /// What filing a proposal answers: the id it gets, which is its position
    /// in the store, or why it is turned down.
    pub open spec fn add_result(self, input: InputView, now: nat) -> Result<u64, DaoError> {
        match input.refusal(now, self.vote_period) {
            Some(e) => Err(e),
            None => Ok(self.proposals.len() as u64),
        }
    }

    /// The engine after a proposal was filed: the store grows by the fresh
    /// proposal where it is admitted, and nothing else changes.
    pub open spec fn added(self, input: InputView, proposer: Seq<char>, now: nat) -> DaoView {
        match input.refusal(now, self.vote_period) {
            Some(_) => self,
            None => DaoView {
                proposals: self.proposals.push(
                    ProposalView::fresh(proposer, input, now + self.vote_period),
                ),
                ..self
            },
        }
    }

    /// The page of the proposals with a wanted status: from the ascending
    /// list of their ids, at most `limit` starting at position `from`, each
    /// id with its proposal.
    pub open spec fn listing(self, wanted: Set<ProposalStatus>, from: nat, limit: nat) -> Map<
        u64,
        ProposalView,
    > {
        let ids = page(ids_with_status(self.proposals, wanted), from, limit);
        Map::new(|id: u64| ids.contains(id), |id: u64| self.proposals[id as int])
    }

    /// The engine after what a successful proposal asks for has been done
    /// to the council and the configuration. A payout changes nothing here:
    /// its payment is handed to the host.
    pub open spec fn enacted(self, p: ProposalView) -> DaoView {
        match p.kind {
            KindView::RemoveCouncil => DaoView { council: self.council_without(p.target), ..self },
            KindView::Payout { amount } => self,
            KindView::ChangeVotePeriod { vote_period } => DaoView {
                vote_period: vote_period as nat,
                ..self
            },
            KindView::ChangePolicy { policy } => DaoView { policy, ..self },
        }
    }

    /// The engine after proposal `id` moved to `next`: a proposal that
    /// succeeded is enacted, and the store holds `next` in its place.
    pub open spec fn with_decision(self, id: int, next: ProposalView) -> DaoView {
        let base = if next.status == ProposalStatus::Success {
            self.enacted(next)
        } else {
            self
        };
        DaoView { proposals: self.proposals.update(id, next), ..base }
    }

    /// What finalizing proposal `id` answers: the payment to make, if it
    /// succeeded and asks for one, or why it cannot be finalized.
    pub open spec fn finalize_result(self, id: nat, now: nat) -> Result<
        Option<TransferView>,
        DaoError,
    > {
        if id >= self.proposals.len() {
            Err(DaoError::NotFound)
        } else {
            let p = self.proposals[id as int];
            match p.settle_result(self.policy, self.council.len(), now) {
                Err(e) => Err(e),
                Ok(status) => Ok(
                    if status == ProposalStatus::Success {
                        transfer_due(p)
                    } else {
                        None
                    },
                ),
            }
        }
    }

    /// The engine after finalizing proposal `id`.
    pub open spec fn finalized(self, id: nat, now: nat) -> DaoView {
        match self.finalize_result(id, now) {
            Err(_) => self,
            Ok(_) => self.with_decision(
                id as int,
                self.proposals[id as int].settled(self.policy, self.council.len(), now),
            ),
        }
    }

    /// What a vote on proposal `id` answers: the payment to make, if the
    /// vote made the proposal succeed and it asks for one, or why the vote
    /// is turned down.
    pub open spec fn vote_result(self, id: nat, choice: Vote, voter: Seq<char>, now: nat) -> Result<
        Option<TransferView>,
        DaoError,
    > {
        if id >= self.proposals.len() {
            Err(DaoError::NotFound)
        } else {
            let p = self.proposals[id as int];
            match p.vote_result(
                voter,
                choice,
                self.policy,
                self.council.len(),
                now,
                self.grace_period,
            ) {
                Err(e) => Err(e),
                Ok(status) => Ok(
                    if status == ProposalStatus::Success {
                        transfer_due(p)
                    } else {
                        None
                    },
                ),
            }
        }
    }

    /// Whether a vote on proposal `id` is recorded: the proposal exists,
    /// the vote is in time and it is not turned down.
    pub open spec fn records(self, id: nat, choice: Vote, voter: Seq<char>, now: nat) -> bool {
        &&& id < self.proposals.len()
        &&& self.proposals[id as int].records(
            voter,
            choice,
            self.policy,
            self.council.len(),
            now,
            self.grace_period,
        )
    }

    /// The engine after a vote on proposal `id`.
    pub open spec fn voted(self, id: nat, choice: Vote, voter: Seq<char>, now: nat) -> DaoView {
        match self.vote_result(id, choice, voter, now) {
            Err(_) => self,
            Ok(_) => self.with_decision(
                id as int,
                self.proposals[id as int].voted(
                    voter,
                    choice,
                    self.policy,
                    self.council.len(),
                    now,
                    self.grace_period,
                ),
            ),
        }
    }
}

/// Joining keeps the engine well formed.
pub proof fn lemma_joined_wf(dao: DaoView, account: Seq<char>, name: Seq<char>)
    requires
        dao.wf(),
    ensures
        dao.joined(account, name).wf(),
{
    lemma_seat_from(dao.council, account, 0);
    let seat = seat_of(dao.council, account);
    let after = dao.joined(account, name).council;
    assert forall|i: int, j: int| 0 <= i < j < after.len() implies after[i].account
        != after[j].account by {
        if seat < dao.council.len() {
            assert(after[i].account == dao.council[i].account);
            assert(after[j].account == dao.council[j].account);
        } else if j < dao.council.len() {
            assert(after[i] == dao.council[i]);
            assert(after[j] == dao.council[j]);
        } else {
            assert(after[i] == dao.council[i]);
        }
    }
}

/// Removing an account keeps the remaining accounts distinct.
pub proof fn lemma_council_without_distinct(dao: DaoView, account: Seq<char>)
    requires
        distinct_accounts(dao.council),
    ensures
        distinct_accounts(dao.council_without(account)),
{
    lemma_seat_from(dao.council, account, 0);
    let seat = seat_of(dao.council, account);
    let after = dao.council_without(account);
    if seat < dao.council.len() {
        assert forall|i: int, j: int| 0 <= i < j < after.len() implies after[i].account
            != after[j].account by {
            assert(after[j] == dao.council[j] || after[j] == dao.council.last());
            assert(after[i] == dao.council[i] || after[i] == dao.council.last());
        }
    }
}

/// Removing an account never adds a seat.
pub proof fn lemma_council_without_len(dao: DaoView, account: Seq<char>)
    ensures
        dao.council_without(account).len() <= dao.council.len(),
{
    lemma_seat_from(dao.council, account, 0);
}

/// Enacting a well-formed proposal keeps the engine well formed.
pub proof fn lemma_enacted_wf(dao: DaoView, p: ProposalView)
    requires
        dao.wf(),
        p.wf(),
    ensures
        dao.enacted(p).wf(),
{
    lemma_council_without_distinct(dao, p.target);
}

/// The part of `items` that a page of at most `limit` entries shows when it
/// starts at position `from`.
pub open spec fn page<T>(items: Seq<T>, from: nat, limit: nat) -> Seq<T> {
    if from >= items.len() {
        Seq::empty()
    } else if from + limit < items.len() {
        items.subrange(from as int, (from + limit) as int)
    } else {
        items.subrange(from as int, items.len() as int)
    }
}

/// The ids of the proposals whose status is one of `wanted`, in ascending
/// order.
pub open spec fn ids_with_status(proposals: Seq<ProposalView>, wanted: Set<ProposalStatus>) -> Seq<
    u64,
>
    decreases proposals.len(),
{
    if proposals.len() == 0 {
        Seq::empty()
    } else {
        let before = ids_with_status(proposals.drop_last(), wanted);
        if wanted.contains(proposals.last().status) {
            before.push((proposals.len() - 1) as u64)
        } else {
            before
        }
    }
}

/// What `ids_with_status` lists, said without recursion: ids of stored
/// proposals with a wanted status, each such proposal, in ascending order.
pub proof fn lemma_ids_with_status(proposals: Seq<ProposalView>, wanted: Set<ProposalStatus>)
    requires
        proposals.len() <= u64::MAX,
    ensures
        forall|k: int|
            0 <= k < ids_with_status(proposals, wanted).len() ==> {
                let id = #[trigger] ids_with_status(proposals, wanted)[k];
                id < proposals.len() && wanted.contains(proposals[id as int].status)
            },
        forall|i: int|
            0 <= i < proposals.len() && wanted.contains((#[trigger] proposals[i]).status)
                ==> ids_with_status(proposals, wanted).contains(i as u64),
        forall|j: int, k: int|
            0 <= j < k < ids_with_status(proposals, wanted).len() ==> ids_with_status(
                proposals,
                wanted,
            )[j] < ids_with_status(proposals, wanted)[k],
    decreases proposals.len(),
{
    if proposals.len() > 0 {
        let shorter = proposals.drop_last();
        lemma_ids_with_status(shorter, wanted);
        let before = ids_with_status(shorter, wanted);
        let ids = ids_with_status(proposals, wanted);
        assert forall|i: int|
            0 <= i < proposals.len() && wanted.contains(
                (#[trigger] proposals[i]).status,
            ) implies ids.contains(i as u64) by {
            if i < shorter.len() {
                assert(shorter[i] == proposals[i]);
                let k = choose|k: int| 0 <= k < before.len() && before[k] == i as u64;
                assert(ids[k] == i as u64);
            } else {
                assert(ids[ids.len() - 1] == i as u64);
            }
        }
        assert forall|k: int| 0 <= k < ids.len() implies {
            let id = #[trigger] ids[k];
            id < proposals.len() && wanted.contains(proposals[id as int].status)
        } by {
            if k < before.len() {
                assert(ids[k] == before[k]);
                assert(shorter[before[k] as int] == proposals[before[k] as int]);
            }
        }
        assert forall|j: int, k: int| 0 <= j < k < ids.len() implies ids[j] < ids[k] by {
            assert(ids[j] == before[j]);
            if k < before.len() {
                assert(ids[k] == before[k]);
            }
        }
    }
}

/// The values of the proposals in a listing, id by id.
pub open spec fn entry_views(entries: Map<u64, Proposal>) -> Map<u64, ProposalView> {
    entries.map_values(|p: Proposal| p@)
}

/// The values of the stored proposals, in their order.
pub open spec fn proposal_views(proposals: Seq<Proposal>) -> Seq<ProposalView> {
    proposals.map_values(|p: Proposal| p@)
}

/// The governance engine of one organization.
#[derive(Debug)]
pub struct FediDAO {
    vote_period: u64,
    grace_period: u64,
    policy: Vec<PolicyItem>,
    council: Vec<Member>,
    proposals: Vec<Proposal>,
    public_key: String,
    domain: String,
}

impl View for FediDAO {
    type V = DaoView;

    closed spec fn view(&self) -> DaoView {
        DaoView {
            vote_period: self.vote_period as nat,
            grace_period: self.grace_period as nat,
            policy: self.policy@,
            council: seats(self.council@),
            proposals: proposal_views(self.proposals@),
            public_key: self.public_key@,
            domain: self.domain@,
        }
    }
}

impl FediDAO {
    /// Founds an engine with the given voting and grace periods.
    pub fn new(vote_period: u64, grace_period: u64, public_key: String, domain: String) -> (dao:
        Self)
        ensures
            dao@ == DaoView::founded(
                vote_period as nat,
                grace_period as nat,
                public_key@,
                domain@,
            ),
            dao@.wf(),
    {
        let mut policy: Vec<PolicyItem> = Vec::new();
        policy.push(PolicyItem { max_amount: 0, votes: NumOrRatio::Ratio(1, 2) });
        let dao = FediDAO {
            domain,
            public_key,
            vote_period,
            grace_period,
            policy,
            council: Vec::new(),
            proposals: Vec::new(),
        };
        assert(dao@.policy =~= initial_policy());
        assert(dao@.council =~= Seq::<MemberView>::empty());
        assert(dao@.proposals =~= Seq::<ProposalView>::empty());
        dao
    }

    /// Rebuilds an engine from stored parts. Answers `None` unless the
    /// parts make a well-formed engine.
    pub fn restore(
        vote_period: u64,
        grace_period: u64,
        policy: Vec<PolicyItem>,
        council: Vec<Member>,
        proposals: Vec<Proposal>,
        public_key: String,
        domain: String,
    ) -> (r: Option<Self>)
        ensures
            ({
                let stored = DaoView {
                    vote_period: vote_period as nat,
                    grace_period: grace_period as nat,
                    policy: policy@,
                    council: seats(council@),
                    proposals: proposal_views(proposals@),
                    public_key: public_key@,
                    domain: domain@,
                };
                match r {
                    Some(dao) => dao@ == stored && stored.wf(),
                    None => !stored.wf(),
                }
            }),
    {
        let dao = FediDAO {
            vote_period,
            grace_period,
            policy,
            council,
            proposals,
            public_key,
            domain,
        };
        if dao.is_well_formed() {
            Some(dao)
        } else {
            None
        }
    }

    /// Whether the engine meets its invariant.
    pub fn is_well_formed(&self) -> (r: bool)
        ensures
            r == self@.wf(),
    {
        if !check_policy(self.policy.as_slice()) {
            return false;
        }
        let seated: usize = self.council.len();
        let mut j: usize = 0;
        while j < seated
            invariant
                0 <= j <= seated,
                seated == self.council@.len(),
                distinct_accounts(self@.council.take(j as int)),
            decreases seated - j,
        {
            let mut i: usize = 0;
            while i < j
                invariant
                    0 <= i <= j < seated,
                    seated == self.council@.len(),
                    forall|k: int|
                        0 <= k < i ==> (#[trigger] self@.council[k]).account
                            != self@.council[j as int].account,
                decreases j - i,
            {
                if self.council[i].account == self.council[j].account {
                    assert(self@.council[i as int].account == self@.council[j as int].account);
                    return false;
                }
                i += 1;
            }
            proof {
                let shorter = self@.council.take(j as int);
                let longer = self@.council.take(j + 1);
                assert forall|a: int, b: int| 0 <= a < b < longer.len() implies longer[a].account
                    != longer[b].account by {
                    if b < j {
                        assert(shorter[a].account != shorter[b].account);
                    } else {
                        assert(self@.council[a].account != self@.council[j as int].account);
                    }
                }
            }
            j += 1;
        }
        assert(self@.council.take(seated as int) =~= self@.council);
        let stored: usize = self.proposals.len();
        let mut k: usize = 0;
        while k < stored
            invariant
                0 <= k <= stored,
                stored == self.proposals@.len(),
                forall|i: int| 0 <= i < k ==> (#[trigger] self@.proposals[i]).wf(),
            decreases stored - k,
        {
            if !self.proposals[k].is_well_formed() {
                assert(!self@.proposals[k as int].wf());
                return false;
            }
            k += 1;
        }
        true
    }

    /// Seats `account` on the council under `username`. The ticket is
    /// carried along and not examined. Answers 1.
    pub fn join_dao(&mut self, dao_ticket: String, username: String, account: String) -> (r: u64)
        requires
            old(self)@.wf(),
        ensures
            r == 1,
            final(self)@ == old(self)@.joined(account@, username@),
            final(self)@.wf(),
    {
        let _carried = dao_ticket;
        let seat = self.seat(&account);
        let member = Member { account, name: username };
        if seat < self.council.len() {
            self.council[seat] = member;
            assert(seats(self.council@) =~= seats(old(self).council@).update(seat as int, member@));
        } else {
            self.council.push(member);
            assert(seats(self.council@) =~= seats(old(self).council@).push(member@));
        }
        proof {
            lemma_joined_wf(old(self)@, member@.account, member@.name);
        }
        1
    }

    /// The seat `account` holds, or the number of seats if it holds none.
    fn seat(&self, account: &String) -> (r: usize)
        ensures
            r == seat_of(self@.council, account@),
            r <= self.council@.len(),
    {
        let mut i: usize = 0;
        while i < self.council.len() && !(self.council[i].account == *account)
            invariant
                0 <= i <= self.council@.len(),
                seat_of(self@.council, account@) == seat_from(self@.council, account@, i as int),
            decreases self.council@.len() - i,
        {
            i += 1;
        }
        i
    }

    /// Does to the council and the configuration what the successful
    /// proposal `p` asks for, and answers the payment it asks for, if any.
    fn enact(&mut self, p: &Proposal) -> (r: Option<Transfer>)
        requires
            old(self)@.wf(),
            p@.wf(),
        ensures
            final(self)@ == old(self)@.enacted(p@),
            outcome(Ok(r)) == Ok::<Option<TransferView>, DaoError>(transfer_due(p@)),
            final(self)@.wf(),
    {
        proof {
            lemma_enacted_wf(self@, p@);
        }
        match p.kind() {
            ProposalKind::RemoveCouncil => {
                let seat = self.seat(p.target());
                if seat < self.council.len() {
                    self.council.swap_remove(seat);
                    assert(seats(self.council@) =~= seats(old(self).council@).update(
                        seat as int,
                        seats(old(self).council@).last(),
                    ).drop_last());
                }
                None
            },
            ProposalKind::Payout { amount } => Some(
                Transfer { target: p.target().clone(), amount: *amount },
            ),
            ProposalKind::ChangeVotePeriod { vote_period } => {
                self.vote_period = *vote_period;
                None
            },
            ProposalKind::ChangePolicy { policy } => {
                let table = policy.clone();
                assert(table@ =~= policy@);
                self.policy = table;
                None
            },
        }
    }

    /// Files a proposal on behalf of `proposer` at time `now` and answers
    /// its id. The proposal is open for voting until `now` plus the voting
    /// period. Filing has no other effect.
    pub fn add_proposal(&mut self, proposal: ProposalInput, proposer: String, now: u64) -> (r:
        Result<u64, DaoError>)
        requires
            old(self)@.wf(),
        ensures
            r == old(self)@.add_result(proposal@, now as nat),
            final(self)@ == old(self)@.added(proposal@, proposer@, now as nat),
            final(self)@.wf(),
    {
        match Proposal::new(proposer, proposal, now, self.vote_period) {
            Err(e) => Err(e),
            Ok(p) => {
                let id: u64 = self.proposals.len() as u64;
                self.proposals.push(p);
                assert(proposal_views(self.proposals@) =~= proposal_views(old(self).proposals@).push(
                    p@,
                ));
                Ok(id)
            },
        }
    }

    /// Finalizes proposal `id` at time `now`: sets the final status its
    /// tallies give and, if that is success, does what it asks for. Answers
    /// the payment the host has to make, if any. Fails, and changes
    /// nothing, if there is no such proposal, it has a final status
    /// already, the policy does not answer for it, or its tallies do not
    /// decide yet.
    pub fn finalize(&mut self, id: u64, now: u64) -> (r: Result<Option<Transfer>, DaoError>)
        requires
            old(self)@.wf(),
        ensures
            outcome(r) == old(self)@.finalize_result(id as nat, now as nat),
            final(self)@ == old(self)@.finalized(id as nat, now as nat),
            final(self)@.wf(),
    {
        if id >= self.proposals.len() as u64 {
            return Err(DaoError::NotFound);
        }
        let at: usize = id as usize;
        let council: u64 = self.council.len() as u64;
        let mut p = self.proposals[at].clone();
        match p.settle(self.policy.as_slice(), council, now) {
            Err(e) => Err(e),
            Ok(status) => Ok(self.decide(at, p)),
        }
    }

    /// Records `voter`'s choice on proposal `id` at time `now`, moves the
    /// proposal to the status the new tallies give and, if that is success,
    /// does what it asks for. A vote that arrives after the deadline is not
    /// recorded and finalizes the proposal instead. Answers the payment the
    /// host has to make, if any. A rejected vote changes nothing.
    pub fn vote(&mut self, id: u64, vote: Vote, voter: String, now: u64) -> (r: Result<
        Option<Transfer>,
        DaoError,
    >)
        requires
            old(self)@.wf(),
        ensures
            outcome(r) == old(self)@.vote_result(id as nat, vote, voter@, now as nat),
            final(self)@ == old(self)@.voted(id as nat, vote, voter@, now as nat),
            final(self)@.wf(),
    {
        if id >= self.proposals.len() as u64 {
            return Err(DaoError::NotFound);
        }
        let at: usize = id as usize;
        let council: u64 = self.council.len() as u64;
        let mut p = self.proposals[at].clone();
        match p.cast(voter, vote, self.policy.as_slice(), council, now, self.grace_period) {
            Err(e) => Err(e),
            Ok(status) => Ok(self.decide(at, p)),
        }
    }

    /// Puts `next` in the place of proposal `at` and, if it has succeeded,
    /// does what it asks for.
    fn decide(&mut self, at: usize, next: Proposal) -> (r: Option<Transfer>)
        requires
            old(self)@.wf(),
            next@.wf(),
            at < old(self)@.proposals.len(),
        ensures
            final(self)@ == old(self)@.with_decision(at as int, next@),
            outcome(Ok(r)) == Ok::<Option<TransferView>, DaoError>(
                if next@.status == ProposalStatus::Success {
                    transfer_due(next@)
                } else {
                    None
                },
            ),
            final(self)@.wf(),
    {
        let transfer = if next.status() == ProposalStatus::Success {
            self.enact(&next)
        } else {
            None
        };
        let ghost before = self.proposals@;
        self.proposals[at] = next;
        assert(proposal_views(self.proposals@) =~= proposal_views(before).update(
            at as int,
            next@,
        ));
        transfer
    }

    pub fn get_vote_period(&self) -> (r: u64)
        ensures
            r == self@.vote_period,
    {
        self.vote_period
    }

    pub fn get_grace_period(&self) -> (r: u64)
        ensures
            r == self@.grace_period,
    {
        self.grace_period
    }

    /// The policy table in force.
    pub fn get_policy(&self) -> (r: &Vec<PolicyItem>)
        ensures
            r@ == self@.policy,
    {
        &self.policy
    }

    /// The council, seat by seat.
    pub fn get_members(&self) -> (r: &Vec<Member>)
        ensures
            seats(r@) == self@.council,
    {
        &self.council
    }

    pub fn public_key(&self) -> (r: &String)
        ensures
            r@ == self@.public_key,
    {
        &self.public_key
    }

    pub fn domain(&self) -> (r: &String)
        ensures
            r@ == self@.domain,
    {
        &self.domain
    }

    pub fn get_num_proposals(&self) -> (r: u64)
        ensures
            r == self@.proposals.len(),
    {
        self.proposals.len() as u64
    }

    /// The names of the council's members, seat by seat.
    pub fn get_council(&self) -> (r: Vec<String>)
        ensures
            texts(r@) == names(self@.council),
    {
        let mut out: Vec<String> = Vec::new();
        let mut i: usize = 0;
        while i < self.council.len()
            invariant
                0 <= i <= self.council@.len(),
                texts(out@) == names(self@.council).take(i as int),
            decreases self.council@.len() - i,
        {
            let name = self.council[i].name.clone();
            let ghost copied = out@;
            out.push(name);
            assert(texts(out@) =~= texts(copied).push(name@));
            assert(names(self@.council).take(i + 1) =~= names(self@.council).take(i as int).push(
                self.council@[i as int]@.name,
            ));
            i += 1;
        }
        assert(names(self@.council).take(i as int) =~= names(self@.council));
        out
    }

    /// The proposal with the given id.
    pub fn get_proposal(&self, id: u64) -> (r: Result<Proposal, DaoError>)
        ensures
            match r {
                Ok(p) => id < self@.proposals.len() && p@ == self@.proposals[id as int],
                Err(e) => id >= self@.proposals.len() && e == DaoError::NotFound,
            },
    {
        if id >= self.proposals.len() as u64 {
            return Err(DaoError::NotFound);
        }
        Ok(self.proposals[id as usize].clone())
    }

    /// At most `limit` proposals in the order of their ids, starting with
    /// id `from_index`.
    pub fn get_proposals(&self, from_index: u64, limit: u64) -> (r: Vec<Proposal>)
        ensures
            proposal_views(r@) == page(self@.proposals, from_index as nat, limit as nat),
    {
        let mut out: Vec<Proposal> = Vec::new();
        let total: usize = self.proposals.len();
        if from_index >= total as u64 {
            assert(proposal_views(out@) =~= Seq::<ProposalView>::empty());
            return out;
        }
        let start: usize = from_index as usize;
        let end: usize = if limit < (total - start) as u64 {
            start + limit as usize
        } else {
            total
        };
        let mut i: usize = start;
        while i < end
            invariant
                start <= i <= end <= total,
                total == self.proposals@.len(),
                proposal_views(out@) == self@.proposals.subrange(start as int, i as int),
            decreases end - i,
        {
            let p = self.proposals[i].clone();
            let ghost copied = out@;
            out.push(p);
            assert(proposal_views(out@) =~= proposal_views(copied).push(p@));
            assert(self@.proposals.subrange(start as int, i + 1) =~= self@.proposals.subrange(
                start as int,
                i as int,
            ).push(self@.proposals[i as int]));
            i += 1;
        }
        out
    }

    /// Whether `status` is among `wanted`.
    fn wanted_status(wanted: &[ProposalStatus], status: ProposalStatus) -> (r: bool)
        ensures
            r == wanted@.to_set().contains(status),
    {
        let mut i: usize = 0;
        while i < wanted.len()
            invariant
                0 <= i <= wanted@.len(),
                forall|j: int| 0 <= j < i ==> wanted@[j] != status,
            decreases wanted@.len() - i,
        {
            if wanted[i] == status {
                return true;
            }
            i += 1;
        }
        false
    }

    /// The ids of the proposals whose status is among `wanted`, ascending.
    fn ids_with(&self, wanted: &[ProposalStatus]) -> (ids: Vec<u64>)
        ensures
            ids@ == ids_with_status(self@.proposals, wanted@.to_set()),
    {
        let mut ids: Vec<u64> = Vec::new();
        let mut i: usize = 0;
        while i < self.proposals.len()
            invariant
                0 <= i <= self.proposals@.len(),
                ids@ == ids_with_status(self@.proposals.take(i as int), wanted@.to_set()),
            decreases self.proposals@.len() - i,
        {
            proof {
                assert(self@.proposals.take(i + 1).drop_last() =~= self@.proposals.take(i as int));
                assert(self@.proposals.take(i + 1).last() == self@.proposals[i as int]);
            }
            if Self::wanted_status(wanted, self.proposals[i].status()) {
                ids.push(i as u64);
            }
            i += 1;
        }
        assert(self@.proposals.take(i as int) =~= self@.proposals);
        ids
    }

    /// The page of the proposals whose status is among `wanted`.
    fn list(&self, wanted: &[ProposalStatus], from_index: u64, limit: u64) -> (r: HashMap<
        u64,
        Proposal,
    >)
        ensures
            entry_views(r@) == self@.listing(wanted@.to_set(), from_index as nat, limit as nat),
    {
        let ids = self.ids_with(wanted);
        let stored: usize = self.proposals.len();
        proof {
            lemma_ids_with_status(self@.proposals, wanted@.to_set());
        }
        let mut out: HashMap<u64, Proposal> = HashMap::new();
        let total: usize = ids.len();
        if from_index >= total as u64 {
            assert(entry_views(out@) =~= self@.listing(
                wanted@.to_set(),
                from_index as nat,
                limit as nat,
            ));
            return out;
        }
        let start: usize = from_index as usize;
        let end: usize = if limit < (total - start) as u64 {
            start + limit as usize
        } else {
            total
        };
        let mut k: usize = start;
        while k < end
            invariant
                start <= k <= end <= total,
                total == ids@.len(),
                stored == self.proposals@.len(),
                forall|j: int| 0 <= j < ids@.len() ==> (#[trigger] ids@[j]) < self.proposals@.len(),
                entry_views(out@) == Map::new(
                    |id: u64| ids@.subrange(start as int, k as int).contains(id),
                    |id: u64| self@.proposals[id as int],
                ),
            decreases end - k,
        {
            let id: u64 = ids[k];
            assert(id < self.proposals@.len());
            let p = self.proposals[id as usize].clone();
            let ghost shown = ids@.subrange(start as int, k as int);
            let ghost copied = out@;
            out.insert(id, p);
            proof {
                let longer = ids@.subrange(start as int, k + 1);
                assert(longer =~= shown.push(id));
                assert(entry_views(out@) =~= entry_views(copied).insert(id, p@));
                assert forall|other: u64| longer.contains(other) <==> shown.contains(other)
                    || other == id by {
                    if shown.contains(other) {
                        let at = choose|at: int| 0 <= at < shown.len() && shown[at] == other;
                        assert(longer[at] == other);
                    }
                    if other == id {
                        assert(longer[longer.len() - 1] == id);
                    }
                }
                let before = Map::new(
                    |id: u64| shown.contains(id),
                    |id: u64| self@.proposals[id as int],
                );
                let after = Map::new(
                    |id: u64| longer.contains(id),
                    |id: u64| self@.proposals[id as int],
                );
                assert(p@ == self@.proposals[id as int]);
                assert(entry_views(copied) == before);
                assert(before.insert(id, p@) =~= after);
            }
            k += 1;
        }
        out
    }

    /// A page of the proposals that have the given status: from the
    /// ascending list of their ids, at most `limit` starting at position
    /// `from_index`, each id with its proposal.
    pub fn get_proposals_by_status(&self, status: ProposalStatus, from_index: u64, limit: u64) -> (r:
        HashMap<u64, Proposal>)
        ensures
            entry_views(r@) == self@.listing(set![status], from_index as nat, limit as nat),
    {
        let mut wanted: Vec<ProposalStatus> = Vec::new();
        wanted.push(status);
        assert(wanted@.to_set() =~= set![status]) by {
            assert(wanted@[0] == status);
        }
        self.list(wanted.as_slice(), from_index, limit)
    }

    /// A page of the proposals whose status is one of `statuses`: from the
    /// ascending list of their ids, at most `limit` starting at position
    /// `from_index`, each id with its proposal.
    pub fn get_proposals_by_statuses(
        &self,
        statuses: Vec<ProposalStatus>,
        from_index: u64,
        limit: u64,
    ) -> (r: HashMap<u64, Proposal>)
        ensures
            entry_views(r@) == self@.listing(statuses@.to_set(), from_index as nat, limit as nat),
    {
        self.list(statuses.as_slice(), from_index, limit)
    }
}

} // verus!
