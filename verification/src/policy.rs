//! The threshold policy: ordered tiers that map an amount to the number of
//! votes a proposal needs.

use vstd::prelude::*;

verus! {

/// What a policy tier asks for: a fixed number of votes, or a share of the
/// council given as numerator and denominator.
#[derive(Clone, Copy, Debug, PartialEq, Eq, Structural)]
pub enum NumOrRatio {
    Number(u64),
    Ratio(u64, u64),
}

impl NumOrRatio {
    /// A ratio needs a denominator other than zero; a number is always defined.
    pub open spec fn defined(self) -> bool {
        match self {
            NumOrRatio::Number(_) => true,
            NumOrRatio::Ratio(_, b) => b != 0,
        }
    }

    /// The votes this requirement asks of a council of the given size.
    ///
    /// A number stands as it is, even above the council size. A ratio `a/b`
    /// asks for one vote more than the floor of `council * a / b`, capped at
    /// the council size.
    pub open spec fn votes_needed(self, council: nat) -> nat {
        match self {
            NumOrRatio::Number(n) => n as nat,
            NumOrRatio::Ratio(a, b) => {
                let share = (council * (a as nat)) / (b as nat) + 1;
                if share < council {
                    share
                } else {
                    council
                }
            },
        }
    }

    /// A ratio of at least one half.
    pub open spec fn majority(self) -> bool {
        match self {
            NumOrRatio::Number(_) => false,
            NumOrRatio::Ratio(a, b) => b != 0 && 2 * a >= b,
        }
    }

    pub fn as_ratio(&self) -> (r: Option<(u64, u64)>)
        ensures
            r == match *self {
                NumOrRatio::Number(_) => None::<(u64, u64)>,
                NumOrRatio::Ratio(a, b) => Some((a, b)),
            },
    {
        match self {
            NumOrRatio::Number(_) => None,
            NumOrRatio::Ratio(a, b) => Some((*a, *b)),
        }
    }
}

/// One tier of the policy: proposals that move less than `max_amount` need
/// `votes`.
#[derive(Clone, Copy, Debug, PartialEq, Eq, Structural)]
pub struct PolicyItem {
    pub max_amount: u64,
    pub votes: NumOrRatio,
}

impl PolicyItem {
    /// The votes this tier asks of a council of `num_council` members.
    pub fn num_votes(&self, num_council: u64) -> (r: u64)
        requires
            self.votes.defined(),
        ensures
            r == self.votes.votes_needed(num_council as nat),
    {
        match self.votes {
            NumOrRatio::Number(n) => n,
            NumOrRatio::Ratio(a, b) => {
                let council: u128 = num_council as u128;
                assert(council * (a as u128) <= 0xffff_ffff_ffff_ffff * 0xffff_ffff_ffff_ffff)
                    by (nonlinear_arith)
                    requires
                        council <= 0xffff_ffff_ffff_ffff,
                        a <= 0xffff_ffff_ffff_ffff,
                ;
                let product: u128 = council * (a as u128);
                let share: u128 = product / (b as u128) + 1;
                if share < council {
                    share as u64
                } else {
                    num_council
                }
            },
        }
    }
}

/// The tier that decides for `amount`, searching from position `from`: the
/// first whose limit lies strictly above the amount, or the last tier when
/// none does.
pub open spec fn tier_from(policy: Seq<PolicyItem>, amount: int, from: int) -> int
    decreases policy.len() - from,
{
    if from + 1 >= policy.len() {
        policy.len() - 1
    } else if policy[from].max_amount > amount {
        from
    } else {
        tier_from(policy, amount, from + 1)
    }
}

/// The tier that decides a proposal: with an amount, the first tier whose
/// limit lies strictly above it (the last if none does); without one, the
/// last tier.
pub open spec fn tier_for(policy: Seq<PolicyItem>, amount: Option<u128>) -> int {
    match amount {
        Some(a) => tier_from(policy, a as int, 0),
        None => policy.len() - 1,
    }
}

/// The votes a proposal on `amount` needs from a council of the given size.
pub open spec fn required_votes(policy: Seq<PolicyItem>, amount: Option<u128>, council: nat) -> nat {
    policy[tier_for(policy, amount)].votes.votes_needed(council)
}

/// The most votes any decision can take: what the last tier asks.
pub open spec fn max_votes(policy: Seq<PolicyItem>, council: nat) -> nat {
    required_votes(policy, None, council)
}

/// A policy the engine accepts: at least one tier, limits strictly
/// increasing, and a last tier that asks for a ratio of at least one half.
pub open spec fn valid_policy(policy: Seq<PolicyItem>) -> bool {
    &&& policy.len() > 0
    &&& forall|i: int, j: int|
        0 <= i < j < policy.len() ==> policy[i].max_amount < policy[j].max_amount
    &&& policy[policy.len() - 1].votes.majority()
}

/// Whether `policy` can answer for a proposal on `amount`: it has a tier,
/// and the two tiers consulted (the deciding one and the last) are defined.
pub open spec fn policy_answers(policy: Seq<PolicyItem>, amount: Option<u128>) -> bool {
    &&& policy.len() > 0
    &&& policy[tier_for(policy, amount)].votes.defined()
    &&& policy[policy.len() - 1].votes.defined()
}

/// The limit at position `i` lies above the one before it.
pub open spec fn rises_at(policy: Seq<PolicyItem>, i: int) -> bool {
    policy[i - 1].max_amount < policy[i].max_amount
}

/// Where each limit lies above the one before it, a later limit lies above
/// every earlier one.
pub proof fn lemma_rises_between(policy: Seq<PolicyItem>, i: int, j: int)
    requires
        forall|k: int| 0 < k < policy.len() ==> #[trigger] rises_at(policy, k),
        0 <= i < j < policy.len(),
    ensures
        policy[i].max_amount < policy[j].max_amount,
    decreases j - i,
{
    assert(rises_at(policy, j));
    if i < j - 1 {
        lemma_rises_between(policy, i, j - 1);
    }
}

/// Limits increase strictly over the whole table exactly when each limit
/// lies above the one before it.
pub proof fn lemma_increasing_by_neighbours(policy: Seq<PolicyItem>)
    ensures
        (forall|i: int, j: int|
            0 <= i < j < policy.len() ==> policy[i].max_amount < policy[j].max_amount) <==> (
        forall|k: int| 0 < k < policy.len() ==> #[trigger] rises_at(policy, k)),
{
    if forall|k: int| 0 < k < policy.len() ==> #[trigger] rises_at(policy, k) {
        assert forall|i: int, j: int| 0 <= i < j < policy.len() implies policy[i].max_amount
            < policy[j].max_amount by {
            lemma_rises_between(policy, i, j);
        }
    }
}

/// What `tier_from` returns, said without recursion: a position in the
/// table, with every tier skipped on the way at or below the amount, and
/// either a limit above the amount or the last position.
pub proof fn lemma_tier_from(policy: Seq<PolicyItem>, amount: int, from: int)
    requires
        0 <= from < policy.len(),
    ensures
        from <= tier_from(policy, amount, from) < policy.len(),
        forall|j: int|
            from <= j < tier_from(policy, amount, from) ==> (#[trigger] policy[j]).max_amount
                <= amount,
        policy[tier_from(policy, amount, from)].max_amount > amount || tier_from(
            policy,
            amount,
            from,
        ) == policy.len() - 1,
    decreases policy.len() - from,
{
    if from + 1 < policy.len() && policy[from].max_amount <= amount {
        lemma_tier_from(policy, amount, from + 1);
    }
}

/// The position of the tier that decides a proposal on `amount`.
fn deciding_tier(policy: &[PolicyItem], amount: Option<u128>) -> (at: usize)
    requires
        policy@.len() > 0,
    ensures
        at == tier_for(policy@, amount),
        at < policy@.len(),
{
    let last: usize = policy.len() - 1;
    match amount {
        None => last,
        Some(a) => {
            let mut i: usize = 0;
            while i < last && policy[i].max_amount as u128 <= a
                invariant
                    0 <= i <= last,
                    last == policy@.len() - 1,
                    tier_from(policy@, a as int, 0) == tier_from(policy@, a as int, i as int),
                decreases last - i,
            {
                i += 1;
            }
            i
        },
    }
}

/// The votes a proposal on `amount` needs from `num_council` members.
pub fn vote_requirement(policy: &[PolicyItem], num_council: u64, amount: Option<u128>) -> (r: u64)
    requires
        policy@.len() > 0,
        policy@[tier_for(policy@, amount)].votes.defined(),
    ensures
        r == required_votes(policy@, amount, num_council as nat),
{
    policy[deciding_tier(policy, amount)].num_votes(num_council)
}

/// Whether a ratio has a denominator; a number needs none.
fn is_defined(votes: &NumOrRatio) -> (r: bool)
    ensures
        r == votes.defined(),
{
    match votes {
        NumOrRatio::Number(_) => true,
        NumOrRatio::Ratio(_, b) => *b != 0,
    }
}

/// Whether `policy` can answer for a proposal on `amount`.
pub fn answers(policy: &[PolicyItem], amount: Option<u128>) -> (r: bool)
    ensures
        r == policy_answers(policy@, amount),
{
    if policy.len() == 0 {
        return false;
    }
    let at = deciding_tier(policy, amount);
    is_defined(&policy[at].votes) && is_defined(&policy[policy.len() - 1].votes)
}

/// Whether `policy` is one the engine accepts.
pub fn check_policy(policy: &[PolicyItem]) -> (ok: bool)
    ensures
        ok == valid_policy(policy@),
{
    let n: usize = policy.len();
    if n == 0 {
        return false;
    }
    let mut i: usize = 0;
    while i < n
        invariant
            0 <= i <= n,
            n == policy@.len(),
            forall|j: int, k: int| 0 <= j < k < i ==> policy@[j].max_amount < policy@[k].max_amount,
        decreases n - i,
    {
        if i > 0 && policy[i].max_amount <= policy[i - 1].max_amount {
            return false;
        }
        i += 1;
    }
    match policy[n - 1].votes {
        NumOrRatio::Ratio(a, b) => b != 0 && 2 * (a as u128) >= b as u128,
        NumOrRatio::Number(_) => false,
    }
}

} // verus!
