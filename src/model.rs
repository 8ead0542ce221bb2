//! The mathematical model of the ledger: what each operation does, stated
//! as spec functions over sequences and natural numbers.

use vstd::prelude::*;

verus! {

/// Where a proposal stands: open for votes, or resolved for good.
#[derive(PartialEq, Eq, Structural, Clone, Copy, Debug)]
pub enum Status {
    Open,
    Accepted,
    Rejected,
}

/// Why a call that would change a proposal was refused. A refused call
/// leaves the ledger exactly as it was.
#[derive(PartialEq, Eq, Structural, Clone, Copy, Debug)]
pub enum LedgerError {
    /// No proposal has the given ID.
    NotFound,
    /// The proposal already has a resolved fate.
    AlreadyClosed,
    /// The caller is not the proposal's owner.
    NotAuthorized,
}

/// One proposal as a mathematical value.
pub struct ProposalView {
    pub text: Seq<char>,
    pub owner: Seq<char>,
    /// Votes in the order they were cast: (voter, supports).
    pub votes: Seq<(Seq<char>, bool)>,
    pub status: Status,
}

/// The whole ledger as a mathematical value. The proposal with ID `id`
/// sits at position `id - 1` of `proposals`.
pub struct LedgerView {
    pub count: nat,
    pub successful: nat,
    pub rejected: nat,
    pub proposals: Seq<ProposalView>,
}

/// Number of supporting votes.
pub open spec fn yes_count(votes: Seq<(Seq<char>, bool)>) -> nat
    decreases votes.len(),
{
    if votes.len() == 0 {
        0
    } else {
        yes_count(votes.drop_last()) + if votes.last().1 {
            1nat
        } else {
            0nat
        }
    }
}

/// The majority rule: accepted when at least half of the votes support.
/// With no votes at all this holds.
pub open spec fn majority(votes: Seq<(Seq<char>, bool)>) -> bool {
    2 * yes_count(votes) >= votes.len()
}

/// Number of proposals whose status is `st`.
pub open spec fn count_status(ps: Seq<ProposalView>, st: Status) -> nat
    decreases ps.len(),
{
    if ps.len() == 0 {
        0
    } else {
        count_status(ps.drop_last(), st) + if ps.last().status == st {
            1nat
        } else {
            0nat
        }
    }
}

impl LedgerView {
    /// The ledger before any proposal was made.
    pub open spec fn empty() -> LedgerView {
        LedgerView { count: 0, successful: 0, rejected: 0, proposals: seq![] }
    }

    /// The counters agree with the proposals: `count` is the number of
    /// proposals, and each of the two running counters is the number of
    /// proposals resolved that way.
    pub open spec fn inv(self) -> bool {
        &&& self.count == self.proposals.len()
        &&& self.successful == count_status(self.proposals, Status::Accepted)
        &&& self.rejected == count_status(self.proposals, Status::Rejected)
    }

    pub open spec fn has(self, id: int) -> bool {
        1 <= id <= self.proposals.len()
    }

    pub open spec fn proposal(self, id: int) -> ProposalView {
        self.proposals[id - 1]
    }

    /// The votes of `id`, or none where there is no such proposal.
    pub open spec fn votes_of(self, id: int) -> Seq<(Seq<char>, bool)> {
        if self.has(id) {
            self.proposal(id).votes
        } else {
            seq![]
        }
    }

    /// Number of proposals with a resolved fate, by the running counters.
    pub open spec fn resolved(self) -> nat {
        self.successful + self.rejected
    }

    /// The ledger after `caller` created a proposal with `text`; its ID is
    /// the new `count`.
    pub open spec fn create(self, caller: Seq<char>, text: Seq<char>) -> LedgerView {
        LedgerView {
            count: self.count + 1,
            proposals: self.proposals.push(
                ProposalView { text, owner: caller, votes: seq![], status: Status::Open },
            ),
            ..self
        }
    }

    /// Why a vote on `id` is refused, if it is.
    pub open spec fn vote_error(self, id: int) -> Option<LedgerError> {
        if !self.has(id) {
            Some(LedgerError::NotFound)
        } else if self.proposal(id).status != Status::Open {
            Some(LedgerError::AlreadyClosed)
        } else {
            None
        }
    }

    /// Why `caller` may not close or void `id`, if that is refused.
    pub open spec fn resolve_error(self, caller: Seq<char>, id: int) -> Option<LedgerError> {
        if !self.has(id) {
            Some(LedgerError::NotFound)
        } else if self.proposal(id).status != Status::Open {
            Some(LedgerError::AlreadyClosed)
        } else if caller != self.proposal(id).owner {
            Some(LedgerError::NotAuthorized)
        } else {
            None
        }
    }

    /// The ledger with `voter`'s vote appended to proposal `id`.
    pub open spec fn with_vote(self, id: int, voter: Seq<char>, supports: bool) -> LedgerView {
        let p = self.proposal(id);
        LedgerView {
            proposals: self.proposals.update(
                id - 1,
                ProposalView { votes: p.votes.push((voter, supports)), ..p },
            ),
            ..self
        }
    }

    /// The ledger with proposal `id` resolved as accepted or rejected, and
    /// the matching counter raised by one.
    pub open spec fn with_fate(self, id: int, accepted: bool) -> LedgerView {
        let p = self.proposal(id);
        let st = if accepted {
            Status::Accepted
        } else {
            Status::Rejected
        };
        LedgerView {
            proposals: self.proposals.update(id - 1, ProposalView { status: st, ..p }),
            successful: if accepted {
                self.successful + 1
            } else {
                self.successful
            },
            rejected: if accepted {
                self.rejected
            } else {
                self.rejected + 1
            },
            ..self
        }
    }

    /// Casting a vote: the next ledger and the outcome.
    pub open spec fn vote(self, caller: Seq<char>, id: int, supports: bool) -> (
        LedgerView,
        Result<(), LedgerError>,
    ) {
        match self.vote_error(id) {
            Some(e) => (self, Err(e)),
            None => (self.with_vote(id, caller, supports), Ok(())),
        }
    }

    /// Closing a proposal: the next ledger and the outcome, `Ok(true)` when
    /// the majority rule accepts it.
    pub open spec fn close(self, caller: Seq<char>, id: int) -> (
        LedgerView,
        Result<bool, LedgerError>,
    ) {
        match self.resolve_error(caller, id) {
            Some(e) => (self, Err(e)),
            None => {
                let accepted = majority(self.proposal(id).votes);
                (self.with_fate(id, accepted), Ok(accepted))
            },
        }
    }

    /// Voiding a proposal: rejected when not one vote supports it
    /// (`Ok(true)`); otherwise nothing changes (`Ok(false)`).
    pub open spec fn void(self, caller: Seq<char>, id: int) -> (
        LedgerView,
        Result<bool, LedgerError>,
    ) {
        match self.resolve_error(caller, id) {
            Some(e) => (self, Err(e)),
            None => if yes_count(self.proposal(id).votes) == 0 {
                (self.with_fate(id, false), Ok(true))
            } else {
                (self, Ok(false))
            },
        }
    }
}

/// A status count never exceeds the number of proposals.
pub proof fn lemma_count_status_bound(ps: Seq<ProposalView>, st: Status)
    ensures
        count_status(ps, st) <= ps.len(),
    decreases ps.len(),
{
    if ps.len() > 0 {
        lemma_count_status_bound(ps.drop_last(), st);
    }
}

/// Replacing one proposal changes a status count only by what the old and
/// new statuses contribute.
pub proof fn lemma_count_status_update(ps: Seq<ProposalView>, i: int, p: ProposalView, st: Status)
    requires
        0 <= i < ps.len(),
    ensures
        count_status(ps.update(i, p), st) + (if ps[i].status == st {
            1int
        } else {
            0int
        }) == count_status(ps, st) + (if p.status == st {
            1int
        } else {
            0int
        }),
    decreases ps.len(),
{
    let qs = ps.update(i, p);
    if i == ps.len() - 1 {
        assert(qs.drop_last() =~= ps.drop_last());
    } else {
        lemma_count_status_update(ps.drop_last(), i, p, st);
        assert(qs.drop_last() =~= ps.drop_last().update(i, p));
    }
}

/// Appending a proposal adds what its status contributes.
pub proof fn lemma_count_status_push(ps: Seq<ProposalView>, p: ProposalView, st: Status)
    ensures
        count_status(ps.push(p), st) == count_status(ps, st) + (if p.status == st {
            1nat
        } else {
            0nat
        }),
{
    assert(ps.push(p).drop_last() =~= ps);
}

/// The supporting votes never outnumber the votes.
pub proof fn lemma_yes_count_bound(votes: Seq<(Seq<char>, bool)>)
    ensures
        yes_count(votes) <= votes.len(),
    decreases votes.len(),
{
    if votes.len() > 0 {
        lemma_yes_count_bound(votes.drop_last());
    }
}

} // verus!
