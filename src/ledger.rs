//! The executable ledger. Each operation is proved to follow the matching
//! transition of [`LedgerView`].

use std::collections::BTreeMap;
use vstd::prelude::*;
use crate::model::{
    lemma_count_status_bound, lemma_count_status_push, lemma_count_status_update,
    lemma_yes_count_bound, yes_count, LedgerError, LedgerView, ProposalView, Status,
};

verus! {

/// One stored proposal.
pub struct Proposal {
    text: String,
    owner: String,
    votes: Vec<(String, bool)>,
    status: Status,
}

/// The view of a vote list: each voter as a sequence of characters.
pub open spec fn votes_view(votes: Seq<(String, bool)>) -> Seq<(Seq<char>, bool)> {
    votes.map_values(|v: (String, bool)| (v.0@, v.1))
}

impl View for Proposal {
    type V = ProposalView;

    closed spec fn view(&self) -> ProposalView {
        ProposalView {
            text: self.text@,
            owner: self.owner@,
            votes: votes_view(self.votes@),
            status: self.status,
        }
    }
}

/// The ledger: all proposals, their votes and fates, and the running
/// counters. The proposal with ID `id` is stored at index `id - 1`.
pub struct Contract {
    proposal_count: u128,
    successful_proposal_count: u128,
    rejected_proposal_count: u128,
    proposals: Vec<Proposal>,
}

impl View for Contract {
    type V = LedgerView;

    closed spec fn view(&self) -> LedgerView {
        LedgerView {
            count: self.proposal_count as nat,
            successful: self.successful_proposal_count as nat,
            rejected: self.rejected_proposal_count as nat,
            proposals: self.proposals@.map_values(|p: Proposal| p@),
        }
    }
}

/// Counts the supporting votes.
fn count_yes(votes: &Vec<(String, bool)>) -> (r: usize)
    ensures
        r == yes_count(votes_view(votes@)),
{
    let mut n: usize = 0;
    let mut i: usize = 0;
    while i < votes.len()
        invariant
            i <= votes@.len(),
            n == yes_count(votes_view(votes@.take(i as int))),
        decreases votes@.len() - i,
    {
        proof {
            assert(votes_view(votes@.take(i + 1)).drop_last() =~= votes_view(votes@.take(i as int)));
            lemma_yes_count_bound(votes_view(votes@.take(i as int)));
        }
        if votes[i].1 {
            n = n + 1;
        }
        i = i + 1;
    }
    assert(votes@.take(i as int) =~= votes@);
    n
}

impl Default for Contract {
    fn default() -> (r: Contract)
        ensures
            r@ == LedgerView::empty(),
            r.wf(),
    {
        let r = Contract {
            proposal_count: 0,
            successful_proposal_count: 0,
            rejected_proposal_count: 0,
            proposals: Vec::new(),
        };
        assert(r@.proposals =~= seq![]);
        r
    }
}

impl Contract {
    /// The counters agree with the stored proposals.
    pub open spec fn wf(&self) -> bool {
        self@.inv()
    }

    /// Number of proposals ever created.
    pub fn get_proposal_count(&self) -> (r: u128)
        ensures
            r == self@.count,
    {
        self.proposal_count
    }

    /// Every proposal's text, keyed by ID in ascending order.
    pub fn get_all_proposals(&self) -> (r: BTreeMap<u128, String>)
        requires
            self.wf(),
        ensures
            forall|id: u128| #[trigger] r@.contains_key(id) <==> self@.has(id as int),
            forall|id: u128| #[trigger]
                r@.contains_key(id) ==> r@[id]@ == self@.proposal(id as int).text,
    {
        broadcast use vstd::laws_cmp::group_laws_cmp;

        let mut r: BTreeMap<u128, String> = BTreeMap::new();
        let mut i: usize = 0;
        while i < self.proposals.len()
            invariant
                i <= self@.proposals.len(),
                forall|id: u128| #[trigger] r@.contains_key(id) <==> 1 <= id <= i,
                forall|id: u128| #[trigger]
                    r@.contains_key(id) ==> r@[id]@ == self@.proposal(id as int).text,
            decreases self@.proposals.len() - i,
        {
            let text = self.proposals[i].text.clone();
            r.insert(i as u128 + 1, text);
            i = i + 1;
        }
        r
    }

    /// The votes cast on `proposal_id`, in casting order; none where no
    /// such proposal exists.
    pub fn get_all_votes(&self, proposal_id: u128) -> (r: Vec<(String, bool)>)
        requires
            self.wf(),
        ensures
            votes_view(r@) == self@.votes_of(proposal_id as int),
            !self@.has(proposal_id as int) ==> r@.len() == 0,
    {
        let mut r: Vec<(String, bool)> = Vec::new();
        if proposal_id == 0 || proposal_id > self.proposals.len() as u128 {
            assert(votes_view(r@) =~= seq![]);
            return r;
        }
        let votes = &self.proposals[(proposal_id - 1) as usize].votes;
        let mut i: usize = 0;
        while i < votes.len()
            invariant
                i <= votes@.len(),
                votes_view(r@) =~= votes_view(votes@.take(i as int)),
            decreases votes@.len() - i,
        {
            let voter = votes[i].0.clone();
            r.push((voter, votes[i].1));
            assert(votes_view(votes@.take(i + 1)) =~= votes_view(votes@.take(i as int)).push(
                (votes@[i as int].0@, votes@[i as int].1),
            ));
            i = i + 1;
        }
        assert(votes@.take(i as int) =~= votes@);
        r
    }

    /// Records a new open proposal owned by `caller` and returns its ID,
    /// which is the number of proposals created so far, this one included.
    pub fn create_proposal(&mut self, caller: &str, proposal_text: String) -> (r: u128)
        requires
            old(self).wf(),
        ensures
            final(self).wf(),
            final(self)@ == old(self)@.create(caller@, proposal_text@),
            r == final(self)@.count,
    {
        proof {
            lemma_count_status_push(self@.proposals, ProposalView {
                text: proposal_text@,
                owner: caller@,
                votes: seq![],
                status: Status::Open,
            }, Status::Accepted);
            lemma_count_status_push(self@.proposals, ProposalView {
                text: proposal_text@,
                owner: caller@,
                votes: seq![],
                status: Status::Open,
            }, Status::Rejected);
        }
        let ghost pre = self@;
        let owner = caller.to_owned();
        let p = Proposal { text: proposal_text, owner, votes: Vec::new(), status: Status::Open };
        assert(p.votes@ =~= seq![]);
        assert(votes_view(p.votes@) =~= seq![]);
        let n: usize = self.proposals.len();
        assert(self.proposal_count == n);
        let id: u128 = self.proposal_count + 1;
        self.proposals.push(p);
        self.proposal_count = id;
        assert(self@.proposals =~= pre.proposals.push(p@));
        id
    }

    /// Index of `proposal_id` when a vote on it is allowed, else the error.
    fn check_vote(&self, proposal_id: u128) -> (r: Result<usize, LedgerError>)
        requires
            self.wf(),
        ensures
            match r {
                Ok(i) => self@.vote_error(proposal_id as int) is None && i == proposal_id - 1,
                Err(e) => self@.vote_error(proposal_id as int) == Some(e),
            },
    {
        let n: usize = self.proposals.len();
        if proposal_id == 0 || proposal_id > n as u128 {
            return Err(LedgerError::NotFound);
        }
        let i: usize = (proposal_id - 1) as usize;
        if self.proposals[i].status != Status::Open {
            return Err(LedgerError::AlreadyClosed);
        }
        Ok(i)
    }

    /// Index of `proposal_id` when `caller` may close or void it, else the
    /// error.
    fn check_resolve(&self, caller: &str, proposal_id: u128) -> (r: Result<usize, LedgerError>)
        requires
            self.wf(),
        ensures
            match r {
                Ok(i) => self@.resolve_error(caller@, proposal_id as int) is None && i
                    == proposal_id - 1,
                Err(e) => self@.resolve_error(caller@, proposal_id as int) == Some(e),
            },
    {
        let i = match self.check_vote(proposal_id) {
            Ok(i) => i,
            Err(e) => return Err(e),
        };
        let c = caller.to_owned();
        if c != self.proposals[i].owner {
            return Err(LedgerError::NotAuthorized);
        }
        Ok(i)
    }

    /// Gives the open proposal at index `i` its fate and raises the
    /// matching counter.
    fn set_fate(&mut self, i: usize, accepted: bool)
        requires
            old(self).wf(),
            i < old(self)@.proposals.len(),
            old(self)@.proposals[i as int].status == Status::Open,
        ensures
            final(self).wf(),
            final(self)@ == old(self)@.with_fate(i + 1, accepted),
    {
        let ghost pre = self@;
        let st = if accepted {
            Status::Accepted
        } else {
            Status::Rejected
        };
        let ghost np = ProposalView { status: st, ..pre.proposals[i as int] };
        proof {
            lemma_count_status_update(pre.proposals, i as int, np, Status::Accepted);
            lemma_count_status_update(pre.proposals, i as int, np, Status::Rejected);
            lemma_count_status_bound(pre.proposals, Status::Accepted);
            lemma_count_status_bound(pre.proposals, Status::Rejected);
        }
        assert(self.proposals.len() == pre.proposals.len());
        self.proposals[i].status = st;
        if accepted {
            self.successful_proposal_count = self.successful_proposal_count + 1;
        } else {
            self.rejected_proposal_count = self.rejected_proposal_count + 1;
        }
        assert(self@.proposals =~= pre.proposals.update(i as int, np));
    }

    /// Appends `caller`'s vote to an open proposal. Repeated votes by one
    /// caller, the owner included, are all kept.
    pub fn vote_on_proposal(&mut self, caller: &str, proposal_id: u128, vote_choice: bool) -> (r:
        Result<(), LedgerError>)
        requires
            old(self).wf(),
        ensures
            final(self).wf(),
            (final(self)@, r) == old(self)@.vote(caller@, proposal_id as int, vote_choice),
    {
        let ghost pre = self@;
        let i = match self.check_vote(proposal_id) {
            Ok(i) => i,
            Err(e) => return Err(e),
        };
        let voter = caller.to_owned();
        let ghost old_votes = self.proposals[i as int].votes@;
        let ghost np = ProposalView {
            votes: pre.proposals[i as int].votes.push((caller@, vote_choice)),
            ..pre.proposals[i as int]
        };
        proof {
            lemma_count_status_update(pre.proposals, i as int, np, Status::Accepted);
            lemma_count_status_update(pre.proposals, i as int, np, Status::Rejected);
        }
        self.proposals[i].votes.push((voter, vote_choice));
        assert(votes_view(self.proposals[i as int].votes@) =~= votes_view(old_votes).push(
            (caller@, vote_choice),
        ));
        assert(self@.proposals =~= pre.proposals.update(i as int, np));
        Ok(())
    }

    /// Closes a proposal by the majority rule: accepted, and `Ok(true)`,
    /// when at least half of its votes support it (so also with no votes);
    /// rejected, and `Ok(false)`, otherwise. Only the owner may close it.
    pub fn close_proposal(&mut self, caller: &str, proposal_id: u128) -> (r: Result<
        bool,
        LedgerError,
    >)
        requires
            old(self).wf(),
        ensures
            final(self).wf(),
            (final(self)@, r) == old(self)@.close(caller@, proposal_id as int),
    {
        let i = match self.check_resolve(caller, proposal_id) {
            Ok(i) => i,
            Err(e) => return Err(e),
        };
        let yes = count_yes(&self.proposals[i].votes);
        let total = self.proposals[i].votes.len();
        proof {
            lemma_yes_count_bound(votes_view(self.proposals[i as int].votes@));
        }
        let accepted = yes >= total - yes;
        self.set_fate(i, accepted);
        Ok(accepted)
    }

    /// Voids a proposal that not one vote supports: it is rejected and the
    /// result is `Ok(true)`. With any supporting vote nothing changes and
    /// the result is `Ok(false)`. Only the owner may void it.
    pub fn void_proposal(&mut self, caller: &str, proposal_id: u128) -> (r: Result<
        bool,
        LedgerError,
    >)
        requires
            old(self).wf(),
        ensures
            final(self).wf(),
            (final(self)@, r) == old(self)@.void(caller@, proposal_id as int),
    {
        let i = match self.check_resolve(caller, proposal_id) {
            Ok(i) => i,
            Err(e) => return Err(e),
        };
        let yes = count_yes(&self.proposals[i].votes);
        if yes == 0 {
            self.set_fate(i, false);
            Ok(true)
        } else {
            Ok(false)
        }
    }
}

} // verus!
