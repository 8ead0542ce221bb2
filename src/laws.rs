//! Properties that relate several operations of the ledger, proved over the
//! model that the operations' contracts are stated in.

use vstd::prelude::*;
use crate::model::{
    count_status, lemma_count_status_push, lemma_count_status_update, yes_count, LedgerError, LedgerView,
    ProposalView, Status,
};

verus! {

/// The ledger after a run of creations, each given as (caller, text).
pub open spec fn create_all(l: LedgerView, calls: Seq<(Seq<char>, Seq<char>)>) -> LedgerView
    decreases calls.len(),
{
    if calls.len() == 0 {
        l
    } else {
        create_all(l, calls.drop_last()).create(calls.last().0, calls.last().1)
    }
}

/// From the empty ledger, any run of creations leaves a count equal to the
/// number of calls; the `k`-th call gets ID `k`, so the IDs are exactly
/// `1..=count`, with no gap and none used twice, and proposal `k` holds the
/// text and owner of the `k`-th call.
pub proof fn law_creation_ids(calls: Seq<(Seq<char>, Seq<char>)>)
    ensures
        create_all(LedgerView::empty(), calls).count == calls.len(),
        create_all(LedgerView::empty(), calls).proposals.len() == calls.len(),
        forall|k: int|
            1 <= k <= calls.len() ==> #[trigger] create_all(
                LedgerView::empty(),
                calls.take(k),
            ).count == k,
        forall|k: int|
            1 <= k <= calls.len() ==> {
                let p = #[trigger] create_all(LedgerView::empty(), calls).proposal(k);
                &&& p.owner == calls[k - 1].0
                &&& p.text == calls[k - 1].1
                &&& p.votes == Seq::<(Seq<char>, bool)>::empty()
                &&& p.status == Status::Open
            },
    decreases calls.len(),
{
    if calls.len() > 0 {
        let init = calls.drop_last();
        law_creation_ids(init);
        assert forall|k: int| 1 <= k <= calls.len() implies #[trigger] create_all(
            LedgerView::empty(),
            calls.take(k),
        ).count == k by {
            if k < calls.len() {
                assert(calls.take(k) =~= init.take(k));
            } else {
                assert(calls.take(k) =~= calls);
            }
        }
        let prev = create_all(LedgerView::empty(), init);
        assert forall|k: int| 1 <= k <= calls.len() implies {
            let p = #[trigger] create_all(LedgerView::empty(), calls).proposal(k);
            &&& p.owner == calls[k - 1].0
            &&& p.text == calls[k - 1].1
            &&& p.votes == Seq::<(Seq<char>, bool)>::empty()
            &&& p.status == Status::Open
        } by {
            if k < calls.len() {
                assert(prev.proposal(k) == create_all(LedgerView::empty(), calls).proposal(k));
                assert(init[k - 1] == calls[k - 1]);
            }
        }
    }
}

/// A vote on an ID that names no proposal fails with `NotFound`, and one on
/// a resolved proposal fails with `AlreadyClosed`; either way the ledger is
/// unchanged.
pub proof fn law_vote_refusals(l: LedgerView, caller: Seq<char>, id: int, supports: bool)
    ensures
        !l.has(id) ==> l.vote(caller, id, supports) == (l, Err::<(), LedgerError>(
            LedgerError::NotFound,
        )),
        l.has(id) && l.proposal(id).status != Status::Open ==> l.vote(caller, id, supports) == (
            l,
            Err::<(), LedgerError>(LedgerError::AlreadyClosed),
        ),
{
}

/// Once a proposal is closed, or voided with success, every later vote on
/// it fails with `AlreadyClosed`.
pub proof fn law_no_vote_after_resolution(
    l: LedgerView,
    owner: Seq<char>,
    id: int,
    voter: Seq<char>,
    supports: bool,
)
    ensures
        l.close(owner, id).1 is Ok ==> l.close(owner, id).0.vote(voter, id, supports).1 == Err::<
            (),
            LedgerError,
        >(LedgerError::AlreadyClosed),
        l.void(owner, id).1 == Ok::<bool, LedgerError>(true) ==> l.void(owner, id).0.vote(
            voter,
            id,
            supports,
        ).1 == Err::<(), LedgerError>(LedgerError::AlreadyClosed),
{
}

/// Closing an open proposal as anyone but its owner fails with
/// `NotAuthorized` and leaves the ledger, its fate, votes and counters
/// included, unchanged.
pub proof fn law_close_by_non_owner(l: LedgerView, caller: Seq<char>, id: int)
    requires
        l.has(id),
        l.proposal(id).status == Status::Open,
        caller != l.proposal(id).owner,
    ensures
        l.close(caller, id) == (l, Err::<bool, LedgerError>(LedgerError::NotAuthorized)),
{
}

/// After a close that succeeded, whichever way it went, a second close of
/// the same proposal by anyone fails with `AlreadyClosed` and changes
/// nothing.
pub proof fn law_close_twice(l: LedgerView, first: Seq<char>, second: Seq<char>, id: int)
    requires
        l.close(first, id).1 is Ok,
    ensures
        l.close(first, id).0.close(second, id) == (
            l.close(first, id).0,
            Err::<bool, LedgerError>(LedgerError::AlreadyClosed),
        ),
{
}

/// The owner's void of an open proposal succeeds, rejecting it, exactly
/// when no vote supports it. Otherwise it returns `false`, the ledger is
/// unchanged, and the proposal can still be closed.
pub proof fn law_void_only_without_support(l: LedgerView, caller: Seq<char>, id: int)
    requires
        l.has(id),
        l.proposal(id).status == Status::Open,
        caller == l.proposal(id).owner,
    ensures
        l.void(caller, id).1 == Ok::<bool, LedgerError>(yes_count(l.proposal(id).votes) == 0),
        yes_count(l.proposal(id).votes) == 0 ==> l.void(caller, id).0.proposal(id).status
            == Status::Rejected,
        yes_count(l.proposal(id).votes) != 0 ==> l.void(caller, id).0 == l && l.void(
            caller,
            id,
        ).0.close(caller, id).1 is Ok,
{
}

/// Every resolution, by close or by void, raises `successful + rejected`
/// by exactly one, and exactly one of the two counters goes up.
pub proof fn law_resolution_counts(l: LedgerView, caller: Seq<char>, id: int)
    ensures
        l.close(caller, id).1 is Ok ==> {
            let n = l.close(caller, id).0;
            &&& n.resolved() == l.resolved() + 1
            &&& (n.successful == l.successful + 1) != (n.rejected == l.rejected + 1)
        },
        l.void(caller, id).1 == Ok::<bool, LedgerError>(true) ==> {
            let n = l.void(caller, id).0;
            &&& n.resolved() == l.resolved() + 1
            &&& (n.successful == l.successful + 1) != (n.rejected == l.rejected + 1)
        },
{
}

/// Every operation keeps the counters in step with the proposals: at every
/// point `successful + rejected` is the number of proposals with a resolved
/// fate.
pub proof fn law_invariant_kept(
    l: LedgerView,
    caller: Seq<char>,
    text: Seq<char>,
    id: int,
    supports: bool,
)
    requires
        l.inv(),
    ensures
        l.create(caller, text).inv(),
        l.vote(caller, id, supports).0.inv(),
        l.close(caller, id).0.inv(),
        l.void(caller, id).0.inv(),
        l.resolved() == count_status(l.proposals, Status::Accepted) + count_status(
            l.proposals,
            Status::Rejected,
        ),
{
    let fresh = ProposalView { text, owner: caller, votes: seq![], status: Status::Open };
    lemma_count_status_push(l.proposals, fresh, Status::Accepted);
    lemma_count_status_push(l.proposals, fresh, Status::Rejected);
    if l.has(id) {
        let p = l.proposal(id);
        let voted = ProposalView { votes: p.votes.push((caller, supports)), ..p };
        lemma_count_status_update(l.proposals, id - 1, voted, Status::Accepted);
        lemma_count_status_update(l.proposals, id - 1, voted, Status::Rejected);
        let acc = ProposalView { status: Status::Accepted, ..p };
        lemma_count_status_update(l.proposals, id - 1, acc, Status::Accepted);
        lemma_count_status_update(l.proposals, id - 1, acc, Status::Rejected);
        let rej = ProposalView { status: Status::Rejected, ..p };
        lemma_count_status_update(l.proposals, id - 1, rej, Status::Accepted);
        lemma_count_status_update(l.proposals, id - 1, rej, Status::Rejected);
    }
}

} // verus!
