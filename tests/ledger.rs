use proposal_ledger::{Contract, LedgerError};

fn with_votes(votes: &[bool]) -> Contract {
    let mut c = Contract::default();
    c.create_proposal("owner.near", "A proposal".to_string());
    for (k, v) in votes.iter().enumerate() {
        c.vote_on_proposal(&format!("voter{}.near", k), 1, *v).unwrap();
    }
    c
}

#[test]
fn ids_are_sequential_from_one() {
    let mut c = Contract::default();
    assert_eq!(c.create_proposal("a.near", "first".to_string()), 1);
    assert_eq!(c.create_proposal("b.near", "second".to_string()), 2);
    assert_eq!(c.create_proposal("a.near", "third".to_string()), 3);
    assert_eq!(c.get_proposal_count(), 3);
    let all = c.get_all_proposals();
    let keys: Vec<u128> = all.keys().copied().collect();
    assert_eq!(keys, vec![1, 2, 3]);
    assert_eq!(all[&2], "second");
}

#[test]
fn empty_ledger_lists_nothing() {
    let c = Contract::default();
    assert!(c.get_all_proposals().is_empty());
    assert!(c.get_all_votes(1).is_empty());
}

#[test]
fn vote_on_missing_proposal_is_not_found() {
    let mut c = with_votes(&[]);
    assert_eq!(c.vote_on_proposal("x.near", 0, true), Err(LedgerError::NotFound));
    assert_eq!(c.vote_on_proposal("x.near", 2, true), Err(LedgerError::NotFound));
    assert!(c.get_all_votes(1).is_empty());
}

#[test]
fn vote_on_closed_proposal_is_already_closed() {
    let mut c = with_votes(&[true]);
    assert_eq!(c.close_proposal("owner.near", 1), Ok(true));
    assert_eq!(c.vote_on_proposal("x.near", 1, true), Err(LedgerError::AlreadyClosed));
    assert_eq!(c.get_all_votes(1).len(), 1);
}

#[test]
fn vote_on_voided_proposal_is_already_closed() {
    let mut c = with_votes(&[false]);
    assert_eq!(c.void_proposal("owner.near", 1), Ok(true));
    assert_eq!(c.vote_on_proposal("x.near", 1, false), Err(LedgerError::AlreadyClosed));
}

#[test]
fn votes_are_kept_in_order_with_repeats() {
    let mut c = with_votes(&[]);
    c.vote_on_proposal("a.near", 1, true).unwrap();
    c.vote_on_proposal("owner.near", 1, false).unwrap();
    c.vote_on_proposal("a.near", 1, true).unwrap();
    let votes = c.get_all_votes(1);
    assert_eq!(
        votes,
        vec![
            ("a.near".to_string(), true),
            ("owner.near".to_string(), false),
            ("a.near".to_string(), true)
        ]
    );
}

#[test]
fn close_by_non_owner_is_not_authorized_and_changes_nothing() {
    let mut c = with_votes(&[true, false]);
    assert_eq!(c.close_proposal("voter0.near", 1), Err(LedgerError::NotAuthorized));
    assert_eq!(c.void_proposal("voter0.near", 1), Err(LedgerError::NotAuthorized));
    assert_eq!(c.get_all_votes(1).len(), 2);
    // still open: votes are accepted and the owner can close it
    assert_eq!(c.vote_on_proposal("z.near", 1, true), Ok(()));
    assert_eq!(c.close_proposal("owner.near", 1), Ok(true));
}

#[test]
fn close_on_missing_proposal_is_not_found() {
    let mut c = with_votes(&[]);
    assert_eq!(c.close_proposal("owner.near", 5), Err(LedgerError::NotFound));
    assert_eq!(c.void_proposal("owner.near", 5), Err(LedgerError::NotFound));
}

#[test]
fn second_close_is_already_closed() {
    let mut c = with_votes(&[true]);
    assert_eq!(c.close_proposal("owner.near", 1), Ok(true));
    assert_eq!(c.close_proposal("owner.near", 1), Err(LedgerError::AlreadyClosed));
    let mut d = with_votes(&[false]);
    assert_eq!(d.close_proposal("owner.near", 1), Ok(false));
    assert_eq!(d.close_proposal("owner.near", 1), Err(LedgerError::AlreadyClosed));
    assert_eq!(d.void_proposal("owner.near", 1), Err(LedgerError::AlreadyClosed));
}

#[test]
fn tie_is_accepted() {
    let mut c = with_votes(&[true, true, false, false]);
    assert_eq!(c.close_proposal("owner.near", 1), Ok(true));
}

#[test]
fn one_in_three_is_rejected() {
    let mut c = with_votes(&[true, false, false]);
    assert_eq!(c.close_proposal("owner.near", 1), Ok(false));
}

#[test]
fn no_votes_is_accepted() {
    let mut c = with_votes(&[]);
    assert_eq!(c.close_proposal("owner.near", 1), Ok(true));
}

#[test]
fn void_with_only_opposing_votes_succeeds() {
    let mut c = with_votes(&[false, false, false]);
    assert_eq!(c.void_proposal("owner.near", 1), Ok(true));
    assert_eq!(c.close_proposal("owner.near", 1), Err(LedgerError::AlreadyClosed));
}

#[test]
fn void_with_support_leaves_proposal_open() {
    let mut c = with_votes(&[false, true, false]);
    assert_eq!(c.void_proposal("owner.near", 1), Ok(false));
    assert_eq!(c.vote_on_proposal("y.near", 1, false), Ok(()));
    assert_eq!(c.close_proposal("owner.near", 1), Ok(false));
}

#[test]
fn proposals_are_independent() {
    let mut c = Contract::default();
    c.create_proposal("a.near", "one".to_string());
    c.create_proposal("b.near", "two".to_string());
    c.vote_on_proposal("v.near", 2, true).unwrap();
    assert_eq!(c.close_proposal("a.near", 1), Ok(true));
    assert_eq!(c.close_proposal("a.near", 2), Err(LedgerError::NotAuthorized));
    assert_eq!(c.get_all_votes(1).len(), 0);
    assert_eq!(c.get_all_votes(2).len(), 1);
    assert_eq!(c.void_proposal("b.near", 2), Ok(false));
}
