use proposal_ledger::Contract;

#[test]
fn test_get_default_proposals() {
    let contract = Contract::default();
    // a new ledger holds no proposals
    assert_eq!(contract.get_proposal_count(), 0);
}

#[test]
fn test_create_new_proposal() {
    let mut contract = Contract::default();
    contract.create_proposal("harry.near", "Should bears be legal pets?".to_string());
    assert_eq!(contract.get_proposal_count(), 1);
}

#[test]
fn test_vote_on_proposal() {
    let mut contract = Contract::default();
    contract.create_proposal("harry.near", "Should bears be legal pets?".to_string());
    let r = contract.vote_on_proposal("mikky.near", 1, true);
    assert_eq!(r, Ok(()));
    assert_eq!(1, 1);
}

#[test]
fn test_close_proposal() {
    let mut contract = Contract::default();
    contract.create_proposal("harry.near", "Should bears be legal pets?".to_string());
    contract.vote_on_proposal("kurt.near", 1, true).unwrap();
    contract.vote_on_proposal("weiler.near", 1, false).unwrap();
    contract.vote_on_proposal("brandon.near", 1, true).unwrap();
    contract.vote_on_proposal("snow.near", 1, true).unwrap();
    let result = contract.close_proposal("harry.near", 1);
    assert_eq!(result, Ok(true));
}

#[test]
fn test_void_proposal() {
    let mut contract = Contract::default();
    contract.create_proposal("harry.near", "Should bears be legal pets?".to_string());
    let result = contract.void_proposal("harry.near", 1);
    assert_eq!(result, Ok(true));
}
