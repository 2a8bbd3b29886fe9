use uke_account_filter::{AccountId, Error, UkeAccountFilter};

struct Accounts {
    alice: AccountId,
    bob: AccountId,
    charlie: AccountId,
    django: AccountId,
}

fn default_accounts() -> Accounts {
    Accounts {
        alice: AccountId::from_bytes([0x01; 32]),
        bob: AccountId::from_bytes([0x02; 32]),
        charlie: AccountId::from_bytes([0x03; 32]),
        django: AccountId::from_bytes([0x04; 32]),
    }
}

#[test]
fn default_works() {
    let contract = UkeAccountFilter::new();
    let default_address = AccountId::default();
    assert_eq!(contract.get_optin_status(default_address), false);
    assert_eq!(contract.get_global_filter(default_address), false);
    assert!(contract.get_allowed_accounts(default_address).is_empty());
    assert!(contract.emitted_events().is_empty());
}

#[test]
fn change_optin_works() {
    let accounts = default_accounts();
    let caller = accounts.alice;
    let mut contract = UkeAccountFilter::new();

    assert_eq!(
        contract.add_to_allowed(caller, accounts.alice, accounts.bob),
        Err(Error::NotOptedIn)
    );
    assert_eq!(contract.change_optin_status(caller, true, accounts.alice), Ok(()));
    assert_eq!(
        contract.change_optin_status(caller, true, accounts.bob),
        Err(Error::CallerIsNotOwner)
    );
}

#[test]
fn get_optin_works() {
    let accounts = default_accounts();
    let caller = accounts.alice;
    let mut contract = UkeAccountFilter::new();
    contract.change_optin_status(caller, true, accounts.alice).unwrap();
    assert_eq!(contract.get_optin_status(accounts.alice), true);
}

#[test]
fn change_global_filter_works() {
    let accounts = default_accounts();
    let caller = accounts.alice;
    let mut contract = UkeAccountFilter::new();

    assert_eq!(
        contract.change_global_filter(caller, accounts.alice, true),
        Err(Error::NotOptedIn)
    );
    contract.change_optin_status(caller, true, accounts.alice).unwrap();
    assert_eq!(contract.change_global_filter(caller, accounts.alice, true), Ok(()));
    assert_eq!(
        contract.change_global_filter(caller, accounts.bob, true),
        Err(Error::CallerIsNotOwner)
    );
}

#[test]
fn get_global_filter_works() {
    let accounts = default_accounts();
    let caller = accounts.alice;
    let mut contract = UkeAccountFilter::new();
    contract.change_optin_status(caller, true, accounts.alice).unwrap();
    contract.change_global_filter(caller, accounts.alice, true).unwrap();
    assert_eq!(contract.get_global_filter(accounts.alice), true);
}

#[test]
fn add_to_allowed_accounts_works() {
    let accounts = default_accounts();
    let caller = accounts.alice;
    let mut contract = UkeAccountFilter::new();

    assert_eq!(
        contract.add_to_allowed(caller, accounts.alice, accounts.bob),
        Err(Error::NotOptedIn)
    );
    contract.change_optin_status(caller, true, accounts.alice).unwrap();
    assert_eq!(contract.add_to_allowed(caller, accounts.alice, accounts.bob), Ok(()));
}

#[test]
fn get_allowed_accounts_works() {
    let accounts = default_accounts();
    let caller = accounts.alice;
    let mut contract = UkeAccountFilter::new();
    contract.change_optin_status(caller, true, accounts.alice).unwrap();
    contract.add_to_allowed(caller, accounts.alice, accounts.bob).unwrap();
    contract.add_to_allowed(caller, accounts.alice, accounts.charlie).unwrap();
    contract.add_to_allowed(caller, accounts.alice, accounts.django).unwrap();

    let allowed_list = contract.get_allowed_accounts(accounts.alice);
    assert_eq!(allowed_list.len(), 3);
    assert_eq!(allowed_list[0], accounts.bob);
}
