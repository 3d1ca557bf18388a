use cvx::ledger::{Ledger, MIN_HIBERNATION_PERIOD};
use cvx::types::{Digest, ErrorCode, Pubkey};

fn admin() -> Pubkey {
    Pubkey::new(1, 1, 1, 1)
}

fn user() -> Pubkey {
    Pubkey::new(2, 3, 4, 5)
}

fn other() -> Pubkey {
    Pubkey::new(9, 9, 9, 9)
}

#[test]
fn bootstrap_starts_with_zero_root_and_no_vaults() {
    let l = Ledger::initialize_config(admin());
    assert_eq!(l.current_root(), Digest::zero());
    assert_eq!(l.config.admin, admin());
    assert_eq!(l.vault_count(), 0);
    assert!(l.get_vault(user()).is_none());
}

#[test]
fn fresh_vault_has_zero_balance_and_zero_tag() {
    let mut l = Ledger::initialize_config(admin());
    l.initialize(user(), 10).unwrap();
    let v = l.get_vault(user()).unwrap();
    assert_eq!(v.owner, user());
    assert_eq!(v.balance, 0);
    assert_eq!(v.last_used, 10);
    assert_eq!(v.mock_zk_state_hash, Digest::zero());
}

#[test]
fn creating_a_duplicate_vault_is_refused() {
    let mut l = Ledger::initialize_config(admin());
    l.initialize(user(), 0).unwrap();
    l.deposit(user(), 25, 1).unwrap();
    assert_eq!(l.initialize(user(), 2), Err(ErrorCode::AccountAlreadyExists));
    // the refusal left the existing record untouched
    let v = l.get_vault(user()).unwrap();
    assert_eq!(v.balance, 25);
    assert_eq!(v.last_used, 1);
}

#[test]
fn scenario_deposit_then_overdraw_then_withdraw() {
    let mut l = Ledger::initialize_config(admin());
    l.initialize(user(), 0).unwrap();
    l.deposit(user(), 100, 1).unwrap();
    assert_eq!(l.get_vault(user()).unwrap().balance, 100);
    assert_eq!(l.withdraw(user(), 150, 2), Err(ErrorCode::InsufficientFunds));
    assert_eq!(l.get_vault(user()).unwrap().balance, 100);
    l.withdraw(user(), 40, 3).unwrap();
    assert_eq!(l.get_vault(user()).unwrap().balance, 60);
}

#[test]
fn withdraw_of_exact_balance_empties_the_vault() {
    let mut l = Ledger::initialize_config(admin());
    l.initialize(user(), 0).unwrap();
    l.deposit(user(), 70, 1).unwrap();
    l.withdraw(user(), 70, 2).unwrap();
    assert_eq!(l.get_vault(user()).unwrap().balance, 0);
}

#[test]
fn deposit_of_the_largest_amount_into_a_fresh_vault() {
    let mut l = Ledger::initialize_config(admin());
    l.initialize(user(), 0).unwrap();
    l.deposit(user(), u64::MAX, 1).unwrap();
    assert_eq!(l.get_vault(user()).unwrap().balance, u64::MAX);
    l.withdraw(user(), u64::MAX, 2).unwrap();
    assert_eq!(l.get_vault(user()).unwrap().balance, 0);
}

#[test]
fn hibernating_an_empty_vault_emits_a_zero_balance_record() {
    let mut l = Ledger::initialize_config(admin());
    l.initialize(user(), 0).unwrap();
    let event = l.hibernate_account(user(), other(), 60).unwrap();
    assert_eq!(event.owner, user());
    assert_eq!(event.balance, 0);
    assert_eq!(event.state_hash, Digest::zero());
    assert!(l.get_vault(user()).is_none());
}

#[test]
fn operations_on_a_missing_vault_are_refused() {
    let mut l = Ledger::initialize_config(admin());
    assert_eq!(l.deposit(user(), 5, 0), Err(ErrorCode::AccountNotFound));
    assert_eq!(l.withdraw(user(), 5, 0), Err(ErrorCode::AccountNotFound));
    assert_eq!(
        l.hibernate_account(user(), other(), 100),
        Err(ErrorCode::AccountNotFound)
    );
}

#[test]
fn deposits_and_withdrawals_conserve_value() {
    // balance after the sequence = deposits minus successful withdrawals
    let mut l = Ledger::initialize_config(admin());
    l.initialize(user(), 0).unwrap();
    l.deposit(user(), 50, 1).unwrap();
    l.deposit(user(), 30, 2).unwrap();
    assert_eq!(l.withdraw(user(), 81, 3), Err(ErrorCode::InsufficientFunds));
    l.withdraw(user(), 20, 4).unwrap();
    l.deposit(user(), 5, 5).unwrap();
    l.withdraw(user(), 60, 6).unwrap();
    // 50 + 30 + 5 deposited, 20 + 60 withdrawn, the overdraw changed nothing
    assert_eq!(l.get_vault(user()).unwrap().balance, 5);
}

#[test]
fn operations_touch_only_their_owners_vault() {
    let mut l = Ledger::initialize_config(admin());
    l.initialize(user(), 0).unwrap();
    l.initialize(other(), 0).unwrap();
    l.deposit(user(), 100, 1).unwrap();
    l.deposit(other(), 7, 1).unwrap();
    l.withdraw(user(), 10, 2).unwrap();
    assert_eq!(l.get_vault(other()).unwrap().balance, 7);
    assert_eq!(l.get_vault(other()).unwrap().last_used, 1);
    l.hibernate_account(user(), user(), 1000).unwrap();
    assert!(l.get_vault(user()).is_none());
    assert_eq!(l.get_vault(other()).unwrap().balance, 7);
}

#[test]
fn scenario_hibernation_needs_enough_idle_time() {
    let mut l = Ledger::initialize_config(admin());
    l.initialize(user(), 0).unwrap();
    l.deposit(user(), 60, 0).unwrap();
    // idle for 30 time-units: refused
    assert_eq!(
        l.hibernate_account(user(), other(), 30),
        Err(ErrorCode::AccountNotInactiveEnough)
    );
    assert_eq!(l.get_vault(user()).unwrap().balance, 60);
    // idle for 60 time-units: evicted, state emitted, record gone
    let event = l.hibernate_account(user(), other(), 60).unwrap();
    assert_eq!(event.owner, user());
    assert_eq!(event.balance, 60);
    assert_eq!(event.state_hash, Digest::zero());
    assert!(l.get_vault(user()).is_none());
    assert_eq!(l.vault_count(), 0);
}

#[test]
fn hibernation_threshold_is_sixty_time_units() {
    assert_eq!(MIN_HIBERNATION_PERIOD, 60);
    let mut l = Ledger::initialize_config(admin());
    l.initialize(user(), 100).unwrap();
    assert_eq!(
        l.hibernate_account(user(), user(), 159),
        Err(ErrorCode::AccountNotInactiveEnough)
    );
    assert!(l.hibernate_account(user(), user(), 160).is_ok());
}

#[test]
fn scenario_publish_root_then_revive_once() {
    let mut l = Ledger::initialize_config(admin());
    l.initialize(user(), 0).unwrap();
    l.deposit(user(), 60, 0).unwrap();
    let event = l.hibernate_account(user(), user(), 60).unwrap();
    let tag0 = event.state_hash;

    // the external accumulator folds the emitted record into the next root
    let root1 = tag0;
    l.update_root(admin(), root1).unwrap();
    assert_eq!(l.current_root(), root1);

    // revival re-materializes exactly the claimed state
    l.wake_up_account(user(), tag0, 60, 70).unwrap();
    let v = l.get_vault(user()).unwrap();
    assert_eq!(v.balance, 60);
    assert_eq!(v.mock_zk_state_hash, tag0);
    assert_eq!(v.last_used, 70);

    // a second revival while the record exists is refused
    assert_eq!(
        l.wake_up_account(user(), tag0, 60, 71),
        Err(ErrorCode::AccountAlreadyExists)
    );
    assert_eq!(l.get_vault(user()).unwrap().balance, 60);
}

#[test]
fn revival_with_a_wrong_proof_is_refused() {
    let mut l = Ledger::initialize_config(admin());
    l.update_root(admin(), Digest::new(1, 2, 3, 4)).unwrap();
    assert_eq!(
        l.wake_up_account(user(), Digest::new(1, 2, 3, 5), 1000, 0),
        Err(ErrorCode::InvalidProof)
    );
    assert!(l.get_vault(user()).is_none());
}

#[test]
fn only_the_authority_may_publish_a_root() {
    let mut l = Ledger::initialize_config(admin());
    let root = Digest::new(5, 6, 7, 8);
    assert_eq!(l.update_root(other(), root), Err(ErrorCode::Unauthorized));
    assert_eq!(l.current_root(), Digest::zero());
    l.update_root(admin(), root).unwrap();
    assert_eq!(l.current_root(), root);
}

#[test]
fn publishing_overwrites_the_root_unconditionally() {
    let mut l = Ledger::initialize_config(admin());
    l.update_root(admin(), Digest::new(1, 0, 0, 0)).unwrap();
    l.update_root(admin(), Digest::new(2, 0, 0, 0)).unwrap();
    assert_eq!(l.current_root(), Digest::new(2, 0, 0, 0));
}
