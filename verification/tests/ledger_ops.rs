use vault_ledger::address::Address;
use vault_ledger::errors::VaultError;
use vault_ledger::gateway::InvocationGateway;
use vault_ledger::gateway::InvocationStatus;
use vault_ledger::transfer::LedgerState;

fn addr(n: u8) -> Address {
    Address::from_bytes(vec![n; 32]).unwrap()
}

fn program_id() -> Address {
    addr(42)
}

fn new_account(owner: &Address) -> LedgerState {
    LedgerState::initialize(
        owner,
        true,
        &program_id(),
        b"vault".to_vec(),
        b"credit".to_vec(),
    )
    .unwrap()
}

fn funded_account(owner: &Address, amount: u64) -> (LedgerState, u64) {
    let mut state = new_account(owner);
    state.initialize_credit(owner, true).unwrap();
    let mut owner_funds: u64 = amount;
    let mut vault_funds: u64 = 0;
    state
        .deposit(owner, true, &mut owner_funds, &mut vault_funds, amount)
        .unwrap();
    (state, vault_funds)
}

#[test]
fn initialize_requires_signer() {
    let owner = addr(1);
    let r = LedgerState::initialize(
        &owner,
        false,
        &program_id(),
        b"vault".to_vec(),
        b"credit".to_vec(),
    );
    assert_eq!(r.err(), Some(VaultError::MissingSignature));
}

#[test]
fn initialize_starts_empty() {
    let owner = addr(1);
    let state = new_account(&owner);
    assert_eq!(state.current_balance(), 0);
    assert!(state.owner_identity().equals(&owner));
    assert_eq!(state.credits_for(&owner), 0);
}

#[test]
fn initialize_is_deterministic() {
    let owner = addr(1);
    let a = new_account(&owner);
    let b = new_account(&owner);
    assert!(a.account_address().equals(b.account_address()));
    assert_eq!(a.stored_bump(), b.stored_bump());
}

#[test]
fn credit_record_creation_is_once_only() {
    let owner = addr(1);
    let mut state = new_account(&owner);
    assert!(state.initialize_credit(&owner, true).is_ok());
    assert_eq!(
        state.initialize_credit(&owner, true).err(),
        Some(VaultError::AlreadyExists)
    );
    assert_eq!(
        state.initialize_credit(&addr(2), false).err(),
        Some(VaultError::MissingSignature)
    );
}

#[test]
fn deposit_moves_funds_and_records_them() {
    let owner = addr(1);
    let mut state = new_account(&owner);
    state.initialize_credit(&owner, true).unwrap();
    let mut owner_funds: u64 = 250;
    let mut vault_funds: u64 = 0;
    assert!(state
        .deposit(&owner, true, &mut owner_funds, &mut vault_funds, 100)
        .is_ok());
    assert_eq!(owner_funds, 150);
    assert_eq!(vault_funds, 100);
    assert_eq!(state.current_balance(), 100);
    assert_eq!(state.credits_for(&owner), 100);
}

#[test]
fn deposit_rejects_zero_amount() {
    let owner = addr(1);
    let mut state = new_account(&owner);
    state.initialize_credit(&owner, true).unwrap();
    let mut owner_funds: u64 = 10;
    let mut vault_funds: u64 = 0;
    assert_eq!(
        state
            .deposit(&owner, true, &mut owner_funds, &mut vault_funds, 0)
            .err(),
        Some(VaultError::InvalidAmount)
    );
    assert_eq!(owner_funds, 10);
    assert_eq!(state.current_balance(), 0);
}

#[test]
fn deposit_requires_a_credit_record() {
    let owner = addr(1);
    let mut state = new_account(&owner);
    let mut owner_funds: u64 = 10;
    let mut vault_funds: u64 = 0;
    assert_eq!(
        state
            .deposit(&owner, true, &mut owner_funds, &mut vault_funds, 5)
            .err(),
        Some(VaultError::AddressMismatch)
    );
}

#[test]
fn deposit_requires_signer() {
    let owner = addr(1);
    let mut state = new_account(&owner);
    state.initialize_credit(&owner, true).unwrap();
    let mut owner_funds: u64 = 10;
    let mut vault_funds: u64 = 0;
    assert_eq!(
        state
            .deposit(&owner, false, &mut owner_funds, &mut vault_funds, 5)
            .err(),
        Some(VaultError::MissingSignature)
    );
}

#[test]
fn deposit_requires_depositor_funds() {
    let owner = addr(1);
    let mut state = new_account(&owner);
    state.initialize_credit(&owner, true).unwrap();
    let mut owner_funds: u64 = 4;
    let mut vault_funds: u64 = 0;
    assert_eq!(
        state
            .deposit(&owner, true, &mut owner_funds, &mut vault_funds, 5)
            .err(),
        Some(VaultError::InsufficientFunds)
    );
    assert_eq!(owner_funds, 4);
}

#[test]
fn deposit_refuses_wraparound() {
    let owner = addr(1);
    let mut state = new_account(&owner);
    state.initialize_credit(&owner, true).unwrap();
    let mut owner_funds: u64 = 5;
    let mut vault_funds: u64 = u64::MAX;
    assert_eq!(
        state
            .deposit(&owner, true, &mut owner_funds, &mut vault_funds, 5)
            .err(),
        Some(VaultError::MathOverflow)
    );
    assert_eq!(owner_funds, 5);
    assert_eq!(vault_funds, u64::MAX);
    assert_eq!(state.current_balance(), 0);
}

#[test]
fn withdraw_round_trip_restores_balance() {
    let owner = addr(1);
    let mut state = new_account(&owner);
    state.initialize_credit(&owner, true).unwrap();
    let mut owner_funds: u64 = 100;
    let mut vault_funds: u64 = 0;
    state
        .deposit(&owner, true, &mut owner_funds, &mut vault_funds, 70)
        .unwrap();
    state
        .withdraw(&owner, true, &owner, &mut owner_funds, &mut vault_funds, 70)
        .unwrap();
    assert_eq!(state.current_balance(), 0);
    assert_eq!(state.credits_for(&owner), 0);
    assert_eq!(owner_funds, 100);
    assert_eq!(vault_funds, 0);
}

#[test]
fn withdraw_with_foreign_account_fails_address_mismatch() {
    // a valid account with a positive balance, owned by somebody else
    let owner = addr(1);
    let (mut state, mut vault_funds) = funded_account(&owner, 100);
    let attacker = addr(2);
    let mut attacker_funds: u64 = 0;
    assert_eq!(
        state
            .withdraw(
                &attacker,
                true,
                &attacker,
                &mut attacker_funds,
                &mut vault_funds,
                40
            )
            .err(),
        Some(VaultError::AddressMismatch)
    );
    assert_eq!(attacker_funds, 0);
    assert_eq!(state.current_balance(), 100);
}

#[test]
fn withdraw_with_zero_credits_fails_insufficient_credits() {
    let owner = addr(1);
    let mut state = new_account(&owner);
    state.initialize_credit(&owner, true).unwrap();
    let mut owner_funds: u64 = 0;
    let mut vault_funds: u64 = 50;
    assert_eq!(
        state
            .withdraw(&owner, true, &owner, &mut owner_funds, &mut vault_funds, 1)
            .err(),
        Some(VaultError::InsufficientCredits)
    );
    assert_eq!(owner_funds, 0);
    assert_eq!(vault_funds, 50);
}

#[test]
fn withdraw_pays_only_the_caller() {
    let owner = addr(1);
    let (mut state, mut vault_funds) = funded_account(&owner, 100);
    let other = addr(2);
    let mut other_funds: u64 = 0;
    assert_eq!(
        state
            .withdraw(&owner, true, &other, &mut other_funds, &mut vault_funds, 40)
            .err(),
        Some(VaultError::Unauthorized)
    );
    assert_eq!(other_funds, 0);
    assert_eq!(state.current_balance(), 100);
}

#[test]
fn set_authority_without_proof_fails_missing_signature() {
    let owner = addr(1);
    let mut state = new_account(&owner);
    // the correct current owner named as a plain, non-signing parameter
    assert_eq!(
        state.set_authority(&owner, false, &addr(2)).err(),
        Some(VaultError::MissingSignature)
    );
    assert!(state.owner_identity().equals(&owner));
}

#[test]
fn set_authority_with_wrong_identity_fails_unauthorized() {
    let owner = addr(1);
    let mut state = new_account(&owner);
    assert_eq!(
        state.set_authority(&addr(2), true, &addr(2)).err(),
        Some(VaultError::Unauthorized)
    );
    assert!(state.owner_identity().equals(&owner));
}

#[test]
fn set_authority_with_proof_changes_owner() {
    let owner = addr(1);
    let new_owner = addr(2);
    let mut state = new_account(&owner);
    assert!(state.set_authority(&owner, true, &new_owner).is_ok());
    assert!(state.owner_identity().equals(&new_owner));
}

#[test]
fn collect_payment_from_unpinned_target_credits_nothing() {
    let owner = addr(1);
    let mut state = new_account(&owner);
    state.initialize_credit(&owner, true).unwrap();
    let gateway = InvocationGateway::new(addr(11));
    // the counterparty reports success, but it is not the pinned target
    assert_eq!(
        state
            .collect_payment(
                &gateway,
                &addr(12),
                &owner,
                true,
                30,
                InvocationStatus::Succeeded
            )
            .err(),
        Some(VaultError::UnpinnedInvocationTarget)
    );
    assert_eq!(state.current_balance(), 0);
    assert_eq!(state.credits_for(&owner), 0);
}

#[test]
fn collect_payment_failure_is_surfaced() {
    let owner = addr(1);
    let mut state = new_account(&owner);
    state.initialize_credit(&owner, true).unwrap();
    let gateway = InvocationGateway::new(addr(11));
    assert_eq!(
        state
            .collect_payment(
                &gateway,
                &addr(11),
                &owner,
                true,
                30,
                InvocationStatus::Failed
            )
            .err(),
        Some(VaultError::InvocationFailed)
    );
    assert_eq!(state.current_balance(), 0);
}

#[test]
fn collect_payment_from_pinned_target_is_recorded() {
    let owner = addr(1);
    let mut state = new_account(&owner);
    state.initialize_credit(&owner, true).unwrap();
    let gateway = InvocationGateway::new(addr(11));
    assert!(state
        .collect_payment(
            &gateway,
            &addr(11),
            &owner,
            true,
            30,
            InvocationStatus::Succeeded
        )
        .is_ok());
    assert_eq!(state.current_balance(), 30);
    assert_eq!(state.credits_for(&owner), 30);
}

#[test]
fn full_protocol_scenario() {
    // initialize for owner A, balance 0
    let a = addr(1);
    let mut state = new_account(&a);
    assert_eq!(state.current_balance(), 0);
    state.initialize_credit(&a, true).unwrap();
    let mut a_funds: u64 = 500;
    let mut vault_funds: u64 = 0;
    // deposit 100 -> balance 100
    state
        .deposit(&a, true, &mut a_funds, &mut vault_funds, 100)
        .unwrap();
    assert_eq!(state.current_balance(), 100);
    // withdraw 40 by A -> balance 60, credits 60
    state
        .withdraw(&a, true, &a, &mut a_funds, &mut vault_funds, 40)
        .unwrap();
    assert_eq!(state.current_balance(), 60);
    assert_eq!(state.credits_for(&a), 60);
    // withdraw 40 by a different caller presenting A's account without A's proof
    let b = addr(2);
    let mut b_funds: u64 = 0;
    let r = state.withdraw(&b, true, &b, &mut b_funds, &mut vault_funds, 40);
    assert_eq!(r.err(), Some(VaultError::AddressMismatch));
    assert_eq!(state.current_balance(), 60);
    assert_eq!(b_funds, 0);
}

#[test]
fn invariants_hold_across_operation_sequences() {
    // a deterministic mix of deposits and withdrawals, some refused:
    // after every step the balance is non-negative and no owner's credits
    // exceed it
    let owners = [addr(1), addr(2), addr(3)];
    let mut state = new_account(&owners[0]);
    for o in owners.iter() {
        state.initialize_credit(o, true).unwrap();
    }
    let mut funds: [u64; 3] = [1000, 700, 3];
    let mut vault_funds: u64 = 0;
    let mut step: u64 = 17;
    for round in 0..60u64 {
        step = step.wrapping_mul(6364136223846793005).wrapping_add(round);
        let who = (step % 3) as usize;
        let amount = step % 97;
        if step % 2 == 0 {
            let _ = state.deposit(
                &owners[who],
                true,
                &mut funds[who],
                &mut vault_funds,
                amount,
            );
        } else {
            let mut out: u64 = funds[who];
            let r = state.withdraw(
                &owners[who],
                true,
                &owners[who],
                &mut out,
                &mut vault_funds,
                amount,
            );
            if r.is_ok() {
                funds[who] = out;
            }
        }
        let balance = state.current_balance();
        for o in owners.iter() {
            assert!(state.credits_for(o) <= balance);
        }
    }
}

#[test]
fn collect_payment_refuses_balance_wraparound() {
    let owner = addr(1);
    let mut state = new_account(&owner);
    state.initialize_credit(&owner, true).unwrap();
    let gateway = InvocationGateway::new(addr(11));
    assert!(state
        .collect_payment(
            &gateway,
            &addr(11),
            &owner,
            true,
            u64::MAX,
            InvocationStatus::Succeeded
        )
        .is_ok());
    assert_eq!(state.current_balance(), u64::MAX);
    assert_eq!(
        state
            .collect_payment(
                &gateway,
                &addr(11),
                &owner,
                true,
                1,
                InvocationStatus::Succeeded
            )
            .err(),
        Some(VaultError::MathOverflow)
    );
    assert_eq!(state.current_balance(), u64::MAX);
}

#[test]
fn withdraw_requires_native_funds_besides_balance() {
    // the recorded balance can outrun the native units actually held when
    // value arrived through a delegated collection; the shortfall is caught
    let owner = addr(1);
    let mut state = new_account(&owner);
    state.initialize_credit(&owner, true).unwrap();
    let gateway = InvocationGateway::new(addr(11));
    state
        .collect_payment(&gateway, &addr(11), &owner, true, 50, InvocationStatus::Succeeded)
        .unwrap();
    let mut owner_funds: u64 = 0;
    let mut vault_funds: u64 = 10;
    assert_eq!(
        state
            .withdraw(&owner, true, &owner, &mut owner_funds, &mut vault_funds, 50)
            .err(),
        Some(VaultError::InsufficientFunds)
    );
    assert_eq!(state.current_balance(), 50);
    assert_eq!(state.credits_for(&owner), 50);
    assert_eq!(vault_funds, 10);
}

#[test]
fn withdraw_refuses_recipient_wraparound() {
    let owner = addr(1);
    let (mut state, mut vault_funds) = funded_account(&owner, 100);
    let mut owner_funds: u64 = u64::MAX;
    assert_eq!(
        state
            .withdraw(&owner, true, &owner, &mut owner_funds, &mut vault_funds, 40)
            .err(),
        Some(VaultError::MathOverflow)
    );
    assert_eq!(owner_funds, u64::MAX);
    assert_eq!(state.current_balance(), 100);
}

#[test]
fn prior_owner_cannot_withdraw_after_authority_change() {
    // the address still derives from the first owner, but authorization now
    // rests with the new one
    let first = addr(1);
    let (mut state, mut vault_funds) = funded_account(&first, 100);
    state.set_authority(&first, true, &addr(2)).unwrap();
    let mut first_funds: u64 = 0;
    assert_eq!(
        state
            .withdraw(&first, true, &first, &mut first_funds, &mut vault_funds, 40)
            .err(),
        Some(VaultError::Unauthorized)
    );
    assert_eq!(state.current_balance(), 100);
}
