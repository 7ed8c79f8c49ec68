use anchor_lang::prelude::Pubkey;
use vault_ledger::address::verify_derived;
use vault_ledger::address::Address;
use vault_ledger::auth::require_signer;
use vault_ledger::auth::require_owner_match;
use vault_ledger::errors::VaultError;
use vault_ledger::gateway::InvocationGateway;
use vault_ledger::gateway::InvocationStatus;
use vault_ledger::ledger::CreditRecord;
use vault_ledger::ledger::Vault;

fn addr(n: u8) -> Address {
    Address::from_bytes(vec![n; 32]).unwrap()
}

#[test]
fn from_bytes_refuses_wrong_length() {
    assert!(Address::from_bytes(vec![1u8; 31]).is_none());
    assert!(Address::from_bytes(vec![1u8; 33]).is_none());
    assert!(Address::from_bytes(vec![1u8; 32]).is_some());
}

#[test]
fn address_equality_is_by_bytes() {
    let a = addr(5);
    let b = addr(5);
    let c = addr(6);
    assert!(a.equals(&b));
    assert!(!a.equals(&c));
    assert_eq!(a.to_bytes(), vec![5u8; 32]);
}

#[test]
fn derivation_is_deterministic() {
    let pid = addr(7);
    let seeds = vec![b"vault".to_vec(), vec![9u8; 32]];
    let first = vault_ledger::address::derive(&seeds, &pid).unwrap();
    let second = vault_ledger::address::derive(&seeds, &pid).unwrap();
    assert!(first.0.equals(&second.0));
    assert_eq!(first.1, second.1);
}

#[test]
fn derivation_depends_on_seeds() {
    let pid = addr(7);
    let a = vault_ledger::address::derive(&vec![b"vault".to_vec(), vec![1u8; 32]], &pid).unwrap();
    let b = vault_ledger::address::derive(&vec![b"vault".to_vec(), vec![2u8; 32]], &pid).unwrap();
    assert!(!a.0.equals(&b.0));
}

#[test]
fn derivation_matches_runtime_library() {
    let pid_bytes = [7u8; 32];
    let owner_bytes = [9u8; 32];
    let pid = Address::from_bytes(pid_bytes.to_vec()).unwrap();
    let seeds = vec![b"vault".to_vec(), owner_bytes.to_vec()];
    let (a, bump) = vault_ledger::address::derive(&seeds, &pid).unwrap();
    let (pk, expected_bump) = Pubkey::find_program_address(
        &[b"vault", &owner_bytes],
        &Pubkey::new_from_array(pid_bytes),
    );
    assert_eq!(a.to_bytes(), pk.to_bytes().to_vec());
    assert_eq!(bump, expected_bump);
    // the derived address is never a seed handed back unchanged
    assert_ne!(a.to_bytes(), owner_bytes.to_vec());
    assert_ne!(a.to_bytes(), pid_bytes.to_vec());
}

#[test]
fn verify_accepts_only_the_derived_pair() {
    let pid = addr(7);
    let seeds = vec![b"vault".to_vec(), vec![9u8; 32]];
    let (a, bump) = vault_ledger::address::derive(&seeds, &pid).unwrap();
    assert!(verify_derived(&a, bump, &seeds, &pid));
    assert!(!verify_derived(&a, bump.wrapping_sub(1), &seeds, &pid));
    assert!(!verify_derived(&addr(1), bump, &seeds, &pid));
}

#[test]
fn signer_proof_requires_attestation() {
    let who = addr(3);
    assert_eq!(
        require_signer(&who, false).err(),
        Some(VaultError::MissingSignature)
    );
    let proof = require_signer(&who, true).unwrap();
    assert!(proof.identity().equals(&who));
}

#[test]
fn owner_match_requires_equality() {
    let owner = addr(3);
    assert!(require_owner_match(&owner, &addr(3)).is_ok());
    assert_eq!(
        require_owner_match(&owner, &addr(4)).err(),
        Some(VaultError::Unauthorized)
    );
}

#[test]
fn gateway_pins_its_target() {
    let gw = InvocationGateway::new(addr(11));
    assert!(gw.pinned_target().equals(&addr(11)));
    assert!(gw.evaluate(&addr(11), InvocationStatus::Succeeded).is_ok());
    assert_eq!(
        gw.evaluate(&addr(12), InvocationStatus::Succeeded).err(),
        Some(VaultError::UnpinnedInvocationTarget)
    );
    assert_eq!(
        gw.evaluate(&addr(11), InvocationStatus::Failed).err(),
        Some(VaultError::InvocationFailed)
    );
}

#[test]
fn vault_credit_and_debit_are_checked() {
    let mut v = Vault { owner: addr(1), bump: 0, balance: 10 };
    assert!(v.credit(5).is_ok());
    assert_eq!(v.balance, 15);
    assert_eq!(v.credit(u64::MAX).err(), Some(VaultError::MathOverflow));
    assert_eq!(v.balance, 15);
    assert_eq!(v.debit(16).err(), Some(VaultError::InsufficientFunds));
    assert_eq!(v.balance, 15);
    assert!(v.debit(15).is_ok());
    assert_eq!(v.balance, 0);
}

#[test]
fn credit_record_arithmetic_is_checked() {
    let mut r = CreditRecord {
        owner: addr(1),
        linked_account: addr(2),
        bump: 0,
        credits: 0,
    };
    // cannot exceed the linked account's balance
    assert_eq!(r.add_credits(11, 10).err(), Some(VaultError::InsufficientFunds));
    assert!(r.add_credits(10, 10).is_ok());
    assert_eq!(r.credits, 10);
    assert_eq!(r.add_credits(u64::MAX, u64::MAX).err(), Some(VaultError::MathOverflow));
    // the shortfall test uses the pre-mutation counter, never wraparound
    assert_eq!(r.sub_credits(11).err(), Some(VaultError::InsufficientCredits));
    assert_eq!(r.credits, 10);
    assert!(r.sub_credits(10).is_ok());
    assert_eq!(r.credits, 0);
}
