use erc1155_ledger::address::Address;
use erc1155_ledger::balance::U256;
use erc1155_ledger::error::Error;
use erc1155_ledger::keys::{balance_key, make_dictionary_item_key};
use erc1155_ledger::ledger::Ledger;

fn alice() -> Address {
    Address::Account([3u8; 32])
}

fn bob() -> Address {
    Address::Account([6u8; 32])
}

#[test]
fn transfer_moves_value() {
    let mut ledger = Ledger::new();
    ledger.write_balance_to(alice(), "A", U256::from_u64(100));
    let r = ledger.transfer_balance(alice(), bob(), "A", U256::from_u64(40));
    assert_eq!(r, Ok(()));
    assert_eq!(ledger.read_balance_from(alice(), "A"), U256::from_u64(60));
    assert_eq!(ledger.read_balance_from(bob(), "A"), U256::from_u64(40));
}

#[test]
fn insufficient_balance_rejected() {
    let mut ledger = Ledger::new();
    ledger.write_balance_to(alice(), "B", U256::from_u64(10));
    let r = ledger.transfer_balance(alice(), bob(), "B", U256::from_u64(11));
    assert_eq!(r, Err(Error::InsufficientBalance));
    assert_eq!(ledger.read_balance_from(alice(), "B"), U256::from_u64(10));
    assert_eq!(ledger.read_balance_from(bob(), "B"), U256::from_u64(0));
}

#[test]
fn overflow_rejected() {
    let mut ledger = Ledger::new();
    let max = U256::from_limbs(u64::MAX, u64::MAX, u64::MAX, u64::MAX);
    ledger.write_balance_to(alice(), "A", U256::from_u64(5));
    ledger.write_balance_to(bob(), "A", max);
    let r = ledger.transfer_balance(alice(), bob(), "A", U256::from_u64(1));
    assert_eq!(r, Err(Error::Overflow));
    assert_eq!(ledger.read_balance_from(alice(), "A"), U256::from_u64(5));
    assert_eq!(ledger.read_balance_from(bob(), "A"), max);
}

#[test]
fn insufficient_balance_is_checked_before_overflow() {
    let mut ledger = Ledger::new();
    let max = U256::from_limbs(u64::MAX, u64::MAX, u64::MAX, u64::MAX);
    ledger.write_balance_to(bob(), "A", max);
    let r = ledger.transfer_balance(alice(), bob(), "A", U256::from_u64(1));
    assert_eq!(r, Err(Error::InsufficientBalance));
}

#[test]
fn self_transfer_never_changes_balance() {
    let mut ledger = Ledger::new();
    ledger.write_balance_to(alice(), "A", U256::from_u64(10));
    let r = ledger.transfer_balance(alice(), alice(), "A", U256::from_u64(1000));
    assert_eq!(r, Ok(()));
    assert_eq!(ledger.read_balance_from(alice(), "A"), U256::from_u64(10));
}

#[test]
fn zero_amount_transfer_is_noop() {
    let mut ledger = Ledger::new();
    let r = ledger.transfer_balance(alice(), bob(), "A", U256::zero());
    assert_eq!(r, Ok(()));
    assert_eq!(ledger.read_balance_from(alice(), "A"), U256::zero());
    assert_eq!(ledger.read_balance_from(bob(), "A"), U256::zero());
}

#[test]
fn unwritten_balance_reads_zero() {
    let ledger = Ledger::new();
    assert_eq!(ledger.read_balance_from(alice(), "nothing"), U256::zero());
    assert_eq!(
        ledger.read_balance_from(Address::Contract([9u8; 32]), "nothing"),
        U256::zero()
    );
}

#[test]
fn balances_of_different_tokens_are_independent() {
    let mut ledger = Ledger::new();
    ledger.write_balance_to(alice(), "A", U256::from_u64(7));
    ledger.write_balance_to(alice(), "B", U256::from_u64(9));
    let r = ledger.transfer_balance(alice(), bob(), "A", U256::from_u64(7));
    assert_eq!(r, Ok(()));
    assert_eq!(ledger.read_balance_from(alice(), "B"), U256::from_u64(9));
    assert_eq!(ledger.read_balance_from(bob(), "B"), U256::zero());
}

#[test]
fn batch_transfer_applies_every_item() {
    let mut ledger = Ledger::new();
    ledger.write_balance_to(alice(), "A", U256::from_u64(100));
    ledger.write_balance_to(alice(), "B", U256::from_u64(1));
    let ids = vec![String::from("A"), String::from("B")];
    let amounts = vec![U256::from_u64(40), U256::from_u64(1)];
    let r = ledger.batch_transfer_balance(alice(), bob(), &ids, &amounts);
    assert_eq!(r, Ok(()));
    assert_eq!(ledger.read_balance_from(alice(), "A"), U256::from_u64(60));
    assert_eq!(ledger.read_balance_from(bob(), "A"), U256::from_u64(40));
    assert_eq!(ledger.read_balance_from(alice(), "B"), U256::zero());
    assert_eq!(ledger.read_balance_from(bob(), "B"), U256::from_u64(1));
}

#[test]
fn batch_failure_is_atomic() {
    let mut ledger = Ledger::new();
    ledger.write_balance_to(alice(), "A", U256::from_u64(100));
    ledger.write_balance_to(alice(), "B", U256::from_u64(10));
    let ids = vec![String::from("A"), String::from("B")];
    let amounts = vec![U256::from_u64(5), U256::from_u64(999999)];
    let r = ledger.batch_transfer_balance(alice(), bob(), &ids, &amounts);
    assert_eq!(r, Err(Error::InsufficientBalance));
    assert_eq!(ledger.read_balance_from(alice(), "A"), U256::from_u64(100));
    assert_eq!(ledger.read_balance_from(bob(), "A"), U256::zero());
    assert_eq!(ledger.read_balance_from(alice(), "B"), U256::from_u64(10));
    assert_eq!(ledger.read_balance_from(bob(), "B"), U256::zero());
}

#[test]
fn batch_is_sequential_within_one_token() {
    let mut ledger = Ledger::new();
    ledger.write_balance_to(alice(), "A", U256::from_u64(10));
    let ids = vec![String::from("A"), String::from("A")];
    let amounts = vec![U256::from_u64(6), U256::from_u64(6)];
    let r = ledger.batch_transfer_balance(alice(), bob(), &ids, &amounts);
    assert_eq!(r, Err(Error::InsufficientBalance));
    assert_eq!(ledger.read_balance_from(alice(), "A"), U256::from_u64(10));
    assert_eq!(ledger.read_balance_from(bob(), "A"), U256::zero());
}

#[test]
fn balance_key_is_deterministic_and_bounded() {
    let k1 = balance_key("gold", alice());
    let k2 = balance_key("gold", alice());
    assert_eq!(k1, k2);
    assert_eq!(k1.len(), "gold".len() + 54);
    assert!(k1.len() <= 64);
    assert!(k1.chars().all(|c| (' '..='~').contains(&c)));
    let other = balance_key("gold", bob());
    assert_ne!(k1, other);
    let other_token = balance_key("iron", alice());
    assert_ne!(k1, other_token);
}

#[test]
fn balance_key_exact_value() {
    // 33 zero bytes encode to eleven complete base64 groups of 'A's.
    let k = balance_key("A", Address::Account([0u8; 32]));
    let encoded: String = std::iter::repeat('A').take(44).collect();
    assert_eq!(k, format!("balances_A_{}", encoded));
}

#[test]
fn item_key_matches_the_canonical_encoding() {
    let addr = Address::Contract([0xABu8; 32]);
    let k = make_dictionary_item_key(addr);
    assert_eq!(k, base64::encode(addr.to_bytes()));
    assert_eq!(k.len(), 44);
}

#[test]
fn address_serialization_tags_the_variant() {
    let account = Address::Account([7u8; 32]);
    let contract = Address::Contract([7u8; 32]);
    let account_bytes = account.to_bytes();
    let contract_bytes = contract.to_bytes();
    assert_eq!(account_bytes.len(), 33);
    assert_eq!(contract_bytes.len(), 33);
    assert_eq!(account_bytes[0], 0);
    assert_eq!(contract_bytes[0], 1);
    assert_eq!(&account_bytes[1..], &[7u8; 32]);
    assert_ne!(account_bytes, contract_bytes);
}

#[test]
fn checked_arithmetic_detects_the_boundaries() {
    let max = U256::from_limbs(u64::MAX, u64::MAX, u64::MAX, u64::MAX);
    let one = U256::from_u64(1);
    assert_eq!(max.checked_add(&one), None);
    let low = U256::from_u64(u64::MAX);
    assert_eq!(low.checked_add(&one), Some(U256::from_limbs(0, 1, 0, 0)));
    assert_eq!(one.checked_sub(&U256::from_u64(2)), None);
    assert_eq!(
        U256::from_u64(7).checked_sub(&U256::from_u64(5)),
        Some(U256::from_u64(2))
    );
    assert!(U256::zero().is_zero());
    assert!(!one.is_zero());
    assert_eq!(
        max.checked_sub(&max),
        Some(U256::zero())
    );
}
