use vstd::prelude::*;
use vstd::string::StringExecFns;
use crate::address::Address;

verus! {

/// The characters that `base64::encode` produces for a byte sequence,
/// as a function of the bytes alone.
pub uninterp spec fn base64_of(bytes: Seq<u8>) -> Seq<char>;

/// Relies on `base64::encode`: standard alphabet with `=` padding, so the
/// result is determined by the input bytes alone, holds exactly
/// `4 * ceil(n / 3)` characters, and every character is printable ASCII.
#[verifier::external_body]
fn encode_base64(bytes: &Vec<u8>) -> (r: String)
    ensures
        r@ == base64_of(bytes@),
        r@.len() == 4 * ((bytes@.len() + 2) / 3),
        forall|i: int| 0 <= i < r@.len() ==> 32 <= (#[trigger] r@[i]) as u32 <= 126,
{
    base64::encode(bytes.as_slice())
}

/// The derived storage key for a (token id, address) pair:
/// `"balances_" + token_id + "_" + base64(serialized address)`.
pub open spec fn spec_balance_key(token_id: Seq<char>, address: Seq<u8>) -> Seq<char> {
    "balances_"@ + token_id + "_"@ + base64_of(address)
}

/// Dictionary item key for an owner: the base64 encoding of the owner's
/// canonical 33-byte serialization, always 44 characters.
pub fn make_dictionary_item_key(owner: Address) -> (r: String)
    ensures
        r@ == base64_of(owner@),
        r@.len() == 44,
{
    let preimage = owner.to_bytes();
    encode_base64(&preimage)
}

/// Derives the storage key for the balance of `address` in the token class
/// `token_id`.  The derivation is deterministic — the result is a function
/// of the two inputs alone — and its length is the token id's length plus
/// 54, so any token id of at most 10 characters keeps the key within a
/// 64-character storage budget.
pub fn balance_key(token_id: &str, address: Address) -> (r: String)
    ensures
        r@ == spec_balance_key(token_id@, address@),
        r@.len() == token_id@.len() + 54,
        token_id@.len() <= 10 ==> r@.len() <= 64,
{
    let mut key = String::new();
    key.append("balances_");
    key.append(token_id);
    key.append("_");
    let item = make_dictionary_item_key(address);
    key.append(item.as_str());
    proof {
        reveal_strlit("balances_");
        reveal_strlit("_");
    }
    key
}

} // verus!
