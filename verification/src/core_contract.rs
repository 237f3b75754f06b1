//! The calls that the client makes to the Starknet core contract on L1, and
//! the decoding of what they return.

use vstd::prelude::*;

use crate::error::{CoreError, L1ValueError};
use crate::felt::{be_value, Felt, FeltError};

verus! {

/// The getters of the Starknet core contract that the client reads.
#[derive(Clone, Copy, Debug, PartialEq, Eq, Structural)]
pub enum CoreContractCall {
    /// `stateRoot()`: the root of the last state proven on L1.
    StateRoot,
    /// `stateBlockNumber()`: the number of the last block proven on L1.
    StateBlockNumber,
    /// `stateBlockHash()`: the hash of the last block proven on L1.
    StateBlockHash,
}

/// The Solidity name of a getter.
pub open spec fn method_name(call: CoreContractCall) -> Seq<char> {
    match call {
        CoreContractCall::StateRoot => "stateRoot"@,
        CoreContractCall::StateBlockNumber => "stateBlockNumber"@,
        CoreContractCall::StateBlockHash => "stateBlockHash"@,
    }
}

/// The 4-byte ABI selector of the Solidity function `name()`, without
/// parameters: the first four bytes of the Keccak-256 hash of its signature.
pub uninterp spec fn abi_short_signature(name: Seq<char>) -> Seq<u8>;

/// Calls `ethabi::short_signature` with no parameter types.  The contract
/// claims only that the selector is a function of the name; that it is the
/// Keccak-256 prefix is left unsaid.
#[verifier::external_body]
fn short_signature_without_params(name: &str) -> (res: [u8; 4])
    ensures
        res@ == abi_short_signature(name@),
{
    ethabi::short_signature(name, &[])
}

/// The call data of a getter: its 4-byte selector.
pub fn call_data(call: CoreContractCall) -> (res: [u8; 4])
    ensures
        res@ == abi_short_signature(method_name(call)),
{
    match call {
        CoreContractCall::StateRoot => short_signature_without_params("stateRoot"),
        CoreContractCall::StateBlockNumber => short_signature_without_params("stateBlockNumber"),
        CoreContractCall::StateBlockHash => short_signature_without_params("stateBlockHash"),
    }
}

/// Reads a field element (a state root or a block hash) from the word that
/// the core contract returned.
pub fn decode_felt(word: &[u8]) -> (res: Result<Felt, CoreError>)
    ensures
        res is Ok <==> (word@.len() <= 32 && be_value(word@) < crate::felt::stark_prime()),
        res matches Ok(f) ==> f@ == be_value(word@),
        word@.len() > 32 ==> res matches Err(CoreError::FetchL1Val(
            L1ValueError::Decode(FeltError::InvalidLength),
        )),
        word@.len() <= 32 && be_value(word@) >= crate::felt::stark_prime() ==> res matches Err(
            CoreError::FetchL1Val(L1ValueError::Decode(FeltError::OutOfRange)),
        ),
{
    match Felt::from_byte_slice_be(word) {
        Ok(f) => Ok(f),
        Err(e) => Err(CoreError::FetchL1Val(L1ValueError::Decode(e))),
    }
}

/// Calls `U256::from_big_endian` and then `U256::as_u64` of the uint crate
/// (ethabi's `Uint`).  The first panics on a slice longer than 32 bytes and
/// the second on a number above `u64::MAX`: `requires` leaves both out.
/// Otherwise the result is the number of the big-endian slice.
#[verifier::external_body]
fn u256_from_big_endian_as_u64(bytes: &[u8]) -> (res: u64)
    requires
        bytes@.len() <= 32,
        be_value(bytes@) <= u64::MAX,
    ensures
        res == be_value(bytes@),
{
    ethabi::Uint::from_big_endian(bytes).as_u64()
}

/// Reads a block number from the word that the core contract returned.
pub fn decode_block_number(word: &[u8]) -> (res: u64)
    requires
        word@.len() <= 32,
        be_value(word@) <= u64::MAX,
    ensures
        res == be_value(word@),
{
    u256_from_big_endian_as_u64(word)
}

/// `256^n`.
pub open spec fn pow256(n: nat) -> nat
    decreases n,
{
    if n == 0 {
        1
    } else {
        256 * pow256((n - 1) as nat)
    }
}

proof fn lemma_pow256_mono(m: nat, n: nat)
    requires
        m <= n,
    ensures
        pow256(m) <= pow256(n),
    decreases n,
{
    if m < n {
        lemma_pow256_mono(m, (n - 1) as nat);
    }
}

proof fn lemma_be_value_bound(s: Seq<u8>)
    ensures
        be_value(s) < pow256(s.len()),
    decreases s.len(),
{
    if s.len() > 0 {
        lemma_be_value_bound(s.drop_last());
    }
}

proof fn lemma_be_value_append(a: Seq<u8>, b: Seq<u8>)
    ensures
        be_value(a + b) == be_value(a) * pow256(b.len()) + be_value(b),
    decreases b.len(),
{
    if b.len() == 0 {
        assert(a + b =~= a);
        assert(be_value(a) * pow256(b.len()) == be_value(a) * 1);
    } else {
        assert((a + b).drop_last() =~= a + b.drop_last());
        assert((a + b).last() == b.last());
        lemma_be_value_append(a, b.drop_last());
        let x = be_value(a);
        let p = pow256((b.len() - 1) as nat);
        let y = be_value(b.drop_last());
        assert((x * p + y) * 256 == x * (256 * p) + y * 256) by (nonlinear_arith);
        assert(be_value(a + b) == be_value(a + b.drop_last()) * 256 + b.last());
        assert(be_value(b) == y * 256 + b.last());
        assert(pow256(b.len()) == 256 * p);
    }
}

proof fn lemma_be_value_zero(s: Seq<u8>)
    ensures
        be_value(s) == 0 <==> (forall|i: int| 0 <= i < s.len() ==> s[i] == 0),
    decreases s.len(),
{
    if s.len() > 0 {
        lemma_be_value_zero(s.drop_last());
        if be_value(s) == 0 {
            assert forall|i: int| 0 <= i < s.len() implies s[i] == 0 by {
                if i < s.len() - 1 {
                    assert(s.drop_last()[i] == s[i]);
                }
            }
        }
        if forall|i: int| 0 <= i < s.len() ==> s[i] == 0 {
            assert forall|i: int| 0 <= i < s.drop_last().len() implies s.drop_last()[i] == 0 by {
                assert(s.drop_last()[i] == s[i]);
            }
        }
    }
}

/// Whether `decode_block_number` accepts the word: at most 32 bytes whose
/// number fits in a `u64`.
pub fn fits_block_number(word: &[u8]) -> (res: bool)
    ensures
        res == (word@.len() <= 32 && be_value(word@) <= u64::MAX),
{
    let n = word.len();
    if n > 32 {
        return false;
    }
    let k: usize = if n > 8 { n - 8 } else { 0 };
    let ghost a = word@.take(k as int);
    let ghost b = word@.skip(k as int);
    proof {
        assert(word@ =~= a + b);
        lemma_be_value_append(a, b);
        lemma_be_value_bound(b);
        lemma_pow256_mono(b.len(), 8);
        lemma_be_value_zero(a);
        assert(pow256(8) == 18446744073709551616) by {
            reveal_with_fuel(pow256, 9);
        }
    }
    let ghost whole = be_value(word@);
    let mut j: usize = 0;
    while j < k
        invariant
            j <= k,
            k <= n,
            n == word@.len(),
            a == word@.take(k as int),
            b == word@.skip(k as int),
            whole == be_value(word@),
            whole == be_value(a) * pow256(b.len()) + be_value(b),
            be_value(b) < pow256(b.len()),
            pow256(b.len()) <= pow256(8),
            pow256(8) == 18446744073709551616,
            be_value(a) == 0 <==> (forall|i: int| 0 <= i < a.len() ==> a[i] == 0),
            k > 0 ==> b.len() == 8,
            forall|t: int| 0 <= t < j ==> word@[t] == 0,
        decreases k - j,
    {
        if word[j] != 0 {
            proof {
                assert(a[j as int] != 0);
                assert(be_value(a) * pow256(8) >= pow256(8)) by (nonlinear_arith)
                    requires
                        be_value(a) >= 1,
                ;
            }
            return false;
        }
        j = j + 1;
    }
    proof {
        assert forall|t: int| 0 <= t < a.len() implies a[t] == 0 by {
            assert(a[t] == word@[t]);
        }
    }
    true
}

} // verus!
