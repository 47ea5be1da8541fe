//! The storage layout: the keys under which the pool and each account's
//! balances are stored.

use vstd::prelude::*;
use crate::codec::{ascii_bytes, ascii_literal};

verus! {

/// Key of an account's deposited SOLEN balance: `bal_solen/` then the account.
pub open spec fn spec_solen_balance_key(account: Seq<u8>) -> Seq<u8> {
    ascii_bytes("bal_solen/"@) + account
}

/// Key of an account's deposited STT balance: `bal_stt/` then the account.
pub open spec fn spec_stt_balance_key(account: Seq<u8>) -> Seq<u8> {
    ascii_bytes("bal_stt/"@) + account
}

/// Key of an account's LP share balance: `lp/` then the account.
pub open spec fn spec_lp_key(account: Seq<u8>) -> Seq<u8> {
    ascii_bytes("lp/"@) + account
}

/// Key of an account's pending STT claim: `claim/` then the account.
pub open spec fn spec_claim_key(account: Seq<u8>) -> Seq<u8> {
    ascii_bytes("claim/"@) + account
}

/// The keys of the contract-wide values, in the order owner, STT contract,
/// SOLEN reserve, STT reserve, total LP.
pub open spec fn spec_global_keys() -> Seq<Seq<u8>> {
    seq![
        ascii_bytes("owner"@),
        ascii_bytes("stt_contract"@),
        ascii_bytes("reserve_solen"@),
        ascii_bytes("reserve_stt"@),
        ascii_bytes("total_lp"@),
    ]
}

/// Storage key of the contract owner.
pub fn owner_key() -> (k: &'static [u8])
    ensures
        k@ == spec_global_keys()[0],
{
    proof {
        reveal_strlit("owner");
    }
    ascii_literal("owner")
}

/// Storage key of the STT token contract address.
pub fn stt_contract_key() -> (k: &'static [u8])
    ensures
        k@ == spec_global_keys()[1],
{
    proof {
        reveal_strlit("stt_contract");
    }
    ascii_literal("stt_contract")
}

/// Storage key of the pool's SOLEN reserve.
pub fn reserve_solen_key() -> (k: &'static [u8])
    ensures
        k@ == spec_global_keys()[2],
{
    proof {
        reveal_strlit("reserve_solen");
    }
    ascii_literal("reserve_solen")
}

/// Storage key of the pool's STT reserve.
pub fn reserve_stt_key() -> (k: &'static [u8])
    ensures
        k@ == spec_global_keys()[3],
{
    proof {
        reveal_strlit("reserve_stt");
    }
    ascii_literal("reserve_stt")
}

/// Storage key of the total LP shares outstanding.
pub fn total_lp_key() -> (k: &'static [u8])
    ensures
        k@ == spec_global_keys()[4],
{
    proof {
        reveal_strlit("total_lp");
    }
    ascii_literal("total_lp")
}

/// Copies `prefix` then `account` into a key of length `N`.
fn build_key<const N: usize>(prefix: &[u8], account: &[u8; 32]) -> (key: [u8; N])
    requires
        prefix@.len() + 32 == N,
    ensures
        key@ == prefix@ + account@,
{
    let mut key = [0u8; N];
    let plen = prefix.len();
    let mut i: usize = 0;
    while i < plen
        invariant
            plen == prefix@.len(),
            plen + 32 == N,
            i <= plen,
            key@.len() == N,
            forall|j: int| 0 <= j < i ==> key@[j] == prefix@[j],
        decreases plen - i,
    {
        key[i] = prefix[i];
        i = i + 1;
    }
    let mut k: usize = 0;
    while k < 32
        invariant
            plen == prefix@.len(),
            plen + 32 == N,
            k <= 32,
            key@.len() == N,
            forall|j: int| 0 <= j < plen ==> key@[j] == prefix@[j],
            forall|j: int| 0 <= j < k ==> key@[plen + j] == account@[j],
        decreases 32 - k,
    {
        key[plen + k] = account[k];
        k = k + 1;
    }
    assert(key@ =~= prefix@ + account@);
    key
}

/// The storage key of `account`'s deposited SOLEN balance.
pub fn solen_balance_key(account: &[u8; 32]) -> (key: [u8; 42])
    ensures
        key@ == spec_solen_balance_key(account@),
{
    proof {
        reveal_strlit("bal_solen/");
    }
    build_key::<42>(ascii_literal("bal_solen/"), account)
}

/// The storage key of `account`'s deposited STT balance.
pub fn stt_balance_key(account: &[u8; 32]) -> (key: [u8; 40])
    ensures
        key@ == spec_stt_balance_key(account@),
{
    proof {
        reveal_strlit("bal_stt/");
    }
    build_key::<40>(ascii_literal("bal_stt/"), account)
}

/// The storage key of `account`'s LP share balance.
pub fn lp_key(account: &[u8; 32]) -> (key: [u8; 35])
    ensures
        key@ == spec_lp_key(account@),
{
    proof {
        reveal_strlit("lp/");
    }
    build_key::<35>(ascii_literal("lp/"), account)
}

/// The storage key of `account`'s pending STT claim.
pub fn claim_key(account: &[u8; 32]) -> (key: [u8; 38])
    ensures
        key@ == spec_claim_key(account@),
{
    proof {
        reveal_strlit("claim/");
    }
    build_key::<38>(ascii_literal("claim/"), account)
}

/// The storage layout keeps every stored value apart: each kind of
/// per-account key determines its account, keys of different kinds never
/// coincide, and no per-account key equals one of the contract-wide keys,
/// which are pairwise distinct.
pub proof fn lemma_storage_keys_distinct(a: Seq<u8>, b: Seq<u8>)
    requires
        a.len() == 32,
        b.len() == 32,
    ensures
        spec_solen_balance_key(a) == spec_solen_balance_key(b) ==> a == b,
        spec_stt_balance_key(a) == spec_stt_balance_key(b) ==> a == b,
        spec_lp_key(a) == spec_lp_key(b) ==> a == b,
        spec_claim_key(a) == spec_claim_key(b) ==> a == b,
        spec_solen_balance_key(a) != spec_stt_balance_key(b),
        spec_solen_balance_key(a) != spec_lp_key(b),
        spec_solen_balance_key(a) != spec_claim_key(b),
        spec_stt_balance_key(a) != spec_lp_key(b),
        spec_stt_balance_key(a) != spec_claim_key(b),
        spec_lp_key(a) != spec_claim_key(b),
        forall|i: int|
            0 <= i < 5 ==> {
                &&& spec_global_keys()[i] != spec_solen_balance_key(a)
                &&& spec_global_keys()[i] != spec_stt_balance_key(a)
                &&& spec_global_keys()[i] != spec_lp_key(a)
                &&& spec_global_keys()[i] != spec_claim_key(a)
            },
        forall|i: int, j: int|
            0 <= i < 5 && 0 <= j < 5 && i != j ==> spec_global_keys()[i] != spec_global_keys()[j],
{
    reveal_strlit("bal_solen/");
    reveal_strlit("bal_stt/");
    reveal_strlit("lp/");
    reveal_strlit("claim/");
    reveal_strlit("owner");
    reveal_strlit("stt_contract");
    reveal_strlit("reserve_solen");
    reveal_strlit("reserve_stt");
    reveal_strlit("total_lp");
    let ka = spec_solen_balance_key(a);
    let kb = spec_solen_balance_key(b);
    if ka == kb {
        assert(a =~= ka.subrange(10, 42));
        assert(b =~= kb.subrange(10, 42));
    }
    let sa = spec_stt_balance_key(a);
    let sb = spec_stt_balance_key(b);
    if sa == sb {
        assert(a =~= sa.subrange(8, 40));
        assert(b =~= sb.subrange(8, 40));
    }
    let la = spec_lp_key(a);
    let lb = spec_lp_key(b);
    if la == lb {
        assert(a =~= la.subrange(3, 35));
        assert(b =~= lb.subrange(3, 35));
    }
    let ca = spec_claim_key(a);
    let cb = spec_claim_key(b);
    if ca == cb {
        assert(a =~= ca.subrange(6, 38));
        assert(b =~= cb.subrange(6, 38));
    }
    assert(ka.len() == 42 && sa.len() == 40 && la.len() == 35 && ca.len() == 38);
    let g = spec_global_keys();
    assert(g[0].len() == 5);
    assert(g[1].len() == 12);
    assert(g[2].len() == 13);
    assert(g[3].len() == 11);
    assert(g[4].len() == 8);
}

} // verus!
