//! Routing a call: the input is the method name, a zero byte, then the
//! arguments.

use vstd::prelude::*;
use crate::codec::{ascii_bytes, ascii_literal, bytes_eq};

verus! {

/// The methods the contract answers.
#[derive(Clone, Copy, Debug, PartialEq, Eq)]
pub enum Method {
    Abi,
    Init,
    DepositSolen,
    DepositStt,
    WithdrawSolen,
    WithdrawStt,
    WithdrawAllSolen,
    WithdrawAllStt,
    AddLiquidity,
    RemoveLiquidity,
    SwapSolenForStt,
    SwapSttForSolen,
    GetReserves,
    GetPrice,
    BalanceSolen,
    BalanceStt,
    BalanceLp,
    Unknown,
}

/// The method a name selects.
pub open spec fn spec_method(name: Seq<u8>) -> Method {
    if name == ascii_bytes("abi"@) {
        Method::Abi
    } else if name == ascii_bytes("init"@) {
        Method::Init
    } else if name == ascii_bytes("deposit_solen"@) {
        Method::DepositSolen
    } else if name == ascii_bytes("deposit_stt"@) {
        Method::DepositStt
    } else if name == ascii_bytes("withdraw_solen"@) {
        Method::WithdrawSolen
    } else if name == ascii_bytes("withdraw_stt"@) {
        Method::WithdrawStt
    } else if name == ascii_bytes("withdraw_all_solen"@) {
        Method::WithdrawAllSolen
    } else if name == ascii_bytes("withdraw_all_stt"@) {
        Method::WithdrawAllStt
    } else if name == ascii_bytes("add_liquidity"@) {
        Method::AddLiquidity
    } else if name == ascii_bytes("remove_liquidity"@) {
        Method::RemoveLiquidity
    } else if name == ascii_bytes("swap_solen_for_stt"@) {
        Method::SwapSolenForStt
    } else if name == ascii_bytes("swap_stt_for_solen"@) {
        Method::SwapSttForSolen
    } else if name == ascii_bytes("get_reserves"@) {
        Method::GetReserves
    } else if name == ascii_bytes("get_price"@) {
        Method::GetPrice
    } else if name == ascii_bytes("balance_solen"@) {
        Method::BalanceSolen
    } else if name == ascii_bytes("balance_stt"@) {
        Method::BalanceStt
    } else if name == ascii_bytes("balance_lp"@) {
        Method::BalanceLp
    } else {
        Method::Unknown
    }
}

/// `p` is where the method name ends: the first zero byte, or the end of
/// the input when there is none.
pub open spec fn is_name_end(input: Seq<u8>, p: int) -> bool {
    &&& 0 <= p <= input.len()
    &&& forall|j: int| 0 <= j < p ==> input[j] != 0
    &&& p < input.len() ==> input[p] == 0
}

pub open spec fn name_end(input: Seq<u8>) -> int {
    choose|p: int| is_name_end(input, p)
}

/// The method name: the input up to its first zero byte.
pub open spec fn spec_call_name(input: Seq<u8>) -> Seq<u8> {
    input.take(name_end(input))
}

/// The arguments: whatever follows the first zero byte (empty when
/// nothing does).
pub open spec fn spec_call_args(input: Seq<u8>) -> Seq<u8> {
    if name_end(input) + 1 < input.len() {
        input.skip(name_end(input) + 1)
    } else {
        Seq::empty()
    }
}

pub(crate) proof fn lemma_name_end_unique(input: Seq<u8>, p: int, q: int)
    requires
        is_name_end(input, p),
        is_name_end(input, q),
    ensures
        p == q,
{
    if p < q {
        assert(input[p] == 0);
    } else if q < p {
        assert(input[q] == 0);
    }
}

/// A decoded call: which method, and its argument bytes.
#[derive(Debug, PartialEq, Eq)]
pub struct Call {
    pub method: Method,
    pub args: Vec<u8>,
}

/// The method a name selects; `Unknown` for any other name.
pub fn parse_method(name: &[u8]) -> (m: Method)
    ensures
        m == spec_method(name@),
{
    proof {
        reveal_strlit("abi");
    }
    if bytes_eq(name, ascii_literal("abi")) {
        return Method::Abi;
    }
    proof {
        reveal_strlit("init");
    }
    if bytes_eq(name, ascii_literal("init")) {
        return Method::Init;
    }
    proof {
        reveal_strlit("deposit_solen");
    }
    if bytes_eq(name, ascii_literal("deposit_solen")) {
        return Method::DepositSolen;
    }
    proof {
        reveal_strlit("deposit_stt");
    }
    if bytes_eq(name, ascii_literal("deposit_stt")) {
        return Method::DepositStt;
    }
    proof {
        reveal_strlit("withdraw_solen");
    }
    if bytes_eq(name, ascii_literal("withdraw_solen")) {
        return Method::WithdrawSolen;
    }
    proof {
        reveal_strlit("withdraw_stt");
    }
    if bytes_eq(name, ascii_literal("withdraw_stt")) {
        return Method::WithdrawStt;
    }
    proof {
        reveal_strlit("withdraw_all_solen");
    }
    if bytes_eq(name, ascii_literal("withdraw_all_solen")) {
        return Method::WithdrawAllSolen;
    }
    proof {
        reveal_strlit("withdraw_all_stt");
    }
    if bytes_eq(name, ascii_literal("withdraw_all_stt")) {
        return Method::WithdrawAllStt;
    }
    proof {
        reveal_strlit("add_liquidity");
    }
    if bytes_eq(name, ascii_literal("add_liquidity")) {
        return Method::AddLiquidity;
    }
    proof {
        reveal_strlit("remove_liquidity");
    }
    if bytes_eq(name, ascii_literal("remove_liquidity")) {
        return Method::RemoveLiquidity;
    }
    proof {
        reveal_strlit("swap_solen_for_stt");
    }
    if bytes_eq(name, ascii_literal("swap_solen_for_stt")) {
        return Method::SwapSolenForStt;
    }
    proof {
        reveal_strlit("swap_stt_for_solen");
    }
    if bytes_eq(name, ascii_literal("swap_stt_for_solen")) {
        return Method::SwapSttForSolen;
    }
    proof {
        reveal_strlit("get_reserves");
    }
    if bytes_eq(name, ascii_literal("get_reserves")) {
        return Method::GetReserves;
    }
    proof {
        reveal_strlit("get_price");
    }
    if bytes_eq(name, ascii_literal("get_price")) {
        return Method::GetPrice;
    }
    proof {
        reveal_strlit("balance_solen");
    }
    if bytes_eq(name, ascii_literal("balance_solen")) {
        return Method::BalanceSolen;
    }
    proof {
        reveal_strlit("balance_stt");
    }
    if bytes_eq(name, ascii_literal("balance_stt")) {
        return Method::BalanceStt;
    }
    proof {
        reveal_strlit("balance_lp");
    }
    if bytes_eq(name, ascii_literal("balance_lp")) {
        return Method::BalanceLp;
    }
    Method::Unknown
}

/// Splits a call's input at its first zero byte into the method and the
/// arguments.
pub fn parse_call(input: &[u8]) -> (c: Call)
    ensures
        c.method == spec_method(spec_call_name(input@)),
        c.args@ == spec_call_args(input@),
{
    let mut p: usize = 0;
    while p < input.len() && input[p] != 0
        invariant
            p <= input@.len(),
            forall|j: int| 0 <= j < p ==> input@[j] != 0,
        decreases input@.len() - p,
    {
        p = p + 1;
    }
    proof {
        assert(is_name_end(input@, p as int));
        lemma_name_end_unique(input@, p as int, name_end(input@));
    }
    let mut name: Vec<u8> = Vec::new();
    let mut i: usize = 0;
    while i < p
        invariant
            p <= input@.len(),
            i <= p,
            name@ == input@.take(i as int),
        decreases p - i,
    {
        name.push(input[i]);
        i = i + 1;
        assert(name@ =~= input@.take(i as int));
    }
    let mut args: Vec<u8> = Vec::new();
    if p < input.len() && p + 1 < input.len() {
        let mut k: usize = p + 1;
        while k < input.len()
            invariant
                p + 1 <= k <= input@.len(),
                args@ == input@.subrange(p + 1, k as int),
            decreases input@.len() - k,
        {
            args.push(input[k]);
            k = k + 1;
            assert(args@ =~= input@.subrange(p + 1, k as int));
        }
        assert(args@ =~= input@.skip(p + 1));
    } else {
        assert(args@ =~= Seq::<u8>::empty());
    }
    let method = parse_method(name.as_slice());
    Call { method, args }
}

/// The text returned for a method the contract does not know.
pub fn unknown_method_message() -> (m: &'static [u8])
    ensures
        m@ == ascii_bytes("unknown method"@),
{
    proof {
        reveal_strlit("unknown method");
    }
    ascii_literal("unknown method")
}

} // verus!
