//! What goes over the wire: the bytes of outputs and event data, event
//! topics, and the text of each refusal.

use vstd::prelude::*;
use crate::codec::{ascii_bytes, ascii_literal, le_bytes, push_bytes, push_u128_le};
use crate::dex::{DexError, Event, Output, Token};

verus! {

/// The byte that names a token in event data: 0 for SOLEN, 1 for STT.
pub open spec fn token_tag(t: Token) -> u8 {
    match t {
        Token::Solen => 0,
        Token::Stt => 1,
    }
}

fn tag_of(t: Token) -> (b: u8)
    ensures
        b == token_tag(t),
{
    match t {
        Token::Solen => 0,
        Token::Stt => 1,
    }
}

/// The bytes a call returns on success: `ok` for an acknowledgement, else
/// each amount as 16 little-endian bytes, in order.
pub open spec fn output_bytes(o: Output) -> Seq<u8> {
    match o {
        Output::Ack => ascii_bytes("ok"@),
        Output::Amount(x) => le_bytes(x),
        Output::Pair(a, b) => le_bytes(a) + le_bytes(b),
        Output::Reserves(a, b, c) => le_bytes(a) + le_bytes(b) + le_bytes(c),
    }
}

/// The data of an event: the owner and STT contract for `initialized`; the
/// token tag, account and amount for deposits and withdrawals; the
/// direction tag, amount in and amount out for a swap; the SOLEN, STT and
/// LP amounts for liquidity changes. Amounts are 16 little-endian bytes.
pub open spec fn event_data_bytes(e: Event) -> Seq<u8> {
    match e {
        Event::Initialized { owner, stt_contract } => owner@ + stt_contract@,
        Event::Deposit { token, account, amount } => seq![token_tag(token)] + account@ + le_bytes(
            amount,
        ),
        Event::Withdraw { token, account, amount } => seq![token_tag(token)] + account@ + le_bytes(
            amount,
        ),
        Event::Swap { direction, amount_in, amount_out } => seq![token_tag(direction)] + le_bytes(
            amount_in,
        ) + le_bytes(amount_out),
        Event::LiquidityAdded { solen, stt, lp } => le_bytes(solen) + le_bytes(stt) + le_bytes(lp),
        Event::LiquidityRemoved { solen, stt, lp } => le_bytes(solen) + le_bytes(stt) + le_bytes(
            lp,
        ),
    }
}

/// The topic under which an event is emitted.
pub open spec fn event_topic_text(e: Event) -> Seq<char> {
    match e {
        Event::Initialized { .. } => "initialized"@,
        Event::Deposit { .. } => "deposit"@,
        Event::Withdraw { .. } => "withdraw"@,
        Event::Swap { .. } => "swap"@,
        Event::LiquidityAdded { .. } => "liquidity_added"@,
        Event::LiquidityRemoved { .. } => "liquidity_removed"@,
    }
}

/// The text a refused call returns.
pub open spec fn error_text(e: DexError) -> Seq<char> {
    match e {
        DexError::NeedAmount => "err:need amount[16]"@,
        DexError::NeedAmountIn => "err:need amount_in[16]"@,
        DexError::NeedLpAmount => "err:need lp_amount[16]"@,
        DexError::NeedLiquidityAmounts => "err:need solen_amount[16]+stt_amount[16]"@,
        DexError::NeedAccount => "err:need account[32]"@,
        DexError::NeedSttContract => "err:need stt_contract[32]"@,
        DexError::NotOwner => "err:not_owner"@,
        DexError::ZeroAmount => "err:zero amount"@,
        DexError::ZeroAmounts => "err:zero amounts"@,
        DexError::InsufficientBalance => "err:insufficient_balance"@,
        DexError::InsufficientLp => "err:insufficient_lp"@,
        DexError::InsufficientLiquidity => "err:insufficient_liquidity"@,
        DexError::LiquidityTooSmall => "err:liquidity_too_small"@,
        DexError::NoLiquidity => "err:no_liquidity"@,
        DexError::TransferFailed => "err:transfer_failed"@,
    }
}

/// Encodes the output of a successful call.
pub fn encode_output(o: &Output) -> (b: Vec<u8>)
    ensures
        b@ == output_bytes(*o),
{
    let mut b: Vec<u8> = Vec::new();
    match o {
        Output::Ack => {
            proof {
                reveal_strlit("ok");
            }
            push_bytes(&mut b, ascii_literal("ok"));
        },
        Output::Amount(x) => {
            push_u128_le(&mut b, *x);
        },
        Output::Pair(x, y) => {
            push_u128_le(&mut b, *x);
            push_u128_le(&mut b, *y);
        },
        Output::Reserves(x, y, z) => {
            push_u128_le(&mut b, *x);
            push_u128_le(&mut b, *y);
            push_u128_le(&mut b, *z);
        },
    }
    assert(b@ =~= output_bytes(*o));
    b
}

/// Encodes the data of an event.
pub fn event_data(e: &Event) -> (b: Vec<u8>)
    ensures
        b@ == event_data_bytes(*e),
{
    let mut b: Vec<u8> = Vec::new();
    match e {
        Event::Initialized { owner, stt_contract } => {
            push_bytes(&mut b, owner);
            push_bytes(&mut b, stt_contract);
        },
        Event::Deposit { token, account, amount } | Event::Withdraw { token, account, amount } => {
            b.push(tag_of(*token));
            push_bytes(&mut b, account);
            push_u128_le(&mut b, *amount);
        },
        Event::Swap { direction, amount_in, amount_out } => {
            b.push(tag_of(*direction));
            push_u128_le(&mut b, *amount_in);
            push_u128_le(&mut b, *amount_out);
        },
        Event::LiquidityAdded { solen, stt, lp } | Event::LiquidityRemoved { solen, stt, lp } => {
            push_u128_le(&mut b, *solen);
            push_u128_le(&mut b, *stt);
            push_u128_le(&mut b, *lp);
        },
    }
    assert(b@ =~= event_data_bytes(*e));
    b
}

/// The topic of an event, as bytes.
pub fn event_topic(e: &Event) -> (t: &'static [u8])
    ensures
        t@ == ascii_bytes(event_topic_text(*e)),
{
    match e {
        Event::Initialized { .. } => {
            proof {
                reveal_strlit("initialized");
            }
            ascii_literal("initialized")
        },
        Event::Deposit { .. } => {
            proof {
                reveal_strlit("deposit");
            }
            ascii_literal("deposit")
        },
        Event::Withdraw { .. } => {
            proof {
                reveal_strlit("withdraw");
            }
            ascii_literal("withdraw")
        },
        Event::Swap { .. } => {
            proof {
                reveal_strlit("swap");
            }
            ascii_literal("swap")
        },
        Event::LiquidityAdded { .. } => {
            proof {
                reveal_strlit("liquidity_added");
            }
            ascii_literal("liquidity_added")
        },
        Event::LiquidityRemoved { .. } => {
            proof {
                reveal_strlit("liquidity_removed");
            }
            ascii_literal("liquidity_removed")
        },
    }
}

/// The text returned for a refused call, as bytes.
pub fn error_message(e: &DexError) -> (m: &'static [u8])
    ensures
        m@ == ascii_bytes(error_text(*e)),
{
    match e {
        DexError::NeedAmount => {
            proof {
                reveal_strlit("err:need amount[16]");
            }
            ascii_literal("err:need amount[16]")
        },
        DexError::NeedAmountIn => {
            proof {
                reveal_strlit("err:need amount_in[16]");
            }
            ascii_literal("err:need amount_in[16]")
        },
        DexError::NeedLpAmount => {
            proof {
                reveal_strlit("err:need lp_amount[16]");
            }
            ascii_literal("err:need lp_amount[16]")
        },
        DexError::NeedLiquidityAmounts => {
            proof {
                reveal_strlit("err:need solen_amount[16]+stt_amount[16]");
            }
            ascii_literal("err:need solen_amount[16]+stt_amount[16]")
        },
        DexError::NeedAccount => {
            proof {
                reveal_strlit("err:need account[32]");
            }
            ascii_literal("err:need account[32]")
        },
        DexError::NeedSttContract => {
            proof {
                reveal_strlit("err:need stt_contract[32]");
            }
            ascii_literal("err:need stt_contract[32]")
        },
        DexError::NotOwner => {
            proof {
                reveal_strlit("err:not_owner");
            }
            ascii_literal("err:not_owner")
        },
        DexError::ZeroAmount => {
            proof {
                reveal_strlit("err:zero amount");
            }
            ascii_literal("err:zero amount")
        },
        DexError::ZeroAmounts => {
            proof {
                reveal_strlit("err:zero amounts");
            }
            ascii_literal("err:zero amounts")
        },
        DexError::InsufficientBalance => {
            proof {
                reveal_strlit("err:insufficient_balance");
            }
            ascii_literal("err:insufficient_balance")
        },
        DexError::InsufficientLp => {
            proof {
                reveal_strlit("err:insufficient_lp");
            }
            ascii_literal("err:insufficient_lp")
        },
        DexError::InsufficientLiquidity => {
            proof {
                reveal_strlit("err:insufficient_liquidity");
            }
            ascii_literal("err:insufficient_liquidity")
        },
        DexError::LiquidityTooSmall => {
            proof {
                reveal_strlit("err:liquidity_too_small");
            }
            ascii_literal("err:liquidity_too_small")
        },
        DexError::NoLiquidity => {
            proof {
                reveal_strlit("err:no_liquidity");
            }
            ascii_literal("err:no_liquidity")
        },
        DexError::TransferFailed => {
            proof {
                reveal_strlit("err:transfer_failed");
            }
            ascii_literal("err:transfer_failed")
        },
    }
}

} // verus!
