//! The exchange's state and its transitions.
//!
//! `Pool` holds the contract-wide reserves and LP supply; `Holdings` holds
//! the balances of the account that makes a call. Each operation takes the
//! call's argument bytes, changes the state only when it succeeds (the one
//! exception: a first initialisation without the STT address still records
//! its caller as owner), and answers with a `Reply` (an optional event and
//! an output) or a `DexError`.
//! Each one's effect is given by a spec function `*_step`, which the laws in
//! `laws` speak of.

use vstd::prelude::*;
use crate::amm::{
    floor_sqrt, get_amount_out, isqrt, mul_sat, sat_add, sat_mul, sat_sub, spec_amount_out,
};
use crate::wide::{ceil_div, lemma_ceil_div, mul_div, mul_div_capped, mul_div_ceil};
use crate::codec::{bytes_eq, read_account, read_u128_arg, spec_read_account, spec_read_u128};
use crate::keys::{
    lp_key, solen_balance_key, spec_lp_key, spec_solen_balance_key, spec_stt_balance_key,
    stt_balance_key,
};

verus! {

/// The pool's reserves of both tokens and the LP shares outstanding.
#[derive(Clone, Copy, Debug, PartialEq, Eq)]
pub struct Pool {
    pub reserve_solen: u128,
    pub reserve_stt: u128,
    pub total_lp: u128,
}

/// One account's balances held by the exchange.
#[derive(Clone, Copy, Debug, PartialEq, Eq)]
pub struct Holdings {
    pub solen: u128,
    pub stt: u128,
    pub lp: u128,
    /// STT withdrawn and waiting to be paid out by the owner.
    pub claim: u128,
}

/// The contract's configuration as stored: its owner and the STT token contract.
#[derive(Clone, Copy, Debug, PartialEq, Eq)]
pub struct Settings {
    pub owner: Option<[u8; 32]>,
    pub stt_contract: Option<[u8; 32]>,
}

/// The two tokens; in a swap, the token paid in.
#[derive(Clone, Copy, Debug, PartialEq, Eq)]
pub enum Token {
    Solen,
    Stt,
}

/// What the contract announces after a successful state change.
#[derive(Clone, Copy, Debug, PartialEq, Eq)]
pub enum Event {
    Initialized { owner: [u8; 32], stt_contract: [u8; 32] },
    Deposit { token: Token, account: [u8; 32], amount: u128 },
    Withdraw { token: Token, account: [u8; 32], amount: u128 },
    Swap { direction: Token, amount_in: u128, amount_out: u128 },
    LiquidityAdded { solen: u128, stt: u128, lp: u128 },
    LiquidityRemoved { solen: u128, stt: u128, lp: u128 },
}

/// The value a call returns on success.
#[derive(Clone, Copy, Debug, PartialEq, Eq)]
pub enum Output {
    /// The text `ok`.
    Ack,
    Amount(u128),
    Pair(u128, u128),
    Reserves(u128, u128, u128),
}

/// A successful answer: an event to emit, if any, and the output.
#[derive(Clone, Copy, Debug, PartialEq, Eq)]
pub struct Reply {
    pub event: Option<Event>,
    pub output: Output,
}

/// Why a call was refused.
#[derive(Clone, Copy, Debug, PartialEq, Eq)]
pub enum DexError {
    NeedAmount,
    NeedAmountIn,
    NeedLpAmount,
    NeedLiquidityAmounts,
    NeedAccount,
    NeedSttContract,
    NotOwner,
    ZeroAmount,
    ZeroAmounts,
    InsufficientBalance,
    InsufficientLp,
    InsufficientLiquidity,
    LiquidityTooSmall,
    NoLiquidity,
    TransferFailed,
}

/// A native SOLEN payment the contract asks for: `amount` to `to`. The
/// account's balance has already been debited; `restore` is the balance to
/// put back if the payment fails. `all` marks a withdrawal of the whole
/// balance, which reports the amount paid.
#[derive(Clone, Copy, Debug, PartialEq, Eq)]
pub struct Transfer {
    pub to: [u8; 32],
    pub amount: u128,
    pub restore: u128,
    pub all: bool,
}

/// The first stage of withdrawing the whole SOLEN balance: either nothing
/// to pay (answered at once) or a payment to make.
#[derive(Clone, Copy, Debug, PartialEq, Eq)]
pub enum Payout {
    Done(Reply),
    Pay(Transfer),
}

pub open spec fn answer(event: Event, output: Output) -> Result<Reply, DexError> {
    Ok(Reply { event: Some(event), output })
}

pub open spec fn refuse(e: DexError) -> Result<Reply, DexError> {
    Err(e)
}

// ── Initialisation ──────────────────────────────────────────────────────

/// Another account than the recorded owner tried to initialise.
pub open spec fn init_refused_to(settings: Settings, caller: [u8; 32]) -> bool {
    settings.owner matches Some(o) && o@ != caller@
}

/// Initialises the contract: the STT contract address is the first 32
/// argument bytes. When no other owner is recorded, the caller is recorded
/// as owner (even if the address is then missing) and, with the address
/// present, the address too. Once an owner is recorded, another caller is
/// refused and changes nothing.
pub fn do_init(settings: &mut Settings, caller: [u8; 32], args: &[u8]) -> (r: Result<
    Reply,
    DexError,
>)
    ensures
        match spec_read_account(args@, 0) {
            None => {
                &&& r == refuse(DexError::NeedSttContract)
                &&& final(settings).stt_contract == old(settings).stt_contract
                &&& final(settings).owner == if init_refused_to(*old(settings), caller) {
                    old(settings).owner
                } else {
                    Some(caller)
                }
            },
            Some(stt) => if init_refused_to(*old(settings), caller) {
                &&& r == refuse(DexError::NotOwner)
                &&& *final(settings) == *old(settings)
            } else {
                &&& final(settings).owner == Some(caller)
                &&& final(settings).stt_contract matches Some(c) && c@ == stt
                &&& r == answer(
                    Event::Initialized { owner: caller, stt_contract: final(settings).stt_contract->0 },
                    Output::Ack,
                )
            },
        },
{
    let other_owner = match settings.owner {
        Some(owner) => !bytes_eq(&owner, &caller),
        None => false,
    };
    if !other_owner {
        settings.owner = Some(caller);
    }
    match read_account(args, 0) {
        Some(stt) => {
            if other_owner {
                return Err(DexError::NotOwner);
            }
            settings.stt_contract = Some(stt);
            Ok(Reply { event: Some(Event::Initialized { owner: caller, stt_contract: stt }), output: Output::Ack })
        },
        None => Err(DexError::NeedSttContract),
    }
}

/// The stored owner: the first 32 bytes of the stored value when it has at
/// least 32, otherwise all zeros.
pub fn get_owner(stored: Option<&[u8]>) -> (owner: [u8; 32])
    ensures
        match stored {
            Some(data) => if data@.len() >= 32 {
                owner@ == data@.take(32)
            } else {
                owner@ == Seq::new(32, |i: int| 0u8)
            },
            None => owner@ == Seq::new(32, |i: int| 0u8),
        },
{
    let mut owner = [0u8; 32];
    if let Some(data) = stored {
        if data.len() >= 32 {
            let mut i: usize = 0;
            while i < 32
                invariant
                    i <= 32,
                    data@.len() >= 32,
                    owner@.len() == 32,
                    forall|j: int| 0 <= j < i ==> owner@[j] == data@[j],
                decreases 32 - i,
            {
                owner[i] = data[i];
                i = i + 1;
            }
            assert(owner@ =~= data@.take(32));
            return owner;
        }
    }
    assert(owner@ =~= Seq::new(32, |i: int| 0u8));
    owner
}

// ── Deposits and withdrawals ────────────────────────────────────────────

/// A deposit of `token` recorded for `caller`: the amount is the first 16
/// argument bytes, must be non-zero, and is added (saturating) to `balance`.
/// Answers the new result and balance.
pub open spec fn deposit_step(balance: u128, caller: [u8; 32], token: Token, args: Seq<u8>) -> (
    Result<Reply, DexError>,
    u128,
) {
    match spec_read_u128(args, 0) {
        None => (refuse(DexError::NeedAmount), balance),
        Some(a) => if a == 0 {
            (refuse(DexError::ZeroAmount), balance)
        } else {
            (
                answer(Event::Deposit { token, account: caller, amount: a }, Output::Ack),
                sat_add(balance, a),
            )
        },
    }
}

/// Records a SOLEN deposit by `caller`.
pub fn do_deposit_solen(h: &mut Holdings, caller: [u8; 32], args: &[u8]) -> (r: Result<
    Reply,
    DexError,
>)
    ensures
        (r, final(h).solen) == deposit_step(old(h).solen, caller, Token::Solen, args@),
        final(h).stt == old(h).stt,
        final(h).lp == old(h).lp,
        final(h).claim == old(h).claim,
{
    let amount = match read_u128_arg(args, 0) {
        Some(a) => a,
        None => return Err(DexError::NeedAmount),
    };
    if amount == 0 {
        return Err(DexError::ZeroAmount);
    }
    h.solen = h.solen.saturating_add(amount);
    Ok(Reply { event: Some(Event::Deposit { token: Token::Solen, account: caller, amount }), output: Output::Ack })
}

/// Records an STT deposit by `caller`.
pub fn do_deposit_stt(h: &mut Holdings, caller: [u8; 32], args: &[u8]) -> (r: Result<
    Reply,
    DexError,
>)
    ensures
        (r, final(h).stt) == deposit_step(old(h).stt, caller, Token::Stt, args@),
        final(h).solen == old(h).solen,
        final(h).lp == old(h).lp,
        final(h).claim == old(h).claim,
{
    let amount = match read_u128_arg(args, 0) {
        Some(a) => a,
        None => return Err(DexError::NeedAmount),
    };
    if amount == 0 {
        return Err(DexError::ZeroAmount);
    }
    h.stt = h.stt.saturating_add(amount);
    Ok(Reply { event: Some(Event::Deposit { token: Token::Stt, account: caller, amount }), output: Output::Ack })
}

/// The first stage of a SOLEN withdrawal: the amount (first 16 argument
/// bytes, non-zero, at most the balance) is debited and a payment to the
/// caller is requested.
pub open spec fn withdraw_solen_step(balance: u128, caller: [u8; 32], args: Seq<u8>) -> (
    Result<Transfer, DexError>,
    u128,
) {
    match spec_read_u128(args, 0) {
        None => (Err(DexError::NeedAmount), balance),
        Some(a) => if a == 0 {
            (Err(DexError::ZeroAmount), balance)
        } else if balance < a {
            (Err(DexError::InsufficientBalance), balance)
        } else {
            (Ok(Transfer { to: caller, amount: a, restore: balance, all: false }), (balance - a) as u128)
        },
    }
}

/// Debits a SOLEN withdrawal and asks for the payment.
pub fn do_withdraw_solen(h: &mut Holdings, caller: [u8; 32], args: &[u8]) -> (r: Result<
    Transfer,
    DexError,
>)
    ensures
        (r, final(h).solen) == withdraw_solen_step(old(h).solen, caller, args@),
        final(h).stt == old(h).stt,
        final(h).lp == old(h).lp,
        final(h).claim == old(h).claim,
{
    let amount = match read_u128_arg(args, 0) {
        Some(a) => a,
        None => return Err(DexError::NeedAmount),
    };
    if amount == 0 {
        return Err(DexError::ZeroAmount);
    }
    let balance = h.solen;
    if balance < amount {
        return Err(DexError::InsufficientBalance);
    }
    h.solen = balance - amount;
    Ok(Transfer { to: caller, amount, restore: balance, all: false })
}

/// The first stage of withdrawing the whole SOLEN balance: nothing to do
/// when it is zero, else the balance is zeroed and its payment requested.
pub open spec fn withdraw_all_solen_step(balance: u128, caller: [u8; 32]) -> (Payout, u128) {
    if balance == 0 {
        (Payout::Done(Reply { event: None, output: Output::Ack }), balance)
    } else {
        (Payout::Pay(Transfer { to: caller, amount: balance, restore: balance, all: true }), 0)
    }
}

/// Zeroes the caller's SOLEN balance and asks for its payment.
pub fn do_withdraw_all_solen(h: &mut Holdings, caller: [u8; 32]) -> (r: Payout)
    ensures
        (r, final(h).solen) == withdraw_all_solen_step(old(h).solen, caller),
        final(h).stt == old(h).stt,
        final(h).lp == old(h).lp,
        final(h).claim == old(h).claim,
{
    let balance = h.solen;
    if balance == 0 {
        return Payout::Done(Reply { event: None, output: Output::Ack });
    }
    h.solen = 0;
    Payout::Pay(Transfer { to: caller, amount: balance, restore: balance, all: true })
}

/// The last stage of a SOLEN withdrawal, given whether the payment went
/// through: on success the withdrawal is announced; on failure the balance
/// is put back.
pub open spec fn finish_withdraw_step(balance: u128, t: Transfer, transferred: bool) -> (
    Result<Reply, DexError>,
    u128,
) {
    if transferred {
        (
            answer(
                Event::Withdraw { token: Token::Solen, account: t.to, amount: t.amount },
                if t.all {
                    Output::Amount(t.amount)
                } else {
                    Output::Ack
                },
            ),
            balance,
        )
    } else {
        (refuse(DexError::TransferFailed), t.restore)
    }
}

/// Completes a SOLEN withdrawal once the payment has been attempted.
pub fn finish_withdraw_solen(h: &mut Holdings, t: &Transfer, transferred: bool) -> (r: Result<
    Reply,
    DexError,
>)
    ensures
        (r, final(h).solen) == finish_withdraw_step(old(h).solen, *t, transferred),
        final(h).stt == old(h).stt,
        final(h).lp == old(h).lp,
        final(h).claim == old(h).claim,
{
    if !transferred {
        h.solen = t.restore;
        return Err(DexError::TransferFailed);
    }
    let output = if t.all {
        Output::Amount(t.amount)
    } else {
        Output::Ack
    };
    Ok(Reply { event: Some(Event::Withdraw { token: Token::Solen, account: t.to, amount: t.amount }), output })
}

/// An STT withdrawal: the amount (first 16 argument bytes, non-zero, at
/// most the balance) moves from the balance to the pending claim.
pub open spec fn withdraw_stt_step(balance: u128, claim: u128, caller: [u8; 32], args: Seq<u8>) -> (
    Result<Reply, DexError>,
    u128,
    u128,
) {
    match spec_read_u128(args, 0) {
        None => (refuse(DexError::NeedAmount), balance, claim),
        Some(a) => if a == 0 {
            (refuse(DexError::ZeroAmount), balance, claim)
        } else if balance < a {
            (refuse(DexError::InsufficientBalance), balance, claim)
        } else {
            (
                answer(Event::Withdraw { token: Token::Stt, account: caller, amount: a }, Output::Ack),
                (balance - a) as u128,
                sat_add(claim, a),
            )
        },
    }
}

/// Moves STT from the caller's balance to its pending claim.
pub fn do_withdraw_stt(h: &mut Holdings, caller: [u8; 32], args: &[u8]) -> (r: Result<
    Reply,
    DexError,
>)
    ensures
        (r, final(h).stt, final(h).claim) == withdraw_stt_step(
            old(h).stt,
            old(h).claim,
            caller,
            args@,
        ),
        final(h).solen == old(h).solen,
        final(h).lp == old(h).lp,
{
    let amount = match read_u128_arg(args, 0) {
        Some(a) => a,
        None => return Err(DexError::NeedAmount),
    };
    if amount == 0 {
        return Err(DexError::ZeroAmount);
    }
    let balance = h.stt;
    if balance < amount {
        return Err(DexError::InsufficientBalance);
    }
    h.stt = balance - amount;
    h.claim = h.claim.saturating_add(amount);
    Ok(Reply { event: Some(Event::Withdraw { token: Token::Stt, account: caller, amount }), output: Output::Ack })
}

/// Withdrawing the whole STT balance: nothing when it is zero, else all of
/// it moves to the pending claim and the amount is reported.
pub open spec fn withdraw_all_stt_step(balance: u128, claim: u128, caller: [u8; 32]) -> (
    Result<Reply, DexError>,
    u128,
    u128,
) {
    if balance == 0 {
        (Ok(Reply { event: None, output: Output::Ack }), balance, claim)
    } else {
        (
            answer(
                Event::Withdraw { token: Token::Stt, account: caller, amount: balance },
                Output::Amount(balance),
            ),
            0,
            sat_add(claim, balance),
        )
    }
}

/// Moves the caller's whole STT balance to its pending claim.
pub fn do_withdraw_all_stt(h: &mut Holdings, caller: [u8; 32]) -> (r: Result<Reply, DexError>)
    ensures
        (r, final(h).stt, final(h).claim) == withdraw_all_stt_step(
            old(h).stt,
            old(h).claim,
            caller,
        ),
        final(h).solen == old(h).solen,
        final(h).lp == old(h).lp,
{
    let balance = h.stt;
    if balance == 0 {
        return Ok(Reply { event: None, output: Output::Ack });
    }
    h.stt = 0;
    h.claim = h.claim.saturating_add(balance);
    Ok(Reply { event: Some(Event::Withdraw { token: Token::Stt, account: caller, amount: balance }), output: Output::Amount(balance) })
}

// ── Liquidity ───────────────────────────────────────────────────────────

/// The LP shares to mint for offering `solen` and `stt`, and how much of
/// each is taken. On an empty pool: the integer square root of the product
/// of both amounts, all of both taken. Otherwise: the smaller of the two
/// proportional shares `amount * total_lp / reserve`, all of the limiting
/// token taken and the other scaled to the same share, rounded up so the
/// shares minted are never worth more than the tokens taken; when both
/// shares exceed the room left in the LP supply (`u128::MAX - total_lp`),
/// exactly that room is minted and both tokens are scaled (up) to it.
pub open spec fn liquidity_plan(pool: Pool, solen: u128, stt: u128) -> (u128, u128, u128) {
    if pool.total_lp == 0 {
        (floor_sqrt(sat_mul(solen, stt) as nat) as u128, solen, stt)
    } else {
        let t = pool.total_lp as int;
        let from_solen = solen * t / (pool.reserve_solen as int);
        let from_stt = stt * t / (pool.reserve_stt as int);
        let room = u128::MAX - t;
        if from_solen <= room && from_solen < from_stt {
            (from_solen as u128, solen, ceil_div(from_solen * pool.reserve_stt, t) as u128)
        } else if from_stt <= room && from_stt <= from_solen {
            (from_stt as u128, ceil_div(from_stt * pool.reserve_solen, t) as u128, stt)
        } else {
            (
                room as u128,
                ceil_div(room * pool.reserve_solen, t) as u128,
                ceil_div(room * pool.reserve_stt, t) as u128,
            )
        }
    }
}

/// The inputs on which adding liquidity is defined: when the offer is
/// accepted so far, the empty-pool product stays below `u128::MAX` (its
/// square root is taken of `n + 1`) and a non-empty pool has both reserves
/// non-zero (they are divided by).
pub open spec fn add_liquidity_defined(pool: Pool, h: Holdings, args: Seq<u8>) -> bool {
    match (spec_read_u128(args, 0), spec_read_u128(args, 16)) {
        (Some(solen), Some(stt)) => (solen > 0 && stt > 0 && h.solen >= solen && h.stt >= stt) ==> (
        if pool.total_lp == 0 {
            sat_mul(solen, stt) < u128::MAX
        } else {
            pool.reserve_solen > 0 && pool.reserve_stt > 0
        }),
        _ => true,
    }
}

/// Whether adding liquidity is defined on these inputs (see
/// `add_liquidity_defined`); a caller that cannot know it tests it here.
pub fn add_liquidity_is_defined(pool: &Pool, h: &Holdings, args: &[u8]) -> (b: bool)
    ensures
        b == add_liquidity_defined(*pool, *h, args@),
{
    let solen = match read_u128_arg(args, 0) {
        Some(a) => a,
        None => return true,
    };
    let stt = match read_u128_arg(args, 16) {
        Some(a) => a,
        None => return true,
    };
    if solen == 0 || stt == 0 || h.solen < solen || h.stt < stt {
        return true;
    }
    if pool.total_lp == 0 {
        mul_sat(solen, stt) < u128::MAX
    } else {
        pool.reserve_solen > 0 && pool.reserve_stt > 0
    }
}

/// Adding liquidity from the caller's balances: amounts in the first two
/// 16-byte argument fields, both non-zero and covered by the balances. The
/// amounts taken (see `liquidity_plan`) move from the balances into the
/// reserves, and the minted LP shares are credited; the rest of the offer
/// stays in the balances.
pub open spec fn add_liquidity_step(pool: Pool, h: Holdings, args: Seq<u8>) -> (
    Result<Reply, DexError>,
    Pool,
    Holdings,
) {
    match (spec_read_u128(args, 0), spec_read_u128(args, 16)) {
        (Some(solen), Some(stt)) => if solen == 0 || stt == 0 {
            (refuse(DexError::ZeroAmounts), pool, h)
        } else if h.solen < solen || h.stt < stt {
            (refuse(DexError::InsufficientBalance), pool, h)
        } else {
            let (lp, used_solen, used_stt) = liquidity_plan(pool, solen, stt);
            if lp == 0 {
                (
                    refuse(
                        if pool.total_lp == 0 {
                            DexError::LiquidityTooSmall
                        } else {
                            DexError::InsufficientLiquidity
                        },
                    ),
                    pool,
                    h,
                )
            } else {
                (
                    answer(
                        Event::LiquidityAdded { solen: used_solen, stt: used_stt, lp },
                        Output::Amount(lp),
                    ),
                    Pool {
                        reserve_solen: sat_add(pool.reserve_solen, used_solen),
                        reserve_stt: sat_add(pool.reserve_stt, used_stt),
                        total_lp: (pool.total_lp + lp) as u128,
                    },
                    Holdings {
                        solen: (h.solen - used_solen) as u128,
                        stt: (h.stt - used_stt) as u128,
                        lp: sat_add(h.lp, lp),
                        claim: h.claim,
                    },
                )
            }
        },
        _ => (refuse(DexError::NeedLiquidityAmounts), pool, h),
    }
}

/// A share scaled back to one token, rounded up, never exceeds the amount
/// it was computed from: for `lp <= amount * total / reserve`,
/// `ceil(lp * reserve / total) <= amount`, and that amount covers the share:
/// `lp * reserve <= ceil(lp * reserve / total) * total`.
pub(crate) proof fn lemma_scaled_back_within(amount: int, total: int, reserve: int, lp: int)
    requires
        total > 0,
        reserve > 0,
        amount >= 0,
        0 <= lp <= amount * total / reserve,
    ensures
        0 <= ceil_div(lp * reserve, total) <= amount,
        lp * reserve <= amount * total,
        lp * reserve <= ceil_div(lp * reserve, total) * total,
{
    let x = amount * total;
    assert((x / reserve) * reserve <= x) by (nonlinear_arith)
        requires
            reserve > 0,
            x >= 0,
    ;
    assert(lp * reserve <= (x / reserve) * reserve) by (nonlinear_arith)
        requires
            lp <= x / reserve,
            reserve > 0,
    ;
    assert(lp * reserve >= 0) by (nonlinear_arith)
        requires
            lp >= 0,
            reserve > 0,
    ;
    lemma_ceil_div(lp * reserve, total);
    vstd::arithmetic::div_mod::lemma_div_is_ordered(
        lp * reserve + total - 1,
        amount * total + (total - 1),
        total,
    );
    vstd::arithmetic::div_mod::lemma_div_multiples_vanish_fancy(amount, total - 1, total);
    assert(total * amount + (total - 1) == amount * total + (total - 1)) by (nonlinear_arith);
    vstd::arithmetic::div_mod::lemma_div_pos_is_pos(lp * reserve + total - 1, total);
}

/// `x / d` rounds down: `(x / d) * d <= x < (x / d + 1) * d`.
proof fn lemma_floor_bounds(x: int, d: int)
    requires
        x >= 0,
        d > 0,
    ensures
        x < (x / d + 1) * d,
        (x / d) * d <= x,
        x / d >= 0,
{
    assert(x < (x / d + 1) * d && (x / d) * d <= x && x / d >= 0) by (nonlinear_arith)
        requires
            x >= 0,
            d > 0,
    ;
}

/// The amounts taken when adding liquidity never exceed the amounts
/// offered; the minted shares fit the room left in the LP supply; and the
/// deposit is proportional: for each token `lp * reserve <= taken *
/// total_lp`, so the shares minted are never worth more than the tokens
/// taken and existing shares are never diluted.
pub proof fn lemma_liquidity_plan_within(pool: Pool, solen: u128, stt: u128)
    requires
        pool.total_lp == 0 || (pool.reserve_solen > 0 && pool.reserve_stt > 0),
    ensures
        liquidity_plan(pool, solen, stt).1 <= solen,
        liquidity_plan(pool, solen, stt).2 <= stt,
        pool.total_lp > 0 ==> ({
            let (lp, us, ut) = liquidity_plan(pool, solen, stt);
            &&& pool.total_lp + lp <= u128::MAX
            &&& lp * pool.reserve_solen <= us * pool.total_lp
            &&& lp * pool.reserve_stt <= ut * pool.total_lp
        }),
{
    if pool.total_lp != 0 {
        let t = pool.total_lp as int;
        let rs = pool.reserve_solen as int;
        let rt = pool.reserve_stt as int;
        let from_solen = solen * t / rs;
        let from_stt = stt * t / rt;
        let room = u128::MAX - t;
        assert(solen * t >= 0) by (nonlinear_arith)
            requires
                solen >= 0,
                t >= 0,
        ;
        assert(stt * t >= 0) by (nonlinear_arith)
            requires
                stt >= 0,
                t >= 0,
        ;
        lemma_floor_bounds(solen * t, rs);
        lemma_floor_bounds(stt * t, rt);
        if from_solen <= room && from_solen < from_stt {
            lemma_scaled_back_within(stt as int, t, rt, from_solen);
            lemma_scaled_back_within(solen as int, t, rs, from_solen);
        } else if from_stt <= room && from_stt <= from_solen {
            lemma_scaled_back_within(solen as int, t, rs, from_stt);
            lemma_scaled_back_within(stt as int, t, rt, from_stt);
        } else {
            assert(room < from_solen && room < from_stt);
            lemma_scaled_back_within(solen as int, t, rs, room);
            lemma_scaled_back_within(stt as int, t, rt, room);
        }
    }
}

/// `lp * reserve / total` rounded up, known to be at most `bound`.
fn scale(lp: u128, reserve: u128, total: u128, bound: u128) -> (r: u128)
    requires
        total > 0,
        ceil_div(lp * reserve, total as int) <= bound,
    ensures
        r == ceil_div(lp * reserve, total as int),
{
    match mul_div_ceil(lp, reserve, total, bound) {
        Some(v) => v,
        None => 0,
    }
}

/// Adds liquidity from the caller's balances.
pub fn do_add_liquidity(pool: &mut Pool, h: &mut Holdings, args: &[u8]) -> (r: Result<
    Reply,
    DexError,
>)
    requires
        add_liquidity_defined(*old(pool), *old(h), args@),
    ensures
        (r, *final(pool), *final(h)) == add_liquidity_step(*old(pool), *old(h), args@),
{
    let solen_amount = match read_u128_arg(args, 0) {
        Some(a) => a,
        None => return Err(DexError::NeedLiquidityAmounts),
    };
    let stt_amount = match read_u128_arg(args, 16) {
        Some(a) => a,
        None => return Err(DexError::NeedLiquidityAmounts),
    };
    if solen_amount == 0 || stt_amount == 0 {
        return Err(DexError::ZeroAmounts);
    }
    let user_solen = h.solen;
    let user_stt = h.stt;
    if user_solen < solen_amount || user_stt < stt_amount {
        return Err(DexError::InsufficientBalance);
    }
    let reserve_solen = pool.reserve_solen;
    let reserve_stt = pool.reserve_stt;
    let total_lp = pool.total_lp;
    proof {
        lemma_liquidity_plan_within(*pool, solen_amount, stt_amount);
    }
    let (lp_minted, actual_solen, actual_stt) = if total_lp == 0 {
        let product = mul_sat(solen_amount, stt_amount);
        let lp = isqrt(product);
        if lp == 0 {
            return Err(DexError::LiquidityTooSmall);
        }
        (lp, solen_amount, stt_amount)
    } else {
        let room = u128::MAX - total_lp;
        let ghost t = total_lp as int;
        let ghost from_solen = solen_amount * t / (reserve_solen as int);
        let ghost from_stt = stt_amount * t / (reserve_stt as int);
        let lp_from_solen = mul_div_capped(solen_amount, total_lp, reserve_solen, room);
        let lp_from_stt = mul_div_capped(stt_amount, total_lp, reserve_stt, room);
        proof {
            assert(solen_amount * t >= 0) by (nonlinear_arith)
                requires
                    solen_amount >= 0,
                    t >= 0,
            ;
            assert(stt_amount * t >= 0) by (nonlinear_arith)
                requires
                    stt_amount >= 0,
                    t >= 0,
            ;
            lemma_floor_bounds(solen_amount * t, reserve_solen as int);
            lemma_floor_bounds(stt_amount * t, reserve_stt as int);
        }
        let ghost plan = liquidity_plan(*pool, solen_amount, stt_amount);
        match (lp_from_solen, lp_from_stt) {
            (Some(ls), Some(lt)) => {
                if ls < lt {
                    assert(plan.0 == ls && plan.1 == solen_amount);
                    proof {
                        lemma_scaled_back_within(stt_amount as int, t, reserve_stt as int, ls as int);
                    }
                    (ls, solen_amount, scale(ls, reserve_stt, total_lp, stt_amount))
                } else {
                    assert(plan.0 == lt && plan.2 == stt_amount);
                    proof {
                        lemma_scaled_back_within(solen_amount as int, t, reserve_solen as int, lt as int);
                    }
                    (lt, scale(lt, reserve_solen, total_lp, solen_amount), stt_amount)
                }
            },
            (Some(ls), None) => {
                assert(plan.0 == ls && plan.1 == solen_amount);
                proof {
                    lemma_scaled_back_within(stt_amount as int, t, reserve_stt as int, ls as int);
                }
                (ls, solen_amount, scale(ls, reserve_stt, total_lp, stt_amount))
            },
            (None, Some(lt)) => {
                assert(plan.0 == lt && plan.2 == stt_amount);
                proof {
                    lemma_scaled_back_within(solen_amount as int, t, reserve_solen as int, lt as int);
                }
                (lt, scale(lt, reserve_solen, total_lp, solen_amount), stt_amount)
            },
            (None, None) => {
                assert(plan.0 == room);
                proof {
                    lemma_scaled_back_within(solen_amount as int, t, reserve_solen as int, room as int);
                    lemma_scaled_back_within(stt_amount as int, t, reserve_stt as int, room as int);
                }
                (
                    room,
                    scale(room, reserve_solen, total_lp, solen_amount),
                    scale(room, reserve_stt, total_lp, stt_amount),
                )
            },
        }
    };
    if lp_minted == 0 {
        return Err(DexError::InsufficientLiquidity);
    }
    h.solen = user_solen - actual_solen;
    h.stt = user_stt - actual_stt;
    pool.reserve_solen = reserve_solen.saturating_add(actual_solen);
    pool.reserve_stt = reserve_stt.saturating_add(actual_stt);
    pool.total_lp = total_lp + lp_minted;
    h.lp = h.lp.saturating_add(lp_minted);
    Ok(Reply { event: Some(Event::LiquidityAdded { solen: actual_solen, stt: actual_stt, lp: lp_minted }), output: Output::Amount(lp_minted) })
}

/// The inputs on which removing liquidity is defined: an accepted removal
/// never burns more than the LP supply (it is subtracted from it).
pub open spec fn remove_liquidity_defined(pool: Pool, h: Holdings, args: Seq<u8>) -> bool {
    match spec_read_u128(args, 0) {
        Some(a) => (a > 0 && a <= h.lp && pool.total_lp > 0) ==> a <= pool.total_lp,
        None => true,
    }
}

/// Whether removing liquidity is defined on these inputs (see
/// `remove_liquidity_defined`); a caller that cannot know it tests it here.
pub fn remove_liquidity_is_defined(pool: &Pool, h: &Holdings, args: &[u8]) -> (b: bool)
    ensures
        b == remove_liquidity_defined(*pool, *h, args@),
{
    match read_u128_arg(args, 0) {
        Some(a) => !(a > 0 && a <= h.lp && pool.total_lp > 0) || a <= pool.total_lp,
        None => true,
    }
}

/// Removing liquidity: the LP amount (first 16 argument bytes, non-zero, at
/// most the caller's shares) is burned, and the proportional part of each
/// reserve (rounded down) moves to the caller's balances.
pub open spec fn remove_liquidity_step(pool: Pool, h: Holdings, args: Seq<u8>) -> (
    Result<Reply, DexError>,
    Pool,
    Holdings,
) {
    match spec_read_u128(args, 0) {
        None => (refuse(DexError::NeedLpAmount), pool, h),
        Some(a) => if a == 0 {
            (refuse(DexError::ZeroAmount), pool, h)
        } else if h.lp < a {
            (refuse(DexError::InsufficientLp), pool, h)
        } else if pool.total_lp == 0 {
            (refuse(DexError::NoLiquidity), pool, h)
        } else {
            let solen_out = (pool.reserve_solen * a / (pool.total_lp as int)) as u128;
            let stt_out = (pool.reserve_stt * a / (pool.total_lp as int)) as u128;
            (
                answer(
                    Event::LiquidityRemoved { solen: solen_out, stt: stt_out, lp: a },
                    Output::Pair(solen_out, stt_out),
                ),
                Pool {
                    reserve_solen: sat_sub(pool.reserve_solen, solen_out),
                    reserve_stt: sat_sub(pool.reserve_stt, stt_out),
                    total_lp: (pool.total_lp - a) as u128,
                },
                Holdings {
                    solen: sat_add(h.solen, solen_out),
                    stt: sat_add(h.stt, stt_out),
                    lp: (h.lp - a) as u128,
                    claim: h.claim,
                },
            )
        },
    }
}

/// Burns LP shares and pays out the proportional reserves.
pub fn do_remove_liquidity(pool: &mut Pool, h: &mut Holdings, args: &[u8]) -> (r: Result<
    Reply,
    DexError,
>)
    requires
        remove_liquidity_defined(*old(pool), *old(h), args@),
    ensures
        (r, *final(pool), *final(h)) == remove_liquidity_step(*old(pool), *old(h), args@),
{
    let lp_amount = match read_u128_arg(args, 0) {
        Some(a) => a,
        None => return Err(DexError::NeedLpAmount),
    };
    if lp_amount == 0 {
        return Err(DexError::ZeroAmount);
    }
    let user_lp = h.lp;
    if user_lp < lp_amount {
        return Err(DexError::InsufficientLp);
    }
    let reserve_solen = pool.reserve_solen;
    let reserve_stt = pool.reserve_stt;
    let total_lp = pool.total_lp;
    if total_lp == 0 {
        return Err(DexError::NoLiquidity);
    }
    let solen_out = mul_div(reserve_solen, lp_amount, total_lp);
    let stt_out = mul_div(reserve_stt, lp_amount, total_lp);
    h.lp = user_lp - lp_amount;
    pool.total_lp = total_lp - lp_amount;
    pool.reserve_solen = reserve_solen.saturating_sub(solen_out);
    pool.reserve_stt = reserve_stt.saturating_sub(stt_out);
    h.solen = h.solen.saturating_add(solen_out);
    h.stt = h.stt.saturating_add(stt_out);
    Ok(Reply { event: Some(Event::LiquidityRemoved { solen: solen_out, stt: stt_out, lp: lp_amount }), output: Output::Pair(solen_out, stt_out) })
}

// ── Swaps ───────────────────────────────────────────────────────────────

/// A swap paying `direction`'s token in: the amount in (first 16 argument
/// bytes, non-zero, at most `balance_in`) moves from the caller into the
/// input reserve, and the constant-product output (non-zero) moves from the
/// output reserve to the caller. Gives the result, then the new balance in,
/// balance out, reserve in and reserve out.
pub open spec fn swap_step(
    direction: Token,
    balance_in: u128,
    balance_out: u128,
    reserve_in: u128,
    reserve_out: u128,
    args: Seq<u8>,
) -> (Result<Reply, DexError>, u128, u128, u128, u128) {
    match spec_read_u128(args, 0) {
        None => (refuse(DexError::NeedAmountIn), balance_in, balance_out, reserve_in, reserve_out),
        Some(a) => if a == 0 {
            (refuse(DexError::ZeroAmount), balance_in, balance_out, reserve_in, reserve_out)
        } else if balance_in < a {
            (refuse(DexError::InsufficientBalance), balance_in, balance_out, reserve_in, reserve_out)
        } else {
            let out = spec_amount_out(a, reserve_in, reserve_out);
            if out == 0 {
                (
                    refuse(DexError::InsufficientLiquidity),
                    balance_in,
                    balance_out,
                    reserve_in,
                    reserve_out,
                )
            } else {
                (
                    answer(
                        Event::Swap { direction, amount_in: a, amount_out: out },
                        Output::Amount(out),
                    ),
                    (balance_in - a) as u128,
                    sat_add(balance_out, out),
                    sat_add(reserve_in, a),
                    sat_sub(reserve_out, out),
                )
            }
        },
    }
}

/// Swaps SOLEN from the caller's balance for STT.
pub fn do_swap_solen_for_stt(pool: &mut Pool, h: &mut Holdings, args: &[u8]) -> (r: Result<
    Reply,
    DexError,
>)
    ensures
        (r, final(h).solen, final(h).stt, final(pool).reserve_solen, final(pool).reserve_stt)
            == swap_step(
            Token::Solen,
            old(h).solen,
            old(h).stt,
            old(pool).reserve_solen,
            old(pool).reserve_stt,
            args@,
        ),
        final(pool).total_lp == old(pool).total_lp,
        final(h).lp == old(h).lp,
        final(h).claim == old(h).claim,
{
    let amount_in = match read_u128_arg(args, 0) {
        Some(a) => a,
        None => return Err(DexError::NeedAmountIn),
    };
    if amount_in == 0 {
        return Err(DexError::ZeroAmount);
    }
    let user_solen = h.solen;
    if user_solen < amount_in {
        return Err(DexError::InsufficientBalance);
    }
    let reserve_solen = pool.reserve_solen;
    let reserve_stt = pool.reserve_stt;
    let amount_out = get_amount_out(amount_in, reserve_solen, reserve_stt);
    if amount_out == 0 {
        return Err(DexError::InsufficientLiquidity);
    }
    h.solen = user_solen - amount_in;
    h.stt = h.stt.saturating_add(amount_out);
    pool.reserve_solen = reserve_solen.saturating_add(amount_in);
    pool.reserve_stt = reserve_stt.saturating_sub(amount_out);
    Ok(Reply { event: Some(Event::Swap { direction: Token::Solen, amount_in, amount_out }), output: Output::Amount(amount_out) })
}

/// Swaps STT from the caller's balance for SOLEN.
pub fn do_swap_stt_for_solen(pool: &mut Pool, h: &mut Holdings, args: &[u8]) -> (r: Result<
    Reply,
    DexError,
>)
    ensures
        (r, final(h).stt, final(h).solen, final(pool).reserve_stt, final(pool).reserve_solen)
            == swap_step(
            Token::Stt,
            old(h).stt,
            old(h).solen,
            old(pool).reserve_stt,
            old(pool).reserve_solen,
            args@,
        ),
        final(pool).total_lp == old(pool).total_lp,
        final(h).lp == old(h).lp,
        final(h).claim == old(h).claim,
{
    let amount_in = match read_u128_arg(args, 0) {
        Some(a) => a,
        None => return Err(DexError::NeedAmountIn),
    };
    if amount_in == 0 {
        return Err(DexError::ZeroAmount);
    }
    let user_stt = h.stt;
    if user_stt < amount_in {
        return Err(DexError::InsufficientBalance);
    }
    let reserve_solen = pool.reserve_solen;
    let reserve_stt = pool.reserve_stt;
    let amount_out = get_amount_out(amount_in, reserve_stt, reserve_solen);
    if amount_out == 0 {
        return Err(DexError::InsufficientLiquidity);
    }
    h.stt = user_stt - amount_in;
    h.solen = h.solen.saturating_add(amount_out);
    pool.reserve_stt = reserve_stt.saturating_add(amount_in);
    pool.reserve_solen = reserve_solen.saturating_sub(amount_out);
    Ok(Reply { event: Some(Event::Swap { direction: Token::Stt, amount_in, amount_out }), output: Output::Amount(amount_out) })
}

// ── Views ───────────────────────────────────────────────────────────────

/// Both reserves and the LP supply.
pub fn do_get_reserves(pool: &Pool) -> (r: Output)
    ensures
        r == Output::Reserves(pool.reserve_solen, pool.reserve_stt, pool.total_lp),
{
    Output::Reserves(pool.reserve_solen, pool.reserve_stt, pool.total_lp)
}

/// One token in base units (8 decimals).
pub open spec fn one_unit() -> u128 {
    100_000_000
}

/// The output of swapping one unit: SOLEN for STT when the first argument
/// byte is zero or absent, STT for SOLEN otherwise.
pub open spec fn spec_price(pool: Pool, args: Seq<u8>) -> u128 {
    if args.len() > 0 && args[0] != 0 {
        spec_amount_out(one_unit(), pool.reserve_stt, pool.reserve_solen)
    } else {
        spec_amount_out(one_unit(), pool.reserve_solen, pool.reserve_stt)
    }
}

/// The current price of one unit in the direction the arguments name.
pub fn do_get_price(pool: &Pool, args: &[u8]) -> (r: Output)
    ensures
        r == Output::Amount(spec_price(*pool, args@)),
{
    let direction = if args.len() > 0 {
        args[0]
    } else {
        0
    };
    let one_unit: u128 = 100_000_000;
    let price = if direction == 0 {
        get_amount_out(one_unit, pool.reserve_solen, pool.reserve_stt)
    } else {
        get_amount_out(one_unit, pool.reserve_stt, pool.reserve_solen)
    };
    Output::Amount(price)
}

/// The storage key of the SOLEN balance of the account named by the first
/// 32 argument bytes.
pub fn do_balance_solen(args: &[u8]) -> (r: Result<[u8; 42], DexError>)
    ensures
        match spec_read_account(args@, 0) {
            None => r == Err::<[u8; 42], DexError>(DexError::NeedAccount),
            Some(a) => r matches Ok(k) && k@ == spec_solen_balance_key(a),
        },
{
    match read_account(args, 0) {
        Some(account) => Ok(solen_balance_key(&account)),
        None => Err(DexError::NeedAccount),
    }
}

/// The storage key of the STT balance of the account named by the first
/// 32 argument bytes.
pub fn do_balance_stt(args: &[u8]) -> (r: Result<[u8; 40], DexError>)
    ensures
        match spec_read_account(args@, 0) {
            None => r == Err::<[u8; 40], DexError>(DexError::NeedAccount),
            Some(a) => r matches Ok(k) && k@ == spec_stt_balance_key(a),
        },
{
    match read_account(args, 0) {
        Some(account) => Ok(stt_balance_key(&account)),
        None => Err(DexError::NeedAccount),
    }
}

/// The storage key of the LP shares of the account named by the first 32
/// argument bytes.
pub fn do_balance_lp(args: &[u8]) -> (r: Result<[u8; 35], DexError>)
    ensures
        match spec_read_account(args@, 0) {
            None => r == Err::<[u8; 35], DexError>(DexError::NeedAccount),
            Some(a) => r matches Ok(k) && k@ == spec_lp_key(a),
        },
{
    match read_account(args, 0) {
        Some(account) => Ok(lp_key(&account)),
        None => Err(DexError::NeedAccount),
    }
}

} // verus!
