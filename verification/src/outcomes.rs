//! What each operation answers on the inputs it accepts, stated over those
//! inputs and its results: when a call must succeed, and what it then pays,
//! takes and reports.

use vstd::prelude::*;
use crate::amm::{floor_sqrt, lemma_floor_sqrt, sat_add, sat_mul, spec_amount_out};
use crate::codec::{le_bytes, lemma_read_written_u128, spec_read_account, spec_read_u128};
use crate::wide::{ceil_div, lemma_ceil_div};
use crate::wire::{event_data_bytes, output_bytes, token_tag};
use crate::dex::{
    add_liquidity_defined, add_liquidity_step, deposit_step, finish_withdraw_step,
    lemma_liquidity_plan_within, lemma_scaled_back_within, liquidity_plan, remove_liquidity_defined, remove_liquidity_step,
    spec_price, swap_step, withdraw_all_solen_step, withdraw_all_stt_step, withdraw_solen_step,
    withdraw_stt_step, DexError, Event, Holdings, Output, Payout, Pool, Reply, Token, Transfer,
};

verus! {

/// The swap output brackets the constant-product quotient from both sides:
/// with all three arguments non-zero, `out * (reserve_in * 1000 + amount_in * 997)`
/// is at most `reserve_out * amount_in * 997`, and one more unit of output
/// would exceed it. With any argument zero the output is zero.
pub proof fn lemma_amount_out_brackets(amount_in: u128, reserve_in: u128, reserve_out: u128)
    ensures
        ({
            let out = spec_amount_out(amount_in, reserve_in, reserve_out) as int;
            let d = reserve_in * 1000 + amount_in * 997;
            let n = reserve_out * amount_in * 997;
            &&& (amount_in == 0 || reserve_in == 0 || reserve_out == 0) ==> out == 0
            &&& (amount_in > 0 && reserve_in > 0 && reserve_out > 0) ==> out * d <= n && n < (out
                + 1) * d
        }),
{
    crate::amm::lemma_amount_out_bounds(amount_in, reserve_in, reserve_out);
    if amount_in > 0 && reserve_in > 0 && reserve_out > 0 {
        let d = reserve_in * 1000 + amount_in * 997;
        let n = reserve_out * amount_in * 997;
        assert(n >= 0) by (nonlinear_arith)
            requires
                reserve_out >= 0,
                amount_in >= 0,
                n == reserve_out * amount_in * 997,
        ;
        assert((n / d) * d <= n && n < (n / d + 1) * d) by (nonlinear_arith)
            requires
                n >= 0,
                d > 0,
        ;
    }
}

/// A swap of a non-zero amount the caller holds, whose constant-product
/// output is non-zero, always succeeds: it answers that output, takes
/// exactly the amount in from the caller into the input reserve, and pays
/// exactly the output from the output reserve to the caller. A swap is
/// refused for want of balance exactly when the amount exceeds the balance.
pub proof fn lemma_swap_succeeds(
    direction: Token,
    balance_in: u128,
    balance_out: u128,
    reserve_in: u128,
    reserve_out: u128,
    args: Seq<u8>,
)
    ensures
        ({
            let (r, b_in, b_out, r_in, r_out) = swap_step(
                direction,
                balance_in,
                balance_out,
                reserve_in,
                reserve_out,
                args,
            );
            &&& (r == Err::<Reply, DexError>(DexError::InsufficientBalance) <==> (spec_read_u128(
                args,
                0,
            ) matches Some(a) && a > 0 && balance_in < a))
            &&& (spec_read_u128(args, 0) matches Some(a) && 0 < a <= balance_in && spec_amount_out(
                a,
                reserve_in,
                reserve_out,
            ) > 0) ==> ({
                let a = spec_read_u128(args, 0)->0;
                let out = spec_amount_out(a, reserve_in, reserve_out);
                &&& r == Ok::<Reply, DexError>(
                    Reply {
                        event: Some(Event::Swap { direction, amount_in: a, amount_out: out }),
                        output: Output::Amount(out),
                    },
                )
                &&& b_in + a == balance_in
                &&& b_out == sat_add(balance_out, out)
                &&& r_in == sat_add(reserve_in, a)
                &&& r_out + out == reserve_out
            })
        }),
{
    if let Some(a) = spec_read_u128(args, 0) {
        crate::amm::lemma_amount_out_bounds(a, reserve_in, reserve_out);
    }
}

/// The quoted price is what a swap of exactly one token (10^8 base units)
/// in the quoted direction pays: SOLEN for STT when the first argument byte
/// is zero or absent, STT for SOLEN otherwise. When such a swap would be
/// refused for want of liquidity, the price is zero.
pub proof fn lemma_price_is_one_unit_swap(pool: Pool, args: Seq<u8>)
    ensures
        ({
            let stt_in = args.len() > 0 && args[0] != 0;
            let (r, b_in, b_out, r_in, r_out) = if stt_in {
                swap_step(
                    Token::Stt,
                    100_000_000,
                    0,
                    pool.reserve_stt,
                    pool.reserve_solen,
                    le_bytes(100_000_000),
                )
            } else {
                swap_step(
                    Token::Solen,
                    100_000_000,
                    0,
                    pool.reserve_solen,
                    pool.reserve_stt,
                    le_bytes(100_000_000),
                )
            };
            match r {
                Ok(reply) => reply.output == Output::Amount(spec_price(pool, args)),
                Err(e) => e == DexError::InsufficientLiquidity && spec_price(pool, args) == 0,
            }
        }),
{
    crate::codec::lemma_read_written_u128(Seq::empty(), 100_000_000, Seq::empty());
    assert(Seq::<u8>::empty() + le_bytes(100_000_000) + Seq::<u8>::empty() =~= le_bytes(
        100_000_000,
    ));
}

/// Removing a non-zero number of shares the caller holds, from a pool with
/// shares outstanding, always succeeds and pays the proportional part of
/// each reserve, rounded down: `solen_out * total_lp <= reserve_solen * a`
/// and one more unit would exceed it (likewise for STT), whatever the
/// caller keeps. The reserves drop by exactly what is paid, the shares are
/// burned from the caller and the supply, and the payout is credited.
pub proof fn lemma_remove_pays_proportional_share(pool: Pool, h: Holdings, args: Seq<u8>)
    requires
        remove_liquidity_defined(pool, h, args),
        spec_read_u128(args, 0) matches Some(a) && 0 < a <= h.lp,
        pool.total_lp > 0,
    ensures
        ({
            let a = spec_read_u128(args, 0)->0;
            let t = pool.total_lp as int;
            let (r, p, g) = remove_liquidity_step(pool, h, args);
            r matches Ok(reply) && reply.output matches Output::Pair(so, to) && {
                &&& so * t <= pool.reserve_solen * a < (so + 1) * t
                &&& to * t <= pool.reserve_stt * a < (to + 1) * t
                &&& reply.event == Some(Event::LiquidityRemoved { solen: so, stt: to, lp: a })
                &&& p.reserve_solen + so == pool.reserve_solen
                &&& p.reserve_stt + to == pool.reserve_stt
                &&& p.total_lp + a == pool.total_lp
                &&& g.lp + a == h.lp
                &&& g.solen == sat_add(h.solen, so)
                &&& g.stt == sat_add(h.stt, to)
                &&& g.claim == h.claim
            }
        }),
{
    let a = spec_read_u128(args, 0)->0;
    let t = pool.total_lp as int;
    crate::wide::lemma_mul_div_le(pool.reserve_solen as int, a as int, t);
    crate::wide::lemma_mul_div_le(pool.reserve_stt as int, a as int, t);
    let ns = pool.reserve_solen * a;
    let nt = pool.reserve_stt * a;
    assert((ns / t) * t <= ns && ns < (ns / t + 1) * t) by (nonlinear_arith)
        requires
            ns >= 0,
            t > 0,
    ;
    assert((nt / t) * t <= nt && nt < (nt / t + 1) * t) by (nonlinear_arith)
        requires
            nt >= 0,
            t > 0,
    ;
}

/// Adding liquidity succeeds whenever both amounts are non-zero and covered
/// by the balances and the offer is worth at least one share (on a funded
/// pool: each amount times the LP supply reaches its reserve, and the
/// supply is not full). A balance larger than the offer never causes a
/// refusal. The call then mints `lp > 0` shares, answered as its output,
/// takes at most the amounts offered and leaves the rest in the balances,
/// and adds exactly the minted shares to the supply. On an empty pool it
/// takes both amounts in full and mints their integer geometric mean; on a
/// funded pool the deposit is proportional (`lp * reserve <= taken *
/// total_lp` for each token) and one of the two amounts is taken in full
/// unless the supply is thereby filled. The shares minted are the most the
/// offer is worth (one more would be worth more than one of the amounts
/// offered, unless the supply is full), and a token not taken in full is
/// taken in the least amount that covers the shares.
pub proof fn lemma_add_liquidity_succeeds(pool: Pool, h: Holdings, args: Seq<u8>)
    requires
        add_liquidity_defined(pool, h, args),
        spec_read_u128(args, 0) matches Some(s) && spec_read_u128(args, 16) matches Some(t) && s > 0
            && t > 0 && h.solen >= s && h.stt >= t,
        pool.total_lp == 0 || ({
            let s = spec_read_u128(args, 0)->0;
            let t = spec_read_u128(args, 16)->0;
            &&& s * pool.total_lp >= pool.reserve_solen
            &&& t * pool.total_lp >= pool.reserve_stt
            &&& pool.total_lp < u128::MAX
        }),
    ensures
        ({
            let s = spec_read_u128(args, 0)->0;
            let t = spec_read_u128(args, 16)->0;
            let (r, p, g) = add_liquidity_step(pool, h, args);
            r matches Ok(reply) && reply.event matches Some(
                Event::LiquidityAdded { solen: us, stt: ut, lp },
            ) && {
                &&& reply.output == Output::Amount(lp)
                &&& lp > 0
                &&& us <= s
                &&& ut <= t
                &&& g.solen + us == h.solen
                &&& g.stt + ut == h.stt
                &&& g.claim == h.claim
                &&& p.total_lp == pool.total_lp + lp
                &&& p.reserve_solen == sat_add(pool.reserve_solen, us)
                &&& p.reserve_stt == sat_add(pool.reserve_stt, ut)
                &&& g.lp == sat_add(h.lp, lp)
                &&& pool.total_lp == 0 ==> us == s && ut == t && lp * lp <= s * t < (lp + 1) * (lp
                    + 1)
                &&& pool.total_lp > 0 ==> {
                    &&& lp * pool.reserve_solen <= us * pool.total_lp
                    &&& lp * pool.reserve_stt <= ut * pool.total_lp
                    &&& (us == s || ut == t || p.total_lp == u128::MAX)
                    &&& ((lp + 1) * pool.reserve_solen > s * pool.total_lp || (lp + 1)
                        * pool.reserve_stt > t * pool.total_lp || p.total_lp == u128::MAX)
                    &&& (us == s || us * pool.total_lp < lp * pool.reserve_solen + pool.total_lp)
                    &&& (ut == t || ut * pool.total_lp < lp * pool.reserve_stt + pool.total_lp)
                }
            }
        }),
{
    let s = spec_read_u128(args, 0)->0;
    let t = spec_read_u128(args, 16)->0;
    lemma_liquidity_plan_within(pool, s, t);
    let (lp, us, ut) = liquidity_plan(pool, s, t);
    if pool.total_lp == 0 {
        assert(s * t >= 1) by (nonlinear_arith)
            requires
                s >= 1,
                t >= 1,
        ;
        assert(sat_mul(s, t) == s * t);
        lemma_floor_sqrt(sat_mul(s, t) as nat);
        let r = floor_sqrt(sat_mul(s, t) as nat);
        assert(r <= r * r) by (nonlinear_arith)
            requires
                r >= 1,
        ;
        assert(lp == r);
        assert(lp > 0);
    } else {
        let tt = pool.total_lp as int;
        let rs = pool.reserve_solen as int;
        let rt = pool.reserve_stt as int;
        assert(s * tt / rs >= 1) by (nonlinear_arith)
            requires
                s * tt >= rs,
                rs > 0,
        ;
        assert(t * tt / rt >= 1) by (nonlinear_arith)
            requires
                t * tt >= rt,
                rt > 0,
        ;
        let from_solen = s * tt / rs;
        let from_stt = t * tt / rt;
        let room = u128::MAX - tt;
        assert(s * tt >= 0 && t * tt >= 0) by (nonlinear_arith)
            requires
                s >= 0,
                t >= 0,
                tt >= 0,
        ;
        assert(s * tt < (from_solen + 1) * rs) by (nonlinear_arith)
            requires
                from_solen == s * tt / rs,
                rs > 0,
                s * tt >= 0,
        ;
        assert(t * tt < (from_stt + 1) * rt) by (nonlinear_arith)
            requires
                from_stt == t * tt / rt,
                rt > 0,
                t * tt >= 0,
        ;
        if from_solen <= room && from_solen < from_stt {
            assert(lp == from_solen && us == s);
            lemma_scaled_back_within(t as int, tt, rt, from_solen);
            lemma_ceil_covers(lp * rt, tt);
            assert(ut == ceil_div(lp * rt, tt));
            assert((lp + 1) * rs > s * tt);
        } else if from_stt <= room && from_stt <= from_solen {
            assert(lp == from_stt && ut == t);
            lemma_scaled_back_within(s as int, tt, rs, from_stt);
            lemma_ceil_covers(lp * rs, tt);
            assert(us == ceil_div(lp * rs, tt));
            assert((lp + 1) * rt > t * tt);
        } else {
            assert(room < from_solen && room < from_stt);
            lemma_scaled_back_within(s as int, tt, rs, room);
            lemma_scaled_back_within(t as int, tt, rt, room);
            lemma_ceil_covers(lp * rs, tt);
            lemma_ceil_covers(lp * rt, tt);
            assert(us == ceil_div(lp * rs, tt));
            assert(ut == ceil_div(lp * rt, tt));
            assert(lp == room);
            assert(room >= 1);
        }
        assert(lp > 0);
    }
    let (r, p, g) = add_liquidity_step(pool, h, args);
    assert(r is Ok);
}

/// Withdrawing the whole SOLEN balance pays all of it: for a non-zero
/// balance the payment goes to the caller for exactly that balance, the
/// balance becomes zero, and once paid the call reports the balance; a
/// failed payment puts it all back. A zero balance is answered at once.
pub proof fn lemma_withdraw_all_solen_pays_everything(balance: u128, caller: [u8; 32])
    ensures
        ({
            let (payout, left) = withdraw_all_solen_step(balance, caller);
            &&& balance == 0 ==> payout == Payout::Done(Reply { event: None, output: Output::Ack })
                && left == 0
            &&& balance > 0 ==> (payout matches Payout::Pay(t) && {
                &&& t.to == caller
                &&& t.amount == balance
                &&& left == 0
                &&& finish_withdraw_step(left, t, true) == (
                    Ok::<Reply, DexError>(
                        Reply {
                            event: Some(
                                Event::Withdraw { token: Token::Solen, account: caller, amount: balance },
                            ),
                            output: Output::Amount(balance),
                        },
                    ),
                    0u128,
                )
                &&& finish_withdraw_step(left, t, false).1 == balance
            })
        }),
{
}

/// Withdrawing a non-zero amount of SOLEN within the balance always
/// succeeds: the payment goes to the caller for exactly that amount, the
/// balance drops by exactly that amount, and once paid the withdrawal is
/// announced for that amount. It is refused for want of balance exactly
/// when the amount exceeds the balance.
pub proof fn lemma_withdraw_solen_pays_amount(balance: u128, caller: [u8; 32], args: Seq<u8>)
    ensures
        ({
            let (r, left) = withdraw_solen_step(balance, caller, args);
            &&& (r == Err::<Transfer, DexError>(DexError::InsufficientBalance) <==> (spec_read_u128(
                args,
                0,
            ) matches Some(a) && a > 0 && balance < a))
            &&& (spec_read_u128(args, 0) matches Some(a) && 0 < a <= balance) ==> ({
                let a = spec_read_u128(args, 0)->0;
                (r matches Ok(t) && {
                    &&& t.to == caller
                    &&& t.amount == a
                    &&& left + a == balance
                    &&& finish_withdraw_step(left, t, true) == (
                        Ok::<Reply, DexError>(
                            Reply {
                                event: Some(
                                    Event::Withdraw { token: Token::Solen, account: caller, amount: a },
                                ),
                                output: Output::Ack,
                            },
                        ),
                        left,
                    )
                })
            })
        }),
{
}

/// A deposit of a non-zero amount always succeeds and credits exactly that
/// amount (saturating at `u128::MAX`), announcing it for the caller.
pub proof fn lemma_deposit_credits_amount(
    balance: u128,
    caller: [u8; 32],
    token: Token,
    args: Seq<u8>,
)
    ensures
        ({
            let (r, after) = deposit_step(balance, caller, token, args);
            (spec_read_u128(args, 0) matches Some(a) && a > 0) ==> {
                let a = spec_read_u128(args, 0)->0;
                &&& r == Ok::<Reply, DexError>(
                    Reply {
                        event: Some(Event::Deposit { token, account: caller, amount: a }),
                        output: Output::Ack,
                    },
                )
                &&& (balance + a <= u128::MAX ==> after == balance + a)
                &&& (balance + a > u128::MAX ==> after == u128::MAX)
            }
        }),
{
}

/// Withdrawing STT moves exactly the amount (or, for the whole balance,
/// all of it) from the balance to the pending claim, and succeeds whenever
/// the amount is non-zero and within the balance.
pub proof fn lemma_withdraw_stt_moves_amount(
    balance: u128,
    claim: u128,
    caller: [u8; 32],
    args: Seq<u8>,
)
    ensures
        ({
            let (r, b, c) = withdraw_stt_step(balance, claim, caller, args);
            (spec_read_u128(args, 0) matches Some(a) && 0 < a <= balance) ==> {
                let a = spec_read_u128(args, 0)->0;
                &&& r == Ok::<Reply, DexError>(
                    Reply {
                        event: Some(Event::Withdraw { token: Token::Stt, account: caller, amount: a }),
                        output: Output::Ack,
                    },
                )
                &&& b + a == balance
                &&& c == sat_add(claim, a)
            }
        }),
        ({
            let (r, b, c) = withdraw_all_stt_step(balance, claim, caller);
            balance > 0 ==> {
                &&& r == Ok::<Reply, DexError>(
                    Reply {
                        event: Some(
                            Event::Withdraw { token: Token::Stt, account: caller, amount: balance },
                        ),
                        output: Output::Amount(balance),
                    },
                )
                &&& b == 0
                &&& c == sat_add(claim, balance)
            }
        }),
{
}

/// The rounded-up quotient is the least multiple that covers `n`.
proof fn lemma_ceil_covers(n: int, d: int)
    requires
        n >= 0,
        d > 0,
    ensures
        ceil_div(n, d) * d < n + d,
        ceil_div(n, d) * d >= n,
{
    lemma_ceil_div(n, d);
    let q = n / d;
    vstd::arithmetic::div_mod::lemma_fundamental_div_mod(n, d);
    vstd::arithmetic::div_mod::lemma_mod_bound(n, d);
    assert(ceil_div(n, d) * d < n + d) by (nonlinear_arith)
        requires
            ceil_div(n, d) == q + (if n % d == 0 {
                0int
            } else {
                1int
            }),
            n == d * q + n % d,
            0 <= n % d < d,
    ;
}

/// Adding liquidity is refused for want of balance exactly when both
/// amounts are given and non-zero and one of them exceeds its balance; a
/// balance at least as large as the offer is never a reason to refuse.
pub proof fn lemma_add_liquidity_balance_refusal(pool: Pool, h: Holdings, args: Seq<u8>)
    ensures
        add_liquidity_step(pool, h, args).0 == Err::<Reply, DexError>(
            DexError::InsufficientBalance,
        ) <==> (spec_read_u128(args, 0) matches Some(s) && spec_read_u128(args, 16) matches Some(t)
            && s > 0 && t > 0 && (h.solen < s || h.stt < t)),
{
}

/// Removing liquidity is refused for want of shares exactly when a
/// non-zero amount exceeds the caller's shares.
pub proof fn lemma_remove_liquidity_share_refusal(pool: Pool, h: Holdings, args: Seq<u8>)
    ensures
        remove_liquidity_step(pool, h, args).0 == Err::<Reply, DexError>(DexError::InsufficientLp)
            <==> (spec_read_u128(args, 0) matches Some(a) && a > 0 && h.lp < a),
{
}

/// Every amount a call reports reads back from its bytes: a single amount
/// at offset 0, a pair at 0 and 16, the reserves at 0, 16 and 32; deposit
/// and withdrawal data carry the account at 1 and the amount at 33; swap
/// data carry the amounts in and out at 1 and 17.
pub proof fn lemma_encodings_read_back(x: u128, y: u128, z: u128, token: Token, account: [u8; 32])
    ensures
        spec_read_u128(output_bytes(Output::Amount(x)), 0) == Some(x),
        spec_read_u128(output_bytes(Output::Pair(x, y)), 0) == Some(x),
        spec_read_u128(output_bytes(Output::Pair(x, y)), 16) == Some(y),
        spec_read_u128(output_bytes(Output::Reserves(x, y, z)), 0) == Some(x),
        spec_read_u128(output_bytes(Output::Reserves(x, y, z)), 16) == Some(y),
        spec_read_u128(output_bytes(Output::Reserves(x, y, z)), 32) == Some(z),
        spec_read_account(
            event_data_bytes(Event::Deposit { token, account, amount: x }),
            1,
        ) == Some(account@),
        spec_read_u128(event_data_bytes(Event::Deposit { token, account, amount: x }), 33) == Some(
            x,
        ),
        spec_read_u128(event_data_bytes(Event::Withdraw { token, account, amount: x }), 33) == Some(
            x,
        ),
        spec_read_u128(
            event_data_bytes(Event::Swap { direction: token, amount_in: x, amount_out: y }),
            1,
        ) == Some(x),
        spec_read_u128(
            event_data_bytes(Event::Swap { direction: token, amount_in: x, amount_out: y }),
            17,
        ) == Some(y),
{
    let e = Seq::<u8>::empty();
    let lx = le_bytes(x);
    let ly = le_bytes(y);
    let lz = le_bytes(z);
    let tag = seq![token_tag(token)];
    vstd::bytes::lemma_auto_spec_u128_to_from_le_bytes();
    lemma_read_written_u128(e, x, e);
    assert(e + lx + e =~= lx);
    lemma_read_written_u128(e, x, ly);
    assert(e + lx + ly =~= lx + ly);
    lemma_read_written_u128(lx, y, e);
    assert(lx + ly + e =~= lx + ly);
    lemma_read_written_u128(e, x, ly + lz);
    assert(e + lx + (ly + lz) =~= lx + ly + lz);
    lemma_read_written_u128(lx, y, lz);
    lemma_read_written_u128(lx + ly, z, e);
    assert(lx + ly + lz + e =~= lx + ly + lz);
    let d = tag + account@ + lx;
    assert(d.subrange(1, 33) =~= account@);
    lemma_read_written_u128(tag + account@, x, e);
    assert(tag + account@ + lx + e =~= d);
    lemma_read_written_u128(tag, x, ly);
    lemma_read_written_u128(tag + lx, y, e);
    assert(tag + lx + ly + e =~= tag + lx + ly);
}

} // verus!
