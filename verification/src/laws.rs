//! Properties of the exchange that span its operations.

use vstd::prelude::*;
use crate::amm::{lemma_swap_keeps_product, spec_amount_out};
use crate::codec::{le_bytes, spec_read_u128};
use crate::dex::{
    add_liquidity_defined, add_liquidity_step, answer, deposit_step, finish_withdraw_step,
    lemma_liquidity_plan_within, liquidity_plan, refuse, remove_liquidity_defined, remove_liquidity_step, swap_step,
    withdraw_all_solen_step, withdraw_all_stt_step, withdraw_solen_step, withdraw_stt_step, DexError,
    Event, Holdings, Output, Payout, Pool, Token,
};
use crate::dispatch::{is_name_end, name_end, spec_call_args, spec_call_name};

verus! {

/// A swap never lowers the product of the two reserves and never empties
/// either: whatever the swap answers, the new reserves multiply to at least
/// what the old ones did, and after a successful swap both are non-zero.
/// The one limit is that the new input reserve fits in a `u128`.
pub proof fn lemma_swap_keeps_reserve_product(
    direction: Token,
    balance_in: u128,
    balance_out: u128,
    reserve_in: u128,
    reserve_out: u128,
    args: Seq<u8>,
)
    requires
        spec_read_u128(args, 0) matches Some(a) && reserve_in + a <= u128::MAX,
    ensures
        ({
            let (r, b_in, b_out, r_in, r_out) = swap_step(
                direction,
                balance_in,
                balance_out,
                reserve_in,
                reserve_out,
                args,
            );
            &&& r_in * r_out >= reserve_in * reserve_out
            &&& r is Ok ==> r_in > 0 && r_out > 0
        }),
{
    let a = spec_read_u128(args, 0)->0;
    lemma_swap_keeps_product(a, reserve_in, reserve_out);
    crate::amm::lemma_amount_out_bounds(a, reserve_in, reserve_out);
}

/// Swapping one token in and the proceeds straight back never gains: the
/// second swap returns at most the amount first paid in (the fee stays in
/// the pool). The one limit is that the first swap's new input reserve fits
/// in a `u128`.
pub proof fn lemma_swap_round_trip_never_gains(
    direction: Token,
    back: Token,
    balance_in: u128,
    balance_out: u128,
    reserve_in: u128,
    reserve_out: u128,
    args: Seq<u8>,
)
    requires
        spec_read_u128(args, 0) matches Some(a) && reserve_in + a <= u128::MAX,
    ensures
        ({
            let (r, b_in, b_out, r_in, r_out) = swap_step(
                direction,
                balance_in,
                balance_out,
                reserve_in,
                reserve_out,
                args,
            );
            r matches Ok(reply) ==> reply.output matches Output::Amount(out) && ({
                let (r2, c_out, c_in, s_out, s_in) = swap_step(
                    back,
                    b_out,
                    b_in,
                    r_out,
                    r_in,
                    le_bytes(out),
                );
                r2 matches Ok(reply2) ==> reply2.output matches Output::Amount(back_out) && back_out
                    <= spec_read_u128(args, 0)->0
            })
        }),
{
    let a = spec_read_u128(args, 0)->0;
    let (r, b_in, b_out, r_in, r_out) = swap_step(
        direction,
        balance_in,
        balance_out,
        reserve_in,
        reserve_out,
        args,
    );
    if r is Ok {
        let o = spec_amount_out(a, reserve_in, reserve_out);
        crate::amm::lemma_amount_out_bounds(a, reserve_in, reserve_out);
        crate::codec::lemma_read_written_u128(Seq::empty(), o, Seq::empty());
        assert(Seq::<u8>::empty() + le_bytes(o) + Seq::<u8>::empty() =~= le_bytes(o));
        assert(r_in == reserve_in + a);
        assert(r_out == reserve_out - o);
        lemma_round_trip_bound(a as int, reserve_in as int, reserve_out as int, o as int);
    }
}

/// The arithmetic of a round trip: with `o` the output of swapping `a`
/// against `(rin, rout)`, swapping `o` back against `(rout - o, rin + a)`
/// yields at most `a`.
proof fn lemma_round_trip_bound(a: int, rin: int, rout: int, o: int)
    requires
        a > 0,
        rin > 0,
        rout > 0,
        0 < o < rout,
        o == (rout * a * 997) / (rin * 1000 + a * 997),
        rin + a <= u128::MAX,
        rout <= u128::MAX,
    ensures
        spec_amount_out(o as u128, (rout - o) as u128, (rin + a) as u128) <= a,
{
    let d1 = rin * 1000 + a * 997;
    assert(o * d1 <= rout * a * 997) by (nonlinear_arith)
        requires
            o == (rout * a * 997) / d1,
            d1 > 0,
            rout * a * 997 >= 0,
    ;
    let n2 = (rin + a) * o * 997;
    let d2 = (rout - o) * 1000 + o * 997;
    assert(997 * (o * (997 * rin + 1000 * a)) <= 1000 * (o * d1)) by (nonlinear_arith)
        requires
            o >= 0,
            rin >= 0,
            a >= 0,
            d1 == rin * 1000 + a * 997,
    ;
    assert(o * (997 * rin + 1000 * a) <= 1000 * a * rout) by (nonlinear_arith)
        requires
            997 * (o * (997 * rin + 1000 * a)) <= 1000 * (o * d1),
            o * d1 <= rout * a * 997,
    ;
    assert(n2 <= a * d2) by (nonlinear_arith)
        requires
            o * (997 * rin + 1000 * a) <= 1000 * a * rout,
            n2 == (rin + a) * o * 997,
            d2 == (rout - o) * 1000 + o * 997,
    ;
    assert(d2 > 0);
    assert(n2 >= 0) by (nonlinear_arith)
        requires
            rin + a >= 0,
            o >= 0,
            n2 == (rin + a) * o * 997,
    ;
    assert(n2 / d2 <= a) by (nonlinear_arith)
        requires
            n2 <= a * d2,
            d2 > 0,
            n2 >= 0,
    ;
}

/// A swap moves tokens between the caller and the pool without creating or
/// destroying any: the caller's balance plus the reserve is the same
/// before and after, for each token, as long as those sums fit in a `u128`.
pub proof fn lemma_swap_conserves_tokens(
    direction: Token,
    balance_in: u128,
    balance_out: u128,
    reserve_in: u128,
    reserve_out: u128,
    args: Seq<u8>,
)
    requires
        balance_in + reserve_in <= u128::MAX,
        balance_out + reserve_out <= u128::MAX,
    ensures
        ({
            let (r, b_in, b_out, r_in, r_out) = swap_step(
                direction,
                balance_in,
                balance_out,
                reserve_in,
                reserve_out,
                args,
            );
            &&& b_in + r_in == balance_in + reserve_in
            &&& b_out + r_out == balance_out + reserve_out
        }),
{
    if let Some(a) = spec_read_u128(args, 0) {
        if a > 0 && balance_in >= a {
            let out = spec_amount_out(a, reserve_in, reserve_out);
            if reserve_in > 0 && reserve_out > 0 {
                crate::amm::lemma_amount_out_bounds(a, reserve_in, reserve_out);
            }
            assert(out <= reserve_out);
        }
    }
}

/// A refused call changes nothing: whenever a deposit, withdrawal, liquidity
/// change or swap answers with an error, the state it hands back is the
/// state it was given.
pub proof fn lemma_refusal_changes_nothing(
    pool: Pool,
    h: Holdings,
    caller: [u8; 32],
    token: Token,
    args: Seq<u8>,
)
    ensures
        deposit_step(h.solen, caller, token, args).0 is Err ==> deposit_step(
            h.solen,
            caller,
            token,
            args,
        ).1 == h.solen,
        withdraw_solen_step(h.solen, caller, args).0 is Err ==> withdraw_solen_step(
            h.solen,
            caller,
            args,
        ).1 == h.solen,
        withdraw_stt_step(h.stt, h.claim, caller, args).0 is Err ==> {
            &&& withdraw_stt_step(h.stt, h.claim, caller, args).1 == h.stt
            &&& withdraw_stt_step(h.stt, h.claim, caller, args).2 == h.claim
        },
        add_liquidity_step(pool, h, args).0 is Err ==> {
            &&& add_liquidity_step(pool, h, args).1 == pool
            &&& add_liquidity_step(pool, h, args).2 == h
        },
        remove_liquidity_step(pool, h, args).0 is Err ==> {
            &&& remove_liquidity_step(pool, h, args).1 == pool
            &&& remove_liquidity_step(pool, h, args).2 == h
        },
        ({
            let (r, b_in, b_out, r_in, r_out) = swap_step(
                token,
                h.solen,
                h.stt,
                pool.reserve_solen,
                pool.reserve_stt,
                args,
            );
            r is Err ==> b_in == h.solen && b_out == h.stt && r_in == pool.reserve_solen && r_out
                == pool.reserve_stt
        }),
{
}

/// A SOLEN deposit followed by a withdrawal of the same amount, paid out
/// successfully, leaves the balance where it started (when the deposit did
/// not saturate).
pub proof fn lemma_deposit_then_withdraw_solen(balance: u128, caller: [u8; 32], args: Seq<u8>)
    requires
        spec_read_u128(args, 0) matches Some(a) && a > 0 && balance + a <= u128::MAX,
    ensures
        ({
            let (r1, b1) = deposit_step(balance, caller, Token::Solen, args);
            let (t, b2) = withdraw_solen_step(b1, caller, args);
            &&& r1 is Ok
            &&& t is Ok
            &&& finish_withdraw_step(b2, t->Ok_0, true) == (
                answer(
                    Event::Withdraw {
                        token: Token::Solen,
                        account: caller,
                        amount: spec_read_u128(args, 0)->0,
                    },
                    Output::Ack,
                ),
                balance,
            )
        }),
{
}

/// An STT deposit followed by a withdrawal of the same amount returns the
/// balance to where it started and adds that amount to the pending claim
/// (when neither sum saturates).
pub proof fn lemma_deposit_then_withdraw_stt(
    balance: u128,
    claim: u128,
    caller: [u8; 32],
    args: Seq<u8>,
)
    requires
        spec_read_u128(args, 0) matches Some(a) && a > 0 && balance + a <= u128::MAX && claim + a
            <= u128::MAX,
    ensures
        ({
            let a = spec_read_u128(args, 0)->0;
            let (r1, b1) = deposit_step(balance, caller, Token::Stt, args);
            let (r2, b2, c2) = withdraw_stt_step(b1, claim, caller, args);
            &&& r1 is Ok
            &&& r2 is Ok
            &&& b2 == balance
            &&& c2 == claim + a
        }),
{
}

/// A failed SOLEN payment undoes its withdrawal: the balance returns to
/// what it was before the withdrawal, for a single amount and for the whole
/// balance alike.
pub proof fn lemma_failed_payment_restores(balance: u128, caller: [u8; 32], args: Seq<u8>)
    ensures
        withdraw_solen_step(balance, caller, args).0 matches Ok(t) ==> finish_withdraw_step(
            withdraw_solen_step(balance, caller, args).1,
            t,
            false,
        ) == (refuse(DexError::TransferFailed), balance),
        withdraw_all_solen_step(balance, caller).0 matches Payout::Pay(t) ==> finish_withdraw_step(
            withdraw_all_solen_step(balance, caller).1,
            t,
            false,
        ) == (refuse(DexError::TransferFailed), balance),
{
}

/// An STT withdrawal only moves tokens from the balance to the pending
/// claim: their sum is unchanged (when it fits in a `u128`).
pub proof fn lemma_withdraw_stt_conserves(
    balance: u128,
    claim: u128,
    caller: [u8; 32],
    args: Seq<u8>,
)
    requires
        balance + claim <= u128::MAX,
    ensures
        ({
            let (r, b, c) = withdraw_stt_step(balance, claim, caller, args);
            b + c == balance + claim
        }),
        ({
            let (r, b, c) = withdraw_all_stt_step(balance, claim, caller);
            b + c == balance + claim && b == 0
        }),
{
}

/// Adding liquidity moves tokens from the caller into the pool without
/// creating or destroying any, takes no more of either token than was
/// offered, adds the minted shares to the LP supply without ever
/// overflowing it, and credits them to the caller (as long as the caller's
/// balances and the reserves sum within a `u128`).
pub proof fn lemma_add_liquidity_conserves(pool: Pool, h: Holdings, args: Seq<u8>)
    requires
        add_liquidity_defined(pool, h, args),
        h.solen + pool.reserve_solen <= u128::MAX,
        h.stt + pool.reserve_stt <= u128::MAX,
    ensures
        ({
            let (r, p, g) = add_liquidity_step(pool, h, args);
            &&& g.solen + p.reserve_solen == h.solen + pool.reserve_solen
            &&& g.stt + p.reserve_stt == h.stt + pool.reserve_stt
            &&& g.solen <= h.solen
            &&& g.stt <= h.stt
            &&& g.claim == h.claim
            &&& (r matches Ok(reply) ==> reply.output matches Output::Amount(lp) && {
                &&& p.total_lp == pool.total_lp + lp
                &&& (h.lp + lp <= u128::MAX ==> g.lp == h.lp + lp)
            })
        }),
{
    match (spec_read_u128(args, 0), spec_read_u128(args, 16)) {
        (Some(solen), Some(stt)) => {
            if solen > 0 && stt > 0 && h.solen >= solen && h.stt >= stt {
                lemma_liquidity_plan_within(pool, solen, stt);
            }
        },
        _ => {},
    }
}

/// Removing liquidity never pays out more than the reserves hold, burns
/// exactly the shares named from both the caller and the LP supply, and
/// moves tokens from the pool to the caller without creating or destroying
/// any (as long as the sums involved fit in a `u128`).
pub proof fn lemma_remove_liquidity_conserves(pool: Pool, h: Holdings, args: Seq<u8>)
    requires
        remove_liquidity_defined(pool, h, args),
        h.solen + pool.reserve_solen <= u128::MAX,
        h.stt + pool.reserve_stt <= u128::MAX,
    ensures
        ({
            let (r, p, g) = remove_liquidity_step(pool, h, args);
            &&& g.solen + p.reserve_solen == h.solen + pool.reserve_solen
            &&& g.stt + p.reserve_stt == h.stt + pool.reserve_stt
            &&& g.claim == h.claim
            &&& (r matches Ok(reply) ==> reply.output matches Output::Pair(solen_out, stt_out) && {
                &&& solen_out <= pool.reserve_solen
                &&& stt_out <= pool.reserve_stt
                &&& pool.total_lp - p.total_lp == h.lp - g.lp
                &&& h.lp - g.lp == spec_read_u128(args, 0)->0
            })
        }),
{
    if let Some(a) = spec_read_u128(args, 0) {
        if a > 0 && a <= h.lp && pool.total_lp > 0 {
            lemma_share_of_reserve(a, pool.total_lp, pool.reserve_solen);
            lemma_share_of_reserve(a, pool.total_lp, pool.reserve_stt);
        }
    }
}

/// A share `a` of `total` LP shares is worth at most the whole reserve.
proof fn lemma_share_of_reserve(a: u128, total: u128, reserve: u128)
    requires
        0 < a <= total,
    ensures
        0 <= reserve * a / (total as int) <= reserve,
{
    crate::wide::lemma_mul_div_le(reserve as int, a as int, total as int);
}

/// A call written as a method name without zero bytes, one zero byte, then
/// the arguments is read back as exactly that name and those arguments.
pub proof fn lemma_call_roundtrip(name: Seq<u8>, args: Seq<u8>)
    requires
        forall|i: int| 0 <= i < name.len() ==> name[i] != 0,
    ensures
        spec_call_name(name + seq![0u8] + args) == name,
        spec_call_args(name + seq![0u8] + args) == args,
{
    let input = name + seq![0u8] + args;
    assert(is_name_end(input, name.len() as int));
    crate::dispatch::lemma_name_end_unique(input, name.len() as int, name_end(input));
    assert(input.take(name.len() as int) =~= name);
    if name.len() + 1 < input.len() {
        assert(input.skip(name.len() + 1 as int) =~= args);
    } else {
        assert(args.len() == 0);
        assert(args =~= Seq::<u8>::empty());
    }
}

/// Burning `lp` freshly minted shares against a reserve that grew by `u`
/// pays out at most `u`, when `lp * r <= u * t` held before the mint.
proof fn lemma_burn_after_mint(lp: int, r: int, t: int, u: int)
    requires
        t >= 0,
        lp > 0,
        r >= 0,
        u >= 0,
        lp * r <= u * t,
    ensures
        (r + u) * lp / (t + lp) <= u,
{
    assert((r + u) * lp <= u * (t + lp)) by (nonlinear_arith)
        requires
            lp * r <= u * t,
    ;
    assert((r + u) * lp >= 0) by (nonlinear_arith)
        requires
            r + u >= 0,
            lp >= 0,
    ;
    vstd::arithmetic::div_mod::lemma_div_is_ordered((r + u) * lp, u * (t + lp), t + lp);
    vstd::arithmetic::div_mod::lemma_div_by_multiple(u, t + lp);
}

/// Adding liquidity and burning the minted shares straight away leaves the
/// caller with no more of either token than it had before: the pool pays
/// back at most what it took. It holds on a funded pool and on an empty one
/// (no shares and no reserves), as long as the new reserves and the
/// caller's share count fit in a `u128`.
pub proof fn lemma_add_then_remove_returns_no_more(pool: Pool, h: Holdings, args: Seq<u8>)
    requires
        (pool.total_lp > 0 && pool.reserve_solen > 0 && pool.reserve_stt > 0) || (pool.total_lp
            == 0 && pool.reserve_solen == 0 && pool.reserve_stt == 0),
        add_liquidity_step(pool, h, args).0 is Ok,
        ({
            let (lp, us, ut) = liquidity_plan(
                pool,
                spec_read_u128(args, 0)->0,
                spec_read_u128(args, 16)->0,
            );
            &&& pool.reserve_solen + us <= u128::MAX
            &&& pool.reserve_stt + ut <= u128::MAX
            &&& h.lp + lp <= u128::MAX
        }),
    ensures
        ({
            let (r, p, g) = add_liquidity_step(pool, h, args);
            let lp = p.total_lp - pool.total_lp;
            let (r2, p2, g2) = remove_liquidity_step(p, g, le_bytes(lp as u128));
            &&& remove_liquidity_defined(p, g, le_bytes(lp as u128))
            &&& r2 is Ok
            &&& g2.solen <= h.solen
            &&& g2.stt <= h.stt
        }),
{
    let solen = spec_read_u128(args, 0)->0;
    let stt = spec_read_u128(args, 16)->0;
    lemma_liquidity_plan_within(pool, solen, stt);
    let (lp, us, ut) = liquidity_plan(pool, solen, stt);
    let (r, p, g) = add_liquidity_step(pool, h, args);
    assert(p.total_lp == pool.total_lp + lp);
    assert(lp > 0);
    lemma_burn_after_mint(lp as int, pool.reserve_solen as int, pool.total_lp as int, us as int);
    lemma_burn_after_mint(lp as int, pool.reserve_stt as int, pool.total_lp as int, ut as int);
    crate::codec::lemma_read_written_u128(Seq::empty(), lp, Seq::empty());
    assert(Seq::<u8>::empty() + le_bytes(lp) + Seq::<u8>::empty() =~= le_bytes(lp));
    assert(spec_read_u128(le_bytes(lp), 0) == Some(lp));
    assert(p.reserve_solen == pool.reserve_solen + us);
    assert(p.reserve_stt == pool.reserve_stt + ut);
}

/// The LP shares held across a ledger of accounts.
pub open spec fn lp_held(accounts: Seq<Holdings>) -> int
    decreases accounts.len(),
{
    if accounts.len() == 0 {
        0
    } else {
        lp_held(accounts.drop_last()) + accounts.last().lp
    }
}

proof fn lemma_lp_held_update(accounts: Seq<Holdings>, i: int, g: Holdings)
    requires
        0 <= i < accounts.len(),
    ensures
        lp_held(accounts.update(i, g)) == lp_held(accounts) - accounts[i].lp + g.lp,
        lp_held(accounts) >= accounts[i].lp,
        lp_held(accounts) >= 0,
    decreases accounts.len(),
{
    let n = accounts.len() as int;
    if i == n - 1 {
        assert(accounts.update(i, g).drop_last() =~= accounts.drop_last());
        if n > 1 {
            lemma_lp_held_update(accounts.drop_last(), 0, accounts[0]);
        }
    } else {
        lemma_lp_held_update(accounts.drop_last(), i, g);
        assert(accounts.update(i, g).drop_last() =~= accounts.drop_last().update(i, g));
    }
}

/// The LP supply is the sum of the shares every account holds, and adding
/// or removing liquidity keeps it so: if `total_lp` equals the shares held
/// across a ledger before the call, it equals them after the call, with
/// the caller's holdings replaced by the call's result. Both calls also
/// keep each token's caller balance plus reserve unchanged (when those sums
/// fit in a `u128`).
pub proof fn lemma_lp_supply_matches_holdings(
    pool: Pool,
    accounts: Seq<Holdings>,
    i: int,
    args: Seq<u8>,
)
    requires
        0 <= i < accounts.len(),
        pool.total_lp == lp_held(accounts),
    ensures
        add_liquidity_defined(pool, accounts[i], args) ==> ({
            let (r, p, g) = add_liquidity_step(pool, accounts[i], args);
            &&& p.total_lp == lp_held(accounts.update(i, g))
            &&& accounts[i].solen + pool.reserve_solen <= u128::MAX ==> g.solen + p.reserve_solen
                == accounts[i].solen + pool.reserve_solen
            &&& accounts[i].stt + pool.reserve_stt <= u128::MAX ==> g.stt + p.reserve_stt
                == accounts[i].stt + pool.reserve_stt
        }),
        remove_liquidity_defined(pool, accounts[i], args) ==> ({
            let (r, p, g) = remove_liquidity_step(pool, accounts[i], args);
            &&& p.total_lp == lp_held(accounts.update(i, g))
            &&& accounts[i].solen + pool.reserve_solen <= u128::MAX ==> g.solen + p.reserve_solen
                == accounts[i].solen + pool.reserve_solen
            &&& accounts[i].stt + pool.reserve_stt <= u128::MAX ==> g.stt + p.reserve_stt
                == accounts[i].stt + pool.reserve_stt
        }),
{
    let h = accounts[i];
    let (r, p, g) = add_liquidity_step(pool, h, args);
    lemma_lp_held_update(accounts, i, g);
    let (r2, p2, g2) = remove_liquidity_step(pool, h, args);
    lemma_lp_held_update(accounts, i, g2);
    if remove_liquidity_defined(pool, h, args) {
        if let Some(a) = spec_read_u128(args, 0) {
            if a > 0 && a <= h.lp && pool.total_lp > 0 {
                lemma_share_of_reserve(a, pool.total_lp, pool.reserve_solen);
                lemma_share_of_reserve(a, pool.total_lp, pool.reserve_stt);
            }
        }
    }
    if add_liquidity_defined(pool, h, args) {
        match (spec_read_u128(args, 0), spec_read_u128(args, 16)) {
            (Some(solen), Some(stt)) => {
                if solen > 0 && stt > 0 && h.solen >= solen && h.stt >= stt {
                    lemma_liquidity_plan_within(pool, solen, stt);
                }
            },
            _ => {},
        }
    }
}

} // verus!
