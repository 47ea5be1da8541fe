use solen_dex::amm::{get_amount_out, isqrt};
use solen_dex::wide::{mul_div, mul_div_capped, mul_div_ceil};
use solen_dex::codec::{read_account, read_u128_arg};
use solen_dex::dex::{
    add_liquidity_is_defined, do_add_liquidity, do_balance_lp, do_balance_solen, do_balance_stt,
    do_deposit_solen, do_deposit_stt, do_get_price, do_get_reserves, do_init, do_remove_liquidity,
    do_swap_solen_for_stt, do_swap_stt_for_solen, do_withdraw_all_solen, do_withdraw_all_stt,
    do_withdraw_solen, do_withdraw_stt, finish_withdraw_solen, get_owner,
    remove_liquidity_is_defined, DexError, Event, Holdings, Output, Payout, Pool, Reply, Settings,
    Token, Transfer,
};
use solen_dex::dispatch::{parse_call, parse_method, Method};
use solen_dex::keys::{
    claim_key, lp_key, owner_key, reserve_solen_key, reserve_stt_key, solen_balance_key,
    stt_balance_key, stt_contract_key, total_lp_key,
};
use solen_dex::wire::{encode_output, error_message, event_data, event_topic};

const ALICE: [u8; 32] = [7u8; 32];

fn amount(x: u128) -> Vec<u8> {
    x.to_le_bytes().to_vec()
}

fn amounts(x: u128, y: u128) -> Vec<u8> {
    let mut v = x.to_le_bytes().to_vec();
    v.extend_from_slice(&y.to_le_bytes());
    v
}

fn empty_holdings() -> Holdings {
    Holdings { solen: 0, stt: 0, lp: 0, claim: 0 }
}

fn empty_pool() -> Pool {
    Pool { reserve_solen: 0, reserve_stt: 0, total_lp: 0 }
}

// ── amm ────────────────────────────────────────────────────────────────

#[test]
fn amount_out_matches_formula() {
    assert_eq!(get_amount_out(1000, 10000, 10000), 906);
    assert_eq!(get_amount_out(100, 1000, 4000), 362);
    assert_eq!(get_amount_out(100_000_000, 1_000_000_000_000, 5_000_000_000_000), 498_450_304);
}

#[test]
fn amount_out_zero_inputs() {
    assert_eq!(get_amount_out(0, 10, 10), 0);
    assert_eq!(get_amount_out(10, 0, 10), 0);
    assert_eq!(get_amount_out(10, 10, 0), 0);
}

#[test]
fn amount_out_never_drains_reserve() {
    let out = get_amount_out(u128::MAX / 1000, 1, 1000);
    assert!(out < 1000);
    assert_eq!(get_amount_out(100_000_000, 1000, 4000), 3999);
}

#[test]
fn amount_out_exact_on_wide_products() {
    assert_eq!(get_amount_out(1, 1u128 << 127, 1u128 << 119), 0);
    assert_eq!(get_amount_out(u128::MAX, 1, 1), 0);
    assert_eq!(get_amount_out(u128::MAX / 1000, 1, 1000), 999);
    assert_eq!(
        get_amount_out(u128::MAX, u128::MAX, u128::MAX),
        169885588292526613957428384381308416034
    );
    assert_eq!(get_amount_out(u128::MAX, 1, u128::MAX), u128::MAX - 2);
}

#[test]
fn exact_mul_div() {
    assert_eq!(mul_div(1u128 << 65, 1u128 << 64, 1u128 << 64), 1u128 << 65);
    assert_eq!(mul_div(u128::MAX, u128::MAX - 1, u128::MAX), u128::MAX - 1);
    assert_eq!(mul_div_capped(u128::MAX, u128::MAX, 3, u128::MAX), None);
    assert_eq!(mul_div_capped(1u128 << 100, 1u128 << 60, 1u128 << 90, u128::MAX), Some(1u128 << 70));
    assert_eq!(mul_div_capped(10, 10, 3, 33), Some(33));
    assert_eq!(mul_div_capped(10, 10, 3, 32), None);
}

#[test]
fn isqrt_exact_values() {
    assert_eq!(isqrt(0), 0);
    assert_eq!(isqrt(1), 1);
    assert_eq!(isqrt(2), 1);
    assert_eq!(isqrt(3), 1);
    assert_eq!(isqrt(4), 2);
    assert_eq!(isqrt(15), 3);
    assert_eq!(isqrt(16), 4);
    assert_eq!(isqrt(17), 4);
    assert_eq!(isqrt(4_000_000), 2000);
    assert_eq!(isqrt(6_000_000), 2449);
    assert_eq!(isqrt(1_000_000_000_000_000_000), 1_000_000_000);
    assert_eq!(isqrt(u128::MAX - 1), u64::MAX as u128);
}

// ── codec and keys ─────────────────────────────────────────────────────

#[test]
fn reads_arguments() {
    let bytes = amount(12345678901234567890123);
    assert_eq!(
        bytes,
        vec![203, 68, 66, 113, 118, 78, 182, 66, 157, 2, 0, 0, 0, 0, 0, 0]
    );
    assert_eq!(read_u128_arg(&bytes, 0), Some(12345678901234567890123));
    assert_eq!(read_u128_arg(&bytes[..15], 0), None);
    let two = amounts(5, 9);
    assert_eq!(read_u128_arg(&two, 16), Some(9));
    assert_eq!(read_u128_arg(&two, 17), None);
    let mut acct = vec![1u8; 3];
    acct.extend_from_slice(&ALICE);
    assert_eq!(read_account(&acct, 3), Some(ALICE));
    assert_eq!(read_account(&acct, 4), None);
}

#[test]
fn storage_keys_layout() {
    let k = solen_balance_key(&ALICE);
    assert_eq!(&k[..10], b"bal_solen/");
    assert_eq!(&k[10..], &ALICE);
    let k = stt_balance_key(&ALICE);
    assert_eq!(k.len(), 40);
    assert_eq!(&k[..8], b"bal_stt/");
    assert_eq!(&k[8..], &ALICE);
    let k = lp_key(&ALICE);
    assert_eq!(&k[..3], b"lp/");
    assert_eq!(&k[3..], &ALICE);
    let k = claim_key(&ALICE);
    assert_eq!(&k[..6], b"claim/");
    assert_eq!(&k[6..], &ALICE);
    assert_eq!(owner_key(), b"owner");
    assert_eq!(stt_contract_key(), b"stt_contract");
    assert_eq!(reserve_solen_key(), b"reserve_solen");
    assert_eq!(reserve_stt_key(), b"reserve_stt");
    assert_eq!(total_lp_key(), b"total_lp");
    assert_ne!(stt_balance_key(&ALICE)[..], claim_key(&ALICE)[..]);
}

// ── init and owner ─────────────────────────────────────────────────────

#[test]
fn init_records_owner_and_token() {
    let mut s = Settings { owner: None, stt_contract: None };
    let stt = [3u8; 32];
    let r = do_init(&mut s, ALICE, &stt);
    assert_eq!(s.owner, Some(ALICE));
    assert_eq!(s.stt_contract, Some(stt));
    assert_eq!(
        r,
        Ok(Reply { event: Some(Event::Initialized { owner: ALICE, stt_contract: stt }), output: Output::Ack })
    );
}

#[test]
fn init_without_token_records_owner() {
    let mut s = Settings { owner: None, stt_contract: None };
    let r = do_init(&mut s, ALICE, &[1u8; 31]);
    assert_eq!(r, Err(DexError::NeedSttContract));
    assert_eq!(s, Settings { owner: Some(ALICE), stt_contract: None });
}

#[test]
fn only_owner_reinitialises() {
    let mallory = [9u8; 32];
    let mut s = Settings { owner: Some(ALICE), stt_contract: Some([3u8; 32]) };
    assert_eq!(do_init(&mut s, mallory, &[4u8; 32]), Err(DexError::NotOwner));
    assert_eq!(s, Settings { owner: Some(ALICE), stt_contract: Some([3u8; 32]) });
    assert_eq!(do_init(&mut s, mallory, &[4u8; 31]), Err(DexError::NeedSttContract));
    assert_eq!(s, Settings { owner: Some(ALICE), stt_contract: Some([3u8; 32]) });
    assert!(do_init(&mut s, ALICE, &[4u8; 32]).is_ok());
    assert_eq!(s, Settings { owner: Some(ALICE), stt_contract: Some([4u8; 32]) });
    assert_eq!(error_message(&DexError::NotOwner), b"err:not_owner");
}

#[test]
fn owner_from_storage() {
    let data = [9u8; 40];
    assert_eq!(get_owner(Some(&data[..])), [9u8; 32]);
    assert_eq!(get_owner(Some(&data[..31])), [0u8; 32]);
    assert_eq!(get_owner(None), [0u8; 32]);
}

// ── deposits and withdrawals ───────────────────────────────────────────

#[test]
fn deposit_credits_balance() {
    let mut h = empty_holdings();
    let r = do_deposit_solen(&mut h, ALICE, &amount(500));
    assert_eq!(h.solen, 500);
    assert_eq!(
        r,
        Ok(Reply {
            event: Some(Event::Deposit { token: Token::Solen, account: ALICE, amount: 500 }),
            output: Output::Ack
        })
    );
    let r = do_deposit_stt(&mut h, ALICE, &amount(70));
    assert_eq!(h.stt, 70);
    assert!(r.is_ok());
}

#[test]
fn deposit_saturates() {
    let mut h = Holdings { solen: u128::MAX - 1, stt: 0, lp: 0, claim: 0 };
    assert!(do_deposit_solen(&mut h, ALICE, &amount(10)).is_ok());
    assert_eq!(h.solen, u128::MAX);
}

#[test]
fn deposit_refusals() {
    let mut h = empty_holdings();
    assert_eq!(do_deposit_solen(&mut h, ALICE, &[1, 2, 3]), Err(DexError::NeedAmount));
    assert_eq!(do_deposit_stt(&mut h, ALICE, &amount(0)), Err(DexError::ZeroAmount));
    assert_eq!(h, empty_holdings());
}

#[test]
fn withdraw_solen_round_trip() {
    let mut h = empty_holdings();
    do_deposit_solen(&mut h, ALICE, &amount(300)).unwrap();
    let t = do_withdraw_solen(&mut h, ALICE, &amount(300)).unwrap();
    assert_eq!(t, Transfer { to: ALICE, amount: 300, restore: 300, all: false });
    assert_eq!(h.solen, 0);
    let r = finish_withdraw_solen(&mut h, &t, true);
    assert_eq!(h.solen, 0);
    assert_eq!(
        r,
        Ok(Reply {
            event: Some(Event::Withdraw { token: Token::Solen, account: ALICE, amount: 300 }),
            output: Output::Ack
        })
    );
}

#[test]
fn failed_payment_restores_balance() {
    let mut h = Holdings { solen: 80, stt: 0, lp: 0, claim: 0 };
    let t = do_withdraw_solen(&mut h, ALICE, &amount(30)).unwrap();
    assert_eq!(h.solen, 50);
    let r = finish_withdraw_solen(&mut h, &t, false);
    assert_eq!(r, Err(DexError::TransferFailed));
    assert_eq!(h.solen, 80);
}

#[test]
fn withdraw_solen_refusals() {
    let mut h = Holdings { solen: 10, stt: 0, lp: 0, claim: 0 };
    assert_eq!(do_withdraw_solen(&mut h, ALICE, &[]), Err(DexError::NeedAmount));
    assert_eq!(do_withdraw_solen(&mut h, ALICE, &amount(0)), Err(DexError::ZeroAmount));
    assert_eq!(do_withdraw_solen(&mut h, ALICE, &amount(11)), Err(DexError::InsufficientBalance));
    assert_eq!(h.solen, 10);
}

#[test]
fn withdraw_all_solen() {
    let mut h = empty_holdings();
    assert_eq!(
        do_withdraw_all_solen(&mut h, ALICE),
        Payout::Done(Reply { event: None, output: Output::Ack })
    );
    h.solen = 42;
    let p = do_withdraw_all_solen(&mut h, ALICE);
    let t = Transfer { to: ALICE, amount: 42, restore: 42, all: true };
    assert_eq!(p, Payout::Pay(t));
    assert_eq!(h.solen, 0);
    let r = finish_withdraw_solen(&mut h, &t, true);
    assert_eq!(r.unwrap().output, Output::Amount(42));
}

#[test]
fn withdraw_stt_moves_to_claim() {
    let mut h = Holdings { solen: 0, stt: 100, lp: 0, claim: 5 };
    let r = do_withdraw_stt(&mut h, ALICE, &amount(40));
    assert_eq!(h.stt, 60);
    assert_eq!(h.claim, 45);
    assert_eq!(
        r,
        Ok(Reply {
            event: Some(Event::Withdraw { token: Token::Stt, account: ALICE, amount: 40 }),
            output: Output::Ack
        })
    );
    assert_eq!(do_withdraw_stt(&mut h, ALICE, &amount(61)), Err(DexError::InsufficientBalance));
    let r = do_withdraw_all_stt(&mut h, ALICE);
    assert_eq!(h.stt, 0);
    assert_eq!(h.claim, 105);
    assert_eq!(r.unwrap().output, Output::Amount(60));
    let r = do_withdraw_all_stt(&mut h, ALICE);
    assert_eq!(r, Ok(Reply { event: None, output: Output::Ack }));
}

// ── liquidity ──────────────────────────────────────────────────────────

#[test]
fn first_liquidity_mints_square_root() {
    let mut pool = empty_pool();
    let mut h = Holdings { solen: 1000, stt: 4000, lp: 0, claim: 0 };
    let args = amounts(1000, 4000);
    assert!(add_liquidity_is_defined(&pool, &h, &args));
    let r = do_add_liquidity(&mut pool, &mut h, &args);
    assert_eq!(
        r,
        Ok(Reply {
            event: Some(Event::LiquidityAdded { solen: 1000, stt: 4000, lp: 2000 }),
            output: Output::Amount(2000)
        })
    );
    assert_eq!(pool, Pool { reserve_solen: 1000, reserve_stt: 4000, total_lp: 2000 });
    assert_eq!(h, Holdings { solen: 0, stt: 0, lp: 2000, claim: 0 });
}

#[test]
fn proportional_liquidity_keeps_excess() {
    let mut pool = Pool { reserve_solen: 1000, reserve_stt: 4000, total_lp: 2000 };
    let mut h = Holdings { solen: 100, stt: 500, lp: 0, claim: 0 };
    let r = do_add_liquidity(&mut pool, &mut h, &amounts(100, 500));
    assert_eq!(r.unwrap().output, Output::Amount(200));
    assert_eq!(pool, Pool { reserve_solen: 1100, reserve_stt: 4400, total_lp: 2200 });
    assert_eq!(h, Holdings { solen: 0, stt: 100, lp: 200, claim: 0 });
    // burning straight away gives back exactly what was taken
    let r = do_remove_liquidity(&mut pool, &mut h, &amount(200));
    assert_eq!(
        r,
        Ok(Reply {
            event: Some(Event::LiquidityRemoved { solen: 100, stt: 400, lp: 200 }),
            output: Output::Pair(100, 400)
        })
    );
    assert_eq!(h, Holdings { solen: 100, stt: 500, lp: 0, claim: 0 });
    assert_eq!(pool, Pool { reserve_solen: 1000, reserve_stt: 4000, total_lp: 2000 });
}

#[test]
fn liquidity_scales_solen_when_stt_limits() {
    let mut pool = Pool { reserve_solen: 1000, reserve_stt: 4000, total_lp: 2000 };
    let mut h = Holdings { solen: 500, stt: 400, lp: 0, claim: 0 };
    let r = do_add_liquidity(&mut pool, &mut h, &amounts(500, 400));
    assert_eq!(
        r.unwrap().event,
        Some(Event::LiquidityAdded { solen: 100, stt: 400, lp: 200 })
    );
    assert_eq!(h.solen, 400);
    assert_eq!(h.stt, 0);
}

#[test]
fn scaled_token_rounds_up() {
    let mut pool = Pool { reserve_solen: 3, reserve_stt: 2, total_lp: 3 };
    let mut h = Holdings { solen: 1, stt: 100, lp: 0, claim: 0 };
    let r = do_add_liquidity(&mut pool, &mut h, &amounts(1, 100));
    assert_eq!(
        r.unwrap().event,
        Some(Event::LiquidityAdded { solen: 1, stt: 1, lp: 1 })
    );
    assert_eq!(pool, Pool { reserve_solen: 4, reserve_stt: 3, total_lp: 4 });
    assert_eq!(h, Holdings { solen: 0, stt: 99, lp: 1, claim: 0 });
}

#[test]
fn ceil_mul_div() {
    assert_eq!(mul_div_ceil(1, 2, 3, u128::MAX), Some(1));
    assert_eq!(mul_div_ceil(3, 2, 3, u128::MAX), Some(2));
    assert_eq!(mul_div_ceil(u128::MAX, u128::MAX, u128::MAX, u128::MAX), Some(u128::MAX));
    assert_eq!(mul_div_ceil(10, 10, 3, 33), None);
    assert_eq!(mul_div_ceil(10, 10, 3, 34), Some(34));
}

#[test]
fn add_liquidity_refusals() {
    let mut pool = empty_pool();
    let mut h = Holdings { solen: 10, stt: 10, lp: 0, claim: 0 };
    assert_eq!(do_add_liquidity(&mut pool, &mut h, &amount(5)), Err(DexError::NeedLiquidityAmounts));
    assert_eq!(do_add_liquidity(&mut pool, &mut h, &amounts(0, 5)), Err(DexError::ZeroAmounts));
    assert_eq!(
        do_add_liquidity(&mut pool, &mut h, &amounts(11, 5)),
        Err(DexError::InsufficientBalance)
    );
    let mut tiny_pool = Pool { reserve_solen: 1_000_000, reserve_stt: 1_000_000, total_lp: 1 };
    assert_eq!(
        do_add_liquidity(&mut tiny_pool, &mut h, &amounts(1, 1)),
        Err(DexError::InsufficientLiquidity)
    );
    assert_eq!(h, Holdings { solen: 10, stt: 10, lp: 0, claim: 0 });
    assert_eq!(pool, empty_pool());
}

#[test]
fn add_liquidity_undefined_inputs_detected() {
    let h = Holdings { solen: u128::MAX, stt: u128::MAX, lp: 0, claim: 0 };
    assert!(!add_liquidity_is_defined(&empty_pool(), &h, &amounts(u128::MAX, 2)));
    let drained = Pool { reserve_solen: 0, reserve_stt: 10, total_lp: 5 };
    assert!(!add_liquidity_is_defined(&drained, &h, &amounts(1, 1)));
    assert!(add_liquidity_is_defined(&drained, &h, &amounts(0, 1)));
}

#[test]
fn remove_liquidity_exact_on_wide_products() {
    let t = 1u128 << 64;
    let mut pool = Pool { reserve_solen: 1u128 << 65, reserve_stt: 7, total_lp: t };
    let mut h = Holdings { solen: 0, stt: 0, lp: t, claim: 0 };
    let r = do_remove_liquidity(&mut pool, &mut h, &amount(t));
    assert_eq!(r.unwrap().output, Output::Pair(1u128 << 65, 7));
    assert_eq!(pool, Pool { reserve_solen: 0, reserve_stt: 0, total_lp: 0 });
    assert_eq!(h, Holdings { solen: 1u128 << 65, stt: 7, lp: 0, claim: 0 });
}

#[test]
fn large_liquidity_stays_proportional() {
    let t = 1u128 << 64;
    let mut pool = Pool { reserve_solen: t, reserve_stt: t, total_lp: t };
    let offer = 1u128 << 70;
    let mut h = Holdings { solen: offer, stt: offer, lp: 0, claim: 0 };
    let r = do_add_liquidity(&mut pool, &mut h, &amounts(offer, offer));
    assert_eq!(r.unwrap().output, Output::Amount(offer));
    assert_eq!(pool, Pool { reserve_solen: t + offer, reserve_stt: t + offer, total_lp: t + offer });
    assert_eq!(h, Holdings { solen: 0, stt: 0, lp: offer, claim: 0 });
}

#[test]
fn liquidity_capped_by_supply_room() {
    let t = u128::MAX - 10;
    let mut pool = Pool { reserve_solen: t, reserve_stt: t, total_lp: t };
    let mut h = Holdings { solen: 100, stt: 100, lp: 0, claim: 0 };
    let r = do_add_liquidity(&mut pool, &mut h, &amounts(100, 100));
    assert_eq!(
        r.unwrap().event,
        Some(Event::LiquidityAdded { solen: 10, stt: 10, lp: 10 })
    );
    assert_eq!(pool.total_lp, u128::MAX);
    assert_eq!(h, Holdings { solen: 90, stt: 90, lp: 10, claim: 0 });
}

#[test]
fn remove_liquidity_refusals() {
    let mut pool = Pool { reserve_solen: 100, reserve_stt: 100, total_lp: 0 };
    let mut h = Holdings { solen: 0, stt: 0, lp: 10, claim: 0 };
    assert_eq!(do_remove_liquidity(&mut pool, &mut h, &[]), Err(DexError::NeedLpAmount));
    assert_eq!(do_remove_liquidity(&mut pool, &mut h, &amount(0)), Err(DexError::ZeroAmount));
    assert_eq!(do_remove_liquidity(&mut pool, &mut h, &amount(11)), Err(DexError::InsufficientLp));
    assert_eq!(do_remove_liquidity(&mut pool, &mut h, &amount(5)), Err(DexError::NoLiquidity));
    let p2 = Pool { reserve_solen: 100, reserve_stt: 100, total_lp: 3 };
    assert!(!remove_liquidity_is_defined(&p2, &h, &amount(5)));
    assert!(remove_liquidity_is_defined(&p2, &h, &amount(3)));
}

// ── swaps and views ────────────────────────────────────────────────────

#[test]
fn swap_solen_for_stt_moves_tokens() {
    let mut pool = Pool { reserve_solen: 1000, reserve_stt: 4000, total_lp: 2000 };
    let mut h = Holdings { solen: 100, stt: 0, lp: 0, claim: 0 };
    let r = do_swap_solen_for_stt(&mut pool, &mut h, &amount(100));
    assert_eq!(
        r,
        Ok(Reply {
            event: Some(Event::Swap { direction: Token::Solen, amount_in: 100, amount_out: 362 }),
            output: Output::Amount(362)
        })
    );
    assert_eq!(pool, Pool { reserve_solen: 1100, reserve_stt: 3638, total_lp: 2000 });
    assert_eq!(h, Holdings { solen: 0, stt: 362, lp: 0, claim: 0 });
    assert!(1100u128 * 3638 >= 1000 * 4000);
}

#[test]
fn swap_stt_for_solen_moves_tokens() {
    let mut pool = Pool { reserve_solen: 1000, reserve_stt: 4000, total_lp: 2000 };
    let mut h = Holdings { solen: 0, stt: 400, lp: 0, claim: 0 };
    let r = do_swap_stt_for_solen(&mut pool, &mut h, &amount(400));
    assert_eq!(r.unwrap().output, Output::Amount(90));
    assert_eq!(pool, Pool { reserve_solen: 910, reserve_stt: 4400, total_lp: 2000 });
    assert_eq!(h, Holdings { solen: 90, stt: 0, lp: 0, claim: 0 });
}

#[test]
fn swap_refusals() {
    let mut pool = empty_pool();
    let mut h = Holdings { solen: 10, stt: 10, lp: 0, claim: 0 };
    assert_eq!(do_swap_solen_for_stt(&mut pool, &mut h, &[0; 4]), Err(DexError::NeedAmountIn));
    assert_eq!(do_swap_stt_for_solen(&mut pool, &mut h, &amount(0)), Err(DexError::ZeroAmount));
    assert_eq!(
        do_swap_stt_for_solen(&mut pool, &mut h, &amount(11)),
        Err(DexError::InsufficientBalance)
    );
    assert_eq!(
        do_swap_solen_for_stt(&mut pool, &mut h, &amount(5)),
        Err(DexError::InsufficientLiquidity)
    );
    assert_eq!(h, Holdings { solen: 10, stt: 10, lp: 0, claim: 0 });
}

#[test]
fn price_and_reserves() {
    let pool = Pool { reserve_solen: 1000, reserve_stt: 4000, total_lp: 2000 };
    assert_eq!(do_get_price(&pool, &[]), Output::Amount(3999));
    assert_eq!(do_get_price(&pool, &[0]), Output::Amount(3999));
    assert_eq!(do_get_price(&pool, &[1]), Output::Amount(999));
    assert_eq!(do_get_reserves(&pool), Output::Reserves(1000, 4000, 2000));
}

#[test]
fn balance_queries_name_keys() {
    assert_eq!(do_balance_solen(&ALICE), Ok(solen_balance_key(&ALICE)));
    assert_eq!(do_balance_stt(&ALICE), Ok(stt_balance_key(&ALICE)));
    assert_eq!(do_balance_lp(&ALICE), Ok(lp_key(&ALICE)));
    assert_eq!(do_balance_lp(&ALICE[..31]), Err(DexError::NeedAccount));
}

// ── wire and dispatch ──────────────────────────────────────────────────

#[test]
fn output_encodings() {
    assert_eq!(encode_output(&Output::Ack), b"ok".to_vec());
    assert_eq!(encode_output(&Output::Amount(258)), amount(258));
    assert_eq!(encode_output(&Output::Pair(1, 2)), amounts(1, 2));
    let mut three = amounts(1, 2);
    three.extend_from_slice(&3u128.to_le_bytes());
    assert_eq!(encode_output(&Output::Reserves(1, 2, 3)), three);
}

#[test]
fn event_encodings() {
    let e = Event::Deposit { token: Token::Stt, account: ALICE, amount: 5 };
    let mut expected = vec![1u8];
    expected.extend_from_slice(&ALICE);
    expected.extend_from_slice(&5u128.to_le_bytes());
    assert_eq!(event_data(&e), expected);
    assert_eq!(event_data(&e).len(), 49);
    assert_eq!(event_topic(&e), b"deposit");
    let e = Event::Swap { direction: Token::Solen, amount_in: 7, amount_out: 8 };
    let mut expected = vec![0u8];
    expected.extend_from_slice(&amounts(7, 8));
    assert_eq!(event_data(&e), expected);
    assert_eq!(event_topic(&e), b"swap");
    let e = Event::Initialized { owner: ALICE, stt_contract: [2u8; 32] };
    assert_eq!(event_data(&e).len(), 64);
    assert_eq!(event_topic(&e), b"initialized");
    let e = Event::LiquidityRemoved { solen: 1, stt: 2, lp: 3 };
    assert_eq!(event_data(&e).len(), 48);
    assert_eq!(event_topic(&e), b"liquidity_removed");
    assert_eq!(event_topic(&Event::LiquidityAdded { solen: 1, stt: 2, lp: 3 }), b"liquidity_added");
    assert_eq!(
        event_topic(&Event::Withdraw { token: Token::Solen, account: ALICE, amount: 1 }),
        b"withdraw"
    );
}

#[test]
fn error_texts() {
    assert_eq!(error_message(&DexError::ZeroAmount), b"err:zero amount");
    assert_eq!(
        error_message(&DexError::NeedLiquidityAmounts),
        b"err:need solen_amount[16]+stt_amount[16]"
    );
    assert_eq!(error_message(&DexError::TransferFailed), b"err:transfer_failed");
    assert_eq!(error_message(&DexError::InsufficientBalance), b"err:insufficient_balance");
    assert_eq!(error_message(&DexError::NeedAccount), b"err:need account[32]");
}

#[test]
fn parses_calls() {
    let mut input = b"deposit_stt".to_vec();
    input.push(0);
    input.extend_from_slice(&amount(9));
    let c = parse_call(&input);
    assert_eq!(c.method, Method::DepositStt);
    assert_eq!(c.args, amount(9));
    let c = parse_call(b"get_reserves");
    assert_eq!(c.method, Method::GetReserves);
    assert!(c.args.is_empty());
    let c = parse_call(b"abi\0");
    assert_eq!(c.method, Method::Abi);
    assert!(c.args.is_empty());
    let c = parse_call(b"nope\0\x01");
    assert_eq!(c.method, Method::Unknown);
    assert_eq!(c.args, vec![1u8]);
    assert_eq!(parse_method(b"swap_stt_for_solen"), Method::SwapSttForSolen);
    assert_eq!(parse_method(b"balance_lp"), Method::BalanceLp);
    assert_eq!(parse_method(b"balance_l"), Method::Unknown);
}
