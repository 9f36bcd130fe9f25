use hihi::error::HihiError;
use hihi::processor::{check_accounts, Processor, LB_DIFF, LB_TOKEN_COUNT, MAX_DIFF, START_DIFF,
    START_PRICE};
use hihi::pricing::calculate_tokens;
use hihi::puzzle::Clock;
use hihi::state::{HihiState, STATE_SPACE};

fn entry(tag: u8, magic_len: u8) -> Vec<u8> {
    let mut e = vec![0u8; 57];
    e[0] = tag;
    e[33] = magic_len;
    e[34] = 33;
    e[35] = 232;
    e
}

fn uninit_state() -> HihiState {
    let buf = vec![0u8; STATE_SPACE];
    HihiState::unpack_from_slice(&buf).unwrap()
}

fn clock() -> Clock {
    Clock { slot: 5000, epoch: 7, unix_timestamp: 1600000000 }
}

/// The pricing engine's unit price for a purchase count within the first
/// tier, computed as the host computes it.
fn tier_one_price(count: i32, start_price: u64) -> u64 {
    let p: f64 = start_price as f64 * f32::powi(1.0 + 0.00218f32 / 1.0, count) as f64;
    let int = p as u64;
    if p == int as f64 { int } else { int + 1 }
}

fn init_state() -> HihiState {
    let mut s = uninit_state();
    let start_price = tier_one_price(0, START_PRICE);
    Processor::process_initialize(
        &mut s,
        77,
        &[9u8; 32],
        &[1u8; 32],
        &[2u8; 32],
        &[3u8; 32],
        &clock(),
        &[7u8; 32],
        true,
        start_price,
    )
    .unwrap();
    s
}

#[test]
fn reward_tiers() {
    assert_eq!(calculate_tokens(500), 100);
    assert_eq!(calculate_tokens(5000), 50);
    assert_eq!(calculate_tokens(50000), 25);
    assert_eq!(calculate_tokens(500000), 10);
}

#[test]
fn initialize_sets_price_and_bonus_puzzle() {
    let s = init_state();
    assert!(s.is_initialized);
    assert_eq!(tier_one_price(0, START_PRICE), 150000000);
    assert_eq!(s.breach_price, 150000000);
    assert_eq!(s.difficulty, START_DIFF);
    assert_eq!(s.nonce, 77);
    assert_eq!(s.current_slot, clock().slot);
    assert_eq!(s.current_epoch, clock().epoch);
    assert!(!s.limit_break.is_empty());
    assert_eq!(s.limit_break.len(), 57);
    assert_eq!(s.limit_break[0], LB_TOKEN_COUNT);
    assert_eq!(s.limit_break[33], START_DIFF + LB_DIFF);
}

#[test]
fn initialize_twice_fails() {
    let mut s = init_state();
    let r = Processor::process_initialize(
        &mut s,
        77,
        &[9u8; 32],
        &[1u8; 32],
        &[2u8; 32],
        &[3u8; 32],
        &clock(),
        &[7u8; 32],
        true,
        START_PRICE,
    );
    assert_eq!(r, Err(HihiError::AlreadyInitialized));
}

#[test]
fn initialize_requires_rent_exemption() {
    let mut s = uninit_state();
    let r = Processor::process_initialize(
        &mut s,
        77,
        &[9u8; 32],
        &[1u8; 32],
        &[2u8; 32],
        &[3u8; 32],
        &clock(),
        &[7u8; 32],
        false,
        START_PRICE,
    );
    assert_eq!(r, Err(HihiError::NotRentExempt));
    assert!(!s.is_initialized);
}

#[test]
fn breach_below_floor_fails() {
    let mut s = init_state();
    let price = s.breach_price;
    let r = Processor::process_breach_begin(&mut s, 9999, &clock(), price);
    assert_eq!(r, Err(HihiError::InsufficientFundsForTransaction));
}

#[test]
fn breach_above_whale_cap_fails() {
    let mut s = init_state();
    let price = s.breach_price;
    let r = Processor::process_breach_begin(&mut s, price * 10 + 1, &clock(), price);
    assert_eq!(r, Err(HihiError::InsufficientFundsForTransaction));
}

#[test]
fn breach_on_uninitialized_record_fails() {
    let mut s = uninit_state();
    let r = Processor::process_breach_begin(&mut s, 10000, &clock(), START_PRICE);
    assert_eq!(r, Err(HihiError::NotInitialized));
}

/// Convert a payment to whole units against the current price, as the host
/// does, with the fractional remainder carried in native units.
fn split_units(lamports: u64, price: u64, remain: u64) -> (u64, u64) {
    let sol = lamports as f64 / 1_000_000_000f64;
    let bp_sol = price as f64 / 1_000_000_000f64;
    let br_sol = remain as f64 / 1_000_000_000f64;
    let result: f64 = (sol + br_sol) / bp_sol;
    let s = result.to_string();
    let parts: Vec<&str> = s.split('.').collect();
    let whole = parts[0].parse::<u64>().unwrap();
    let frac: f64 = if parts.len() == 2 {
        ("0.".to_owned() + parts[1]).parse::<f64>().unwrap()
    } else {
        0.0
    };
    (whole, (bp_sol * frac * 1_000_000_000f64).round() as u64)
}

#[test]
fn breach_small_payment_keeps_counters_sane() {
    let mut s = init_state();
    let before = s.breach_count;
    let price = s.breach_price;
    let (active, base) = Processor::process_breach_begin(&mut s, 10000, &clock(), price).unwrap();
    assert!(active);
    assert_eq!(base, 100);
    let (units, new_remain) = split_units(10000, s.breach_price, s.breach_remain);
    assert_eq!(units, 0);
    let minted = Processor::process_breach_finish(
        &mut s,
        10000,
        &clock(),
        &[7u8; 32],
        units,
        new_remain,
        true,
        base,
    )
    .unwrap();
    assert_eq!(minted, 0);
    assert!(s.breach_count >= before);
    assert_eq!(s.lamports, (10000 / 4) * 3);
}

#[test]
fn breach_whole_units_mint_and_materialize() {
    let mut s = init_state();
    let pay = s.breach_price * 2;
    let price = s.breach_price;
    let (active, base) = Processor::process_breach_begin(&mut s, pay, &clock(), price).unwrap();
    assert!(active);
    let (units, new_remain) = split_units(pay, s.breach_price, s.breach_remain);
    assert_eq!(units, 2);
    let minted = Processor::process_breach_finish(
        &mut s,
        pay,
        &clock(),
        &[7u8; 32],
        units,
        new_remain,
        true,
        base,
    )
    .unwrap();
    assert_eq!(minted, 200);
    assert_eq!(s.breach_count, 2);
    assert_eq!(s.breach_count_this_window, 2);
    assert_eq!(s.work.len(), 2);
    assert_eq!(s.work_cached, 0);
    assert_eq!(s.work[0][0], 100);
}

#[test]
fn breach_invalid_destination_banks_doubling_credits() {
    let mut s = init_state();
    let pay = s.breach_price * 3;
    let price = s.breach_price;
    let (_, base) = Processor::process_breach_begin(&mut s, pay, &clock(), price).unwrap();
    let (units, new_remain) = split_units(pay, s.breach_price, s.breach_remain);
    assert_eq!(units, 3);
    let minted = Processor::process_breach_finish(
        &mut s,
        pay,
        &clock(),
        &[7u8; 32],
        units,
        new_remain,
        false,
        base,
    )
    .unwrap();
    assert_eq!(minted, 0);
    // credits bank, then pay out doubled rewards on the fresh puzzles
    assert_eq!(s.work.len(), 3);
    assert_eq!(s.work[0][0], 200);
    assert_eq!(s.work[1][0], 200);
    assert_eq!(s.work[2][0], 200);
    assert_eq!(s.token_doubles, 0);
}

#[test]
fn breach_window_rollover_resets_counter_and_price() {
    let mut s = init_state();
    s.breach_count = 50;
    s.breach_count_this_window = 20;
    let late = Clock { slot: s.current_slot + 100, ..clock() };
    let rolled_price = tier_one_price(s.breach_count, START_PRICE);
    let (_, _) = Processor::process_breach_begin(&mut s, 10000, &late, rolled_price).unwrap();
    assert_eq!(s.breach_count_this_window, 0);
    assert_eq!(s.current_slot, late.slot);
    assert_eq!(s.breach_price, rolled_price);
    assert!(s.breach_price > START_PRICE);
}

#[test]
fn breach_saturation_guard() {
    let mut s = init_state();
    s.breach_count = i32::MAX;
    let r = Processor::process_breach_finish(
        &mut s,
        10000,
        &clock(),
        &[7u8; 32],
        1,
        0,
        true,
        100,
    );
    assert_eq!(r, Err(HihiError::InvalidInstruction));
    assert_eq!(s.breach_count, i32::MAX);
}

#[test]
fn breach_capacity_never_exceeded_and_units_conserved() {
    let mut s = init_state();
    let mut purchased: u64 = 0;
    for _ in 0..15 {
        let minted = Processor::process_breach_finish(
            &mut s,
            10000,
            &clock(),
            &[7u8; 32],
            10,
            0,
            true,
            100,
        )
        .unwrap();
        assert_eq!(minted, 1000);
        purchased += 10;
        assert!(s.work.len() <= 101);
        assert_eq!(s.work.len() as u64 + s.work_cached, purchased);
    }
    assert_eq!(s.work.len(), 100);
    assert_eq!(s.work_cached, 50);
}

#[test]
fn claim_missing_entry_fails() {
    let mut s = init_state();
    s.work = vec![entry(100, 0), entry(50, 0)];
    let absent: [u8; 57] = {
        let mut a = [0u8; 57];
        a[0] = 99;
        a
    };
    let r = Processor::process_claim(&mut s, &absent, &[1u8; 32], &[2u8; 32], true);
    assert_eq!(r, Err(HihiError::InvalidClaimHash));
    assert_eq!(s.work.len(), 2);
}

#[test]
fn claim_present_entry_removes_exactly_one_by_swap() {
    let mut s = init_state();
    s.work = vec![entry(100, 0), entry(50, 0), entry(25, 0)];
    let mut target = [0u8; 57];
    target.copy_from_slice(&entry(100, 0));
    let minted = Processor::process_claim(&mut s, &target, &[1u8; 32], &[2u8; 32], true).unwrap();
    assert_eq!(minted, 100);
    assert_eq!(s.work.len(), 2);
    // swap-with-last: the last entry moved into the removed slot
    assert_eq!(s.work[0], entry(25, 0));
    assert_eq!(s.work[1], entry(50, 0));
}

#[test]
fn claim_wrong_solution_fails() {
    let mut s = init_state();
    let mut e = entry(100, 1);
    // find the real digest prefix and corrupt the magic target away from it
    let mut data = e[1..33].to_vec();
    data.extend_from_slice(&[1u8; 32]);
    data.extend_from_slice(&[2u8; 32]);
    let h = solana_program::hash::hash(&data).to_bytes();
    e[34] = h[0].wrapping_add(1);
    s.work = vec![e.clone()];
    let mut target = [0u8; 57];
    target.copy_from_slice(&e);
    let r = Processor::process_claim(&mut s, &target, &[1u8; 32], &[2u8; 32], true);
    assert_eq!(r, Err(HihiError::IncorrectClaimSolution));
    assert_eq!(s.work.len(), 1);
}

#[test]
fn claim_invalid_destination_fails() {
    let mut s = init_state();
    s.work = vec![entry(100, 0)];
    let mut target = [0u8; 57];
    target.copy_from_slice(&entry(100, 0));
    let r = Processor::process_claim(&mut s, &target, &[1u8; 32], &[2u8; 32], false);
    assert_eq!(r, Err(HihiError::InvalidTokenAddress));
}

#[test]
fn limit_break_claim_succeeds_and_reissues() {
    let mut s = init_state();
    s.limit_break = entry(200, 0);
    let old_lb = s.limit_break.clone();
    let price = s.breach_price;
    let outcome = Processor::process_limit_break(
        &mut s,
        &[1u8; 32],
        &[2u8; 32],
        &clock(),
        &[7u8; 32],
        5000,
        price,
        true,
    )
    .unwrap();
    assert_eq!(outcome.tokens, 200);
    assert_eq!(outcome.payout, 0);
    assert_eq!(s.breach_count, (LB_TOKEN_COUNT / 100) as i32);
    assert_eq!(s.limit_count, 1);
    assert_eq!(s.limit_breaks_this_epoch, 1);
    assert_eq!(s.limit_break.len(), 57);
    assert_ne!(s.limit_break, old_lb);
    assert_eq!(s.limit_break[33], s.difficulty + LB_DIFF);
}

#[test]
fn limit_break_at_difficulty_ceiling_fails() {
    let mut s = init_state();
    s.difficulty = MAX_DIFF - LB_DIFF + 1;
    s.limit_break = entry(200, 0);
    let price = s.breach_price;
    let r = Processor::process_limit_break(
        &mut s,
        &[1u8; 32],
        &[2u8; 32],
        &clock(),
        &[7u8; 32],
        0,
        price,
        true,
    );
    assert_eq!(r, Err(HihiError::InvalidInstruction));
}

#[test]
fn limit_break_epoch_cap() {
    let mut s = init_state();
    s.limit_break = entry(200, 0);
    s.limit_breaks_this_epoch = 24;
    let price = s.breach_price;
    let r = Processor::process_limit_break(
        &mut s,
        &[1u8; 32],
        &[2u8; 32],
        &clock(),
        &[7u8; 32],
        0,
        price,
        true,
    );
    assert_eq!(r, Err(HihiError::WorkLimitExceeded));
    assert_eq!(s.limit_breaks_this_epoch, 24);
}

#[test]
fn limit_break_epoch_rollover_escalates_difficulty_and_pays_five_percent() {
    let mut s = init_state();
    s.limit_break = entry(200, 0);
    s.limit_breaks_this_epoch = 6;
    s.lamports = 1000;
    let later = Clock { epoch: s.current_epoch + 1, ..clock() };
    let price = s.breach_price;
    let outcome = Processor::process_limit_break(
        &mut s,
        &[1u8; 32],
        &[2u8; 32],
        &later,
        &[7u8; 32],
        123456,
        price,
        true,
    )
    .unwrap();
    assert_eq!(s.difficulty, START_DIFF + 1);
    assert_eq!(outcome.payout, 1000 * 5 / 100);
    assert_eq!(s.lamports, 1000 - 50);
    assert_eq!(s.current_epoch, later.epoch);
    assert_eq!(s.limit_breaks_this_epoch, 1);
}

#[test]
fn limit_break_terminal_payout_empties_treasury() {
    let mut s = init_state();
    s.limit_break = entry(200, 0);
    s.difficulty = MAX_DIFF - LB_DIFF;
    s.limit_breaks_this_epoch = 6;
    s.lamports = 7777;
    let later = Clock { epoch: s.current_epoch + 1, ..clock() };
    let price = s.breach_price;
    let outcome = Processor::process_limit_break(
        &mut s,
        &[1u8; 32],
        &[2u8; 32],
        &later,
        &[7u8; 32],
        999999,
        price,
        true,
    )
    .unwrap();
    // escalation passes the ceiling: the whole real balance pays out
    assert_eq!(outcome.payout, 999999);
    assert_eq!(s.lamports, 0);
    assert_eq!(s.difficulty, MAX_DIFF - LB_DIFF + 1);
    // no fresh bonus puzzle past the ceiling
    assert_eq!(s.limit_break, entry(200, 0));
}

#[test]
fn withdraw_pays_only_the_excess() {
    let s = init_state();
    // s.lamports is 0 after initialization
    assert_eq!(
        Processor::process_withdraw(&s, &[3u8; 32], true, 500),
        Ok(500)
    );
    let mut s2 = init_state();
    s2.lamports = 400;
    assert_eq!(Processor::process_withdraw(&s2, &[3u8; 32], true, 500), Ok(100));
    assert_eq!(
        Processor::process_withdraw(&s2, &[3u8; 32], true, 400),
        Err(HihiError::InsufficientFundsForTransaction)
    );
    assert_eq!(
        Processor::process_withdraw(&s2, &[4u8; 32], true, 500),
        Err(HihiError::InvalidOwner)
    );
    assert_eq!(
        Processor::process_withdraw(&s2, &[3u8; 32], false, 500),
        Err(HihiError::InvalidOwner)
    );
}

#[test]
fn change_keys_requires_all_signers_and_matching_keys() {
    let mut s = init_state();
    let r = Processor::process_change_keys(
        &mut s,
        &[1u8; 32],
        &[2u8; 32],
        &[3u8; 32],
        &[11u8; 32],
        &[12u8; 32],
        &[13u8; 32],
        false,
    );
    assert_eq!(r, Err(HihiError::InvalidOwner));
    let r = Processor::process_change_keys(
        &mut s,
        &[1u8; 32],
        &[9u8; 32],
        &[3u8; 32],
        &[11u8; 32],
        &[12u8; 32],
        &[13u8; 32],
        true,
    );
    assert_eq!(r, Err(HihiError::InvalidOwner));
    let r = Processor::process_change_keys(
        &mut s,
        &[1u8; 32],
        &[2u8; 32],
        &[3u8; 32],
        &[11u8; 32],
        &[12u8; 32],
        &[13u8; 32],
        true,
    );
    assert_eq!(r, Ok(()));
    assert_eq!(s.admin_one_id, [11u8; 32]);
    assert_eq!(s.admin_two_id, [12u8; 32]);
    assert_eq!(s.withdraw_id, [13u8; 32]);
}

#[test]
fn change_keys_on_uninitialized_record_fails() {
    let mut s = uninit_state();
    let r = Processor::process_change_keys(
        &mut s,
        &[1u8; 32],
        &[2u8; 32],
        &[3u8; 32],
        &[11u8; 32],
        &[12u8; 32],
        &[13u8; 32],
        true,
    );
    assert_eq!(r, Err(HihiError::NotInitialized));
}

#[test]
fn check_accounts_validates_program_and_mint() {
    let s = init_state();
    let spl = [55u8; 32];
    assert_eq!(
        check_accounts(&s, &[56u8; 32], &[9u8; 32], &spl, &spl, &Some([9u8; 32])),
        Err(HihiError::InvalidOwner)
    );
    assert_eq!(
        check_accounts(&s, &spl, &[8u8; 32], &spl, &spl, &Some([9u8; 32])),
        Err(HihiError::InvalidTokenMint)
    );
    assert_eq!(check_accounts(&s, &spl, &[9u8; 32], &spl, &spl, &Some([9u8; 32])), Ok(true));
    assert_eq!(check_accounts(&s, &spl, &[9u8; 32], &spl, &[1u8; 32], &Some([9u8; 32])), Ok(false));
    assert_eq!(check_accounts(&s, &spl, &[9u8; 32], &spl, &spl, &None), Ok(false));
    assert_eq!(check_accounts(&s, &spl, &[9u8; 32], &spl, &spl, &Some([8u8; 32])), Ok(false));
}

#[test]
fn claim_duplicate_entries_removes_the_first_match() {
    let mut s = init_state();
    s.work = vec![entry(50, 0), entry(100, 0), entry(100, 0)];
    let mut target = [0u8; 57];
    target.copy_from_slice(&entry(100, 0));
    let minted = Processor::process_claim(&mut s, &target, &[1u8; 32], &[2u8; 32], true).unwrap();
    assert_eq!(minted, 100);
    // the first of the two equal entries went; the last slid into its place
    assert_eq!(s.work, vec![entry(50, 0), entry(100, 0)]);
}
