use hihi::error::HihiError;
use hihi::puzzle::{check_claim, create_hash_puzzles, create_limit_break, Clock};
use hihi::state::HihiState;

fn entry(tag: u8, magic_len: u8) -> Vec<u8> {
    let mut e = vec![0u8; 57];
    e[0] = tag;
    e[33] = magic_len;
    e[34] = 33;
    e[35] = 232;
    e
}

fn base_state() -> HihiState {
    HihiState {
        is_initialized: true,
        token_mint_id: [9u8; 32],
        token_doubles: 0,
        nonce: 1,
        current_slot: 1000,
        current_epoch: 3,
        difficulty: 2,
        lamports: 0,
        breach_price: 150000000,
        breach_remain: 0,
        breach_count: 5,
        breach_count_this_window: 1,
        limit_count: 2,
        limit_breaks_this_epoch: 0,
        admin_one_id: [1u8; 32],
        admin_two_id: [2u8; 32],
        withdraw_id: [3u8; 32],
        limit_break: entry(200, 5),
        work_cached: 0,
        work: Vec::new(),
    }
}

fn clock() -> Clock {
    Clock { slot: 1234, epoch: 5, unix_timestamp: 1600000000 }
}

#[test]
fn hash_puzzles_match_recomputed_chain() {
    let st = base_state();
    let iid = [7u8; 32];
    let (bytes, doubles_left) = create_hash_puzzles(&clock(), 2, &st, &iid, 12345, 100, 2);
    assert_eq!(bytes.len(), 2 * 57);
    assert_eq!(doubles_left, 0);

    let mut data = iid.to_vec();
    data.extend_from_slice(&st.token_mint_id);
    data.extend_from_slice(&12345u64.to_le_bytes());
    data.extend_from_slice(&st.breach_count.to_le_bytes());
    data.extend_from_slice(&st.breach_price.to_le_bytes());
    data.extend_from_slice(&clock().slot.to_le_bytes());
    data.extend_from_slice(&clock().epoch.to_le_bytes());
    data.extend_from_slice(&clock().unix_timestamp.to_le_bytes());
    let mut chain = solana_program::hash::hash(&data).to_bytes().to_vec();

    chain.push(1);
    let d0 = solana_program::hash::hash(&chain).to_bytes();
    assert_eq!(bytes[0], 100);
    assert_eq!(&bytes[1..33], &d0);
    assert_eq!(bytes[33], 2);
    assert_eq!(bytes[34], 33);
    assert_eq!(bytes[35], 232);
    assert!(bytes[36..57].iter().all(|&b| b == 0));

    chain.push(0);
    let d1 = solana_program::hash::hash(&chain).to_bytes();
    assert_eq!(bytes[57], 100);
    assert_eq!(&bytes[58..90], &d1);
}

#[test]
fn hash_puzzles_double_rewards_while_credits_remain() {
    let mut st = base_state();
    st.token_doubles = 1;
    let iid = [7u8; 32];
    let (bytes, doubles_left) = create_hash_puzzles(&clock(), 3, &st, &iid, 500, 50, 2);
    assert_eq!(doubles_left, 0);
    assert_eq!(bytes[0], 100);
    assert_eq!(bytes[57], 50);
    assert_eq!(bytes[114], 50);
}

#[test]
fn hash_puzzles_identical_inputs_identical_batches() {
    let st = base_state();
    let iid = [7u8; 32];
    let a = create_hash_puzzles(&clock(), 4, &st, &iid, 999, 100, 3);
    let b = create_hash_puzzles(&clock(), 4, &st, &iid, 999, 100, 3);
    assert_eq!(a.0, b.0);
    assert_eq!(a.1, b.1);
}

#[test]
fn limit_break_matches_recomputed_seed() {
    let st = base_state();
    let iid = [7u8; 32];
    let lb = create_limit_break(&clock(), &st, &iid, 200, 5);
    assert_eq!(lb.len(), 57);
    assert_eq!(lb[0], 200);
    assert_eq!(lb[33], 5);
    assert_eq!(lb[34], 33);
    assert_eq!(lb[35], 232);

    let mut data = iid.to_vec();
    data.extend_from_slice(&st.token_mint_id);
    data.extend_from_slice(&st.breach_count.to_le_bytes());
    data.extend_from_slice(&st.breach_price.to_le_bytes());
    data.extend_from_slice(&st.limit_count.to_le_bytes());
    data.extend_from_slice(&clock().slot.to_le_bytes());
    data.extend_from_slice(&clock().epoch.to_le_bytes());
    data.extend_from_slice(&clock().unix_timestamp.to_le_bytes());
    let digest = solana_program::hash::hash(&data).to_bytes();
    assert_eq!(&lb[1..33], &digest);
}

#[test]
fn check_claim_accepts_matching_prefix() {
    let claim = [1u8; 32];
    let pool = [2u8; 32];
    let mut work = [0u8; 57];
    work[0] = 5;
    for i in 1..33 {
        work[i] = 3;
    }
    let mut data = work[1..33].to_vec();
    data.extend_from_slice(&claim);
    data.extend_from_slice(&pool);
    let h = solana_program::hash::hash(&data).to_bytes();
    work[33] = 2;
    work[34] = h[0];
    work[35] = h[1];
    assert_eq!(check_claim(&claim, &pool, &work), Ok(()));
}

#[test]
fn check_claim_rejects_mismatched_pair() {
    let claim = [1u8; 32];
    let pool = [2u8; 32];
    let mut work = [0u8; 57];
    work[0] = 5;
    for i in 1..33 {
        work[i] = 3;
    }
    let mut data = work[1..33].to_vec();
    data.extend_from_slice(&claim);
    data.extend_from_slice(&pool);
    let h = solana_program::hash::hash(&data).to_bytes();
    work[33] = 1;
    work[34] = h[0].wrapping_add(1);
    assert_eq!(check_claim(&claim, &pool, &work), Err(HihiError::IncorrectClaimSolution));
    // the very same puzzle answers to the identity pair it was solved for
    work[34] = h[0];
    assert_eq!(check_claim(&claim, &pool, &work), Ok(()));
    // but not to a different claimant
    let other = [4u8; 32];
    let mut data2 = work[1..33].to_vec();
    data2.extend_from_slice(&other);
    data2.extend_from_slice(&pool);
    let h2 = solana_program::hash::hash(&data2).to_bytes();
    if h2[0] != h[0] {
        assert_eq!(check_claim(&other, &pool, &work), Err(HihiError::IncorrectClaimSolution));
    }
}

#[test]
fn check_claim_empty_magic_always_accepts() {
    let claim = [1u8; 32];
    let pool = [2u8; 32];
    let mut work = [0u8; 57];
    work[33] = 0;
    assert_eq!(check_claim(&claim, &pool, &work), Ok(()));
}
