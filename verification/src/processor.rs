//! The economic state machine: Breach / Claim / LimitBreak / Withdraw /
//! ChangeKeys transitions over the state record.
//!
//! Every transition takes the decoded record plus plain host facts (clock
//! values, account balances, signer flags, token-account findings, and the
//! recomputed unit price where a pricing-window rollover may need it) and
//! either mutates the record and reports what the host must transfer or
//! mint, or fails leaving the record untouched.

use vstd::prelude::*;
use crate::error::HihiError;
use crate::pricing::{calculate_tokens, calculate_tokens_spec};
use crate::puzzle::{check_claim, claim_matches, create_hash_puzzles, create_limit_break,
    limit_break_bytes, puzzle_entry, puzzles_seed, Clock, lemma_puzzle_chunks};
use crate::state::{entry_wf, work_chunks, HihiState, StateView, MAX_COUNT, WORK_BYTES};
use crate::hashing::sha256_of;

verus! {

/// Extra difficulty of the bonus puzzle over the current tier.
pub const LB_DIFF: u8 = 3;

/// Ceiling on any puzzle's magic length.
pub const MAX_DIFF: u8 = 23;

/// Difficulty tier set at initialization.
pub const START_DIFF: u8 = 2;

/// Length of a pricing window, in slots.
pub const BREACH_WINDOW: u16 = 100;

/// Unit price at count zero, in native units.
pub const START_PRICE: u64 = 150000000;

/// Reward pool of the bonus puzzle, divided by the current reward tier.
pub const LB_TOKEN_COUNT: u8 = 200;

/// Bonus claims per epoch above which difficulty escalates.
pub const LB_DIFF_INCREASE: u8 = 5;

/// Hard cap on bonus claims per epoch.
pub const LB_MAX_PER_EPOCH: u8 = 23;

pub struct Processor {}

/// Compare two identity handles byte for byte.
fn keys_equal(a: &[u8; 32], b: &[u8; 32]) -> (r: bool)
    ensures
        r <==> a@ == b@,
{
    let mut k: usize = 0;
    while k < 32
        invariant
            k <= 32,
            forall|i: int| 0 <= i < k ==> a@[i] == b@[i],
        decreases 32 - k,
    {
        if a[k] != b[k] {
            assert(a@[k as int] != b@[k as int]);
            return false;
        }
        k = k + 1;
    }
    assert(a@ =~= b@);
    true
}

/// Compare a cached puzzle entry with a submitted one byte for byte.
fn works_equal(a: &Vec<u8>, b: &[u8; 57]) -> (r: bool)
    ensures
        r <==> a@ == b@,
{
    if a.len() != 57 {
        assert(a@.len() != b@.len());
        return false;
    }
    let mut k: usize = 0;
    while k < 57
        invariant
            a@.len() == 57,
            k <= 57,
            forall|i: int| 0 <= i < k ==> a@[i] == b@[i],
        decreases 57 - k,
    {
        if a[k] != b[k] {
            assert(a@[k as int] != b@[k as int]);
            return false;
        }
        k = k + 1;
    }
    assert(a@ =~= b@);
    true
}

/// Validate the token accounts a transition was handed: the token program
/// must be the real one and the mint this deployment's mint, or the
/// transition fails; the destination is merely judged usable or not.
pub fn check_accounts(
    instance: &HihiState,
    token_program_id: &[u8; 32],
    token_mint_id: &[u8; 32],
    spl_token_id: &[u8; 32],
    to_owner_id: &[u8; 32],
    to_account_mint: &Option<[u8; 32]>,
) -> (r: Result<bool, HihiError>)
    ensures
        token_program_id@ != spl_token_id@ ==> r == Err::<bool, HihiError>(HihiError::InvalidOwner),
        token_program_id@ == spl_token_id@ && token_mint_id@ != instance@.token_mint_id ==> r
            == Err::<bool, HihiError>(HihiError::InvalidTokenMint),
        token_program_id@ == spl_token_id@ && token_mint_id@ == instance@.token_mint_id ==> (r
            matches Ok(b) && (b <==> (to_owner_id@ == spl_token_id@ && (to_account_mint matches Some(
            m,
        ) && m@ == instance@.token_mint_id)))),
{
    if !keys_equal(token_program_id, spl_token_id) {
        return Err(HihiError::InvalidOwner);
    }
    if !keys_equal(token_mint_id, &instance.token_mint_id) {
        return Err(HihiError::InvalidTokenMint);
    }
    if !keys_equal(to_owner_id, spl_token_id) {
        return Ok(false);
    }
    match to_account_mint {
        None => Ok(false),
        Some(m) => {
            if keys_equal(m, &instance.token_mint_id) {
                Ok(true)
            } else {
                Ok(false)
            }
        },
    }
}

/// Index of the first cache entry equal to `target`, or -1 when none is.
pub open spec fn first_match(w: Seq<Seq<u8>>, target: Seq<u8>) -> int
    decreases w.len(),
{
    if w.len() == 0 {
        -1
    } else if w[0] == target {
        0
    } else {
        let rest = first_match(w.drop_first(), target);
        if rest < 0 {
            -1
        } else {
            rest + 1
        }
    }
}

/// When no entry matches, `first_match` reports -1.
proof fn lemma_first_match_none(w: Seq<Seq<u8>>, target: Seq<u8>)
    requires
        forall|k: int| 0 <= k < w.len() ==> w[k] != target,
    ensures
        first_match(w, target) < 0,
    decreases w.len(),
{
    if w.len() > 0 {
        lemma_first_match_none(w.drop_first(), target);
    }
}

/// A match at `i` with none before it makes `i` the first match.
proof fn lemma_first_match_at(w: Seq<Seq<u8>>, target: Seq<u8>, i: int)
    requires
        0 <= i < w.len(),
        w[i] == target,
        forall|k: int| 0 <= k < i ==> w[k] != target,
    ensures
        first_match(w, target) == i,
    decreases i,
{
    if i > 0 {
        lemma_first_match_at(w.drop_first(), target, i - 1);
    }
}

/// The purchase baseline a breach rewards from: units bought before this
/// window that are not still deferred, floored at zero.
pub open spec fn free_token_count(v: StateView) -> int {
    let b = v.breach_count - v.breach_count_this_window - v.work_cached;
    if b < 0 {
        0
    } else {
        b
    }
}

/// Whether breaches still sell: once the bonus difficulty would pass the
/// ceiling, payments stop and only the work backlog drains.
pub open spec fn breach_active(v: StateView) -> bool {
    v.difficulty + LB_DIFF <= MAX_DIFF
}

/// First half of a Breach: vet the payment, credit three quarters of it to
/// the treasury, and roll the pricing window when due. Yields the successor
/// state together with whether the purchase part is active and the reward
/// tier, before any unit conversion happens.
pub open spec fn breach_begin_result(
    v: StateView,
    lamports: u64,
    clock: Clock,
    rolled_price: u64,
) -> Result<(StateView, bool, u8), HihiError> {
    if lamports < 10000 {
        Err(HihiError::InsufficientFundsForTransaction)
    } else if !v.is_initialized {
        Err(HihiError::NotInitialized)
    } else {
        let base_tokens = calculate_tokens_spec(free_token_count(v));
        if breach_active(v) {
            let rolled = clock.slot - v.current_slot >= BREACH_WINDOW;
            let post_price = if rolled {
                rolled_price
            } else {
                v.breach_price
            };
            if lamports > post_price * 10 {
                Err(HihiError::InsufficientFundsForTransaction)
            } else {
                let v1 = StateView { lamports: (v.lamports + (lamports / 4) * 3) as u64, ..v };
                let v2 = if rolled {
                    StateView {
                        breach_count_this_window: 0,
                        current_slot: clock.slot,
                        breach_price: rolled_price,
                        ..v1
                    }
                } else {
                    v1
                };
                Ok((v2, true, base_tokens))
            }
        } else {
            Ok((v, false, base_tokens))
        }
    }
}

/// The work cache after a breach materializes puzzles: when a slot is free,
/// up to ten units (fresh purchases, backlog first) become entries on one
/// hash chain and whatever does not fit returns to the deferred counter;
/// with no free slot the fresh units defer whole.
pub open spec fn materialized_view(
    v: StateView,
    clock: Clock,
    instance_id: Seq<u8>,
    lamports: u64,
    breaches: u64,
    base_tokens: u8,
) -> StateView {
    let free = MAX_COUNT - v.work.len() - 1;
    if free != 0 {
        let total = breaches + v.work_cached;
        let count0 = if total <= 10 {
            total as int
        } else {
            10
        };
        let cached0 = if total <= 10 {
            0
        } else {
            v.work_cached - (10 - breaches)
        };
        let over = count0 - free;
        let count = if over > 0 {
            free
        } else {
            count0
        };
        let cached = if over > 0 {
            cached0 + over
        } else {
            cached0
        };
        let seed = sha256_of(puzzles_seed(clock, v, instance_id, lamports));
        StateView {
            work: v.work + Seq::new(count as nat, |j: int|
                puzzle_entry(seed, count as u8, v.token_doubles, base_tokens, v.difficulty, j)),
            work_cached: cached as u64,
            token_doubles: if v.token_doubles >= count {
                (v.token_doubles - count) as u64
            } else {
                0
            },
            ..v
        }
    } else {
        StateView { work_cached: (v.work_cached + breaches) as u64, ..v }
    }
}

/// Second half of a Breach, after the host has converted the payment into
/// `breaches` whole units with remainder `new_remain`: record the
/// remainder, mint immediately to a valid destination or bank a doubling
/// credit otherwise, reissue the bonus puzzle when units were bought, then
/// materialize up to ten units' worth of puzzles into the work cache
/// (draining any backlog first, spilling what does not fit back into the
/// deferred counter), and advance the purchase counters. Yields the
/// successor state and the token count to mint.
pub open spec fn breach_finish_result(
    v: StateView,
    lamports: u64,
    clock: Clock,
    instance_id: Seq<u8>,
    breaches: u64,
    new_remain: u64,
    valid_to_id: bool,
    base_tokens: u8,
) -> Result<(StateView, u64), HihiError> {
    if v.breach_count + breaches > i32::MAX {
        Err(HihiError::InvalidInstruction)
    } else {
        let active = breach_active(v);
        let v1 = if active {
            StateView { breach_remain: new_remain, ..v }
        } else {
            v
        };
        let tokens_to_send = if active && valid_to_id {
            (base_tokens * breaches) as u64
        } else {
            0
        };
        let v2 = if active && !valid_to_id {
            StateView { token_doubles: (v1.token_doubles + breaches) as u64, ..v1 }
        } else {
            v1
        };
        let v3 = if active && breaches > 0 {
            StateView {
                limit_break: limit_break_bytes(
                    clock,
                    v2,
                    instance_id,
                    LB_TOKEN_COUNT,
                    (v2.difficulty + LB_DIFF) as u8,
                ),
                ..v2
            }
        } else {
            v2
        };
        let v4 = materialized_view(v3, clock, instance_id, lamports, breaches, base_tokens);
        let v5 = StateView {
            breach_count: (v4.breach_count + breaches) as i32,
            breach_count_this_window: (v4.breach_count_this_window + breaches) as u32,
            ..v4
        };
        Ok((v5, tokens_to_send))
    }
}

/// Within a pricing window the unit price stands still: a Breach whose slot
/// lies inside the window of the last rollover leaves `breach_price` exactly
/// as it was, whatever is paid.
pub proof fn lemma_breach_price_stable_within_window(
    v: StateView,
    lamports: u64,
    clock: Clock,
    rolled_price: u64,
)
    requires
        clock.slot - v.current_slot < BREACH_WINDOW,
        breach_begin_result(v, lamports, clock, rolled_price) matches Ok(_),
    ensures
        breach_begin_result(v, lamports, clock, rolled_price) matches Ok(t) && t.0.breach_price
            == v.breach_price,
{
}

/// The work cache is bounded: every reachable state holds at most
/// `MAX_COUNT` outstanding puzzles (one slot is in fact always reserved),
/// and every transition's contract hands this invariant on.
pub proof fn lemma_work_capacity(v: StateView)
    requires
        v.wf(),
    ensures
        v.work.len() <= MAX_COUNT,
{
}

/// What a successful bonus claim hands back to the host: the token count to
/// mint and the treasury payout to transfer (zero when none is due).
#[derive(Clone, Copy, Debug, PartialEq, Eq, Structural)]
pub struct LimitBreakOutcome {
    pub tokens: u64,
    pub payout: u64,
}

/// The full outcome of a LimitBreak transition on state `v`: either the
/// error owed to the input, or the successor state together with the token
/// count to mint and the treasury payout.
///
/// On a pricing-window rollover the unit price becomes `rolled_price` and
/// the window counter restarts. On an epoch rollover, difficulty escalates
/// if the epoch saw more than `LB_DIFF_INCREASE` bonus claims; reaching the
/// difficulty ceiling pays the whole treasury out, any other escalation pays
/// five percent. The bonus puzzle is reissued unless the ceiling is reached.
pub open spec fn limit_break_result(
    v: StateView,
    claim_id: Seq<u8>,
    pool_id: Seq<u8>,
    clock: Clock,
    instance_id: Seq<u8>,
    authority_lamports: u64,
    rolled_price: u64,
    valid_to_id: bool,
) -> Result<(StateView, u64, u64), HihiError> {
    if !v.is_initialized {
        Err(HihiError::NotInitialized)
    } else if !valid_to_id {
        Err(HihiError::InvalidTokenAddress)
    } else if v.difficulty + LB_DIFF > MAX_DIFF {
        Err(HihiError::InvalidInstruction)
    } else if !claim_matches(v.limit_break, claim_id, pool_id) {
        Err(HihiError::IncorrectClaimSolution)
    } else {
        let count = LB_TOKEN_COUNT as int / calculate_tokens_spec(v.breach_count as int) as int;
        if v.breach_count + count > i32::MAX {
            Err(HihiError::InvalidInstruction)
        } else {
            let epoch_rolled = clock.epoch > v.current_epoch;
            let epoch_count = if epoch_rolled {
                0
            } else {
                v.limit_breaks_this_epoch as int
            };
            if epoch_count > LB_MAX_PER_EPOCH {
                Err(HihiError::WorkLimitExceeded)
            } else {
                let rolled = clock.slot - v.current_slot >= BREACH_WINDOW;
                let v1 = if rolled {
                    StateView {
                        breach_count_this_window: 0,
                        current_slot: clock.slot,
                        breach_price: rolled_price,
                        ..v
                    }
                } else {
                    v
                };
                let escalate = epoch_rolled && v1.limit_breaks_this_epoch > LB_DIFF_INCREASE;
                let d2 = if escalate {
                    (v1.difficulty + 1) as u8
                } else {
                    v1.difficulty
                };
                let payout = if escalate {
                    if d2 + LB_DIFF > MAX_DIFF {
                        authority_lamports
                    } else {
                        (v1.lamports * 5 / 100) as u64
                    }
                } else {
                    0
                };
                let lamports2 = if escalate {
                    if d2 + LB_DIFF > MAX_DIFF {
                        0u64
                    } else {
                        (v1.lamports - v1.lamports * 5 / 100) as u64
                    }
                } else {
                    v1.lamports
                };
                let v2 = if epoch_rolled {
                    StateView {
                        difficulty: d2,
                        lamports: lamports2,
                        limit_breaks_this_epoch: 0,
                        current_epoch: clock.epoch,
                        ..v1
                    }
                } else {
                    v1
                };
                let v3 = StateView {
                    breach_count: (v2.breach_count + count) as i32,
                    breach_count_this_window: (v2.breach_count_this_window + count) as u32,
                    limit_breaks_this_epoch: (v2.limit_breaks_this_epoch + 1) as u32,
                    limit_count: (v2.limit_count + 1) as u32,
                    ..v2
                };
                let v4 = if v3.difficulty + LB_DIFF <= MAX_DIFF {
                    StateView {
                        limit_break: limit_break_bytes(
                            clock,
                            v3,
                            instance_id,
                            LB_TOKEN_COUNT,
                            (v3.difficulty + LB_DIFF) as u8,
                        ),
                        ..v3
                    }
                } else {
                    v3
                };
                Ok((v4, v.limit_break[0] as u64, payout))
            }
        }
    }
}

/// The n-of-n gate of an identity change: all three stored admin-class
/// identities must be the ones presented.
pub open spec fn admins_match(v: StateView, one: Seq<u8>, two: Seq<u8>, withdraw: Seq<u8>) -> bool {
    one == v.admin_one_id && two == v.admin_two_id && withdraw == v.withdraw_id
}

/// The record a successful initialization leaves behind: identities and
/// clock markers taken over, the starting price and difficulty set, and the
/// first bonus puzzle issued at `START_DIFF + LB_DIFF`.
pub open spec fn initialized_view(
    v: StateView,
    nonce: u8,
    token_mint_id: Seq<u8>,
    admin_one_id: Seq<u8>,
    admin_two_id: Seq<u8>,
    withdraw_id: Seq<u8>,
    clock: Clock,
    instance_id: Seq<u8>,
    start_price: u64,
) -> StateView {
    let staged = StateView {
        token_mint_id: token_mint_id,
        admin_one_id: admin_one_id,
        admin_two_id: admin_two_id,
        withdraw_id: withdraw_id,
        current_slot: clock.slot,
        current_epoch: clock.epoch,
        breach_price: start_price,
        difficulty: START_DIFF,
        ..v
    };
    StateView {
        limit_break: limit_break_bytes(
            clock,
            staged,
            instance_id,
            LB_TOKEN_COUNT,
            (START_DIFF + LB_DIFF) as u8,
        ),
        nonce: nonce,
        is_initialized: true,
        ..staged
    }
}

impl Processor {
    /// Create the one state record of a deployment: admin and mint
    /// identities, host time markers, the starting price handed over by the
    /// pricing engine, the starting difficulty, and the first bonus puzzle.
    /// The backing storage must already be rent exempt.
    pub fn process_initialize(
        instance: &mut HihiState,
        nonce: u8,
        token_mint_id: &[u8; 32],
        admin_one_id: &[u8; 32],
        admin_two_id: &[u8; 32],
        withdraw_id: &[u8; 32],
        clock: &Clock,
        instance_id: &[u8; 32],
        rent_exempt: bool,
        start_price: u64,
    ) -> (r: Result<(), HihiError>)
        requires
            old(instance)@.wf(),
        ensures
            old(instance).is_initialized ==> r == Err::<(), HihiError>(
                HihiError::AlreadyInitialized,
            ) && *final(instance) == *old(instance),
            !old(instance).is_initialized && !rent_exempt ==> r == Err::<(), HihiError>(
                HihiError::NotRentExempt,
            ) && *final(instance) == *old(instance),
            !old(instance).is_initialized && rent_exempt ==> r == Ok::<(), HihiError>(())
                && final(instance)@ == initialized_view(
                old(instance)@,
                nonce,
                token_mint_id@,
                admin_one_id@,
                admin_two_id@,
                withdraw_id@,
                *clock,
                instance_id@,
                start_price,
            ),
            r matches Ok(()) ==> final(instance)@.wf() && final(instance).is_initialized,
    {
        if instance.is_initialized {
            return Err(HihiError::AlreadyInitialized);
        }
        if !rent_exempt {
            return Err(HihiError::NotRentExempt);
        }
        instance.admin_one_id = *admin_one_id;
        instance.admin_two_id = *admin_two_id;
        instance.withdraw_id = *withdraw_id;
        instance.token_mint_id = *token_mint_id;
        instance.current_slot = clock.slot;
        instance.current_epoch = clock.epoch;
        instance.breach_price = start_price;
        instance.difficulty = START_DIFF;
        let magic_len: u8 = instance.difficulty + LB_DIFF;
        instance.limit_break = create_limit_break(
            clock,
            instance,
            instance_id,
            LB_TOKEN_COUNT,
            magic_len,
        );
        instance.nonce = nonce;
        instance.is_initialized = true;
        proof {
            assert(instance@ =~= initialized_view(
                old(instance)@,
                nonce,
                token_mint_id@,
                admin_one_id@,
                admin_two_id@,
                withdraw_id@,
                *clock,
                instance_id@,
                start_price,
            ));
            assert(instance@.wf());
        }
        Ok(())
    }

    /// Redeem a solved puzzle: the submitted entry must be present in the
    /// work cache byte for byte and pass the proof-of-work gate; the entry
    /// is then removed by swap-with-last and its reward byte is the token
    /// count the host must mint.
    pub fn process_claim(
        instance: &mut HihiState,
        work: &[u8; 57],
        claim_id: &[u8; 32],
        pool_id: &[u8; 32],
        valid_to_id: bool,
    ) -> (r: Result<u64, HihiError>)
        requires
            old(instance)@.wf(),
        ensures
            r matches Err(_) ==> *final(instance) == *old(instance),
            !old(instance).is_initialized ==> r == Err::<u64, HihiError>(HihiError::NotInitialized),
            old(instance).is_initialized && !valid_to_id ==> r == Err::<u64, HihiError>(
                HihiError::InvalidTokenAddress,
            ),
            old(instance).is_initialized && valid_to_id && first_match(old(instance)@.work, work@)
                < 0 ==> r == Err::<u64, HihiError>(HihiError::InvalidClaimHash),
            old(instance).is_initialized && valid_to_id && first_match(old(instance)@.work, work@)
                >= 0 && !claim_matches(work@, claim_id@, pool_id@) ==> r == Err::<u64, HihiError>(
                HihiError::IncorrectClaimSolution,
            ),
            old(instance).is_initialized && valid_to_id && first_match(old(instance)@.work, work@)
                >= 0 && claim_matches(work@, claim_id@, pool_id@) ==> r == Ok::<u64, HihiError>(
                work@[0] as u64,
            ) && final(instance)@ == (StateView {
                work: old(instance)@.work.update(
                    first_match(old(instance)@.work, work@),
                    old(instance)@.work.last(),
                ).drop_last(),
                ..old(instance)@
            }),
            r matches Ok(_) ==> final(instance)@.wf() && final(instance)@.work.len() == old(
                instance,
            )@.work.len() - 1,
    {
        if !instance.is_initialized {
            return Err(HihiError::NotInitialized);
        }
        if !valid_to_id {
            return Err(HihiError::InvalidTokenAddress);
        }
        let ghost w = instance@.work;
        let n: usize = instance.work.len();
        let mut index: usize = 0;
        let mut found: bool = false;
        while index < n && !found
            invariant
                n == instance.work@.len(),
                w == instance@.work,
                index <= n,
                !found ==> forall|k: int| 0 <= k < index ==> w[k] != work@,
                found ==> index < n && w[index as int] == work@ && (forall|k: int|
                    0 <= k < index ==> w[k] != work@),
            decreases n - index, (if found { 0int } else { 1int }),
        {
            if works_equal(&instance.work[index], work) {
                found = true;
            } else {
                index = index + 1;
            }
        }
        if !found {
            proof {
                lemma_first_match_none(w, work@);
            }
            return Err(HihiError::InvalidClaimHash);
        }
        proof {
            lemma_first_match_at(w, work@, index as int);
            assert(entry_wf(w[index as int]));
        }
        check_claim(claim_id, pool_id, work.as_slice())?;
        let tokens: u64 = work[0] as u64;
        let _ = instance.remove_work(index);
        proof {
            assert(final(instance)@ =~= StateView {
                work: old(instance)@.work.update(
                    first_match(old(instance)@.work, work@),
                    old(instance)@.work.last(),
                ).drop_last(),
                ..old(instance)@
            });
            assert forall|i: int| 0 <= i < instance@.work.len() implies entry_wf(
                #[trigger] instance@.work[i],
            ) by {
                assert(instance@.work[i] == old(instance)@.work.update(
                    index as int,
                    old(instance)@.work.last(),
                ).drop_last()[i]);
            }
            assert(instance@.wf());
        }
        Ok(tokens)
    }

    /// Open a Breach purchase: reject payments under the floor or over ten
    /// units at the current price, take the payment's treasury share, and
    /// roll the pricing window when its slots have elapsed (the pricing
    /// engine's freshly computed price arrives as `rolled_price`). Returns
    /// whether the purchase part is active and the reward tier; the host
    /// then converts the payment into whole units against the rolled price
    /// and completes the transition.
    pub fn process_breach_begin(
        instance: &mut HihiState,
        lamports: u64,
        clock: &Clock,
        rolled_price: u64,
    ) -> (r: Result<(bool, u8), HihiError>)
        requires
            old(instance)@.wf(),
            clock.slot >= old(instance).current_slot,
            old(instance).lamports + (lamports / 4) * 3 <= u64::MAX,
            old(instance).breach_price <= u64::MAX / 10,
            rolled_price <= u64::MAX / 10,
        ensures
            r matches Err(e) ==> breach_begin_result(old(instance)@, lamports, *clock, rolled_price)
                == Err::<(StateView, bool, u8), HihiError>(e) && *final(instance) == *old(instance),
            r matches Ok(p) ==> breach_begin_result(old(instance)@, lamports, *clock, rolled_price)
                == Ok::<(StateView, bool, u8), HihiError>((final(instance)@, p.0, p.1)),
            r matches Ok(_) ==> final(instance)@.wf() && final(instance).is_initialized,
    {
        if lamports < 10000 {
            return Err(HihiError::InsufficientFundsForTransaction);
        }
        if !instance.is_initialized {
            return Err(HihiError::NotInitialized);
        }
        let mut b_tokens: i32 = instance.breach_count - instance.breach_count_this_window as i32
            - instance.work_cached as i32;
        if b_tokens < 0 {
            b_tokens = 0;
        }
        let base_tokens: u8 = calculate_tokens(b_tokens);
        let active: bool = instance.difficulty + LB_DIFF <= MAX_DIFF;
        if active {
            let rolled: bool = clock.slot - instance.current_slot >= BREACH_WINDOW as u64;
            let post_price: u64 = if rolled {
                rolled_price
            } else {
                instance.breach_price
            };
            if lamports > post_price * 10 {
                return Err(HihiError::InsufficientFundsForTransaction);
            }
            instance.lamports = instance.lamports + (lamports / 4) * 3;
            if rolled {
                instance.breach_count_this_window = 0;
                instance.current_slot = clock.slot;
                instance.breach_price = rolled_price;
            }
            proof {
                let spec_r = breach_begin_result(old(instance)@, lamports, *clock, rolled_price);
                assert(spec_r matches Ok(t) && t.0 =~= instance@ && t.1 == active && t.2
                    == base_tokens);
            }
            Ok((active, base_tokens))
        } else {
            proof {
                let spec_r = breach_begin_result(old(instance)@, lamports, *clock, rolled_price);
                assert(spec_r matches Ok(t) && t.0 =~= instance@ && t.1 == active && t.2
                    == base_tokens);
            }
            Ok((active, base_tokens))
        }
    }

    /// Complete a Breach purchase with the host's unit conversion. Deferred
    /// units are conserved exactly: what was bought and not materialized
    /// into the cache lands in the deferred counter, and the purchase
    /// counter saturation guard is the only failure.
    #[verifier::rlimit(100)]
    #[verifier::spinoff_prover]
    pub fn process_breach_finish(
        instance: &mut HihiState,
        lamports: u64,
        clock: &Clock,
        instance_id: &[u8; 32],
        breaches: u64,
        new_remain: u64,
        valid_to_id: bool,
        base_tokens: u8,
    ) -> (r: Result<u64, HihiError>)
        requires
            old(instance)@.wf(),
            old(instance).is_initialized,
            breaches <= 10,
            base_tokens >= 10,
            base_tokens <= 100,
        ensures
            r matches Err(e) ==> breach_finish_result(
                old(instance)@,
                lamports,
                *clock,
                instance_id@,
                breaches,
                new_remain,
                valid_to_id,
                base_tokens,
            ) == Err::<(StateView, u64), HihiError>(e) && *final(instance) == *old(instance),
            r matches Ok(tokens) ==> breach_finish_result(
                old(instance)@,
                lamports,
                *clock,
                instance_id@,
                breaches,
                new_remain,
                valid_to_id,
                base_tokens,
            ) == Ok::<(StateView, u64), HihiError>((final(instance)@, tokens)),
            r matches Ok(_) ==> final(instance)@.wf() && final(instance)@.work.len()
                + final(instance).work_cached == old(instance)@.work.len()
                + old(instance).work_cached + breaches,
    {
        if instance.breach_count as i64 + breaches as i64 > i32::MAX as i64 {
            return Err(HihiError::InvalidInstruction);
        }
        let active: bool = instance.difficulty + LB_DIFF <= MAX_DIFF;
        let mut tokens_to_send: u64 = 0;
        if active {
            instance.breach_remain = new_remain;
            if valid_to_id {
                proof {
                    assert(base_tokens as u64 * breaches <= 1000) by (nonlinear_arith)
                        requires
                            base_tokens <= 100,
                            breaches <= 10,
                    ;
                }
                tokens_to_send = base_tokens as u64 * breaches;
            } else {
                instance.token_doubles = instance.token_doubles + breaches;
            }
            if breaches > 0 {
                let magic_len: u8 = instance.difficulty + LB_DIFF;
                instance.limit_break = create_limit_break(
                    clock,
                    instance,
                    instance_id,
                    LB_TOKEN_COUNT,
                    magic_len,
                );
            }
        }
        proof {
            let v = old(instance)@;
            let v1 = if breach_active(v) {
                StateView { breach_remain: new_remain, ..v }
            } else {
                v
            };
            let v2 = if breach_active(v) && !valid_to_id {
                StateView { token_doubles: (v1.token_doubles + breaches) as u64, ..v1 }
            } else {
                v1
            };
            let v3 = if breach_active(v) && breaches > 0 {
                StateView {
                    limit_break: limit_break_bytes(
                        *clock,
                        v2,
                        instance_id@,
                        LB_TOKEN_COUNT,
                        (v2.difficulty + LB_DIFF) as u8,
                    ),
                    ..v2
                }
            } else {
                v2
            };
            assert(instance@ =~= v3);
        }
        let ghost mid = instance@;
        let free: i32 = instance.get_work_free_space();
        if free != 0 {
            let total: u64 = breaches + instance.work_cached;
            let mut count: u64;
            if total <= 10 {
                instance.work_cached = 0;
                count = total;
            } else {
                instance.work_cached = instance.work_cached - (10 - breaches);
                count = 10;
            }
            let remain: i32 = count as i32 - free;
            if remain > 0 {
                instance.work_cached = instance.work_cached + remain as u64;
                count = count - remain as u64;
            }
            let ghost doubles_before = instance.token_doubles;
            let ghost seed = sha256_of(
                puzzles_seed(*clock, instance@, instance_id@, lamports),
            );
            let work = create_hash_puzzles(
                clock,
                count as u8,
                instance,
                instance_id,
                lamports,
                base_tokens,
                instance.difficulty,
            );
            proof {
                lemma_puzzle_chunks(
                    seed,
                    count as u8,
                    doubles_before,
                    base_tokens,
                    instance.difficulty,
                    count as int,
                );
                assert(work.0@.len() / WORK_BYTES as nat == count) by (nonlinear_arith)
                    requires
                        work.0@.len() == count * WORK_BYTES,
                        count <= 100,
                        WORK_BYTES == 57,
                ;
                assert(instance@.work.len() + count <= MAX_COUNT);
            }
            let added = instance.add_work(work.0.as_slice());
            proof {
                assert(added matches Ok(()));
                assert forall|j: int| 0 <= j < count as int implies work_chunks(work.0@)[j]
                    == puzzle_entry(
                    seed,
                    count as u8,
                    doubles_before,
                    base_tokens,
                    instance.difficulty,
                    j,
                ) by {
                    assert(work_chunks(work.0@)[j] == work.0@.subrange(
                        WORK_BYTES * j,
                        WORK_BYTES * j + WORK_BYTES,
                    ));
                }
                assert(work_chunks(work.0@) =~= Seq::new(count as nat, |j: int|
                    puzzle_entry(
                        seed,
                        count as u8,
                        doubles_before,
                        base_tokens,
                        instance.difficulty,
                        j,
                    )));
            }
            instance.token_doubles = work.1;
        } else {
            instance.work_cached = instance.work_cached + breaches;
        }
        instance.breach_count = instance.breach_count + breaches as i32;
        instance.breach_count_this_window = instance.breach_count_this_window + breaches as u32;
        proof {
            assert(instance@ =~= StateView {
                breach_count: (materialized_view(
                    mid,
                    *clock,
                    instance_id@,
                    lamports,
                    breaches,
                    base_tokens,
                ).breach_count + breaches) as i32,
                breach_count_this_window: (materialized_view(
                    mid,
                    *clock,
                    instance_id@,
                    lamports,
                    breaches,
                    base_tokens,
                ).breach_count_this_window + breaches) as u32,
                ..materialized_view(mid, *clock, instance_id@, lamports, breaches, base_tokens)
            });
            let spec_r = breach_finish_result(
                old(instance)@,
                lamports,
                *clock,
                instance_id@,
                breaches,
                new_remain,
                valid_to_id,
                base_tokens,
            );
            assert(spec_r matches Ok(t) && t.0 == instance@ && t.1 == tokens_to_send);
            assert(instance@.wf());
        }
        Ok(tokens_to_send)
    }

    /// Claim the active bonus puzzle. The solution must pass the
    /// proof-of-work gate at the bonus difficulty; success credits purchase
    /// counters with the bonus reward's unit equivalent, may roll the
    /// pricing window and the epoch (escalating difficulty and paying out
    /// treasury on escalation), and reissues the bonus puzzle while the
    /// difficulty ceiling is not reached.
    pub fn process_limit_break(
        instance: &mut HihiState,
        claim_id: &[u8; 32],
        pool_id: &[u8; 32],
        clock: &Clock,
        instance_id: &[u8; 32],
        authority_lamports: u64,
        rolled_price: u64,
        valid_to_id: bool,
    ) -> (r: Result<LimitBreakOutcome, HihiError>)
        requires
            old(instance)@.wf(),
            clock.slot >= old(instance).current_slot,
            clock.epoch >= old(instance).current_epoch,
            old(instance).lamports <= u64::MAX / 5,
            old(instance).limit_count < u32::MAX,
        ensures
            r matches Err(e) ==> limit_break_result(
                old(instance)@,
                claim_id@,
                pool_id@,
                *clock,
                instance_id@,
                authority_lamports,
                rolled_price,
                valid_to_id,
            ) == Err::<(StateView, u64, u64), HihiError>(e) && *final(instance) == *old(instance),
            r matches Ok(outcome) ==> limit_break_result(
                old(instance)@,
                claim_id@,
                pool_id@,
                *clock,
                instance_id@,
                authority_lamports,
                rolled_price,
                valid_to_id,
            ) == Ok::<(StateView, u64, u64), HihiError>(
                (final(instance)@, outcome.tokens, outcome.payout),
            ),
            r matches Ok(_) ==> final(instance)@.wf(),
    {
        if !instance.is_initialized {
            return Err(HihiError::NotInitialized);
        }
        if !valid_to_id {
            return Err(HihiError::InvalidTokenAddress);
        }
        if instance.difficulty + LB_DIFF > MAX_DIFF {
            return Err(HihiError::InvalidInstruction);
        }
        check_claim(claim_id, pool_id, instance.limit_break.as_slice())?;
        let base: u8 = calculate_tokens(instance.breach_count);
        let count: u8 = LB_TOKEN_COUNT / base;
        if instance.breach_count as i64 + count as i64 > i32::MAX as i64 {
            return Err(HihiError::InvalidInstruction);
        }
        let epoch_rolled: bool = clock.epoch > instance.current_epoch;
        let epoch_count: u32 = if epoch_rolled {
            0
        } else {
            instance.limit_breaks_this_epoch
        };
        if epoch_count > LB_MAX_PER_EPOCH as u32 {
            return Err(HihiError::WorkLimitExceeded);
        }
        let tokens: u64 = instance.limit_break[0] as u64;
        if clock.slot - instance.current_slot >= BREACH_WINDOW as u64 {
            instance.breach_count_this_window = 0;
            instance.current_slot = clock.slot;
            instance.breach_price = rolled_price;
        }
        let mut payout: u64 = 0;
        if epoch_rolled {
            if instance.limit_breaks_this_epoch > LB_DIFF_INCREASE as u32 {
                instance.difficulty = instance.difficulty + 1;
                if instance.difficulty + LB_DIFF > MAX_DIFF {
                    payout = authority_lamports;
                    instance.lamports = 0;
                } else {
                    let amount: u64 = instance.lamports * 5 / 100;
                    payout = amount;
                    instance.lamports = instance.lamports - amount;
                }
            }
            instance.limit_breaks_this_epoch = 0;
            instance.current_epoch = clock.epoch;
        }
        instance.breach_count = instance.breach_count + count as i32;
        instance.breach_count_this_window = instance.breach_count_this_window + count as u32;
        instance.limit_breaks_this_epoch = instance.limit_breaks_this_epoch + 1;
        instance.limit_count = instance.limit_count + 1;
        if instance.difficulty + LB_DIFF <= MAX_DIFF {
            let magic_len: u8 = instance.difficulty + LB_DIFF;
            instance.limit_break = create_limit_break(
                clock,
                instance,
                instance_id,
                LB_TOKEN_COUNT,
                magic_len,
            );
        }
        proof {
            let spec_r = limit_break_result(
                old(instance)@,
                claim_id@,
                pool_id@,
                *clock,
                instance_id@,
                authority_lamports,
                rolled_price,
                valid_to_id,
            );
            assert(spec_r matches Ok(t) && t.0 =~= instance@ && t.1 == tokens && t.2 == payout);
            assert(instance@.wf());
        }
        Ok(LimitBreakOutcome { tokens, payout })
    }

    /// Pay out the excess of the real balance over what the game is owed,
    /// to the stored withdraw identity only. The record itself is unchanged.
    pub fn process_withdraw(
        instance: &HihiState,
        withdraw_id: &[u8; 32],
        withdraw_is_signer: bool,
        authority_lamports: u64,
    ) -> (r: Result<u64, HihiError>)
        ensures
            !withdraw_is_signer || withdraw_id@ != instance@.withdraw_id ==> r == Err::<
                u64,
                HihiError,
            >(HihiError::InvalidOwner),
            withdraw_is_signer && withdraw_id@ == instance@.withdraw_id && authority_lamports
                <= instance.lamports ==> r == Err::<u64, HihiError>(
                HihiError::InsufficientFundsForTransaction,
            ),
            withdraw_is_signer && withdraw_id@ == instance@.withdraw_id && authority_lamports
                > instance.lamports ==> r == Ok::<u64, HihiError>(
                (authority_lamports - instance.lamports) as u64,
            ),
    {
        if !withdraw_is_signer || !keys_equal(withdraw_id, &instance.withdraw_id) {
            return Err(HihiError::InvalidOwner);
        }
        if authority_lamports <= instance.lamports {
            return Err(HihiError::InsufficientFundsForTransaction);
        }
        Ok(authority_lamports - instance.lamports)
    }

    /// Replace all three admin-class identities at once; every current and
    /// incoming identity must have co-signed and the current ones must match
    /// the record.
    pub fn process_change_keys(
        instance: &mut HihiState,
        admin_one_id: &[u8; 32],
        admin_two_id: &[u8; 32],
        withdraw_id: &[u8; 32],
        new_admin_one_id: &[u8; 32],
        new_admin_two_id: &[u8; 32],
        new_withdraw_id: &[u8; 32],
        all_signed: bool,
    ) -> (r: Result<(), HihiError>)
        ensures
            !all_signed ==> r == Err::<(), HihiError>(HihiError::InvalidOwner) && *final(instance)
                == *old(instance),
            all_signed && !old(instance).is_initialized ==> r == Err::<(), HihiError>(
                HihiError::NotInitialized,
            ) && *final(instance) == *old(instance),
            all_signed && old(instance).is_initialized && !admins_match(
                old(instance)@,
                admin_one_id@,
                admin_two_id@,
                withdraw_id@,
            ) ==> r == Err::<(), HihiError>(HihiError::InvalidOwner) && *final(instance) == *old(
                instance,
            ),
            all_signed && old(instance).is_initialized && admins_match(
                old(instance)@,
                admin_one_id@,
                admin_two_id@,
                withdraw_id@,
            ) ==> r == Ok::<(), HihiError>(()) && final(instance)@ == (StateView {
                admin_one_id: new_admin_one_id@,
                admin_two_id: new_admin_two_id@,
                withdraw_id: new_withdraw_id@,
                ..old(instance)@
            }),
    {
        if !all_signed {
            return Err(HihiError::InvalidOwner);
        }
        if !instance.is_initialized {
            return Err(HihiError::NotInitialized);
        }
        if !keys_equal(admin_one_id, &instance.admin_one_id) || !keys_equal(
            admin_two_id,
            &instance.admin_two_id,
        ) || !keys_equal(withdraw_id, &instance.withdraw_id) {
            return Err(HihiError::InvalidOwner);
        }
        instance.admin_one_id = *new_admin_one_id;
        instance.admin_two_id = *new_admin_two_id;
        instance.withdraw_id = *new_withdraw_id;
        assert(instance@ =~= StateView {
            admin_one_id: new_admin_one_id@,
            admin_two_id: new_admin_two_id@,
            withdraw_id: new_withdraw_id@,
            ..old(instance)@
        });
        Ok(())
    }
}

} // verus!
