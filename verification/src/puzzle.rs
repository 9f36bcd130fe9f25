//! Deterministic generation of hash-based proof-of-work puzzles, and
//! verification of submitted solutions.

use vstd::prelude::*;
use crate::error::HihiError;
use crate::hashing::{hash_bytes, sha256_of};
use crate::state::{HihiState, StateView, MAGIC, MAGIC_LEN, TOKENS, WORK, WORK_BYTES};
use vstd::bytes::{spec_u32_to_le_bytes, spec_u64_to_le_bytes, u32_to_le_bytes, u64_to_le_bytes};
use vstd::slice::{slice_index_get, slice_subrange, slice_to_vec};

verus! {

/// Host time markers handed to every transition.
#[derive(Clone, Copy, Debug, PartialEq, Eq, Structural)]
pub struct Clock {
    pub slot: u64,
    pub epoch: u64,
    pub unix_timestamp: i64,
}

/// The magic target of a fresh puzzle: the length byte, then the fixed
/// zero-padded magic sequence the claimant's digest prefix must reproduce.
pub open spec fn magic_template(magic_len: u8) -> Seq<u8> {
    seq![
        magic_len,
        33u8,
        232u8,
        0u8,
        0u8,
        0u8,
        0u8,
        0u8,
        0u8,
        0u8,
        0u8,
        0u8,
        0u8,
        0u8,
        0u8,
        0u8,
        0u8,
        0u8,
        0u8,
        0u8,
        0u8,
        0u8,
        0u8,
        0u8,
    ]
}

/// Seed bytes of the bonus puzzle: deployment and mint identities, purchase
/// counters, bonus counter, and the host clock.
pub open spec fn limit_break_seed(clock: Clock, v: StateView, instance_id: Seq<u8>) -> Seq<u8> {
    instance_id + v.token_mint_id + spec_u32_to_le_bytes(v.breach_count as u32)
        + spec_u64_to_le_bytes(v.breach_price) + spec_u32_to_le_bytes(v.limit_count)
        + spec_u64_to_le_bytes(clock.slot) + spec_u64_to_le_bytes(clock.epoch)
        + spec_u64_to_le_bytes(clock.unix_timestamp as u64)
}

/// The bonus puzzle entry: reward byte, single-shot digest, magic target.
pub open spec fn limit_break_bytes(
    clock: Clock,
    v: StateView,
    instance_id: Seq<u8>,
    claimable_tokens: u8,
    magic_len: u8,
) -> Seq<u8> {
    seq![claimable_tokens] + sha256_of(limit_break_seed(clock, v, instance_id)) + magic_template(
        magic_len,
    )
}

/// Seed bytes of an ordinary puzzle batch: identities, the payment, purchase
/// counters, and the host clock.
pub open spec fn puzzles_seed(
    clock: Clock,
    v: StateView,
    instance_id: Seq<u8>,
    lamports_paid: u64,
) -> Seq<u8> {
    instance_id + v.token_mint_id + spec_u64_to_le_bytes(lamports_paid) + spec_u32_to_le_bytes(
        v.breach_count as u32,
    ) + spec_u64_to_le_bytes(v.breach_price) + spec_u64_to_le_bytes(clock.slot)
        + spec_u64_to_le_bytes(clock.epoch) + spec_u64_to_le_bytes(clock.unix_timestamp as u64)
}

/// The hash-chain input of entry `j`: the seed digest extended with the
/// descending counter values appended so far.
pub open spec fn chain_bytes(seed_hash: Seq<u8>, count: u8, j: int) -> Seq<u8> {
    seed_hash + Seq::new((j + 1) as nat, |t: int| (count - 1 - t) as u8)
}

/// Reward byte of entry `j`: doubled while a reward-doubling credit remains.
pub open spec fn entry_tokens(doubles: u64, claimable_tokens: u8, j: int) -> u8 {
    if j < doubles {
        (claimable_tokens * 2) as u8
    } else {
        claimable_tokens
    }
}

/// Entry `j` of an ordinary puzzle batch.
pub open spec fn puzzle_entry(
    seed_hash: Seq<u8>,
    count: u8,
    doubles: u64,
    claimable_tokens: u8,
    magic_len: u8,
    j: int,
) -> Seq<u8> {
    seq![entry_tokens(doubles, claimable_tokens, j)] + sha256_of(
        chain_bytes(seed_hash, count, j),
    ) + magic_template(magic_len)
}

/// The first `n` entries of the batch, packed back to back.
pub open spec fn puzzles_bytes(
    seed_hash: Seq<u8>,
    count: u8,
    doubles: u64,
    claimable_tokens: u8,
    magic_len: u8,
    n: int,
) -> Seq<u8>
    decreases n,
{
    if n <= 0 {
        Seq::empty()
    } else {
        puzzles_bytes(seed_hash, count, doubles, claimable_tokens, magic_len, n - 1)
            + puzzle_entry(seed_hash, count, doubles, claimable_tokens, magic_len, n - 1)
    }
}

/// Build the currently active bonus puzzle from the state and the clock.
pub fn create_limit_break(
    clock: &Clock,
    instance: &HihiState,
    instance_id: &[u8; 32],
    claimable_tokens: u8,
    magic_len: u8,
) -> (r: Vec<u8>)
    ensures
        r@ == limit_break_bytes(*clock, instance@, instance_id@, claimable_tokens, magic_len),
        r@.len() == WORK_BYTES,
        r@[TOKENS + WORK] == magic_len,
{
    let mut data_vec: Vec<u8> = Vec::new();
    data_vec.extend_from_slice(instance_id.as_slice());
    data_vec.extend_from_slice(instance.token_mint_id.as_slice());
    let mut count = u32_to_le_bytes(instance.breach_count as u32);
    data_vec.append(&mut count);
    let mut price = u64_to_le_bytes(instance.breach_price);
    data_vec.append(&mut price);
    let mut limit_count = u32_to_le_bytes(instance.limit_count);
    data_vec.append(&mut limit_count);
    let mut slot = u64_to_le_bytes(clock.slot);
    data_vec.append(&mut slot);
    let mut epoch = u64_to_le_bytes(clock.epoch);
    data_vec.append(&mut epoch);
    let mut ts = u64_to_le_bytes(clock.unix_timestamp as u64);
    data_vec.append(&mut ts);
    assert(data_vec@ =~= limit_break_seed(*clock, instance@, instance_id@));
    let digest = hash_bytes(&data_vec);
    let mut out_vec: Vec<u8> = Vec::new();
    out_vec.push(claimable_tokens);
    out_vec.extend_from_slice(digest.as_slice());
    let magic: [u8; 24] = [
        magic_len,
        33,
        232,
        0,
        0,
        0,
        0,
        0,
        0,
        0,
        0,
        0,
        0,
        0,
        0,
        0,
        0,
        0,
        0,
        0,
        0,
        0,
        0,
        0,
    ];
    out_vec.extend_from_slice(magic.as_slice());
    proof {
        assert(magic@ =~= magic_template(magic_len));
        assert(out_vec@ =~= limit_break_bytes(
            *clock,
            instance@,
            instance_id@,
            claimable_tokens,
            magic_len,
        ));
    }
    out_vec
}

/// Generate a batch of `count` ordinary puzzles along a hash chain seeded
/// from the state, the payment and the clock, doubling rewards while a
/// doubling credit remains. Returns the packed entries and the credits left.
pub fn create_hash_puzzles(
    clock: &Clock,
    count: u8,
    instance: &HihiState,
    instance_id: &[u8; 32],
    lamports_paid: u64,
    claimable_tokens: u8,
    magic_len: u8,
) -> (r: (Vec<u8>, u64))
    requires
        claimable_tokens <= 127,
    ensures
        r.0@ == puzzles_bytes(
            sha256_of(puzzles_seed(*clock, instance@, instance_id@, lamports_paid)),
            count,
            instance.token_doubles,
            claimable_tokens,
            magic_len,
            count as int,
        ),
        r.0@.len() == count as int * WORK_BYTES,
        forall|t: int|
            0 <= t < count as int ==> #[trigger] sha256_of(
                chain_bytes(
                    sha256_of(puzzles_seed(*clock, instance@, instance_id@, lamports_paid)),
                    count,
                    t,
                ),
            ).len() == 32,
        instance.token_doubles >= count as u64 ==> r.1 == instance.token_doubles - count as u64,
        instance.token_doubles < count as u64 ==> r.1 == 0,
{
    let mut data_vec: Vec<u8> = Vec::new();
    data_vec.extend_from_slice(instance_id.as_slice());
    data_vec.extend_from_slice(instance.token_mint_id.as_slice());
    let mut paid = u64_to_le_bytes(lamports_paid);
    data_vec.append(&mut paid);
    let mut bcount = u32_to_le_bytes(instance.breach_count as u32);
    data_vec.append(&mut bcount);
    let mut price = u64_to_le_bytes(instance.breach_price);
    data_vec.append(&mut price);
    let mut slot = u64_to_le_bytes(clock.slot);
    data_vec.append(&mut slot);
    let mut epoch = u64_to_le_bytes(clock.epoch);
    data_vec.append(&mut epoch);
    let mut ts = u64_to_le_bytes(clock.unix_timestamp as u64);
    data_vec.append(&mut ts);
    assert(data_vec@ =~= puzzles_seed(*clock, instance@, instance_id@, lamports_paid));
    let mut hash_vec = hash_bytes(&data_vec);
    let ghost seed_hash = hash_vec@;
    let doubles0: u64 = instance.token_doubles;
    let mut doubles: u64 = doubles0;
    let mut out_vec: Vec<u8> = Vec::new();
    let n: usize = count as usize;
    let mut j: usize = 0;
    proof {
        assert(hash_vec@ =~= seed_hash + Seq::new(0nat, |t: int| (count - 1 - t) as u8));
        assert(out_vec@ =~= puzzles_bytes(seed_hash, count, doubles0, claimable_tokens, magic_len, 0));
    }
    while j < n
        invariant
            n == count as int,
            claimable_tokens <= 127,
            j <= n,
            hash_vec@ == seed_hash + Seq::new(j as nat, |t: int| (count - 1 - t) as u8),
            doubles0 >= j as u64 ==> doubles == doubles0 - j as u64,
            doubles0 < j as u64 ==> doubles == 0,
            out_vec@ == puzzles_bytes(
                seed_hash,
                count,
                doubles0,
                claimable_tokens,
                magic_len,
                j as int,
            ),
            out_vec@.len() == j as int * WORK_BYTES,
            forall|t: int|
                0 <= t < j as int ==> #[trigger] sha256_of(
                    chain_bytes(seed_hash, count, t),
                ).len() == 32,
        decreases n - j,
    {
        let i: u8 = count - 1 - (j as u8);
        hash_vec.push(i);
        assert(hash_vec@ =~= seed_hash + Seq::new((j + 1) as nat, |t: int| (count - 1 - t) as u8));
        if doubles > 0 {
            out_vec.push(claimable_tokens * 2);
            doubles = doubles - 1;
        } else {
            out_vec.push(claimable_tokens);
        }
        let digest = hash_bytes(&hash_vec);
        out_vec.extend_from_slice(digest.as_slice());
        let magic: [u8; 24] = [
            magic_len,
            33,
            232,
            0,
            0,
            0,
            0,
            0,
            0,
            0,
            0,
            0,
            0,
            0,
            0,
            0,
            0,
            0,
            0,
            0,
            0,
            0,
            0,
            0,
        ];
        out_vec.extend_from_slice(magic.as_slice());
        proof {
            assert(magic@ =~= magic_template(magic_len));
            assert(entry_tokens(doubles0, claimable_tokens, j as int) == if (j as int)
                < doubles0 {
                (claimable_tokens * 2) as u8
            } else {
                claimable_tokens
            });
            assert(digest@ == sha256_of(chain_bytes(seed_hash, count, j as int)));
            assert(out_vec@ =~= puzzles_bytes(
                seed_hash,
                count,
                doubles0,
                claimable_tokens,
                magic_len,
                j + 1,
            ));
            assert((j + 1) * WORK_BYTES == j * WORK_BYTES + WORK_BYTES) by (nonlinear_arith);
        }
        j = j + 1;
    }
    (out_vec, doubles)
}

/// The digest a claimant must have matched: the puzzle's challenge digest
/// extended with the claimant and pool identities, hashed once more.
pub open spec fn claim_digest(work: Seq<u8>, claim_id: Seq<u8>, pool_id: Seq<u8>) -> Seq<u8> {
    sha256_of(work.subrange(TOKENS as int, (TOKENS + WORK) as int) + claim_id + pool_id)
}

/// Whether the first `magic_length` bytes of the recomputed digest equal the
/// puzzle's magic prefix.
pub open spec fn claim_matches(work: Seq<u8>, claim_id: Seq<u8>, pool_id: Seq<u8>) -> bool {
    claim_digest(work, claim_id, pool_id).subrange(0, work[(TOKENS + WORK) as int] as int)
        == work.subrange(
        (TOKENS + WORK + MAGIC_LEN) as int,
        (TOKENS + WORK + MAGIC_LEN) as int + work[(TOKENS + WORK) as int] as int,
    )
}

/// The proof-of-work gate: recompute the digest over the challenge and the
/// claimant's identity pair, and accept exactly when its prefix reproduces
/// the magic target. A mismatch is a plain rejection, never fatal.
pub fn check_claim(claim_id: &[u8; 32], pool_id: &[u8; 32], work: &[u8]) -> (r: Result<
    (),
    HihiError,
>)
    requires
        work@.len() == WORK_BYTES,
        work@[(TOKENS + WORK) as int] <= MAGIC as u8,
    ensures
        r matches Ok(()) <==> claim_matches(work@, claim_id@, pool_id@),
        r matches Err(e) ==> e == HihiError::IncorrectClaimSolution,
{
    let sha = slice_subrange(work, TOKENS, TOKENS + WORK);
    let mag_len: u8 = *slice_index_get(work, TOKENS + WORK);
    let mut data_vec = slice_to_vec(sha);
    data_vec.extend_from_slice(claim_id.as_slice());
    data_vec.extend_from_slice(pool_id.as_slice());
    assert(data_vec@ =~= work@.subrange(TOKENS as int, (TOKENS + WORK) as int) + claim_id@
        + pool_id@);
    let hash_vec = hash_bytes(&data_vec);
    let mlen: usize = mag_len as usize;
    let base: usize = TOKENS + WORK + MAGIC_LEN;
    let mut k: usize = 0;
    while k < mlen
        invariant
            mlen == work@[(TOKENS + WORK) as int] as int,
            mlen <= MAGIC,
            base == TOKENS + WORK + MAGIC_LEN,
            work@.len() == WORK_BYTES,
            hash_vec@ == claim_digest(work@, claim_id@, pool_id@),
            hash_vec@.len() == 32,
            k <= mlen,
            forall|t: int| 0 <= t < k ==> hash_vec@[t] == work@[base + t],
        decreases mlen - k,
    {
        let h: u8 = hash_vec[k];
        let m: u8 = *slice_index_get(work, base + k);
        if h != m {
            proof {
                let d = claim_digest(work@, claim_id@, pool_id@).subrange(0, mlen as int);
                let p = work@.subrange(base as int, base + mlen);
                assert(d[k as int] != p[k as int]);
                assert(!claim_matches(work@, claim_id@, pool_id@));
            }
            return Err(HihiError::IncorrectClaimSolution);
        }
        k = k + 1;
    }
    proof {
        assert(claim_digest(work@, claim_id@, pool_id@).subrange(0, mlen as int) =~= work@
            .subrange(base as int, base + mlen));
    }
    Ok(())
}

/// Puzzle generation is deterministic: two batches built from the same
/// identities, counters, payment, clock values and doubling credit are byte
/// for byte identical, whatever else may differ between the two states.
pub proof fn lemma_puzzle_determinism(
    clock_a: Clock,
    clock_b: Clock,
    a: StateView,
    b: StateView,
    id_a: Seq<u8>,
    id_b: Seq<u8>,
    lamports_a: u64,
    lamports_b: u64,
    count: u8,
    claimable_tokens: u8,
    magic_len: u8,
)
    requires
        clock_a == clock_b,
        id_a == id_b,
        lamports_a == lamports_b,
        a.token_mint_id == b.token_mint_id,
        a.breach_count == b.breach_count,
        a.breach_price == b.breach_price,
        a.token_doubles == b.token_doubles,
    ensures
        puzzles_bytes(
            sha256_of(puzzles_seed(clock_a, a, id_a, lamports_a)),
            count,
            a.token_doubles,
            claimable_tokens,
            magic_len,
            count as int,
        ) == puzzles_bytes(
            sha256_of(puzzles_seed(clock_b, b, id_b, lamports_b)),
            count,
            b.token_doubles,
            claimable_tokens,
            magic_len,
            count as int,
        ),
{
    assert(puzzles_seed(clock_a, a, id_a, lamports_a) == puzzles_seed(
        clock_b,
        b,
        id_b,
        lamports_b,
    ));
}

/// The bonus puzzle is deterministic in the same way.
pub proof fn lemma_limit_break_determinism(
    clock_a: Clock,
    clock_b: Clock,
    a: StateView,
    b: StateView,
    id_a: Seq<u8>,
    id_b: Seq<u8>,
    claimable_tokens: u8,
    magic_len: u8,
)
    requires
        clock_a == clock_b,
        id_a == id_b,
        a.token_mint_id == b.token_mint_id,
        a.breach_count == b.breach_count,
        a.breach_price == b.breach_price,
        a.limit_count == b.limit_count,
    ensures
        limit_break_bytes(clock_a, a, id_a, claimable_tokens, magic_len) == limit_break_bytes(
            clock_b,
            b,
            id_b,
            claimable_tokens,
            magic_len,
        ),
{
    assert(limit_break_seed(clock_a, a, id_a) == limit_break_seed(clock_b, b, id_b));
}

/// A packed batch splits back into its entries: when every digest in it has
/// its 32 bytes, entry `j` occupies exactly the bytes
/// `[WORK_BYTES * j, WORK_BYTES * (j + 1))`.
pub proof fn lemma_puzzle_chunks(
    seed_hash: Seq<u8>,
    count: u8,
    doubles: u64,
    claimable_tokens: u8,
    magic_len: u8,
    n: int,
)
    requires
        0 <= n <= count,
        forall|t: int|
            0 <= t < count as int ==> #[trigger] sha256_of(
                chain_bytes(seed_hash, count, t),
            ).len() == 32,
    ensures
        puzzles_bytes(seed_hash, count, doubles, claimable_tokens, magic_len, n).len() == n
            * WORK_BYTES,
        forall|j: int|
            0 <= j < n ==> #[trigger] puzzles_bytes(
                seed_hash,
                count,
                doubles,
                claimable_tokens,
                magic_len,
                n,
            ).subrange(WORK_BYTES * j, WORK_BYTES * j + WORK_BYTES) == puzzle_entry(
                seed_hash,
                count,
                doubles,
                claimable_tokens,
                magic_len,
                j,
            ),
    decreases n,
{
    if n <= 0 {
        assert(n * WORK_BYTES == 0) by (nonlinear_arith)
            requires
                n == 0,
        ;
    }
    if n > 0 {
        lemma_puzzle_chunks(seed_hash, count, doubles, claimable_tokens, magic_len, n - 1);
        let prefix = puzzles_bytes(seed_hash, count, doubles, claimable_tokens, magic_len, n - 1);
        let whole = puzzles_bytes(seed_hash, count, doubles, claimable_tokens, magic_len, n);
        let last = puzzle_entry(seed_hash, count, doubles, claimable_tokens, magic_len, n - 1);
        assert(last.len() == WORK_BYTES);
        assert(whole.len() == n * WORK_BYTES) by (nonlinear_arith)
            requires
                whole.len() == prefix.len() + last.len(),
                prefix.len() == (n - 1) * WORK_BYTES,
                last.len() == WORK_BYTES,
        ;
        assert forall|j: int| 0 <= j < n implies #[trigger] whole.subrange(
            WORK_BYTES * j,
            WORK_BYTES * j + WORK_BYTES,
        ) == puzzle_entry(seed_hash, count, doubles, claimable_tokens, magic_len, j) by {
            assert(0 <= WORK_BYTES * j && WORK_BYTES * j + WORK_BYTES <= n * WORK_BYTES)
                by (nonlinear_arith)
                requires
                    0 <= j < n,
                    WORK_BYTES == 57,
            ;
            if j < n - 1 {
                assert(WORK_BYTES * j + WORK_BYTES <= (n - 1) * WORK_BYTES) by (nonlinear_arith)
                    requires
                        0 <= j < n - 1,
                        WORK_BYTES == 57,
                ;
                assert(whole.subrange(WORK_BYTES * j, WORK_BYTES * j + WORK_BYTES) =~= prefix
                    .subrange(WORK_BYTES * j, WORK_BYTES * j + WORK_BYTES));
            } else {
                assert(WORK_BYTES * j == prefix.len()) by (nonlinear_arith)
                    requires
                        j == n - 1,
                        prefix.len() == (n - 1) * WORK_BYTES,
                ;
                assert(whole.subrange(WORK_BYTES * j, WORK_BYTES * j + WORK_BYTES) =~= last);
            }
        }
    }
}

} // verus!
