//! The single persistent state record, its invariants, and the bounded work
//! cache it carries.

use vstd::prelude::*;
use vstd::bytes::{spec_u32_from_le_bytes, spec_u32_to_le_bytes, spec_u64_from_le_bytes,
    spec_u64_to_le_bytes, u32_from_le_bytes, u32_to_le_bytes, u64_from_le_bytes, u64_to_le_bytes,
    lemma_auto_spec_u32_to_from_le_bytes, lemma_auto_spec_u64_to_from_le_bytes};
use vstd::slice::{slice_index_get, slice_subrange, slice_to_vec};
use crate::error::HihiError;

verus! {

pub const TOKENS: usize = 1;

pub const WORK: usize = 32;

pub const MAGIC_LEN: usize = 1;

pub const MAGIC: usize = 23;

/// Size in bytes of one puzzle entry:
/// `reward_units | challenge_digest | magic_length | magic_prefix`.
pub const WORK_BYTES: usize = TOKENS + WORK + MAGIC_LEN + MAGIC;

pub const LB_BYTES: usize = TOKENS + WORK + MAGIC_LEN + MAGIC;

pub const LB_COUNT_BYTES: usize = 4;

pub const LB_PER_EPOCH_BYTES: usize = 4;

/// Capacity of the work cache.
pub const MAX_COUNT: usize = 101;

pub const INITIALIZED_BYTES: usize = 1;

pub const NONCE_BYTES: usize = 1;

pub const SLOT_BYTES: usize = 8;

pub const EPOCH_BYTES: usize = 8;

pub const DIFFICULTY_BYTES: usize = 1;

pub const LAMPORTS_BYTES: usize = 8;

pub const PRICE_BYTES: usize = 8;

pub const REMAIN_BYTES: usize = 8;

pub const COUNT_BYTES: usize = 4;

pub const COUNT_PER_WINDOW_BYTES: usize = 4;

pub const CACHED_BYTES: usize = 8;

pub const TOKEN_MINT_ID_BYTES: usize = 32;

pub const TOKEN_DOUBLES_BYTES: usize = 8;

pub const ADMIN_ONE_BYTES: usize = 32;

pub const ADMIN_TWO_BYTES: usize = 32;

pub const WITHDRAW_BYTES: usize = 32;

pub const VEC_COUNT: usize = 1;

pub const VEC_DATA_LENGTH: usize = 4;

/// Reserved space for the packed work list.
pub const VEC_DATA: usize = WORK_BYTES * MAX_COUNT;

/// Total size of the packed state record.
pub const STATE_SPACE: usize = INITIALIZED_BYTES + NONCE_BYTES + SLOT_BYTES + EPOCH_BYTES
    + DIFFICULTY_BYTES + LAMPORTS_BYTES + PRICE_BYTES + REMAIN_BYTES + COUNT_BYTES
    + COUNT_PER_WINDOW_BYTES + CACHED_BYTES + TOKEN_MINT_ID_BYTES + TOKEN_DOUBLES_BYTES
    + LB_COUNT_BYTES + LB_PER_EPOCH_BYTES + LB_BYTES + ADMIN_ONE_BYTES + ADMIN_TWO_BYTES
    + WITHDRAW_BYTES + VEC_COUNT + VEC_DATA_LENGTH + VEC_DATA;

/// The persistent record: one instance per deployment.
#[derive(Debug)]
pub struct HihiState {
    pub is_initialized: bool,
    pub token_mint_id: [u8; 32],
    pub token_doubles: u64,
    pub nonce: u8,
    pub current_slot: u64,
    pub current_epoch: u64,
    pub difficulty: u8,
    pub lamports: u64,
    pub breach_price: u64,
    pub breach_remain: u64,
    pub breach_count: i32,
    pub breach_count_this_window: u32,
    pub limit_count: u32,
    pub limit_breaks_this_epoch: u32,
    pub admin_one_id: [u8; 32],
    pub admin_two_id: [u8; 32],
    pub withdraw_id: [u8; 32],
    pub limit_break: Vec<u8>,
    pub work_cached: u64,
    pub work: Vec<Vec<u8>>,
}

/// Mathematical image of the record: byte strings as sequences.
#[verifier::ext_equal]
pub struct StateView {
    pub is_initialized: bool,
    pub token_mint_id: Seq<u8>,
    pub token_doubles: u64,
    pub nonce: u8,
    pub current_slot: u64,
    pub current_epoch: u64,
    pub difficulty: u8,
    pub lamports: u64,
    pub breach_price: u64,
    pub breach_remain: u64,
    pub breach_count: i32,
    pub breach_count_this_window: u32,
    pub limit_count: u32,
    pub limit_breaks_this_epoch: u32,
    pub admin_one_id: Seq<u8>,
    pub admin_two_id: Seq<u8>,
    pub withdraw_id: Seq<u8>,
    pub limit_break: Seq<u8>,
    pub work_cached: u64,
    pub work: Seq<Seq<u8>>,
}

impl View for HihiState {
    type V = StateView;

    open spec fn view(&self) -> StateView {
        StateView {
            is_initialized: self.is_initialized,
            token_mint_id: self.token_mint_id@,
            token_doubles: self.token_doubles,
            nonce: self.nonce,
            current_slot: self.current_slot,
            current_epoch: self.current_epoch,
            difficulty: self.difficulty,
            lamports: self.lamports,
            breach_price: self.breach_price,
            breach_remain: self.breach_remain,
            breach_count: self.breach_count,
            breach_count_this_window: self.breach_count_this_window,
            limit_count: self.limit_count,
            limit_breaks_this_epoch: self.limit_breaks_this_epoch,
            admin_one_id: self.admin_one_id@,
            admin_two_id: self.admin_two_id@,
            withdraw_id: self.withdraw_id@,
            limit_break: self.limit_break@,
            work_cached: self.work_cached,
            work: Seq::new(self.work@.len(), |i: int| self.work@[i]@),
        }
    }
}

/// A well-formed puzzle entry: fixed size, magic length within the prefix.
pub open spec fn entry_wf(e: Seq<u8>) -> bool {
    &&& e.len() == WORK_BYTES
    &&& e[TOKENS + WORK] <= MAGIC as u8
}

impl StateView {
    /// Invariant of every state the machine can reach.
    ///
    /// Before initialization the record is pristine: all counters zero and
    /// both puzzle holders empty. Afterwards the work cache always keeps one
    /// slot of headroom, every cached entry is well formed, the purchase
    /// counter never goes negative, and the per-window and deferred counters
    /// never outrun it.
    pub open spec fn wf(self) -> bool {
        &&& self.token_mint_id.len() == 32
        &&& self.admin_one_id.len() == 32
        &&& self.admin_two_id.len() == 32
        &&& self.withdraw_id.len() == 32
        &&& if self.is_initialized {
            &&& self.work.len() < MAX_COUNT
            &&& forall|i: int| 0 <= i < self.work.len() ==> entry_wf(#[trigger] self.work[i])
            &&& entry_wf(self.limit_break)
            &&& self.breach_count >= 0
            &&& self.breach_count_this_window as int <= self.breach_count as int
            &&& self.work_cached as int <= self.breach_count as int
            &&& self.token_doubles as int <= self.breach_count as int
            &&& self.difficulty <= 23
            &&& self.limit_breaks_this_epoch <= 24
        } else {
            &&& self.work.len() == 0
            &&& self.limit_break.len() == 0
            &&& self.token_doubles == 0
            &&& self.nonce == 0
            &&& self.current_slot == 0
            &&& self.current_epoch == 0
            &&& self.difficulty == 0
            &&& self.lamports == 0
            &&& self.breach_price == 0
            &&& self.breach_remain == 0
            &&& self.breach_count == 0
            &&& self.breach_count_this_window == 0
            &&& self.limit_count == 0
            &&& self.limit_breaks_this_epoch == 0
            &&& self.work_cached == 0
        }
    }
}

/// The chunks of `WORK_BYTES` bytes at the front of `data`, in order.
pub open spec fn work_chunks(data: Seq<u8>) -> Seq<Seq<u8>> {
    Seq::new((data.len() / WORK_BYTES as nat) as nat, |j: int|
        data.subrange(WORK_BYTES * j, WORK_BYTES * j + WORK_BYTES))
}

impl HihiState {
    pub open spec fn wf(&self) -> bool {
        self@.wf()
    }

    pub fn set_initialized(&mut self)
        ensures
            final(self)@ == (StateView { is_initialized: true, ..old(self)@ }),
    {
        self.is_initialized = true;
        assert(final(self)@ =~= StateView { is_initialized: true, ..old(self)@ });
    }

    /// Append the puzzle entries packed back to back in `work`, refusing the
    /// batch whole if it would overrun the capacity.
    pub fn add_work(&mut self, work: &[u8]) -> (r: Result<(), HihiError>)
        ensures
            old(self)@.work.len() + work@.len() / WORK_BYTES as nat <= MAX_COUNT ==> (r
                matches Ok(()) && final(self)@ == (StateView {
                work: old(self)@.work + work_chunks(work@),
                ..old(self)@
            })),
            old(self)@.work.len() + work@.len() / WORK_BYTES as nat > MAX_COUNT ==> (r
                matches Err(e) && e == HihiError::WorkLimitExceeded && final(self)@ == old(
                self,
            )@),
    {
        let total: usize = work.len();
        let count: usize = total / WORK_BYTES;
        let mut pos: usize = 0;
        if self.work.len() <= MAX_COUNT && count <= MAX_COUNT - self.work.len() {
            let mut done: usize = 0;
            while done < count
                invariant
                    total == work@.len(),
                    count == total / WORK_BYTES,
                    pos == done * WORK_BYTES,
                    done <= count,
                    self@ == (StateView {
                        work: old(self)@.work + work_chunks(work@).take(done as int),
                        ..old(self)@
                    }),
                decreases count - done,
            {
                proof {
                    assert(done * WORK_BYTES + WORK_BYTES <= total) by (nonlinear_arith)
                        requires
                            done < count,
                            count == total / WORK_BYTES,
                            WORK_BYTES == 57,
                    ;
                }
                proof {
                    assert(self@.work == old(self)@.work + work_chunks(work@).take(done as int));
                    assert(self.work@.len() == old(self)@.work.len() + done);
                }
                let w = vstd::slice::slice_subrange(work, pos, pos + WORK_BYTES);
                let wv = vstd::slice::slice_to_vec(w);
                self.work.push(wv);
                proof {
                    assert(done < work_chunks(work@).len());
                    assert(work_chunks(work@)[done as int] == work@.subrange(
                        WORK_BYTES * done,
                        WORK_BYTES * done + WORK_BYTES,
                    ));
                    assert(WORK_BYTES * done == pos as int && WORK_BYTES * done + WORK_BYTES == pos
                        + WORK_BYTES) by (nonlinear_arith)
                        requires
                            pos == done * WORK_BYTES,
                    ;
                    assert(wv@ == work@.subrange(pos as int, pos + WORK_BYTES));
                    let pre_work = old(self)@.work + work_chunks(work@).take(done as int);
                    let post_work = old(self)@.work + work_chunks(work@).take(done + 1);
                    assert(self@.work.len() == post_work.len());
                    assert forall|i: int| 0 <= i < post_work.len() implies self@.work[i]
                        == post_work[i] by {
                        if i < pre_work.len() {
                            assert(self@.work[i] == pre_work[i]);
                        } else {
                            assert(i == pre_work.len());
                            assert(self@.work[i] == wv@);
                            assert(post_work[i] == work_chunks(work@)[done as int]);
                        }
                    }
                    assert(self@.work =~= old(self)@.work + work_chunks(work@).take(
                        done + 1,
                    ));
                    assert(self@ =~= StateView {
                        work: old(self)@.work + work_chunks(work@).take(done + 1),
                        ..old(self)@
                    });
                }
                pos = pos + WORK_BYTES;
                done = done + 1;
            }
            proof {
                assert(work_chunks(work@).take(count as int) =~= work_chunks(work@));
                assert(self@ =~= StateView {
                    work: old(self)@.work + work_chunks(work@),
                    ..old(self)@
                });
            }
            Ok(())
        } else {
            Err(HihiError::WorkLimitExceeded)
        }
    }

    /// Swap-with-last removal: O(1) and not order-preserving.
    /// The index must be in bounds.
    pub fn remove_work(&mut self, index: usize) -> (r: Result<(), HihiError>)
        requires
            index < old(self)@.work.len(),
        ensures
            r matches Ok(()),
            final(self)@ == (StateView {
                work: old(self)@.work.update(index as int, old(self)@.work.last()).drop_last(),
                ..old(self)@
            }),
    {
        self.work.swap_remove(index);
        proof {
            assert(self@.work =~= old(self)@.work.update(
                index as int,
                old(self)@.work.last(),
            ).drop_last());
            assert(self@ =~= StateView {
                work: old(self)@.work.update(index as int, old(self)@.work.last()).drop_last(),
                ..old(self)@
            });
        }
        Ok(())
    }

    pub fn get_work_bytes() -> (r: usize)
        ensures
            r == WORK_BYTES,
    {
        WORK_BYTES
    }

    /// Free slots of the work cache, always reserving one slot of headroom.
    pub fn get_work_free_space(&self) -> (r: i32)
        requires
            self@.work.len() < MAX_COUNT,
        ensures
            r == MAX_COUNT - self@.work.len() - 1,
    {
        (MAX_COUNT - self.work.len() - 1) as i32
    }

    pub fn get_space(&self) -> (r: usize)
        ensures
            r == STATE_SPACE,
    {
        STATE_SPACE
    }
}

// Byte layout of the packed record. Offsets:
//   0 initialized | 1 nonce | 2 slot | 10 epoch | 18 difficulty
//   19 lamports | 27 breach_price | 35 breach_remain | 43 breach_count
//   47 breach_count_this_window | 51 work_cached | 59 token_mint_id
//   91 token_doubles | 99 limit_count | 103 limit_breaks_this_epoch
//   107 admin_one_id | 139 admin_two_id | 171 withdraw_id | 203 limit_break
//   260 work count | 261 work used length | 265 work entries
/// Byte `i` of the encoded record. Bytes of the work region beyond the used
/// entries keep whatever the buffer held before (`prev`).
pub open spec fn packed_byte(v: StateView, prev: Seq<u8>, i: int) -> u8 {
    if i < 1 {
        if v.is_initialized {
            1u8
        } else {
            0u8
        }
    } else if i < 2 {
        v.nonce
    } else if i < 10 {
        spec_u64_to_le_bytes(v.current_slot)[i - 2]
    } else if i < 18 {
        spec_u64_to_le_bytes(v.current_epoch)[i - 10]
    } else if i < 19 {
        v.difficulty
    } else if i < 27 {
        spec_u64_to_le_bytes(v.lamports)[i - 19]
    } else if i < 35 {
        spec_u64_to_le_bytes(v.breach_price)[i - 27]
    } else if i < 43 {
        spec_u64_to_le_bytes(v.breach_remain)[i - 35]
    } else if i < 47 {
        spec_u32_to_le_bytes(v.breach_count as u32)[i - 43]
    } else if i < 51 {
        spec_u32_to_le_bytes(v.breach_count_this_window)[i - 47]
    } else if i < 59 {
        spec_u64_to_le_bytes(v.work_cached)[i - 51]
    } else if i < 91 {
        v.token_mint_id[i - 59]
    } else if i < 99 {
        spec_u64_to_le_bytes(v.token_doubles)[i - 91]
    } else if i < 103 {
        spec_u32_to_le_bytes(v.limit_count)[i - 99]
    } else if i < 107 {
        spec_u32_to_le_bytes(v.limit_breaks_this_epoch)[i - 103]
    } else if i < 139 {
        v.admin_one_id[i - 107]
    } else if i < 171 {
        v.admin_two_id[i - 139]
    } else if i < 203 {
        v.withdraw_id[i - 171]
    } else if i < 260 {
        v.limit_break[i - 203]
    } else if i < 261 {
        v.work.len() as u8
    } else if i < 265 {
        spec_u32_to_le_bytes((v.work.len() * WORK_BYTES) as u32)[i - 261]
    } else if i - 265 < WORK_BYTES * v.work.len() {
        v.work[(i - 265) / (WORK_BYTES as int)][(i - 265) % (WORK_BYTES as int)]
    } else {
        prev[i]
    }
}

/// The whole encoded record: what `pack_into_slice` leaves in a buffer that
/// held `prev`.
pub open spec fn packed_spec(v: StateView, prev: Seq<u8>) -> Seq<u8> {
    Seq::new(STATE_SPACE as nat, |i: int| packed_byte(v, prev, i))
}

/// What `unpack_from_slice` yields from an encoded record. An uninitialized
/// record keeps only its identity bytes; its counters and puzzle holders are
/// never trusted.
pub open spec fn unpacked_spec(b: Seq<u8>) -> Result<StateView, HihiError> {
    if b[0] == 0 {
        Ok(StateView {
            is_initialized: false,
            token_mint_id: b.subrange(59, 91),
            token_doubles: 0,
            nonce: 0,
            current_slot: 0,
            current_epoch: 0,
            difficulty: 0,
            lamports: 0,
            breach_price: 0,
            breach_remain: 0,
            breach_count: 0,
            breach_count_this_window: 0,
            limit_count: 0,
            limit_breaks_this_epoch: 0,
            admin_one_id: b.subrange(107, 139),
            admin_two_id: b.subrange(139, 171),
            withdraw_id: b.subrange(171, 203),
            limit_break: Seq::empty(),
            work_cached: 0,
            work: Seq::empty(),
        })
    } else if b[0] == 1 {
        Ok(StateView {
            is_initialized: true,
            token_mint_id: b.subrange(59, 91),
            token_doubles: spec_u64_from_le_bytes(b.subrange(91, 99)),
            nonce: b[1],
            current_slot: spec_u64_from_le_bytes(b.subrange(2, 10)),
            current_epoch: spec_u64_from_le_bytes(b.subrange(10, 18)),
            difficulty: b[18],
            lamports: spec_u64_from_le_bytes(b.subrange(19, 27)),
            breach_price: spec_u64_from_le_bytes(b.subrange(27, 35)),
            breach_remain: spec_u64_from_le_bytes(b.subrange(35, 43)),
            breach_count: spec_u32_from_le_bytes(b.subrange(43, 47)) as i32,
            breach_count_this_window: spec_u32_from_le_bytes(b.subrange(47, 51)),
            limit_count: spec_u32_from_le_bytes(b.subrange(99, 103)),
            limit_breaks_this_epoch: spec_u32_from_le_bytes(b.subrange(103, 107)),
            admin_one_id: b.subrange(107, 139),
            admin_two_id: b.subrange(139, 171),
            withdraw_id: b.subrange(171, 203),
            limit_break: b.subrange(203, 260),
            work_cached: spec_u64_from_le_bytes(b.subrange(51, 59)),
            work: Seq::new(b[260] as nat, |j: int|
                b.subrange(265 + WORK_BYTES * j, 265 + WORK_BYTES * j + WORK_BYTES)),
        })
    } else {
        Err(HihiError::DeserializationFailure)
    }
}

/// The image of an executable decode result in the mathematical model.
pub open spec fn result_view(r: Result<HihiState, HihiError>) -> Result<StateView, HihiError> {
    match r {
        Ok(s) => Ok(s@),
        Err(e) => Err(e),
    }
}

/// Overwrite `output[offset..offset + data.len()]` with `data`, leaving every
/// other byte alone.
fn write_at(output: &mut Vec<u8>, offset: usize, data: &[u8])
    requires
        offset + data@.len() <= old(output)@.len(),
    ensures
        final(output)@.len() == old(output)@.len(),
        forall|i: int| 0 <= i < data@.len() ==> final(output)@[offset + i] == data@[i],
        forall|i: int|
            0 <= i < old(output)@.len() && !(offset <= i < offset + data@.len())
                ==> final(output)@[i] == old(output)@[i],
{
    let n: usize = data.len();
    let total: usize = output.len();
    let mut k: usize = 0;
    while k < n
        invariant
            n == data@.len(),
            total == old(output)@.len(),
            offset + n <= old(output)@.len(),
            k <= n,
            output@.len() == old(output)@.len(),
            forall|i: int| 0 <= i < k ==> output@[offset + i] == data@[i],
            forall|i: int|
                0 <= i < old(output)@.len() && !(offset <= i < offset + k) ==> output@[i] == old(
                    output,
                )@[i],
        decreases n - k,
    {
        let b: u8 = *slice_index_get(data, k);
        output[offset + k] = b;
        k = k + 1;
    }
}

/// Concatenate the first `WORK_BYTES` bytes of each puzzle entry.
pub fn pack_vec_of_vec(args: &Vec<Vec<u8>>) -> (r: Vec<u8>)
    requires
        forall|j: int| 0 <= j < args@.len() ==> (#[trigger] args@[j])@.len() >= WORK_BYTES,
        args@.len() * WORK_BYTES <= usize::MAX,
    ensures
        r@.len() == args@.len() * WORK_BYTES,
        forall|i: int|
            0 <= i < r@.len() ==> r@[i] == args@[i / (WORK_BYTES as int)]@[i % (
            WORK_BYTES as int)],
{
    let mut buf = Vec::<u8>::new();
    let count: usize = args.len();
    let mut j: usize = 0;
    while j < count
        invariant
            count == args@.len(),
            count * WORK_BYTES <= usize::MAX,
            j <= count,
            forall|t: int| 0 <= t < count ==> (#[trigger] args@[t])@.len() >= WORK_BYTES,
            buf@.len() == j * WORK_BYTES,
            forall|i: int|
                0 <= i < buf@.len() ==> buf@[i] == args@[i / (WORK_BYTES as int)]@[i % (
                WORK_BYTES as int)],
        decreases count - j,
    {
        proof {
            assert(j * WORK_BYTES + WORK_BYTES <= count * WORK_BYTES) by (nonlinear_arith)
                requires
                    j < count,
                    WORK_BYTES == 57,
            ;
        }
        let entry: &Vec<u8> = &args[j];
        let mut k: usize = 0;
        while k < WORK_BYTES
            invariant
                count == args@.len(),
                j < count,
                forall|t: int| 0 <= t < count ==> (#[trigger] args@[t])@.len() >= WORK_BYTES,
                entry == &args@[j as int],
                k <= WORK_BYTES,
                buf@.len() == j * WORK_BYTES + k,
                forall|i: int|
                    0 <= i < j * WORK_BYTES ==> buf@[i] == args@[i / (WORK_BYTES as int)]@[i % (
                    WORK_BYTES as int)],
                forall|i: int|
                    j * WORK_BYTES <= i < buf@.len() ==> buf@[i] == entry@[i - j * WORK_BYTES],
            decreases WORK_BYTES - k,
        {
            buf.push(entry[k]);
            k = k + 1;
        }
        proof {
            assert forall|i: int| j * WORK_BYTES <= i < buf@.len() implies buf@[i] == args@[i / (
            WORK_BYTES as int)]@[i % (WORK_BYTES as int)] by {
                assert(i / (WORK_BYTES as int) == j as int && i % (WORK_BYTES as int) == i - j
                    * WORK_BYTES) by (nonlinear_arith)
                    requires
                        j * WORK_BYTES <= i < j * WORK_BYTES + WORK_BYTES,
                        WORK_BYTES == 57,
                ;
            }
        }
        proof {
            assert((j + 1) * WORK_BYTES == j * WORK_BYTES + WORK_BYTES) by (nonlinear_arith);
        }
        j = j + 1;
    }
    buf
}

/// Split the used prefix of the packed work region back into entries.
pub fn unpack_vec_of_vec(slice: &[u8], count: u8) -> (r: Vec<Vec<u8>>)
    requires
        count as int * WORK_BYTES <= slice@.len(),
    ensures
        r@.len() == count as int,
        forall|j: int|
            0 <= j < count as int ==> (#[trigger] r@[j])@ == slice@.subrange(
                WORK_BYTES * j,
                WORK_BYTES * j + WORK_BYTES,
            ),
{
    let mut buf = Vec::<Vec<u8>>::new();
    let mut j: usize = 0;
    let n: usize = count as usize;
    let sl: usize = slice.len();
    while j < n
        invariant
            n == count as int,
            sl == slice@.len(),
            n as int * WORK_BYTES <= slice@.len(),
            j <= n,
            buf@.len() == j as int,
            forall|t: int|
                0 <= t < j as int ==> (#[trigger] buf@[t])@ == slice@.subrange(
                    WORK_BYTES * t,
                    WORK_BYTES * t + WORK_BYTES,
                ),
        decreases n - j,
    {
        proof {
            assert(j * WORK_BYTES + WORK_BYTES <= n * WORK_BYTES) by (nonlinear_arith)
                requires
                    j < n,
                    WORK_BYTES == 57,
            ;
            assert(n * WORK_BYTES <= sl);
            assert(WORK_BYTES * j == j * WORK_BYTES) by (nonlinear_arith);
        }
        let w = slice_subrange(slice, j * WORK_BYTES, j * WORK_BYTES + WORK_BYTES);
        let wv = slice_to_vec(w);
        buf.push(wv);
        j = j + 1;
    }
    buf
}

impl HihiState {
    /// Encode the record into a buffer of exactly `STATE_SPACE` bytes. Work
    /// region bytes past the used entries keep the buffer's prior contents.
    pub fn pack_into_slice(&self, output: &mut Vec<u8>)
        requires
            self@.wf(),
            self.is_initialized,
            old(output)@.len() == STATE_SPACE,
        ensures
            final(output)@ == packed_spec(self@, old(output)@),
    {
        output[0] = 1u8;
        output[1] = self.nonce;
        let slot = u64_to_le_bytes(self.current_slot);
        write_at(output, 2, slot.as_slice());
        let epoch = u64_to_le_bytes(self.current_epoch);
        write_at(output, 10, epoch.as_slice());
        output[18] = self.difficulty;
        let lamports = u64_to_le_bytes(self.lamports);
        write_at(output, 19, lamports.as_slice());
        let price = u64_to_le_bytes(self.breach_price);
        write_at(output, 27, price.as_slice());
        let remain = u64_to_le_bytes(self.breach_remain);
        write_at(output, 35, remain.as_slice());
        let count = u32_to_le_bytes(self.breach_count as u32);
        write_at(output, 43, count.as_slice());
        let window = u32_to_le_bytes(self.breach_count_this_window);
        write_at(output, 47, window.as_slice());
        let cached = u64_to_le_bytes(self.work_cached);
        write_at(output, 51, cached.as_slice());
        write_at(output, 59, self.token_mint_id.as_slice());
        let doubles = u64_to_le_bytes(self.token_doubles);
        write_at(output, 91, doubles.as_slice());
        let limit_count = u32_to_le_bytes(self.limit_count);
        write_at(output, 99, limit_count.as_slice());
        let limit_epoch = u32_to_le_bytes(self.limit_breaks_this_epoch);
        write_at(output, 103, limit_epoch.as_slice());
        write_at(output, 107, self.admin_one_id.as_slice());
        write_at(output, 139, self.admin_two_id.as_slice());
        write_at(output, 171, self.withdraw_id.as_slice());
        write_at(output, 203, self.limit_break.as_slice());
        output[260] = self.work.len() as u8;
        proof {
            assert forall|j: int| 0 <= j < self.work@.len() implies (#[trigger] self.work@[j])@.len()
                >= WORK_BYTES by {
                assert(entry_wf(self@.work[j]));
            }
            assert(self.work@.len() < MAX_COUNT);
            assert(self.work@.len() * WORK_BYTES <= 5757) by (nonlinear_arith)
                requires
                    self.work@.len() < 101,
                    WORK_BYTES == 57,
            ;
        }
        let data = pack_vec_of_vec(&self.work);
        let data_len = u32_to_le_bytes((self.work.len() * WORK_BYTES) as u32);
        write_at(output, 261, data_len.as_slice());
        write_at(output, 265, data.as_slice());
        proof {
            assert forall|i: int| 0 <= i < STATE_SPACE implies output@[i] == packed_byte(
                self@,
                old(output)@,
                i,
            ) by {
                if 265 <= i && i - 265 < WORK_BYTES * self@.work.len() {
                    assert(output@[265 + (i - 265)] == data@[i - 265]);
                }
            }
            assert(output@ =~= packed_spec(self@, old(output)@));
        }
    }

    /// Decode a record buffer. The work count byte of an initialized record
    /// must fit the reserved region.
    pub fn unpack_from_slice(input: &[u8]) -> (r: Result<Self, HihiError>)
        requires
            input@.len() == STATE_SPACE,
            input@[0] == 1 ==> input@[260] <= MAX_COUNT,
        ensures
            result_view(r) == unpacked_spec(input@),
    {
        let tag: u8 = *slice_index_get(input, 0);
        if tag >= 2 {
            return Err(HihiError::DeserializationFailure);
        }
        let token_mint_id = read_key32(input, 59);
        let admin_one_id = read_key32(input, 107);
        let admin_two_id = read_key32(input, 139);
        let withdraw_id = read_key32(input, 171);
        if tag == 0 {
            let s = HihiState {
                is_initialized: false,
                token_mint_id,
                token_doubles: 0,
                nonce: 0,
                current_slot: 0,
                current_epoch: 0,
                difficulty: 0,
                lamports: 0,
                breach_price: 0,
                breach_remain: 0,
                breach_count: 0,
                breach_count_this_window: 0,
                limit_count: 0,
                limit_breaks_this_epoch: 0,
                admin_one_id,
                admin_two_id,
                withdraw_id,
                limit_break: Vec::<u8>::new(),
                work_cached: 0,
                work: Vec::<Vec<u8>>::new(),
            };
            proof {
                assert(unpacked_spec(input@) matches Ok(v) && s@ =~= v);
            }
            Ok(s)
        } else {
            let count: u8 = *slice_index_get(input, 260);
            let vec_data = slice_subrange(input, 265, STATE_SPACE);
            assert(count as int * WORK_BYTES <= vec_data@.len()) by (nonlinear_arith)
                requires
                    count <= 101,
                    WORK_BYTES == 57,
                    vec_data@.len() == 5757,
            ;
            let work = unpack_vec_of_vec(vec_data, count);
            let limit_break = slice_to_vec(slice_subrange(input, 203, 260));
            let s = HihiState {
                is_initialized: true,
                token_mint_id,
                token_doubles: read_u64(input, 91),
                nonce: *slice_index_get(input, 1),
                current_slot: read_u64(input, 2),
                current_epoch: read_u64(input, 10),
                difficulty: *slice_index_get(input, 18),
                lamports: read_u64(input, 19),
                breach_price: read_u64(input, 27),
                breach_remain: read_u64(input, 35),
                breach_count: read_u32(input, 43) as i32,
                breach_count_this_window: read_u32(input, 47),
                limit_count: read_u32(input, 99),
                limit_breaks_this_epoch: read_u32(input, 103),
                admin_one_id,
                admin_two_id,
                withdraw_id,
                limit_break,
                work_cached: read_u64(input, 51),
                work,
            };
            proof {
                let v = unpacked_spec(input@).unwrap();
                assert forall|j: int| 0 <= j < v.work.len() implies s@.work[j] == v.work[j] by {
                    assert(WORK_BYTES * j + WORK_BYTES <= 5757 && 0 <= WORK_BYTES * j)
                        by (nonlinear_arith)
                        requires
                            0 <= j < count as int,
                            count <= 101,
                            WORK_BYTES == 57,
                    ;
                    assert(s.work@[j]@ == vec_data@.subrange(
                        WORK_BYTES * j,
                        WORK_BYTES * j + WORK_BYTES,
                    ));
                    assert(v.work[j] =~= vec_data@.subrange(
                        WORK_BYTES * j,
                        WORK_BYTES * j + WORK_BYTES,
                    ));
                }
                assert(s@.work =~= v.work);
                assert(s@ =~= v);
            }
            Ok(s)
        }
    }
}

/// Read the 8 little-endian bytes at `offset` as a 64-bit integer.
fn read_u64(input: &[u8], offset: usize) -> (r: u64)
    requires
        offset + 8 <= input@.len(),
    ensures
        r == spec_u64_from_le_bytes(input@.subrange(offset as int, offset + 8)),
{
    let n: usize = input.len();
    assert(offset + 8 <= n);
    u64_from_le_bytes(slice_subrange(input, offset, offset + 8))
}

/// Read the 4 little-endian bytes at `offset` as a 32-bit integer.
fn read_u32(input: &[u8], offset: usize) -> (r: u32)
    requires
        offset + 4 <= input@.len(),
    ensures
        r == spec_u32_from_le_bytes(input@.subrange(offset as int, offset + 4)),
{
    let n: usize = input.len();
    assert(offset + 4 <= n);
    u32_from_le_bytes(slice_subrange(input, offset, offset + 4))
}

/// Copy the 32 identity bytes at `offset`.
fn read_key32(input: &[u8], offset: usize) -> (r: [u8; 32])
    requires
        offset + 32 <= input@.len(),
    ensures
        r@ == input@.subrange(offset as int, offset + 32),
{
    let mut key: [u8; 32] = [0u8; 32];
    let n: usize = input.len();
    let mut k: usize = 0;
    while k < 32
        invariant
            n == input@.len(),
            offset + 32 <= input@.len(),
            k <= 32,
            key@.len() == 32,
            forall|i: int| 0 <= i < k ==> key@[i] == input@[offset + i],
        decreases 32 - k,
    {
        key[k] = *slice_index_get(input, offset + k);
        k = k + 1;
    }
    assert(key@ =~= input@.subrange(offset as int, offset + 32));
    key
}

/// Decoding inverts encoding: every well-formed initialized record survives
/// an encode / decode round trip exactly, whatever the buffer held before.
pub proof fn lemma_state_round_trip(v: StateView, prev: Seq<u8>)
    requires
        v.wf(),
        v.is_initialized,
        prev.len() == STATE_SPACE,
    ensures
        unpacked_spec(packed_spec(v, prev)) == Ok::<StateView, HihiError>(v),
{
    let b = packed_spec(v, prev);
    lemma_auto_spec_u64_to_from_le_bytes();
    lemma_auto_spec_u32_to_from_le_bytes();
    assert(b[0] == 1);
    let u = unpacked_spec(b).unwrap();
    assert(b.subrange(2, 10) =~= spec_u64_to_le_bytes(v.current_slot));
    assert(b.subrange(10, 18) =~= spec_u64_to_le_bytes(v.current_epoch));
    assert(b.subrange(19, 27) =~= spec_u64_to_le_bytes(v.lamports));
    assert(b.subrange(27, 35) =~= spec_u64_to_le_bytes(v.breach_price));
    assert(b.subrange(35, 43) =~= spec_u64_to_le_bytes(v.breach_remain));
    assert(b.subrange(43, 47) =~= spec_u32_to_le_bytes(v.breach_count as u32));
    assert(u.breach_count == (v.breach_count as u32) as i32);
    assert(u.breach_count == v.breach_count);
    assert(b.subrange(47, 51) =~= spec_u32_to_le_bytes(v.breach_count_this_window));
    assert(b.subrange(51, 59) =~= spec_u64_to_le_bytes(v.work_cached));
    assert(b.subrange(59, 91) =~= v.token_mint_id);
    assert(b.subrange(91, 99) =~= spec_u64_to_le_bytes(v.token_doubles));
    assert(b.subrange(99, 103) =~= spec_u32_to_le_bytes(v.limit_count));
    assert(b.subrange(103, 107) =~= spec_u32_to_le_bytes(v.limit_breaks_this_epoch));
    assert(b.subrange(107, 139) =~= v.admin_one_id);
    assert(b.subrange(139, 171) =~= v.admin_two_id);
    assert(b.subrange(171, 203) =~= v.withdraw_id);
    assert(b.subrange(203, 260) =~= v.limit_break);
    assert(b[260] == v.work.len() as u8);
    assert(u.work.len() == v.work.len());
    assert forall|j: int| 0 <= j < v.work.len() implies u.work[j] == v.work[j] by {
        assert forall|k: int| 0 <= k < WORK_BYTES implies b[265 + WORK_BYTES * j + k] == v.work[j][k] by {
            let i = 265 + WORK_BYTES * j + k;
            assert(i - 265 < WORK_BYTES * v.work.len() && (i - 265) / (WORK_BYTES as int) == j && (
            i - 265) % (WORK_BYTES as int) == k) by (nonlinear_arith)
                requires
                    i == 265 + WORK_BYTES * j + k,
                    0 <= k < WORK_BYTES,
                    0 <= j < v.work.len(),
                    WORK_BYTES == 57,
            ;
        }
        assert(u.work[j] =~= v.work[j]);
    }
    assert(u.work =~= v.work);
    assert(u =~= v);
}

} // verus!
