//! Action encoding: one discriminant byte followed by a fixed payload.

use vstd::prelude::*;
use vstd::bytes::{spec_u64_from_le_bytes, spec_u64_to_le_bytes, u64_from_le_bytes,
    u64_to_le_bytes, lemma_auto_spec_u64_to_from_le_bytes};
use vstd::slice::{slice_index_get, slice_subrange};
use crate::error::HihiError;

verus! {

broadcast use vstd::array::group_array_axioms;

/// Size in bytes of one puzzle entry.
pub const WORK_BYTES: usize = 57;

#[derive(Clone, Debug, PartialEq)]
pub struct Initialize {
    pub nonce: u8,
}

#[derive(Clone, Debug, PartialEq)]
pub struct Breach {
    pub lamports: u64,
}

#[derive(Clone, Debug, PartialEq)]
pub struct Claim {
    pub work: [u8; 57],
}

/// All actions the state machine accepts.
#[derive(Debug, PartialEq)]
pub enum HihiInstruction {
    Initialize(Initialize),
    Breach(Breach),
    LimitBreak,
    Claim(Claim),
    Withdraw,
    ChangeKeys,
}

/// What `unpack` yields on each input: the action decoded from the tag byte
/// and its fixed payload, or the error owed to a malformed buffer.
pub open spec fn unpack_spec(input: Seq<u8>) -> Result<HihiInstruction, HihiError> {
    if input.len() == 0 {
        Err(HihiError::InvalidInstruction)
    } else if input[0] == 0 {
        Ok(HihiInstruction::Initialize(Initialize { nonce: input[1] }))
    } else if input[0] == 1 {
        if input.len() >= 9 {
            Ok(HihiInstruction::Breach(Breach {
                lamports: spec_u64_from_le_bytes(input.subrange(1, 9)),
            }))
        } else {
            Err(HihiError::InvalidInstruction)
        }
    } else if input[0] == 2 {
        Ok(HihiInstruction::LimitBreak)
    } else if input[0] == 3 {
        if input.len() >= 1 + WORK_BYTES {
            Ok(HihiInstruction::Claim(Claim {
                work: choose|w: [u8; 57]| w@ == input.subrange(1, 1 + WORK_BYTES as int),
            }))
        } else {
            Err(HihiError::InvalidInstruction)
        }
    } else if input[0] == 4 {
        Ok(HihiInstruction::Withdraw)
    } else if input[0] == 5 {
        Ok(HihiInstruction::ChangeKeys)
    } else {
        Err(HihiError::DeserializationFailure)
    }
}

impl HihiInstruction {
    /// Decode an action buffer. The initialize payload is assumed present:
    /// a lone initialize tag has no nonce byte to read.
    pub fn unpack(input: &[u8]) -> (r: Result<Self, HihiError>)
        requires
            input@.len() >= 1 && input@[0] == 0 ==> input@.len() >= 2,
        ensures
            r == unpack_spec(input@),
            r matches Ok(HihiInstruction::Claim(c)) ==> c.work@ == input@.subrange(
                1,
                1 + WORK_BYTES as int,
            ),
    {
        if input.len() == 0 {
            return Err(HihiError::InvalidInstruction);
        }
        let tag: u8 = *slice_index_get(input, 0);
        match tag {
            0 => Ok(Self::Initialize(Initialize { nonce: *slice_index_get(input, 1) })),
            1 => {
                let (lamports, _rest) = Self::unpack_u64(slice_subrange(input, 1, input.len()))?;
                assert(input@.subrange(1, input@.len() as int).subrange(0, 8) == input@.subrange(
                    1,
                    9,
                )) by {
                    assert(input@.subrange(1, input@.len() as int).subrange(0, 8) =~= input@
                        .subrange(1, 9));
                }
                Ok(Self::Breach(Breach { lamports }))
            },
            2 => Ok(HihiInstruction::LimitBreak),
            3 => {
                let (work, _rest) = Self::unpack_work(slice_subrange(input, 1, input.len()))?;
                assert(input@.subrange(1, input@.len() as int).subrange(0, WORK_BYTES as int)
                    == input@.subrange(1, 1 + WORK_BYTES as int)) by {
                    assert(input@.subrange(1, input@.len() as int).subrange(0, WORK_BYTES as int)
                        =~= input@.subrange(1, 1 + WORK_BYTES as int));
                }
                proof {
                    let chosen = choose|w: [u8; 57]|
                        w@ == input@.subrange(1, 1 + WORK_BYTES as int);
                    assert(work@ == input@.subrange(1, 1 + WORK_BYTES as int));
                    assert(chosen@ =~= work@);
                    vstd::array::axiom_array_ext_equal::<u8, 57>(chosen, work);
                }
                Ok(Self::Claim(Claim { work }))
            },
            4 => Ok(HihiInstruction::Withdraw),
            5 => Ok(HihiInstruction::ChangeKeys),
            _ => Err(HihiError::DeserializationFailure),
        }
    }

    /// Read one puzzle entry off the front of the buffer.
    pub fn unpack_work(input: &[u8]) -> (r: Result<([u8; 57], &[u8]), HihiError>)
        ensures
            input@.len() >= WORK_BYTES ==> (r matches Ok(p) && p.0@ == input@.subrange(
                0,
                WORK_BYTES as int,
            ) && p.1@ == input@.subrange(WORK_BYTES as int, input@.len() as int)),
            input@.len() < WORK_BYTES ==> r == Err::<([u8; 57], &[u8]), HihiError>(
                HihiError::InvalidInstruction,
            ),
    {
        if input.len() >= WORK_BYTES {
            let mut w: [u8; 57] = [0u8; 57];
            let mut i: usize = 0;
            while i < WORK_BYTES
                invariant
                    i <= WORK_BYTES,
                    input@.len() >= WORK_BYTES,
                    w@.len() == WORK_BYTES,
                    forall|j: int| 0 <= j < i ==> w@[j] == input@[j],
                decreases WORK_BYTES - i,
            {
                w[i] = *slice_index_get(input, i);
                i = i + 1;
            }
            assert(w@ =~= input@.subrange(0, WORK_BYTES as int));
            let rest = slice_subrange(input, WORK_BYTES, input.len());
            Ok((w, rest))
        } else {
            Err(HihiError::InvalidInstruction)
        }
    }

    /// Read a little-endian 64-bit amount off the front of the buffer.
    pub fn unpack_u64(input: &[u8]) -> (r: Result<(u64, &[u8]), HihiError>)
        ensures
            input@.len() >= 8 ==> (r matches Ok(p) && p.0 == spec_u64_from_le_bytes(
                input@.subrange(0, 8),
            ) && p.1@ == input@.subrange(8, input@.len() as int)),
            input@.len() < 8 ==> r == Err::<(u64, &[u8]), HihiError>(HihiError::InvalidInstruction),
    {
        if input.len() >= 8 {
            let amount = u64_from_le_bytes(slice_subrange(input, 0, 8));
            let rest = slice_subrange(input, 8, input.len());
            Ok((amount, rest))
        } else {
            Err(HihiError::InvalidInstruction)
        }
    }

    /// Encode the action back to its byte form. Inverse of `unpack`.
    pub fn pack(&self) -> (buf: Vec<u8>)
        ensures
            buf@ == pack_spec(self),
            buf@.len() >= 1,
    {
        let mut buf = Vec::<u8>::new();
        match self {
            Self::Initialize(init) => {
                buf.push(0);
                buf.push(init.nonce);
                assert(buf@ =~= pack_spec(self));
            },
            Self::Breach(b) => {
                buf.push(1);
                let mut amount = u64_to_le_bytes(b.lamports);
                buf.append(&mut amount);
                assert(buf@ =~= pack_spec(self));
            },
            Self::LimitBreak => {
                buf.push(2);
                assert(buf@ =~= pack_spec(self));
            },
            Self::Claim(c) => {
                buf.push(3);
                let mut i: usize = 0;
                while i < WORK_BYTES
                    invariant
                        i <= WORK_BYTES,
                        c.work@.len() == WORK_BYTES,
                        buf@ == seq![3u8] + c.work@.subrange(0, i as int),
                    decreases WORK_BYTES - i,
                {
                    buf.push(c.work[i]);
                    assert(buf@ =~= seq![3u8] + c.work@.subrange(0, i + 1));
                    i = i + 1;
                }
                assert(buf@ =~= pack_spec(self));
            },
            Self::Withdraw => {
                buf.push(4);
                assert(buf@ =~= pack_spec(self));
            },
            Self::ChangeKeys => {
                buf.push(5);
                assert(buf@ =~= pack_spec(self));
            },
        }
        buf
    }
}

/// The byte form `pack` produces for each action.
pub open spec fn pack_spec(instruction: &HihiInstruction) -> Seq<u8> {
    match instruction {
        HihiInstruction::Initialize(init) => seq![0u8, init.nonce],
        HihiInstruction::Breach(b) => seq![1u8] + spec_u64_to_le_bytes(b.lamports),
        HihiInstruction::LimitBreak => seq![2u8],
        HihiInstruction::Claim(c) => seq![3u8] + c.work@,
        HihiInstruction::Withdraw => seq![4u8],
        HihiInstruction::ChangeKeys => seq![5u8],
    }
}

/// Decoding inverts encoding: every action survives a pack / unpack round
/// trip.
pub proof fn lemma_instruction_round_trip(instruction: HihiInstruction)
    ensures
        unpack_spec(pack_spec(&instruction)) == Ok::<HihiInstruction, HihiError>(instruction),
{
    let bytes = pack_spec(&instruction);
    lemma_auto_spec_u64_to_from_le_bytes();
    match instruction {
        HihiInstruction::Initialize(init) => {
            assert(bytes[0] == 0 && bytes[1] == init.nonce);
        },
        HihiInstruction::Breach(b) => {
            assert(bytes.subrange(1, 9) =~= spec_u64_to_le_bytes(b.lamports));
        },
        HihiInstruction::LimitBreak => {},
        HihiInstruction::Claim(c) => {
            assert(bytes.subrange(1, 1 + WORK_BYTES as int) =~= c.work@);
            let w = choose|w: [u8; 57]| w@ == bytes.subrange(1, 1 + WORK_BYTES as int);
            assert(w@ =~= c.work@);
            vstd::array::axiom_array_ext_equal::<u8, 57>(w, c.work);
        },
        HihiInstruction::Withdraw => {},
        HihiInstruction::ChangeKeys => {},
    }
}

} // verus!
