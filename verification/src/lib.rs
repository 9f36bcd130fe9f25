//! Core state machine of an on-ledger economic game: participants pay an
//! escalating fee ("breach") to receive bounded proof-of-work puzzles
//! ("work"); solving a puzzle ("claim") redeems a reward, and a rare bonus
//! puzzle ("limit break") offers a larger reward and adjusts difficulty.
//!
//! The crate holds the self-contained core: the reward curve, puzzle
//! generation and verification, the bounded work cache, and the fixed-layout
//! state codec. Host wiring (account parsing, transfers, minting, sysvars)
//! lives outside.

pub mod error;
pub mod hashing;
pub mod instruction;
pub mod pricing;
pub mod processor;
pub mod puzzle;
pub mod state;

use vstd::prelude::*;

verus! {

} // verus!
