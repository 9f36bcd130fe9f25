//! Error kinds reported by the state machine and the codecs.

use vstd::prelude::*;

verus! {

/// Everything that can go wrong in a transition. All variants are returned to
/// the caller; none is retried internally, and a failed transition leaves the
/// persisted state unchanged.
#[derive(Clone, Copy, Debug, PartialEq, Eq, Structural)]
pub enum HihiError {
    /// Malformed payload, or an overflow guard tripped.
    InvalidInstruction,
    /// Authorization or identity mismatch.
    InvalidOwner,
    /// Derivation of the program-controlled authority failed.
    InvalidProgramAddress,
    /// The supplied mint is not this deployment's mint.
    InvalidTokenMint,
    /// The destination token account does not check out.
    InvalidTokenAddress,
    /// The bounded work cache (or the per-epoch bonus cap) is exhausted.
    WorkLimitExceeded,
    /// No puzzle in the work cache matches the submitted entry.
    InvalidClaimHash,
    /// The submitted solution fails the proof-of-work gate.
    IncorrectClaimSolution,
    /// Unknown action tag or unreadable record.
    DeserializationFailure,
    NotInitialized,
    AlreadyInitialized,
    NotRentExempt,
    InsufficientFundsForTransaction,
    UnknownError,
}

impl HihiError {
    /// Stable numeric code of the variant, in declaration order.
    pub fn code(&self) -> (r: u32)
        ensures
            r == self.code_spec(),
    {
        match self {
            HihiError::InvalidInstruction => 0,
            HihiError::InvalidOwner => 1,
            HihiError::InvalidProgramAddress => 2,
            HihiError::InvalidTokenMint => 3,
            HihiError::InvalidTokenAddress => 4,
            HihiError::WorkLimitExceeded => 5,
            HihiError::InvalidClaimHash => 6,
            HihiError::IncorrectClaimSolution => 7,
            HihiError::DeserializationFailure => 8,
            HihiError::NotInitialized => 9,
            HihiError::AlreadyInitialized => 10,
            HihiError::NotRentExempt => 11,
            HihiError::InsufficientFundsForTransaction => 12,
            HihiError::UnknownError => 13,
        }
    }

    /// Human-readable description of the variant.
    pub fn message(&self) -> (r: &'static str)
        ensures
            r@ == self.message_spec(),
    {
        match self {
            HihiError::InvalidInstruction => {
                proof {
                    reveal_strlit("Invalid instruction");
                }
                "Invalid instruction"
            },
            HihiError::InvalidOwner => {
                proof {
                    reveal_strlit("Invalid owner");
                }
                "Invalid owner"
            },
            HihiError::InvalidProgramAddress => {
                proof {
                    reveal_strlit("Invalid program address");
                }
                "Invalid program address"
            },
            HihiError::InvalidTokenMint => {
                proof {
                    reveal_strlit("Invalid token mint address");
                }
                "Invalid token mint address"
            },
            HihiError::InvalidTokenAddress => {
                proof {
                    reveal_strlit("Invalid token address");
                }
                "Invalid token address"
            },
            HihiError::WorkLimitExceeded => {
                proof {
                    reveal_strlit("Work limit exceeded");
                }
                "Work limit exceeded"
            },
            HihiError::InvalidClaimHash => {
                proof {
                    reveal_strlit("Invalid claim hash");
                }
                "Invalid claim hash"
            },
            HihiError::IncorrectClaimSolution => {
                proof {
                    reveal_strlit("Incorrect claim solution");
                }
                "Incorrect claim solution"
            },
            HihiError::DeserializationFailure => {
                proof {
                    reveal_strlit("Error Deserializing input data");
                }
                "Error Deserializing input data"
            },
            HihiError::NotInitialized => {
                proof {
                    reveal_strlit("Account not initialized");
                }
                "Account not initialized"
            },
            HihiError::AlreadyInitialized => {
                proof {
                    reveal_strlit("Account already initialized");
                }
                "Account already initialized"
            },
            HihiError::NotRentExempt => {
                proof {
                    reveal_strlit("Account must be rent exempt");
                }
                "Account must be rent exempt"
            },
            HihiError::InsufficientFundsForTransaction => {
                proof {
                    reveal_strlit("Not enough funds to process transaction");
                }
                "Not enough funds to process transaction"
            },
            HihiError::UnknownError => {
                proof {
                    reveal_strlit("Unknown error condiiton");
                }
                "Unknown error condiiton"
            },
        }
    }

    /// The description `message` yields for each variant.
    pub open spec fn message_spec(&self) -> Seq<char> {
        match self {
            HihiError::InvalidInstruction => "Invalid instruction"@,
            HihiError::InvalidOwner => "Invalid owner"@,
            HihiError::InvalidProgramAddress => "Invalid program address"@,
            HihiError::InvalidTokenMint => "Invalid token mint address"@,
            HihiError::InvalidTokenAddress => "Invalid token address"@,
            HihiError::WorkLimitExceeded => "Work limit exceeded"@,
            HihiError::InvalidClaimHash => "Invalid claim hash"@,
            HihiError::IncorrectClaimSolution => "Incorrect claim solution"@,
            HihiError::DeserializationFailure => "Error Deserializing input data"@,
            HihiError::NotInitialized => "Account not initialized"@,
            HihiError::AlreadyInitialized => "Account already initialized"@,
            HihiError::NotRentExempt => "Account must be rent exempt"@,
            HihiError::InsufficientFundsForTransaction => "Not enough funds to process transaction"@,
            HihiError::UnknownError => "Unknown error condiiton"@,
        }
    }

    pub open spec fn code_spec(&self) -> u32 {
        match self {
            HihiError::InvalidInstruction => 0,
            HihiError::InvalidOwner => 1,
            HihiError::InvalidProgramAddress => 2,
            HihiError::InvalidTokenMint => 3,
            HihiError::InvalidTokenAddress => 4,
            HihiError::WorkLimitExceeded => 5,
            HihiError::InvalidClaimHash => 6,
            HihiError::IncorrectClaimSolution => 7,
            HihiError::DeserializationFailure => 8,
            HihiError::NotInitialized => 9,
            HihiError::AlreadyInitialized => 10,
            HihiError::NotRentExempt => 11,
            HihiError::InsufficientFundsForTransaction => 12,
            HihiError::UnknownError => 13,
        }
    }
}

} // verus!
