//! The update that a wake-op call makes to the word at its second address.

use vstd::prelude::*;
use crate::error::FutexError;
use crate::flags::{FUTEX_OP_ADD, FUTEX_OP_ANDN, FUTEX_OP_OR, FUTEX_OP_SET, FUTEX_OP_XOR};

verus! {

/// The update that a wake-op call makes to the word at its second address.
#[derive(Clone, Copy, PartialEq, Eq, Debug, Structural)]
pub enum WakeOp {
    /// The word becomes the operand.
    Assign(u32),
    /// The operand is added to the word; the sum wraps.
    Add(u32),
    /// The bits of the operand are set in the word.
    Or(u32),
    /// The bits of the operand are cleared in the word.
    AndNot(u32),
    /// The bits of the operand are flipped in the word.
    Xor(u32),
}

impl WakeOp {
    /// The word after the update.
    pub open spec fn spec_apply(self, word: u32) -> u32 {
        match self {
            WakeOp::Assign(operand) => operand,
            WakeOp::Add(operand) => word.wrapping_add(operand),
            WakeOp::Or(operand) => word | operand,
            WakeOp::AndNot(operand) => word & !operand,
            WakeOp::Xor(operand) => word ^ operand,
        }
    }

    #[verifier::when_used_as_spec(spec_apply)]
    pub fn apply(self, word: u32) -> (updated: u32)
        ensures
            updated == self.apply(word),
    {
        match self {
            WakeOp::Assign(operand) => operand,
            WakeOp::Add(operand) => word.wrapping_add(operand),
            WakeOp::Or(operand) => word | operand,
            WakeOp::AndNot(operand) => word & !operand,
            WakeOp::Xor(operand) => word ^ operand,
        }
    }

    /// The update that `code` names, with `operand`; an unknown code is an
    /// invalid argument.
    pub open spec fn spec_decode(code: u32, operand: u32) -> Result<WakeOp, FutexError> {
        if code == FUTEX_OP_SET {
            Ok(WakeOp::Assign(operand))
        } else if code == FUTEX_OP_ADD {
            Ok(WakeOp::Add(operand))
        } else if code == FUTEX_OP_OR {
            Ok(WakeOp::Or(operand))
        } else if code == FUTEX_OP_ANDN {
            Ok(WakeOp::AndNot(operand))
        } else if code == FUTEX_OP_XOR {
            Ok(WakeOp::Xor(operand))
        } else {
            Err(FutexError::InvalidArgument)
        }
    }

    #[verifier::when_used_as_spec(spec_decode)]
    pub fn decode(code: u32, operand: u32) -> (op: Result<WakeOp, FutexError>)
        ensures
            op == WakeOp::decode(code, operand),
    {
        if code == FUTEX_OP_SET {
            Ok(WakeOp::Assign(operand))
        } else if code == FUTEX_OP_ADD {
            Ok(WakeOp::Add(operand))
        } else if code == FUTEX_OP_OR {
            Ok(WakeOp::Or(operand))
        } else if code == FUTEX_OP_ANDN {
            Ok(WakeOp::AndNot(operand))
        } else if code == FUTEX_OP_XOR {
            Ok(WakeOp::Xor(operand))
        } else {
            Err(FutexError::InvalidArgument)
        }
    }
}

} // verus!
