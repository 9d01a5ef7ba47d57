//! Opcode tags and their process-wide, immutable metadata table: for each
//! opcode, its operand byte-width (0, 1, 2 or 3) and its static stack effect
//! (net value-stack delta, where statically determined; opcodes with a
//! data-dependent effect carry a documented placeholder of 0 that consumers
//! must not rely on). The table is indexed directly by the opcode's numeric
//! value; values outside the table are a programming error.

use vstd::prelude::*;

verus! {

/// Single-byte numeric tag identifying an instruction's operation.
#[derive(Debug, PartialEq, Eq, Structural)]
pub struct OpCode(pub u8);

/// Number of opcodes in the metadata table.
pub const NUM_OPCODES: u8 = 41;

/// Numeric opcode values, in table order.
pub const CONSTANT: u8 = 0;

pub const CONSTANT_LONG: u8 = 1;

pub const NIL: u8 = 2;

pub const TRUE: u8 = 3;

pub const FALSE: u8 = 4;

pub const POP: u8 = 5;

pub const GET_LOCAL: u8 = 6;

pub const GET_LOCAL_LONG: u8 = 7;

pub const SET_LOCAL: u8 = 8;

pub const SET_LOCAL_LONG: u8 = 9;

pub const GET_GLOBAL: u8 = 10;

pub const GET_GLOBAL_LONG: u8 = 11;

pub const SET_GLOBAL: u8 = 12;

pub const SET_GLOBAL_LONG: u8 = 13;

pub const DEFINE_GLOBAL: u8 = 14;

pub const DEFINE_GLOBAL_LONG: u8 = 15;

pub const GET_UPVALUE: u8 = 16;

pub const GET_UPVALUE_LONG: u8 = 17;

pub const SET_UPVALUE: u8 = 18;

pub const SET_UPVALUE_LONG: u8 = 19;

pub const EQUAL: u8 = 20;

pub const NOT_EQUAL: u8 = 21;

pub const GREATER: u8 = 22;

pub const GREATER_EQUAL: u8 = 23;

pub const LESS: u8 = 24;

pub const LESS_EQUAL: u8 = 25;

pub const ADD: u8 = 26;

pub const SUBSTRACT: u8 = 27;

pub const MULTIPLY: u8 = 28;

pub const DIVIDE: u8 = 29;

pub const NOT: u8 = 30;

pub const NEGATE: u8 = 31;

pub const JUMP: u8 = 32;

pub const JUMP_IF_FALSE: u8 = 33;

pub const LOOP: u8 = 34;

pub const CALL: u8 = 35;

pub const CLOSURE: u8 = 36;

pub const CLOSURE_LONG: u8 = 37;

pub const END_SCOPE: u8 = 38;

pub const END_SCOPE_LONG: u8 = 39;

pub const RETURN: u8 = 40;

/// Operand byte-width column of the metadata table: 3 for the "long"
/// variants, 2 for the jump/loop relative offsets, 1 for the "short"
/// variants and 0 for operand-less opcodes.
pub open spec fn spec_num_operands(op: u8) -> usize {
    if op == 1 || op == 7 || op == 9 || op == 11 || op == 13 || op == 15 || op == 17 || op == 19
        || op == 37 || op == 39 {
        3
    } else if op == 32 || op == 33 || op == 34 {
        2
    } else if op == 0 || op == 6 || op == 8 || op == 10 || op == 12 || op == 14 || op == 16
        || op == 18 || op == 35 || op == 36 || op == 38 {
        1
    } else {
        0
    }
}

/// Static stack-effect column of the metadata table: +1 for opcodes that
/// push one value, -1 for those that consume one net, 0 otherwise
/// (including the documented placeholders for call/scope-end/return, whose
/// true effect is data-dependent).
pub open spec fn spec_stack_effect(op: u8) -> isize {
    if op == 0 || op == 1 || op == 2 || op == 3 || op == 4 || op == 6 || op == 7 || op == 10
        || op == 11 || op == 16 || op == 17 || op == 36 || op == 37 {
        1isize
    } else if op == 5 || op == 14 || op == 15 || op == 20 || op == 21 || op == 22 || op == 23
        || op == 24 || op == 25 || op == 26 || op == 27 || op == 28 || op == 29 {
        -1isize
    } else {
        0isize
    }
}

impl OpCode {
    /// Operand byte-width of this opcode. A value outside the table is a
    /// programming error (fatal in the original design), excluded here.
    pub fn get_num_operands(&self) -> (r: usize)
        requires
            self.0 < NUM_OPCODES,
        ensures
            r == spec_num_operands(self.0),
    {
        if self.0 == 1 || self.0 == 7 || self.0 == 9 || self.0 == 11 || self.0 == 13 || self.0
            == 15 || self.0 == 17 || self.0 == 19 || self.0 == 37 || self.0 == 39 {
            3
        } else if self.0 == 32 || self.0 == 33 || self.0 == 34 {
            2
        } else if self.0 == 0 || self.0 == 6 || self.0 == 8 || self.0 == 10 || self.0 == 12
            || self.0 == 14 || self.0 == 16 || self.0 == 18 || self.0 == 35 || self.0 == 36
            || self.0 == 38 {
            1
        } else {
            0
        }
    }

    /// Static stack effect of this opcode. A value outside the table is a
    /// programming error (fatal in the original design), excluded here.
    pub fn get_stack_effect(&self) -> (r: isize)
        requires
            self.0 < NUM_OPCODES,
        ensures
            r == spec_stack_effect(self.0),
    {
        if self.0 == 0 || self.0 == 1 || self.0 == 2 || self.0 == 3 || self.0 == 4 || self.0 == 6
            || self.0 == 7 || self.0 == 10 || self.0 == 11 || self.0 == 16 || self.0 == 17
            || self.0 == 36 || self.0 == 37 {
            1
        } else if self.0 == 5 || self.0 == 14 || self.0 == 15 || self.0 == 20 || self.0 == 21
            || self.0 == 22 || self.0 == 23 || self.0 == 24 || self.0 == 25 || self.0 == 26
            || self.0 == 27 || self.0 == 28 || self.0 == 29 {
            -1
        } else {
            0
        }
    }
}

impl From<OpCode> for u8 {
    /// The opcode's numeric value.
    fn from(opc: OpCode) -> (r: u8) {
        opc.0
    }
}

impl vstd::std_specs::convert::FromSpecImpl<OpCode> for u8 {
    open spec fn obeys_from_spec() -> bool {
        true
    }

    open spec fn from_spec(opc: OpCode) -> u8 {
        opc.0
    }
}

} // verus!
