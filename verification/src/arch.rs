//! Architectural constants of the machine: register numbering, flag bits and
//! the opcode catalog, together with the spec-level decoding of instruction
//! words.
//!
//! An instruction word packs an 11-bit opcode into bits 31..21 and three
//! 7-bit operand specifiers into bits 20..14, 13..7 and 6..0.  An operand
//! specifier of `0x7F` names an inline literal (the next four bytes of the
//! instruction stream), any other value with bit 6 set names the stack top,
//! and values below `NUM_REGS` name a register.

use vstd::prelude::*;

verus! {

/// Instruction pointer register index.
pub const REG_I: u32 = 0x30;

/// Frame (link) pointer register index.
pub const REG_L: u32 = 0x31;

/// Stack pointer register index.
pub const REG_S: u32 = 0x32;

/// Flags register index.
pub const REG_F: u32 = 0x33;

/// Interrupting-device register index.
pub const REG_D: u32 = 0x34;

/// Carry/overflow register index.
pub const REG_C: u32 = 0x35;

/// Number of addressable registers; specifiers at or above this (without the
/// stack bit) are invalid.
pub const NUM_REGS: u32 = 0x36;

/// Zero flag: the last compare found its operands equal.
pub const FLAG_BIT_Z: u32 = 0x1;

/// Sign flag: the last compare found the first operand below the second.
pub const FLAG_BIT_S: u32 = 0x2;

/// Carry flag: an operation overflowed or underflowed.
pub const FLAG_BIT_C: u32 = 0x4;

/// Error flag: access violation, invalid operand or invalid argument.
pub const FLAG_BIT_E: u32 = 0x8;

/// Division-error flag: an integer division or remainder saw a zero divisor.
pub const FLAG_BIT_L: u32 = 0x20;

/// Carry-in mask: when set, the carrying add/subtract opcodes read their
/// carry-in from the carry register; when clear the carry-in is zero.
pub const FLAG_BIT_M: u32 = 0x8000;

/// Screen-mode flag: pixel mode when set, text mode when clear.
pub const FLAG_BIT_SCREEN: u32 = 0x40_0000;

/// Buffer-select flag: which of the two frame or text buffers is live.
pub const FLAG_BIT_B: u32 = 0x80_0000;

/// Base address where a standard image is placed; the region below it is
/// reserved for the frame buffers, text buffers and glyph ROM.
pub const IMAGE_BASE: u32 = 0x0008_DE00;

/// Address of the entrypoint word: a standard image stores the address of
/// its first instruction here, and the main thread starts there.
pub const ENTRY_ADDRESS: u32 = 0x0008_E000;

/// Operand specifier naming an inline literal.
pub const SPEC_LITERAL: u8 = 0x7F;

/// Bit of an operand specifier that names the stack top.
pub const SPEC_STACK_BIT: u8 = 0x40;

pub const OP_NOOP: u32 = 0;

pub const OP_ADD: u32 = 1;

pub const OP_SUB: u32 = 2;

pub const OP_MUL: u32 = 3;

pub const OP_DIV: u32 = 4;

pub const OP_REM: u32 = 5;

pub const OP_POW: u32 = 6;

pub const OP_MIN: u32 = 7;

pub const OP_MAX: u32 = 8;

pub const OP_CADD: u32 = 9;

pub const OP_CSUB: u32 = 10;

pub const OP_CMUL: u32 = 11;

pub const OP_IADD: u32 = 12;

pub const OP_ISUB: u32 = 13;

pub const OP_IMUL: u32 = 14;

pub const OP_IDIV: u32 = 15;

pub const OP_IREM: u32 = 16;

pub const OP_IREME: u32 = 17;

pub const OP_IABS: u32 = 18;

pub const OP_IPOW: u32 = 19;

pub const OP_IMIN: u32 = 20;

pub const OP_IMAX: u32 = 21;

pub const OP_ICADD: u32 = 22;

pub const OP_ICSUB: u32 = 23;

pub const OP_SHL: u32 = 24;

pub const OP_SHR: u32 = 25;

pub const OP_WSHL: u32 = 26;

pub const OP_WSHR: u32 = 27;

pub const OP_AND: u32 = 28;

pub const OP_OR: u32 = 29;

pub const OP_XOR: u32 = 30;

pub const OP_NEG: u32 = 31;

pub const OP_CONVI2U: u32 = 32;

pub const OP_CONVU2I: u32 = 33;

pub const OP_CONVF2U: u32 = 34;

pub const OP_CONVU2F: u32 = 35;

pub const OP_CONVF2I: u32 = 36;

pub const OP_CONVI2F: u32 = 37;

pub const OP_FADD: u32 = 38;

pub const OP_FSUB: u32 = 39;

pub const OP_FMUL: u32 = 40;

pub const OP_FDIV: u32 = 41;

pub const OP_FREM: u32 = 42;

pub const OP_FREME: u32 = 43;

pub const OP_FABS: u32 = 44;

pub const OP_FPOWI: u32 = 45;

pub const OP_FPOW: u32 = 46;

pub const OP_FLOOR: u32 = 47;

pub const OP_CEIL: u32 = 48;

pub const OP_ROUND: u32 = 49;

pub const OP_SIGN: u32 = 50;

pub const OP_FPART: u32 = 51;

pub const OP_IPART: u32 = 52;

pub const OP_RECIP: u32 = 53;

pub const OP_SQRT: u32 = 54;

pub const OP_CBRT: u32 = 55;

pub const OP_EXP: u32 = 56;

pub const OP_EXP2: u32 = 57;

pub const OP_EXPM1: u32 = 58;

pub const OP_LN: u32 = 59;

pub const OP_LOG: u32 = 60;

pub const OP_LOG2: u32 = 61;

pub const OP_LOG10: u32 = 62;

pub const OP_LN1P: u32 = 63;

pub const OP_FMIN: u32 = 64;

pub const OP_FMAX: u32 = 65;

pub const OP_SIN: u32 = 66;

pub const OP_ASIN: u32 = 67;

pub const OP_SINH: u32 = 68;

pub const OP_ASINH: u32 = 69;

pub const OP_COS: u32 = 70;

pub const OP_ACOS: u32 = 71;

pub const OP_COSH: u32 = 72;

pub const OP_ACOSH: u32 = 73;

pub const OP_TAN: u32 = 74;

pub const OP_ATAN: u32 = 75;

pub const OP_TANH: u32 = 76;

pub const OP_ATANH: u32 = 77;

pub const OP_ATAN2: u32 = 78;

pub const OP_SINCOS: u32 = 79;

pub const OP_MAG2D: u32 = 80;

pub const OP_CMP: u32 = 81;

pub const OP_ICMP: u32 = 82;

pub const OP_FCMP: u32 = 83;

pub const OP_JMP: u32 = 84;

pub const OP_JZ: u32 = 85;

pub const OP_JNZ: u32 = 86;

pub const OP_CLZF: u32 = 87;

pub const OP_JS: u32 = 88;

pub const OP_JNS: u32 = 89;

pub const OP_CLSF: u32 = 90;

pub const OP_JC: u32 = 91;

pub const OP_JNC: u32 = 92;

pub const OP_CLCF: u32 = 93;

pub const OP_JE: u32 = 94;

pub const OP_JNE: u32 = 95;

pub const OP_CLEF: u32 = 96;

pub const OP_JL: u32 = 97;

pub const OP_JNL: u32 = 98;

pub const OP_CLLF: u32 = 99;

pub const OP_WRITE_STDOUT: u32 = 100;

pub const OP_FLUSH_STDOUT: u32 = 101;

pub const OP_READ_STDIN: u32 = 102;

pub const OP_LD: u32 = 103;

pub const OP_ST: u32 = 104;

pub const OP_MOV: u32 = 105;

pub const OP_LD8: u32 = 106;

pub const OP_ST8: u32 = 107;

pub const OP_CALL: u32 = 108;

pub const OP_RET: u32 = 109;

/// Opcode field of an instruction word.
pub open spec fn spec_opcode(w: u32) -> u32 {
    (w >> 21) & 0x7FF
}

/// First operand specifier of an instruction word.
pub open spec fn spec_arg_a(w: u32) -> u8 {
    ((w >> 14) & 0x7F) as u8
}

/// Second operand specifier of an instruction word.
pub open spec fn spec_arg_b(w: u32) -> u8 {
    ((w >> 7) & 0x7F) as u8
}

/// Third operand specifier of an instruction word.
pub open spec fn spec_arg_c(w: u32) -> u8 {
    (w & 0x7F) as u8
}

} // verus!
