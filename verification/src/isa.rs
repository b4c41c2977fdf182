//! The instruction-set semantics: one spec function per instruction class
//! and the top-level step function [`sstep`].
//!
//! [`sstep`] maps a machine state to the state after one fetch-decode-execute
//! cycle, plus the [`Effect`] the instruction asks of its surroundings
//! (console traffic and floating-point work; see [`Effect`]).  The executable
//! [`crate::cpu::ThreadCore::exec_instr`] is proved to implement exactly this
//! function.

use vstd::prelude::*;

use crate::alu::smag;
use crate::alu::tdiv;
use crate::alu::trem;
use crate::alu::erem;
use crate::alu::to_i32;
use crate::arch::FLAG_BIT_C;
use crate::arch::FLAG_BIT_E;
use crate::arch::FLAG_BIT_L;
use crate::arch::FLAG_BIT_M;
use crate::arch::FLAG_BIT_S;
use crate::arch::FLAG_BIT_Z;
use crate::arch::OP_ADD;
use crate::arch::OP_AND;
use crate::arch::OP_ATAN2;
use crate::arch::OP_CADD;
use crate::arch::OP_CALL;
use crate::arch::OP_CLCF;
use crate::arch::OP_CLEF;
use crate::arch::OP_CLLF;
use crate::arch::OP_CLSF;
use crate::arch::OP_CLZF;
use crate::arch::OP_CMP;
use crate::arch::OP_CMUL;
use crate::arch::OP_CONVF2U;
use crate::arch::OP_CONVI2U;
use crate::arch::OP_CONVU2I;
use crate::arch::OP_CSUB;
use crate::arch::OP_DIV;
use crate::arch::OP_FADD;
use crate::arch::OP_FCMP;
use crate::arch::OP_FDIV;
use crate::arch::OP_FLUSH_STDOUT;
use crate::arch::OP_FMAX;
use crate::arch::OP_FMIN;
use crate::arch::OP_FMUL;
use crate::arch::OP_FPOW;
use crate::arch::OP_FPOWI;
use crate::arch::OP_FREM;
use crate::arch::OP_FREME;
use crate::arch::OP_FSUB;
use crate::arch::OP_IABS;
use crate::arch::OP_IADD;
use crate::arch::OP_ICADD;
use crate::arch::OP_ICMP;
use crate::arch::OP_ICSUB;
use crate::arch::OP_IDIV;
use crate::arch::OP_IMAX;
use crate::arch::OP_IMIN;
use crate::arch::OP_IMUL;
use crate::arch::OP_IPOW;
use crate::arch::OP_IREM;
use crate::arch::OP_IREME;
use crate::arch::OP_ISUB;
use crate::arch::OP_JC;
use crate::arch::OP_JE;
use crate::arch::OP_JL;
use crate::arch::OP_JMP;
use crate::arch::OP_JNC;
use crate::arch::OP_JNE;
use crate::arch::OP_JNL;
use crate::arch::OP_JNS;
use crate::arch::OP_JNZ;
use crate::arch::OP_JS;
use crate::arch::OP_JZ;
use crate::arch::OP_LD;
use crate::arch::OP_LD8;
use crate::arch::OP_LOG;
use crate::arch::OP_MAG2D;
use crate::arch::OP_MAX;
use crate::arch::OP_MIN;
use crate::arch::OP_MOV;
use crate::arch::OP_MUL;
use crate::arch::OP_NEG;
use crate::arch::OP_NOOP;
use crate::arch::OP_OR;
use crate::arch::OP_POW;
use crate::arch::OP_READ_STDIN;
use crate::arch::OP_REM;
use crate::arch::OP_RET;
use crate::arch::OP_SHL;
use crate::arch::OP_SHR;
use crate::arch::OP_ST;
use crate::arch::OP_ST8;
use crate::arch::OP_SUB;
use crate::arch::OP_WRITE_STDOUT;
use crate::arch::OP_WSHL;
use crate::arch::OP_WSHR;
use crate::arch::OP_XOR;
use crate::arch::REG_C;
use crate::arch::REG_F;
use crate::arch::REG_I;
use crate::arch::REG_L;
use crate::arch::REG_S;
use crate::arch::spec_arg_a;
use crate::arch::spec_arg_b;
use crate::arch::spec_arg_c;
use crate::arch::spec_opcode;
use crate::cpu::reg;
use crate::cpu::set_err;
use crate::cpu::sread_arg;
use crate::cpu::sread_u32;
use crate::cpu::sread_u8;
use crate::cpu::swrite_arg;
use crate::cpu::swrite_u32;
use crate::cpu::swrite_u8;
use crate::cpu::win4;
use crate::cpu::with_reg;
use crate::cpu::wrap_add;
use crate::cpu::Vm;
use crate::mem::word_le;
use vstd::arithmetic::power::pow;

verus! {

/// What one instruction asks of the machine's surroundings.
///
/// The integer core is executed in place; console traffic and
/// floating-point arithmetic are handed out as effects, performed by the
/// embedder, and their results handed back through the public register
/// interface.
#[derive(Clone, Copy, Debug, PartialEq, Eq, Structural)]
pub enum Effect {
    /// Nothing left to do.
    Done,
    /// Print the Unicode scalar `code` on the console.
    PutChar { code: u32 },
    /// Flush the console output.
    FlushOut,
    /// Wait for one input byte and store it through operand `dest`.
    ReadChar { dest: u8 },
    /// A floating-point opcode: compute on the operand bits `x` (and `y`
    /// for two-operand opcodes) and store through `dest_b` or `dest_c` as
    /// the opcode directs.
    FloatOp { op: u32, x: u32, y: u32, dest_b: u8, dest_c: u8 },
    /// A floating-point compare of the operand bits: report equal and less
    /// through the compare flags.
    FloatCmp { x: u32, y: u32 },
}

/// Opcodes that write a full carry word: the unsigned and signed adds,
/// subtracts and multiplies.
pub open spec fn is_alu_carry(op: u32) -> bool {
    ||| op == OP_ADD
    ||| op == OP_SUB
    ||| op == OP_MUL
    ||| op == OP_CADD
    ||| op == OP_CSUB
    ||| op == OP_CMUL
    ||| op == OP_IADD
    ||| op == OP_ISUB
    ||| op == OP_ICADD
    ||| op == OP_ICSUB
}

/// Opcodes that only raise the carry flag on overflow.
pub open spec fn is_alu_ovf(op: u32) -> bool {
    ||| op == OP_IMUL
    ||| op == OP_IPOW
    ||| op == OP_SHL
    ||| op == OP_SHR
}

/// Two-operand opcodes with no flag traffic.
pub open spec fn is_alu_pure2(op: u32) -> bool {
    ||| op == OP_MIN
    ||| op == OP_MAX
    ||| op == OP_IMIN
    ||| op == OP_IMAX
    ||| op == OP_WSHL
    ||| op == OP_WSHR
    ||| op == OP_AND
    ||| op == OP_OR
    ||| op == OP_XOR
}

/// One-operand opcodes with no flag traffic.
pub open spec fn is_alu_pure1(op: u32) -> bool {
    ||| op == OP_NEG
    ||| op == OP_IABS
    ||| op == OP_CONVI2U
    ||| op == OP_CONVU2I
    ||| op == OP_MOV
}

/// Division-family opcodes, which refuse some divisors through a flag.
pub open spec fn is_alu_checked(op: u32) -> bool {
    ||| op == OP_DIV
    ||| op == OP_REM
    ||| op == OP_POW
    ||| op == OP_IDIV
    ||| op == OP_IREM
    ||| op == OP_IREME
}

/// The integer compares.
pub open spec fn is_cmp(op: u32) -> bool {
    op == OP_CMP || op == OP_ICMP
}

/// Conditional jumps, with the flag bit they test.
pub open spec fn jump_mask(op: u32) -> u32 {
    if op == OP_JZ || op == OP_JNZ {
        FLAG_BIT_Z
    } else if op == OP_JS || op == OP_JNS {
        FLAG_BIT_S
    } else if op == OP_JC || op == OP_JNC {
        FLAG_BIT_C
    } else if op == OP_JE || op == OP_JNE {
        FLAG_BIT_E
    } else {
        FLAG_BIT_L
    }
}

/// Jumps taken when the tested flag is set.
pub open spec fn is_jump_if(op: u32) -> bool {
    ||| op == OP_JZ
    ||| op == OP_JS
    ||| op == OP_JC
    ||| op == OP_JE
    ||| op == OP_JL
}

/// Jumps taken when the tested flag is clear.
pub open spec fn is_jump_unless(op: u32) -> bool {
    ||| op == OP_JNZ
    ||| op == OP_JNS
    ||| op == OP_JNC
    ||| op == OP_JNE
    ||| op == OP_JNL
}

/// Flag-clearing opcodes, with the flag bit they clear.
pub open spec fn is_clear(op: u32) -> bool {
    ||| op == OP_CLZF
    ||| op == OP_CLSF
    ||| op == OP_CLCF
    ||| op == OP_CLEF
    ||| op == OP_CLLF
}

/// The flag bit a clearing opcode clears.
pub open spec fn clear_mask(op: u32) -> u32 {
    if op == OP_CLZF {
        FLAG_BIT_Z
    } else if op == OP_CLSF {
        FLAG_BIT_S
    } else if op == OP_CLCF {
        FLAG_BIT_C
    } else if op == OP_CLEF {
        FLAG_BIT_E
    } else {
        FLAG_BIT_L
    }
}

/// The memory-access opcodes.
pub open spec fn is_mem_op(op: u32) -> bool {
    ||| op == OP_LD
    ||| op == OP_ST
    ||| op == OP_LD8
    ||| op == OP_ST8
}

/// The floating-point opcodes, handed out as effects.
pub open spec fn is_float_op(op: u32) -> bool {
    OP_CONVF2U <= op <= OP_MAG2D
}

/// Floating-point opcodes that read two operands.
pub open spec fn is_float_binary(op: u32) -> bool {
    ||| op == OP_FADD
    ||| op == OP_FSUB
    ||| op == OP_FMUL
    ||| op == OP_FDIV
    ||| op == OP_FREM
    ||| op == OP_FREME
    ||| op == OP_FPOWI
    ||| op == OP_FPOW
    ||| op == OP_LOG
    ||| op == OP_FMIN
    ||| op == OP_FMAX
    ||| op == OP_ATAN2
    ||| op == OP_MAG2D
}

/// A valid Unicode scalar value, printable by the console.
pub open spec fn is_scalar_value(v: u32) -> bool {
    v < 0xD800 || (0xE000 <= v <= 0x10FFFF)
}

/// Raises `bit` in the flags register when `cond` holds.
pub open spec fn sflag_or_if(s: Vm, cond: bool, bit: u32) -> Vm {
    if cond {
        with_reg(s, REG_F, reg(s, REG_F) | bit)
    } else {
        s
    }
}

/// Stores a carry word: the carry register receives `v` and the carry flag
/// is raised when `v` is non-zero.
pub open spec fn sset_carry(s: Vm, v: u32) -> Vm {
    sflag_or_if(with_reg(s, REG_C, v), v != 0, FLAG_BIT_C)
}

/// The flags word after a compare: zero for equal, sign for less; other
/// flags keep their value.
pub open spec fn cmp_flags_word(f: u32, eq: bool, lt: bool) -> u32 {
    let f1 = if eq {
        f | FLAG_BIT_Z
    } else {
        f & !FLAG_BIT_Z
    };
    if lt {
        f1 | FLAG_BIT_S
    } else {
        f1 & !FLAG_BIT_S
    }
}

/// Writes the compare flags: zero for equal, sign for less; other flags
/// keep their value.
pub open spec fn scmp_flags(s: Vm, eq: bool, lt: bool) -> Vm {
    with_reg(s, REG_F, cmp_flags_word(reg(s, REG_F), eq, lt))
}

/// The carry-in of the carrying add and subtract: the low bit of the carry
/// register, gated by the carry-in mask flag.
pub open spec fn scarry_in(s: Vm) -> int {
    if reg(s, REG_F) & FLAG_BIT_M != 0 && reg(s, REG_C) & 1 != 0 {
        1
    } else {
        0
    }
}

/// Result and carry word of the carry-writing arithmetic opcodes.
pub open spec fn salu_carry_value(s: Vm, op: u32, va: u32, vb: u32) -> (u32, u32) {
    if op == OP_ADD {
        ((((va + vb) % 0x1_0000_0000) as u32), if va + vb > 0xFFFF_FFFF {
            1u32
        } else {
            0u32
        })
    } else if op == OP_SUB {
        ((((va - vb) % 0x1_0000_0000) as u32), if va - vb < 0 {
            1u32
        } else {
            0u32
        })
    } else if op == OP_MUL {
        ((((va * vb) % 0x1_0000_0000) as u32), (((va * vb) / 0x1_0000_0000) as u32))
    } else if op == OP_CADD {
        let sum = va + vb + scarry_in(s);
        (((sum % 0x1_0000_0000) as u32), if sum > 0xFFFF_FFFF {
            1u32
        } else {
            0u32
        })
    } else if op == OP_CSUB {
        let diff = va - vb - scarry_in(s);
        (((diff % 0x1_0000_0000) as u32), if diff < 0 {
            1u32
        } else {
            0u32
        })
    } else if op == OP_CMUL {
        let p = va * vb + reg(s, REG_C);
        (((p % 0x1_0000_0000) as u32), ((p / 0x1_0000_0000) as u32))
    } else if op == OP_IADD {
        let m = to_i32(va) + to_i32(vb);
        ((((va + vb) % 0x1_0000_0000) as u32), if i32::MIN <= m <= i32::MAX {
            0u32
        } else {
            1u32
        })
    } else if op == OP_ISUB {
        let m = to_i32(va) - to_i32(vb);
        ((((va - vb) % 0x1_0000_0000) as u32), if i32::MIN <= m <= i32::MAX {
            0u32
        } else {
            1u32
        })
    } else if op == OP_ICADD {
        let m = to_i32(va) + to_i32(vb) + scarry_in(s);
        ((((va + vb + scarry_in(s)) % 0x1_0000_0000) as u32), if i32::MIN <= m <= i32::MAX {
            0u32
        } else {
            1u32
        })
    } else {
        // OP_ICSUB
        let m = to_i32(va) - to_i32(vb) - scarry_in(s);
        ((((va - vb - scarry_in(s)) % 0x1_0000_0000) as u32), if i32::MIN <= m <= i32::MAX {
            0u32
        } else {
            1u32
        })
    }
}

/// The carry-writing arithmetic opcodes: read two operands, write the
/// result, store the carry word.
pub open spec fn salu_carry(s: Vm, op: u32, a: u8, b: u8, c: u8) -> Vm {
    let ra = sread_arg(s, a);
    let rb = sread_arg(ra.0, b);
    let rv = salu_carry_value(rb.0, op, ra.1, rb.1);
    sset_carry(swrite_arg(rb.0, c, rv.0), rv.1)
}

/// Result and overflow bit of the overflow-flag arithmetic opcodes.
pub open spec fn salu_ovf_value(op: u32, va: u32, vb: u32) -> (u32, bool) {
    if op == OP_IMUL {
        ((((va * vb) % 0x1_0000_0000) as u32), !(i32::MIN <= to_i32(va) * to_i32(vb) <= i32::MAX))
    } else if op == OP_IPOW {
        (((pow(va as int, vb as nat) % 0x1_0000_0000) as u32), !(i32::MIN <= pow(
            to_i32(va) as int,
            vb as nat,
        ) <= i32::MAX))
    } else if op == OP_SHL {
        (if vb >= 32 {
            0u32
        } else {
            va << vb
        }, vb >= 32)
    } else {
        // OP_SHR
        (if vb >= 32 {
            0u32
        } else {
            va >> vb
        }, vb >= 32)
    }
}

/// The overflow-flag arithmetic opcodes: read two operands, write the
/// result, raise the carry flag on overflow.
pub open spec fn salu_ovf(s: Vm, op: u32, a: u8, b: u8, c: u8) -> Vm {
    let ra = sread_arg(s, a);
    let rb = sread_arg(ra.0, b);
    let rv = salu_ovf_value(op, ra.1, rb.1);
    sflag_or_if(swrite_arg(rb.0, c, rv.0), rv.1, FLAG_BIT_C)
}

/// Result of the flag-free two-operand opcodes.
pub open spec fn salu_pure2_value(op: u32, va: u32, vb: u32) -> u32 {
    if op == OP_MIN {
        if va < vb {
            va
        } else {
            vb
        }
    } else if op == OP_MAX {
        if va > vb {
            va
        } else {
            vb
        }
    } else if op == OP_IMIN {
        if to_i32(va) < to_i32(vb) {
            va
        } else {
            vb
        }
    } else if op == OP_IMAX {
        if to_i32(va) > to_i32(vb) {
            va
        } else {
            vb
        }
    } else if op == OP_WSHL {
        va << ((vb % 32) as u32)
    } else if op == OP_WSHR {
        va >> ((vb % 32) as u32)
    } else if op == OP_AND {
        va & vb
    } else if op == OP_OR {
        va | vb
    } else {
        // OP_XOR
        va ^ vb
    }
}

/// The flag-free two-operand opcodes: read two operands, write the result.
pub open spec fn salu_pure2(s: Vm, op: u32, a: u8, b: u8, c: u8) -> Vm {
    let ra = sread_arg(s, a);
    let rb = sread_arg(ra.0, b);
    swrite_arg(rb.0, c, salu_pure2_value(op, ra.1, rb.1))
}

/// Result of the flag-free one-operand opcodes.
pub open spec fn salu_pure1_value(op: u32, va: u32) -> u32 {
    if op == OP_NEG {
        !va
    } else if op == OP_IABS {
        smag(va)
    } else {
        // OP_CONVI2U, OP_CONVU2I and OP_MOV copy the bits unchanged.
        va
    }
}

/// The flag-free one-operand opcodes: read one operand, write the result
/// through the second specifier.
pub open spec fn salu_pure1(s: Vm, op: u32, a: u8, b: u8) -> Vm {
    let ra = sread_arg(s, a);
    swrite_arg(ra.0, b, salu_pure1_value(op, ra.1))
}

/// Whether a division-family opcode refuses its operands, and the flag bit
/// it raises when it does.
pub open spec fn salu_checked_refused(op: u32, va: u32, vb: u32) -> (bool, u32) {
    if op == OP_DIV || op == OP_REM {
        (vb == 0, FLAG_BIT_L)
    } else if op == OP_POW {
        (pow(va as int, vb as nat) > 0xFFFF_FFFF, FLAG_BIT_C)
    } else {
        // The signed divisions also refuse the one overflowing quotient.
        (vb == 0xFFFF_FFFF && va == 0x8000_0000 || vb == 0, FLAG_BIT_L)
    }
}

/// Result of a division-family opcode on accepted operands.
pub open spec fn salu_checked_value(op: u32, va: u32, vb: u32) -> u32 {
    if op == OP_DIV {
        ((va as int / vb as int) as u32)
    } else if op == OP_REM {
        ((va as int % vb as int) as u32)
    } else if op == OP_POW {
        (pow(va as int, vb as nat) as u32)
    } else if op == OP_IDIV {
        crate::alu::from_i32((tdiv(to_i32(va) as int, to_i32(vb) as int)) as i32)
    } else if op == OP_IREM {
        crate::alu::from_i32((trem(to_i32(va) as int, to_i32(vb) as int)) as i32)
    } else {
        // OP_IREME
        crate::alu::from_i32((erem(to_i32(va) as int, to_i32(vb) as int)) as i32)
    }
}

/// The division-family opcodes: on refused operands only the flag is
/// raised and the destination is left alone.
pub open spec fn salu_checked(s: Vm, op: u32, a: u8, b: u8, c: u8) -> Vm {
    let ra = sread_arg(s, a);
    let rb = sread_arg(ra.0, b);
    let refused = salu_checked_refused(op, ra.1, rb.1);
    if refused.0 {
        sflag_or_if(rb.0, true, refused.1)
    } else {
        swrite_arg(rb.0, c, salu_checked_value(op, ra.1, rb.1))
    }
}

/// The integer compares: read two operands and write the compare flags.
pub open spec fn scmp(s: Vm, op: u32, a: u8, b: u8) -> Vm {
    let ra = sread_arg(s, a);
    let rb = sread_arg(ra.0, b);
    let va = ra.1;
    let vb = rb.1;
    if op == OP_CMP {
        scmp_flags(rb.0, va == vb, va < vb)
    } else {
        scmp_flags(rb.0, to_i32(va) == to_i32(vb), to_i32(va) < to_i32(vb))
    }
}

/// The jumps: the target operand is consumed whether or not the jump is
/// taken, so a literal target is stepped over either way.
pub open spec fn sjump(s: Vm, op: u32, a: u8) -> Vm {
    let ra = sread_arg(s, a);
    let s1 = ra.0;
    let taken = if op == OP_JMP {
        true
    } else if is_jump_if(op) {
        reg(s1, REG_F) & jump_mask(op) != 0
    } else {
        reg(s1, REG_F) & jump_mask(op) == 0
    };
    if taken {
        with_reg(s1, REG_I, ra.1)
    } else {
        s1
    }
}

/// The memory-access opcodes.  Loads place the read value through the
/// second specifier; byte loads zero-extend.  Stores take the address from
/// the first operand and the value from the second.
pub open spec fn smem_op(s: Vm, op: u32, a: u8, b: u8) -> Vm {
    let ra = sread_arg(s, a);
    if op == OP_LD {
        let rw = sread_u32(ra.0, ra.1);
        swrite_arg(rw.0, b, rw.1)
    } else if op == OP_LD8 {
        let rw = sread_u8(ra.0, ra.1);
        swrite_arg(rw.0, b, rw.1 as u32)
    } else if op == OP_ST {
        let rb = sread_arg(ra.0, b);
        swrite_u32(rb.0, ra.1, rb.1)
    } else {
        // OP_ST8: the stored byte is the low byte of the value.
        let rb = sread_arg(ra.0, b);
        swrite_u8(rb.0, ra.1, (rb.1 & 0xFF) as u8)
    }
}

/// `call`: after the target operand is consumed, the caller's frame pointer
/// is saved at `S+4` and the return address at `S+8`; then the instruction
/// pointer moves to the target, the frame pointer to the old stack pointer,
/// and the stack pointer up by eight.
pub open spec fn scall(s: Vm, a: u8) -> Vm {
    let ra = sread_arg(s, a);
    let s1 = ra.0;
    let target = ra.1;
    let ret = reg(s1, REG_I);
    let l = reg(s1, REG_L);
    let sp = reg(s1, REG_S);
    let s2 = swrite_u32(s1, wrap_add(sp, 4), l);
    let s3 = swrite_u32(s2, wrap_add(sp, 8), ret);
    with_reg(with_reg(with_reg(s3, REG_I, target), REG_L, sp), REG_S, wrap_add(sp, 8))
}

/// `ret`: restores the frame saved by [`scall`].  On a frame pointer whose
/// saved words lie outside the access window, only the error flag is
/// raised and the registers are left alone.
pub open spec fn sret(s: Vm) -> Vm {
    let l = reg(s, REG_L);
    if win4(s, wrap_add(l, 4)) && win4(s, wrap_add(l, 8)) {
        let newi = word_le(s.mem, wrap_add(l, 8) as int);
        let newl = word_le(s.mem, wrap_add(l, 4) as int);
        with_reg(with_reg(with_reg(s, REG_I, newi), REG_L, newl), REG_S, l)
    } else {
        set_err(s)
    }
}

/// The console-output opcode: an invalid scalar raises the error flag and
/// prints the replacement character.
pub open spec fn sputchar(s: Vm, a: u8) -> (Vm, Effect) {
    let ra = sread_arg(s, a);
    if is_scalar_value(ra.1) {
        (ra.0, Effect::PutChar { code: ra.1 })
    } else {
        (set_err(ra.0), Effect::PutChar { code: 0xFFFD })
    }
}

/// The floating-point opcodes: their operands are consumed and the work is
/// handed out as an effect.
pub open spec fn sfloat(s: Vm, op: u32, a: u8, b: u8, c: u8) -> (Vm, Effect) {
    if op == OP_FCMP {
        let ra = sread_arg(s, a);
        let rb = sread_arg(ra.0, b);
        (rb.0, Effect::FloatCmp { x: ra.1, y: rb.1 })
    } else if is_float_binary(op) {
        let ra = sread_arg(s, a);
        let rb = sread_arg(ra.0, b);
        (rb.0, Effect::FloatOp { op, x: ra.1, y: rb.1, dest_b: b, dest_c: c })
    } else {
        let ra = sread_arg(s, a);
        (ra.0, Effect::FloatOp { op, x: ra.1, y: 0, dest_b: b, dest_c: c })
    }
}

/// Dispatch on a decoded instruction, after the instruction pointer has
/// moved past the instruction word.  An unknown opcode raises the error
/// flag.
pub open spec fn sdispatch(s: Vm, op: u32, a: u8, b: u8, c: u8) -> (Vm, Effect) {
    if op == OP_NOOP {
        (s, Effect::Done)
    } else if is_alu_carry(op) {
        (salu_carry(s, op, a, b, c), Effect::Done)
    } else if is_alu_ovf(op) {
        (salu_ovf(s, op, a, b, c), Effect::Done)
    } else if is_alu_pure2(op) {
        (salu_pure2(s, op, a, b, c), Effect::Done)
    } else if is_alu_pure1(op) {
        (salu_pure1(s, op, a, b), Effect::Done)
    } else if is_alu_checked(op) {
        (salu_checked(s, op, a, b, c), Effect::Done)
    } else if is_cmp(op) {
        (scmp(s, op, a, b), Effect::Done)
    } else if op == OP_JMP || is_jump_if(op) || is_jump_unless(op) {
        (sjump(s, op, a), Effect::Done)
    } else if is_clear(op) {
        (with_reg(s, REG_F, reg(s, REG_F) & !clear_mask(op)), Effect::Done)
    } else if op == OP_WRITE_STDOUT {
        sputchar(s, a)
    } else if op == OP_FLUSH_STDOUT {
        (s, Effect::FlushOut)
    } else if op == OP_READ_STDIN {
        (s, Effect::ReadChar { dest: a })
    } else if is_mem_op(op) {
        (smem_op(s, op, a, b), Effect::Done)
    } else if op == OP_CALL {
        (scall(s, a), Effect::Done)
    } else if op == OP_RET {
        (sret(s), Effect::Done)
    } else if is_float_op(op) || op == OP_FCMP {
        sfloat(s, op, a, b, c)
    } else {
        (set_err(s), Effect::Done)
    }
}

/// One whole step: fetch the word at the instruction pointer, move the
/// pointer past it, and dispatch.  A fetch outside the access window
/// raises the error flag and decodes the zero word, a no-op.
pub open spec fn sstep(s: Vm) -> (Vm, Effect) {
    let rf = sread_u32(s, reg(s, REG_I));
    let s1 = rf.0;
    let w = rf.1;
    let s2 = with_reg(s1, REG_I, wrap_add(reg(s1, REG_I), 4));
    sdispatch(s2, spec_opcode(w), spec_arg_a(w), spec_arg_b(w), spec_arg_c(w))
}

} // verus!
