//! Laws of the instruction set, proved once and for all over the
//! specification semantics of [`crate::isa`].  Because
//! [`crate::cpu::ThreadCore::exec_instr`] is proved equal to [`sstep`],
//! everything here holds of the executable machine as well.

use vstd::prelude::*;

use vstd::arithmetic::div_mod::lemma_add_mod_noop;
use vstd::arithmetic::div_mod::lemma_mod_bound;
use vstd::arithmetic::div_mod::lemma_small_mod;

use crate::arch::FLAG_BIT_L;
use crate::arch::OP_CALL;
use crate::arch::OP_CMP;
use crate::arch::OP_FCMP;
use crate::arch::OP_JMP;
use crate::arch::OP_JS;
use crate::arch::OP_LD;
use crate::arch::OP_LD8;
use crate::arch::OP_POW;
use crate::arch::OP_RET;
use crate::arch::OP_ST;
use crate::arch::OP_ST8;
use crate::arch::OP_WRITE_STDOUT;
use crate::arch::REG_F;
use crate::arch::REG_I;
use crate::arch::REG_L;
use crate::arch::REG_S;
use crate::arch::SPEC_LITERAL;
use crate::arch::spec_arg_a;
use crate::arch::spec_arg_b;
use crate::arch::spec_arg_c;
use crate::arch::spec_opcode;
use crate::cpu::reg;
use crate::cpu::set_err;
use crate::cpu::sread_arg;
use crate::cpu::sread_u32;
use crate::cpu::swrite_arg;
use crate::cpu::win1;
use crate::cpu::win4;
use crate::cpu::with_reg;
use crate::cpu::wrap_add;
use crate::cpu::Vm;
use crate::isa::is_alu_carry;
use crate::isa::is_alu_checked;
use crate::isa::is_alu_ovf;
use crate::isa::is_alu_pure1;
use crate::isa::is_alu_pure2;
use crate::isa::is_cmp;
use crate::isa::is_float_binary;
use crate::isa::is_float_op;
use crate::isa::is_jump_if;
use crate::isa::is_jump_unless;
use crate::isa::salu_checked;
use crate::isa::scall;
use crate::isa::scmp;
use crate::isa::sdispatch;
use crate::isa::sjump;
use crate::isa::smem_op;
use crate::isa::sret;
use crate::isa::sstep;
use crate::mem::lemma_word_bytes;
use crate::mem::lemma_word_le_roundtrip;
use crate::mem::word_le;

verus! {

/// The opcodes that may move the instruction pointer somewhere other than
/// past the instruction.
pub open spec fn is_branch_op(op: u32) -> bool {
    ||| op == OP_JMP
    ||| is_jump_if(op)
    ||| is_jump_unless(op)
    ||| op == OP_CALL
    ||| op == OP_RET
}

/// One where an operand specifier names an inline literal.
pub open spec fn lit1(x: u8) -> int {
    if x == SPEC_LITERAL {
        1
    } else {
        0
    }
}

/// Whether an opcode reads its first two operand specifiers.
pub open spec fn reads_two(op: u32) -> bool {
    ||| is_alu_carry(op)
    ||| is_alu_ovf(op)
    ||| is_alu_pure2(op)
    ||| is_alu_checked(op)
    ||| is_cmp(op)
    ||| op == OP_ST
    ||| op == OP_ST8
    ||| op == OP_FCMP
    ||| is_float_binary(op)
}

/// Whether an opcode reads only its first operand specifier.
pub open spec fn reads_one(op: u32) -> bool {
    ||| is_alu_pure1(op)
    ||| op == OP_WRITE_STDOUT
    ||| op == OP_LD
    ||| op == OP_LD8
    ||| (is_float_op(op) && !is_float_binary(op) && op != OP_FCMP)
}

/// How many inline literals a non-branch instruction consumes.
pub open spec fn consumed_literals(op: u32, a: u8, b: u8) -> int {
    if reads_two(op) {
        lit1(a) + lit1(b)
    } else if reads_one(op) {
        lit1(a)
    } else {
        0
    }
}

/// Whether the instruction's written operand leaves the instruction
/// pointer alone (a destination may legitimately name it; then the law
/// about the pointer's advance does not apply).
pub open spec fn dests_spare_ip(op: u32, b: u8, c: u8) -> bool {
    if is_alu_carry(op) || is_alu_ovf(op) || is_alu_pure2(op) || is_alu_checked(op) {
        (c as u32) != REG_I
    } else if is_alu_pure1(op) || op == OP_LD || op == OP_LD8 {
        (b as u32) != REG_I
    } else {
        true
    }
}

/// A specifier below 64 has the stack bit clear: it names a register.
proof fn lemma_reg_operand(x: u8)
    by (bit_vector)
    ensures
        x < 64 ==> (x & 0x40) == 0,
{
}

/// Resolving one operand moves the instruction pointer by four exactly
/// when the operand is an inline literal.
proof fn lemma_read_arg_ip(s: Vm, sp: u8)
    requires
        s.wf(),
    ensures
        reg(sread_arg(s, sp).0, REG_I) == if sp == SPEC_LITERAL {
            wrap_add(reg(s, REG_I), 4)
        } else {
            reg(s, REG_I)
        },
        sread_arg(s, sp).0.mem == s.mem,
{
}

/// Writing an operand other than the instruction pointer register leaves
/// the instruction pointer alone.
proof fn lemma_write_arg_ip(s: Vm, sp: u8, v: u32)
    requires
        s.wf(),
        (sp as u32) != REG_I,
    ensures
        reg(swrite_arg(s, sp, v), REG_I) == reg(s, REG_I),
{
}

/// Folding a chain of wrapped additions into one addition modulo 2^32.
proof fn lemma_wrap_add_fold(i: u32, x: u32, y: int)
    requires
        0 <= y,
        x + y <= 0xFFFF_FFFF,
    ensures
        (wrap_add(i, x) + y) % 0x1_0000_0000 == (i + x + y) % 0x1_0000_0000,
{
    lemma_add_mod_noop(i + x, y, 0x1_0000_0000);
    lemma_mod_bound((i + x) as int, 0x1_0000_0000);
    lemma_small_mod(y as nat, 0x1_0000_0000nat);
    lemma_add_mod_noop((i + x) % 0x1_0000_0000, y, 0x1_0000_0000);
}

/// After any instruction that is not a branch, the instruction pointer
/// has moved past the instruction word and past each inline literal the
/// instruction consumed: by `4 + 4·literals`, modulo 2^32.
#[verifier::rlimit(100)]
pub proof fn lemma_ip_advance(s: Vm)
    requires
        s.wf(),
        !is_branch_op(spec_opcode(sread_u32(s, reg(s, REG_I)).1)),
        ({
            let w = sread_u32(s, reg(s, REG_I)).1;
            dests_spare_ip(spec_opcode(w), spec_arg_b(w), spec_arg_c(w))
        }),
    ensures
        ({
            let w = sread_u32(s, reg(s, REG_I)).1;
            reg(sstep(s).0, REG_I) == (reg(s, REG_I) + 4 + 4 * consumed_literals(
                spec_opcode(w),
                spec_arg_a(w),
                spec_arg_b(w),
            )) % 0x1_0000_0000
        }),
{
    let rf = sread_u32(s, reg(s, REG_I));
    let s1 = rf.0;
    let w = rf.1;
    let op = spec_opcode(w);
    let a = spec_arg_a(w);
    let b = spec_arg_b(w);
    let c = spec_arg_c(w);
    let s2 = with_reg(s1, REG_I, wrap_add(reg(s1, REG_I), 4));
    let i0 = reg(s, REG_I);
    assert(reg(s1, REG_I) == i0);
    assert(reg(s2, REG_I) == wrap_add(i0, 4));
    let sd = sdispatch(s2, op, a, b, c).0;
    if reads_two(op) {
        let ra = sread_arg(s2, a);
        let rb = sread_arg(ra.0, b);
        lemma_read_arg_ip(s2, a);
        lemma_read_arg_ip(ra.0, b);
        assert(reg(rb.0, REG_I) == (wrap_add(i0, 4) + 4 * (lit1(a) + lit1(b)))
            % 0x1_0000_0000) by {
            if a == SPEC_LITERAL && b == SPEC_LITERAL {
                lemma_wrap_add_fold(wrap_add(i0, 4), 4, 4);
                lemma_mod_bound((wrap_add(i0, 4) + 4) as int, 0x1_0000_0000);
                lemma_add_mod_noop(wrap_add(i0, 4) + 4, 4, 0x1_0000_0000);
                lemma_small_mod(4nat, 0x1_0000_0000nat);
            } else if a == SPEC_LITERAL || b == SPEC_LITERAL {
                lemma_small_mod((wrap_add(wrap_add(i0, 4), 4)) as nat, 0x1_0000_0000nat);
                lemma_wrap_add_fold(wrap_add(i0, 4), 4, 0);
                lemma_small_mod((wrap_add(i0, 4)) as nat, 0x1_0000_0000nat);
            } else {
                lemma_small_mod((wrap_add(i0, 4)) as nat, 0x1_0000_0000nat);
            }
        };
        // Whatever the opcode then writes spares the instruction pointer.
        if is_alu_carry(op) || is_alu_ovf(op) || is_alu_pure2(op) || is_alu_checked(op) {
            lemma_write_arg_ip(rb.0, c, 0);
            assert(reg(sd, REG_I) == reg(rb.0, REG_I));
        } else {
            assert(reg(sd, REG_I) == reg(rb.0, REG_I));
        }
    } else if reads_one(op) {
        let ra = sread_arg(s2, a);
        lemma_read_arg_ip(s2, a);
        assert(reg(ra.0, REG_I) == (wrap_add(i0, 4) + 4 * lit1(a)) % 0x1_0000_0000) by {
            if a == SPEC_LITERAL {
                lemma_wrap_add_fold(wrap_add(i0, 4), 4, 0);
                lemma_small_mod((wrap_add(wrap_add(i0, 4), 4)) as nat, 0x1_0000_0000nat);
            } else {
                lemma_small_mod((wrap_add(i0, 4)) as nat, 0x1_0000_0000nat);
            }
        };
        if is_alu_pure1(op) || op == OP_LD || op == OP_LD8 {
            lemma_write_arg_ip(ra.0, b, 0);
            assert(reg(sd, REG_I) == reg(ra.0, REG_I));
        } else {
            assert(reg(sd, REG_I) == reg(ra.0, REG_I));
        }
    } else {
        assert(reg(sd, REG_I) == reg(s2, REG_I));
        lemma_small_mod((wrap_add(i0, 4)) as nat, 0x1_0000_0000nat);
    }
    assert((wrap_add(i0, 4) as int) == (i0 + 4) % 0x1_0000_0000);
    lemma_wrap_add_fold(i0, 4, 4 * consumed_literals(op, a, b));
    lemma_add_mod_noop(i0 + 4, 4 * consumed_literals(op, a, b), 0x1_0000_0000);
}

/// A `call` followed immediately by `ret` restores the instruction
/// pointer, the stack pointer and the frame pointer to their values after
/// the call's target operand was read, and leaves every other register
/// alone: `ret` undoes `call`.
pub proof fn lemma_call_ret_roundtrip(s: Vm, a: u8)
    requires
        s.wf(),
        ({
            let sr = sread_arg(s, a).0;
            let sp = reg(sr, REG_S);
            &&& sr.min <= sp + 4
            &&& sp + 12 <= sr.max
        }),
    ensures
        ({
            let sr = sread_arg(s, a).0;
            let s2 = sret(scall(s, a));
            &&& reg(s2, REG_I) == reg(sr, REG_I)
            &&& reg(s2, REG_S) == reg(sr, REG_S)
            &&& reg(s2, REG_L) == reg(sr, REG_L)
            &&& forall|r: u32|
                r < 64 && r != REG_I && r != REG_S && r != REG_L ==> reg(s2, r) == reg(sr, r)
            &&& s2.mem == scall(s, a).mem
        }),
{
    let sr = sread_arg(s, a).0;
    let target = sread_arg(s, a).1;
    let sp = reg(sr, REG_S);
    let ret = reg(sr, REG_I);
    let l = reg(sr, REG_L);
    assert(sread_arg(s, a).0.mem.len() == s.mem.len());
    assert(wrap_add(sp, 4) == sp + 4) by {
        lemma_small_mod((sp + 4) as nat, 0x1_0000_0000nat);
    };
    assert(wrap_add(sp, 8) == sp + 8) by {
        lemma_small_mod((sp + 8) as nat, 0x1_0000_0000nat);
    };
    let sc = scall(s, a);
    lemma_word_bytes(l);
    lemma_word_bytes(ret);
    assert(word_le(sc.mem, sp + 8) == ret) by {
        lemma_word_le_roundtrip(sc.mem, sp + 8, ret);
    };
    assert(word_le(sc.mem, sp + 4) == l) by {
        lemma_word_le_roundtrip(sc.mem, sp + 4, l);
    };
    assert(win4(sc, wrap_add(reg(sc, REG_L), 4)));
    assert(win4(sc, wrap_add(reg(sc, REG_L), 8)));
    let s2 = sret(sc);
    assert(reg(s2, REG_I) == ret);
    assert(reg(s2, REG_L) == l);
    assert(reg(s2, REG_S) == sp);
}

/// `add` then `sub` with the same second operand restores the first
/// operand modulo 2^32, and the borrow raised by the subtraction equals
/// the carry raised by the addition.
pub proof fn lemma_add_sub_roundtrip(a: u32, b: u32)
    ensures
        ({
            let sum = (((a + b) % 0x1_0000_0000) as u32);
            &&& ((sum - b) % 0x1_0000_0000) as u32 == a
            &&& ((sum - b < 0) <==> (a + b > 0xFFFF_FFFF))
        }),
{
    assert(((((a + b) % 0x1_0000_0000) as u32 - b) % 0x1_0000_0000) as u32 == a && ((((a + b)
        % 0x1_0000_0000) as u32 - b < 0) <==> (a + b > 0xFFFF_FFFF))) by (bit_vector);
}

/// After an unsigned compare, a jump-if-sign branches exactly when the
/// first operand was below the second: the compare's sign flag is the
/// unsigned less-than.
pub proof fn lemma_cmp_then_js(s: Vm, a: u8, b: u8, t: u8)
    requires
        s.wf(),
        a < 48,
        b < 48,
        t < 48,
    ensures
        ({
            let s1 = scmp(s, OP_CMP, a, b);
            let s2 = sjump(s1, OP_JS, t);
            reg(s2, REG_I) == if reg(s, a as u32) < reg(s, b as u32) {
                reg(s, t as u32)
            } else {
                reg(s, REG_I)
            }
        }),
{
    lemma_reg_operand(a);
    lemma_reg_operand(b);
    lemma_reg_operand(t);
    let f = reg(s, REG_F);
    assert(((f | 0x1u32) | 0x2u32) & 0x2u32 != 0 && ((f | 0x1u32) & !0x2u32) & 0x2u32 == 0 && ((f
        & !0x1u32) | 0x2u32) & 0x2u32 != 0 && ((f & !0x1u32) & !0x2u32) & 0x2u32
        == 0) by (bit_vector);
}

/// Storing a byte and loading it back through the same address yields the
/// low byte of the stored word, zero-extended.
pub proof fn lemma_store_load_byte(s: Vm, a: u8, b: u8, d: u8)
    requires
        s.wf(),
        a < 48,
        b < 48,
        d < 48,
        win1(s, reg(s, a as u32)),
    ensures
        ({
            let s1 = smem_op(s, OP_ST8, a, b);
            let s2 = smem_op(s1, OP_LD8, a, d);
            reg(s2, d as u32) == reg(s, b as u32) & 0xFF
        }),
{
    lemma_reg_operand(a);
    lemma_reg_operand(b);
    lemma_reg_operand(d);
    let addr = reg(s, a as u32);
    let v = reg(s, b as u32);
    let s1 = smem_op(s, OP_ST8, a, b);
    assert(s1.mem == s.mem.update(addr as int, (v & 0xFF) as u8));
    lemma_word_bytes(v);
    assert(((v & 0xFF) as u8) as u32 == v & 0xFF);
    let s2 = smem_op(s1, OP_LD8, a, d);
    assert(reg(s1, a as u32) == addr);
    assert(s1.mem[addr as int] == (v & 0xFF) as u8);
}

/// Storing a word and loading it back through the same address yields the
/// word, for any in-window address.
pub proof fn lemma_store_load_word(s: Vm, a: u8, b: u8, d: u8)
    requires
        s.wf(),
        a < 48,
        b < 48,
        d < 48,
        win4(s, reg(s, a as u32)),
    ensures
        ({
            let s1 = smem_op(s, OP_ST, a, b);
            let s2 = smem_op(s1, OP_LD, a, d);
            reg(s2, d as u32) == reg(s, b as u32)
        }),
{
    lemma_reg_operand(a);
    lemma_reg_operand(b);
    lemma_reg_operand(d);
    let addr = reg(s, a as u32);
    let v = reg(s, b as u32);
    let s1 = smem_op(s, OP_ST, a, b);
    lemma_word_le_roundtrip(s1.mem, addr as int, v);
    let s2 = smem_op(s1, OP_LD, a, d);
    assert(reg(s1, a as u32) == addr);
}

/// A read outside the access window returns zero, raises the error flag,
/// and observes nothing: the memory and all other registers are left
/// exactly as they were.
pub proof fn lemma_out_of_window_read(s: Vm, addr: u32)
    requires
        s.wf(),
        !win4(s, addr),
    ensures
        sread_u32(s, addr).1 == 0,
        sread_u32(s, addr).0 == set_err(s),
        sread_u32(s, addr).0.mem == s.mem,
        forall|r: u32| r < 64 && r != REG_F ==> reg(sread_u32(s, addr).0, r) == reg(s, r),
{
}

/// An integer division by zero raises the division-error flag and leaves
/// every register but the flags, and all of memory, untouched; in
/// particular the destination keeps its prior value.
pub proof fn lemma_division_by_zero(s: Vm, op: u32, a: u8, b: u8, c: u8)
    requires
        s.wf(),
        is_alu_checked(op),
        op != OP_POW,
        a < 48,
        b < 48,
        reg(s, b as u32) == 0,
    ensures
        ({
            let s1 = salu_checked(s, op, a, b, c);
            &&& s1.mem == s.mem
            &&& reg(s1, REG_F) == reg(s, REG_F) | FLAG_BIT_L
            &&& forall|r: u32| r < 64 && r != REG_F ==> reg(s1, r) == reg(s, r)
        }),
{
    lemma_reg_operand(a);
    lemma_reg_operand(b);
    assert(crate::alu::to_i32(0u32) == 0i32);
}

/// The assembler's command encoding and the machine's decoder are
/// inverses: packing an opcode with three operand specifiers and decoding
/// the packed word yields them back.
pub proof fn lemma_encode_decode(op: u32, a: u8, b: u8, c: u8)
    requires
        op < 2048,
        a < 128,
        b < 128,
        c < 128,
    ensures
        ({
            let w = crate::assembler::spec_command_word(op, seq![a, b, c]);
            &&& spec_opcode(w) == op
            &&& spec_arg_a(w) == a
            &&& spec_arg_b(w) == b
            &&& spec_arg_c(w) == c
        }),
{
    let w = crate::assembler::spec_command_word(op, seq![a, b, c]);
    reveal_with_fuel(crate::assembler::spec_command_word, 5);
    assert(seq![a, b, c].drop_last() =~= seq![a, b]);
    assert(seq![a, b].drop_last() =~= seq![a]);
    assert(seq![a].drop_last() =~= Seq::<u8>::empty());
    assert(w == (((op << 7) | (a as u32)) << 7 | (b as u32)) << 7 | (c as u32));
    let packed = (((op << 7) | (a as u32)) << 7 | (b as u32)) << 7 | (c as u32);
    assert(op < 2048 && a < 128 && b < 128 && c < 128 ==> ((packed >> 21) & 0x7FF == op && (packed
        >> 14) & 0x7F == a && (packed >> 7) & 0x7F == b && packed & 0x7F == c)) by (bit_vector)
        requires
            packed == (((op << 7) | (a as u32)) << 7 | (b as u32)) << 7 | (c as u32),
    {
    }
}

/// The machine's thread counter is zero exactly when every core in the
/// registry has reached the terminated state: the shutdown protocol may
/// finish precisely then.
pub proof fn lemma_shutdown_complete(ctx: crate::machine::MachineCtx)
    requires
        ctx.wf(),
    ensures
        ctx.thread_count == 0 <==> (forall|i: int|
            0 <= i < ctx.threads@.len() ==> ctx.threads@[i].state
                == crate::cpu::STATE_TERMINATED),
{
    crate::machine::lemma_live_count_zero(ctx.threads@);
}

} // verus!
