//! Exercises the instruction engine: arithmetic, flags, memory access and
//! the call frame protocol.

use crystalvm::arch::{
    FLAG_BIT_C, FLAG_BIT_E, FLAG_BIT_L, FLAG_BIT_M, FLAG_BIT_S, FLAG_BIT_Z, OP_ADD, OP_CADD,
    OP_CALL, OP_CMP, OP_DIV, OP_FADD, OP_IDIV, OP_IMIN, OP_IMUL, OP_IPOW, OP_IREM, OP_IREME,
    OP_JS, OP_JZ, OP_LD, OP_LD8, OP_MOV, OP_NOOP, OP_POW, OP_RET, OP_SHL, OP_ST, OP_ST8, OP_SUB,
    OP_WRITE_STDOUT, OP_WSHL, OP_XOR, REG_C, REG_F, REG_I, REG_L, REG_S,
};
use crystalvm::cpu::ThreadCore;
use crystalvm::isa::Effect;
use crystalvm::mem::Memory;

/// A core over a fresh zeroed memory of `size` bytes, with a whole-memory
/// access window.
fn setup(size: usize) -> (ThreadCore, Memory) {
    let mem = Memory::new_zeroed(size);
    let core = ThreadCore::new(0, 0, 0, size as u32, 0xFFFF_FFFF);
    (core, mem)
}

fn word(op: u32, a: u32, b: u32, c: u32) -> u32 {
    (op << 21) | (a << 14) | (b << 7) | c
}

/// Writes one instruction at `addr` and points the instruction pointer at
/// it.
fn place(core: &mut ThreadCore, mem: &mut Memory, addr: u32, w: u32) {
    mem.write_word(addr as usize, w);
    core.registers[REG_I as usize] = addr;
}

#[test]
fn add_overflow_sets_carry() {
    let (mut core, mut mem) = setup(64);
    core.registers[0] = 0xFFFF_FFFF;
    core.registers[1] = 1;
    place(&mut core, &mut mem, 0, word(OP_ADD, 0, 1, 2));
    let e = core.exec_instr(&mut mem);
    assert!(matches!(e, Effect::Done));
    assert_eq!(core.registers[2], 0);
    assert_eq!(core.registers[REG_C as usize], 1);
    assert_ne!(core.registers[REG_F as usize] & FLAG_BIT_C, 0);
}

#[test]
fn add_no_overflow_keeps_carry_clear() {
    let (mut core, mut mem) = setup(64);
    core.registers[0] = 40;
    core.registers[1] = 2;
    place(&mut core, &mut mem, 0, word(OP_ADD, 0, 1, 2));
    core.exec_instr(&mut mem);
    assert_eq!(core.registers[2], 42);
    assert_eq!(core.registers[REG_C as usize], 0);
    assert_eq!(core.registers[REG_F as usize] & FLAG_BIT_C, 0);
}

#[test]
fn div_by_zero_sets_flag_and_keeps_destination() {
    let (mut core, mut mem) = setup(64);
    core.registers[0] = 100;
    core.registers[1] = 0;
    core.registers[2] = 0xDEAD_BEEF;
    place(&mut core, &mut mem, 0, word(OP_DIV, 0, 1, 2));
    core.exec_instr(&mut mem);
    assert_eq!(core.registers[2], 0xDEAD_BEEF);
    assert_ne!(core.registers[REG_F as usize] & FLAG_BIT_L, 0);
}

#[test]
fn add_then_sub_restores_value() {
    let (mut core, mut mem) = setup(64);
    core.registers[0] = 0xFFFF_FFF0;
    core.registers[1] = 0x20;
    place(&mut core, &mut mem, 0, word(OP_ADD, 0, 1, 2));
    core.exec_instr(&mut mem);
    // The addition wrapped, so its carry is up.
    assert_ne!(core.registers[REG_F as usize] & FLAG_BIT_C, 0);
    place(&mut core, &mut mem, 4, word(OP_SUB, 2, 1, 3));
    core.exec_instr(&mut mem);
    assert_eq!(core.registers[3], 0xFFFF_FFF0);
    // The subtraction borrowed, matching the addition's carry.
    assert_eq!(core.registers[REG_C as usize], 1);
}

#[test]
fn cmp_then_js_branches_on_unsigned_less() {
    let (mut core, mut mem) = setup(64);
    core.registers[0] = 3;
    core.registers[1] = 5;
    core.registers[2] = 48; // jump target
    place(&mut core, &mut mem, 0, word(OP_CMP, 0, 1, 0));
    core.exec_instr(&mut mem);
    place(&mut core, &mut mem, 4, word(OP_JS, 2, 0, 0));
    core.exec_instr(&mut mem);
    assert_eq!(core.registers[REG_I as usize], 48);

    // With the operands swapped the jump falls through.
    core.registers[0] = 5;
    core.registers[1] = 3;
    place(&mut core, &mut mem, 8, word(OP_CMP, 0, 1, 0));
    core.exec_instr(&mut mem);
    place(&mut core, &mut mem, 12, word(OP_JS, 2, 0, 0));
    core.exec_instr(&mut mem);
    assert_eq!(core.registers[REG_I as usize], 16);
}

#[test]
fn cmp_sets_zero_flag_on_equal() {
    let (mut core, mut mem) = setup(64);
    core.registers[0] = 7;
    core.registers[1] = 7;
    place(&mut core, &mut mem, 0, word(OP_CMP, 0, 1, 0));
    core.exec_instr(&mut mem);
    assert_ne!(core.registers[REG_F as usize] & FLAG_BIT_Z, 0);
    assert_eq!(core.registers[REG_F as usize] & FLAG_BIT_S, 0);
}

#[test]
fn store_load_word_roundtrip() {
    let (mut core, mut mem) = setup(128);
    core.registers[0] = 64; // address
    core.registers[1] = 0x1234_5678; // value
    place(&mut core, &mut mem, 0, word(OP_ST, 0, 1, 0));
    core.exec_instr(&mut mem);
    place(&mut core, &mut mem, 4, word(OP_LD, 0, 2, 0));
    core.exec_instr(&mut mem);
    assert_eq!(core.registers[2], 0x1234_5678);
}

#[test]
fn store_load_byte_truncates() {
    let (mut core, mut mem) = setup(128);
    core.registers[0] = 100;
    core.registers[1] = 0x0000_1234;
    place(&mut core, &mut mem, 0, word(OP_ST8, 0, 1, 0));
    core.exec_instr(&mut mem);
    core.registers[2] = 0xFFFF_FFFF;
    place(&mut core, &mut mem, 4, word(OP_LD8, 0, 2, 0));
    core.exec_instr(&mut mem);
    assert_eq!(core.registers[2], 0x34);
}

#[test]
fn out_of_window_read_errors_and_returns_zero() {
    let mem = Memory::new_zeroed(64);
    let mut core = ThreadCore::new(0, 0, 16, 32, 0xFFFF_FFFF);
    let v = core.read_u32(&mem, 40);
    assert_eq!(v, 0);
    assert_ne!(core.registers[REG_F as usize] & FLAG_BIT_E, 0);
}

#[test]
fn out_of_window_write_is_dropped() {
    let mut mem = Memory::new_zeroed(64);
    let mut core = ThreadCore::new(0, 0, 16, 32, 0xFFFF_FFFF);
    core.write_u32(&mut mem, 40, 0xAABB_CCDD);
    assert_ne!(core.registers[REG_F as usize] & FLAG_BIT_E, 0);
    for i in 0..64 {
        assert_eq!(mem.read_byte(i), 0);
    }
}

#[test]
fn mov_with_literal_advances_ip_by_eight() {
    let (mut core, mut mem) = setup(64);
    place(&mut core, &mut mem, 0, word(OP_MOV, 0x7F, 5, 0));
    mem.write_word(4, 0x48);
    core.exec_instr(&mut mem);
    assert_eq!(core.registers[5], 0x48);
    assert_eq!(core.registers[REG_I as usize], 8);
}

#[test]
fn noop_advances_ip_by_four() {
    let (mut core, mut mem) = setup(64);
    place(&mut core, &mut mem, 12, word(OP_NOOP, 0, 0, 0));
    core.exec_instr(&mut mem);
    assert_eq!(core.registers[REG_I as usize], 16);
}

#[test]
fn untaken_jump_with_literal_steps_over_it() {
    let (mut core, mut mem) = setup(64);
    // The zero flag is down, so `jz` with a literal target falls through
    // but still consumes the literal.
    place(&mut core, &mut mem, 0, word(OP_JZ, 0x7F, 0, 0));
    mem.write_word(4, 40);
    core.exec_instr(&mut mem);
    assert_eq!(core.registers[REG_I as usize], 8);
}

#[test]
fn call_then_ret_restores_frame() {
    let (mut core, mut mem) = setup(0x200);
    core.registers[REG_S as usize] = 0x100;
    core.registers[REG_L as usize] = 0x80;
    core.registers[6] = 0x60; // the call target
    place(&mut core, &mut mem, 0x20, word(OP_CALL, 6, 0, 0));
    core.exec_instr(&mut mem);
    assert_eq!(core.registers[REG_I as usize], 0x60);
    assert_eq!(core.registers[REG_L as usize], 0x100);
    assert_eq!(core.registers[REG_S as usize], 0x108);
    assert_eq!(mem.read_word(0x104), 0x80);
    assert_eq!(mem.read_word(0x108), 0x24);

    place_ret(&mut core, &mut mem, 0x60);
    core.exec_instr(&mut mem);
    assert_eq!(core.registers[REG_I as usize], 0x24);
    assert_eq!(core.registers[REG_S as usize], 0x100);
    assert_eq!(core.registers[REG_L as usize], 0x80);
}

fn place_ret(core: &mut ThreadCore, mem: &mut Memory, addr: u32) {
    mem.write_word(addr as usize, (OP_RET << 21));
    core.registers[REG_I as usize] = addr;
}

#[test]
fn ret_with_bad_frame_sets_error_and_stays() {
    let (mut core, mut mem) = setup(0x100);
    core.registers[REG_L as usize] = 0xFFFF_0000;
    place_ret(&mut core, &mut mem, 0x10);
    core.exec_instr(&mut mem);
    assert_ne!(core.registers[REG_F as usize] & FLAG_BIT_E, 0);
    // The pointer only moved past the instruction word itself.
    assert_eq!(core.registers[REG_I as usize], 0x14);
}

#[test]
fn stack_operand_pushes_and_pops() {
    let (mut core, mut mem) = setup(0x100);
    core.registers[REG_S as usize] = 0x40;
    core.registers[0] = 11;
    core.registers[1] = 31;
    // A stack destination pushes the sum.
    place(&mut core, &mut mem, 0, word(OP_ADD, 0, 1, 0x7E));
    core.exec_instr(&mut mem);
    assert_eq!(core.registers[REG_S as usize], 0x44);
    assert_eq!(mem.read_word(0x44), 42);
    // A stack source pops it back.
    place(&mut core, &mut mem, 4, word(OP_MOV, 0x7E, 2, 0));
    core.exec_instr(&mut mem);
    assert_eq!(core.registers[2], 42);
    assert_eq!(core.registers[REG_S as usize], 0x40);
}

#[test]
fn write_to_literal_operand_sets_error() {
    let (mut core, mut mem) = setup(64);
    core.registers[0] = 1;
    core.registers[1] = 2;
    place(&mut core, &mut mem, 0, word(OP_ADD, 0, 1, 0x7F));
    core.exec_instr(&mut mem);
    assert_ne!(core.registers[REG_F as usize] & FLAG_BIT_E, 0);
}

#[test]
fn unknown_opcode_sets_error() {
    let (mut core, mut mem) = setup(64);
    place(&mut core, &mut mem, 0, word(2000, 0, 0, 0));
    core.exec_instr(&mut mem);
    assert_ne!(core.registers[REG_F as usize] & FLAG_BIT_E, 0);
}

#[test]
fn imul_overflow_raises_carry_flag_only() {
    let (mut core, mut mem) = setup(64);
    core.registers[0] = 0x4000_0000; // 2^30
    core.registers[1] = 4;
    place(&mut core, &mut mem, 0, word(OP_IMUL, 0, 1, 2));
    core.exec_instr(&mut mem);
    assert_eq!(core.registers[2], 0);
    assert_ne!(core.registers[REG_F as usize] & FLAG_BIT_C, 0);
}

#[test]
fn ipow_computes_small_powers() {
    let (mut core, mut mem) = setup(64);
    core.registers[0] = 3;
    core.registers[1] = 4;
    place(&mut core, &mut mem, 0, word(OP_IPOW, 0, 1, 2));
    core.exec_instr(&mut mem);
    assert_eq!(core.registers[2], 81);
    assert_eq!(core.registers[REG_F as usize] & FLAG_BIT_C, 0);
}

#[test]
fn pow_overflow_raises_carry_and_keeps_destination() {
    let (mut core, mut mem) = setup(64);
    core.registers[0] = 2;
    core.registers[1] = 40;
    core.registers[2] = 7;
    place(&mut core, &mut mem, 0, word(OP_POW, 0, 1, 2));
    core.exec_instr(&mut mem);
    assert_eq!(core.registers[2], 7);
    assert_ne!(core.registers[REG_F as usize] & FLAG_BIT_C, 0);
}

#[test]
fn signed_division_truncates_toward_zero() {
    let (mut core, mut mem) = setup(64);
    core.registers[0] = (-7i32) as u32;
    core.registers[1] = 2;
    place(&mut core, &mut mem, 0, word(OP_IDIV, 0, 1, 2));
    core.exec_instr(&mut mem);
    assert_eq!(core.registers[2] as i32, -3);
}

#[test]
fn signed_remainder_keeps_dividend_sign() {
    let (mut core, mut mem) = setup(64);
    core.registers[0] = (-7i32) as u32;
    core.registers[1] = 2;
    place(&mut core, &mut mem, 0, word(OP_IREM, 0, 1, 2));
    core.exec_instr(&mut mem);
    assert_eq!(core.registers[2] as i32, -1);
}

#[test]
fn euclidean_remainder_is_nonnegative() {
    let (mut core, mut mem) = setup(64);
    core.registers[0] = (-7i32) as u32;
    core.registers[1] = 2;
    place(&mut core, &mut mem, 0, word(OP_IREME, 0, 1, 2));
    core.exec_instr(&mut mem);
    assert_eq!(core.registers[2] as i32, 1);
}

#[test]
fn shift_past_width_zeroes_and_flags() {
    let (mut core, mut mem) = setup(64);
    core.registers[0] = 0xFF;
    core.registers[1] = 32;
    place(&mut core, &mut mem, 0, word(OP_SHL, 0, 1, 2));
    core.exec_instr(&mut mem);
    assert_eq!(core.registers[2], 0);
    assert_ne!(core.registers[REG_F as usize] & FLAG_BIT_C, 0);
}

#[test]
fn wrapping_shift_uses_low_bits_of_count() {
    let (mut core, mut mem) = setup(64);
    core.registers[0] = 1;
    core.registers[1] = 33;
    place(&mut core, &mut mem, 0, word(OP_WSHL, 0, 1, 2));
    core.exec_instr(&mut mem);
    assert_eq!(core.registers[2], 2);
}

#[test]
fn xor_is_bitwise() {
    let (mut core, mut mem) = setup(64);
    core.registers[0] = 0b1100;
    core.registers[1] = 0b1010;
    place(&mut core, &mut mem, 0, word(OP_XOR, 0, 1, 2));
    core.exec_instr(&mut mem);
    assert_eq!(core.registers[2], 0b0110);
}

#[test]
fn signed_min_compares_signed() {
    let (mut core, mut mem) = setup(64);
    core.registers[0] = (-5i32) as u32;
    core.registers[1] = 3;
    place(&mut core, &mut mem, 0, word(OP_IMIN, 0, 1, 2));
    core.exec_instr(&mut mem);
    assert_eq!(core.registers[2] as i32, -5);
}

#[test]
fn carrying_add_reads_carry_under_mask() {
    let (mut core, mut mem) = setup(64);
    core.registers[0] = 10;
    core.registers[1] = 20;
    core.registers[REG_C as usize] = 1;
    // Without the carry-in mask the carry register is ignored.
    place(&mut core, &mut mem, 0, word(OP_CADD, 0, 1, 2));
    core.exec_instr(&mut mem);
    assert_eq!(core.registers[2], 30);
    // With the mask up the low carry bit feeds in.
    core.registers[REG_F as usize] |= FLAG_BIT_M;
    core.registers[REG_C as usize] = 1;
    place(&mut core, &mut mem, 4, word(OP_CADD, 0, 1, 2));
    core.exec_instr(&mut mem);
    assert_eq!(core.registers[2], 31);
}

#[test]
fn putchar_effect_carries_the_character() {
    let (mut core, mut mem) = setup(64);
    core.registers[0] = 0x48;
    place(&mut core, &mut mem, 0, word(OP_WRITE_STDOUT, 0, 0, 0));
    let e = core.exec_instr(&mut mem);
    assert_eq!(e, Effect::PutChar { code: 0x48 });
}

#[test]
fn putchar_invalid_scalar_substitutes_and_errors() {
    let (mut core, mut mem) = setup(64);
    core.registers[0] = 0xD800;
    place(&mut core, &mut mem, 0, word(OP_WRITE_STDOUT, 0, 0, 0));
    let e = core.exec_instr(&mut mem);
    assert_eq!(e, Effect::PutChar { code: 0xFFFD });
    assert_ne!(core.registers[REG_F as usize] & FLAG_BIT_E, 0);
}

#[test]
fn float_opcode_hands_out_an_effect() {
    let (mut core, mut mem) = setup(64);
    core.registers[0] = 0x3F80_0000;
    core.registers[1] = 0x4000_0000;
    place(&mut core, &mut mem, 0, word(OP_FADD, 0, 1, 2));
    let e = core.exec_instr(&mut mem);
    assert_eq!(
        e,
        Effect::FloatOp { op: OP_FADD, x: 0x3F80_0000, y: 0x4000_0000, dest_b: 1, dest_c: 2 }
    );
    // The embedder computes and stores through the named operand.
    core.write_arg(&mut mem, 2, 0x4040_0000);
    assert_eq!(core.registers[2], 0x4040_0000);
}

#[test]
fn run_stops_on_effect_and_counts_fuel() {
    let (mut core, mut mem) = setup(64);
    core.registers[0] = 0x41;
    // Two no-ops then a console write.
    mem.write_word(0, word(OP_NOOP, 0, 0, 0));
    mem.write_word(4, word(OP_NOOP, 0, 0, 0));
    mem.write_word(8, word(OP_WRITE_STDOUT, 0, 0, 0));
    core.registers[REG_I as usize] = 0;
    core.state = crystalvm::cpu::STATE_RUNNING;
    let e = core.run(&mut mem, 100);
    assert_eq!(e, Effect::PutChar { code: 0x41 });
    assert_eq!(core.registers[REG_I as usize], 12);
}
