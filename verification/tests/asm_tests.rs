//! Exercises the assembler: the lexer, the expression language, the two
//! passes, and assembling programs the machine then runs.

use crystalvm::arch::{OP_MOV, REG_I, REG_L, REG_S};
use crystalvm::assembler::{assemble_source, parse_source, Instruction};
use crystalvm::cpu::ThreadCore;
use crystalvm::lexer::{collect_word, WordClass};
use crystalvm::machine::load_image;

#[test]
fn hello_world_emit_and_first_cycle() {
    let src = "$entry 0x8E000\n@entry\nmov 72, %00\n";
    let image = assemble_source(src).unwrap();
    let entry = 0x8E000usize;
    assert_eq!(image.len(), entry + 8);
    // The first opcode word is `mov` packed with (literal, %00, 0).
    let expect = (OP_MOV << 21) | (0x7F << 14);
    let got = u32::from_le_bytes([image[entry], image[entry + 1], image[entry + 2], image[entry
        + 3]]);
    assert_eq!(got, expect);
    let lit = u32::from_le_bytes([image[entry + 4], image[entry + 5], image[entry + 6], image[entry
        + 7]]);
    assert_eq!(lit, 0x48);

    // One fetch-execute cycle leaves 0x48 in register 0 and the pointer
    // eight past the entry.
    let size = (entry + 0x100) as u32;
    let mut mem = load_image(&image, 0, size).unwrap();
    let mut core = ThreadCore::new(0, 0, 0, size, 0xFFFF_FFFF);
    core.registers[REG_I as usize] = entry as u32;
    core.exec_instr(&mut mem);
    assert_eq!(core.registers[0], 0x48);
    assert_eq!(core.registers[REG_I as usize], (entry + 8) as u32);
}

#[test]
fn labeled_data_reads_back() {
    let src = "jmp start\ngreeting:\n.u32 0xCAFEBABE\n.u8 7\n.u16 0x1234\nstart:\nnoop\n";
    let image = assemble_source(src).unwrap();
    // `jmp start` takes 8 bytes (word plus literal), so the label binds
    // at 8.
    let w = u32::from_le_bytes([image[8], image[9], image[10], image[11]]);
    assert_eq!(w, 0xCAFEBABE);
    assert_eq!(image[12], 7);
    assert_eq!(u16::from_le_bytes([image[13], image[14]]), 0x1234);
    // `start` binds after the data, at 15.
    let lit = u32::from_le_bytes([image[4], image[5], image[6], image[7]]);
    assert_eq!(lit, 15);
}

#[test]
fn ascii_data_is_emitted_verbatim() {
    let src = ".ascii \"Hi\\n\"\n";
    let image = assemble_source(src).unwrap();
    assert_eq!(image, vec![b'H', b'i', b'\n']);
}

#[test]
fn register_and_stack_operands_encode() {
    let src = "add %01 %02 *\n";
    let image = assemble_source(src).unwrap();
    let w = u32::from_le_bytes([image[0], image[1], image[2], image[3]]);
    assert_eq!(w, (crystalvm::arch::OP_ADD << 21) | (1 << 14) | (2 << 7) | 0x7E);
}

#[test]
fn special_register_names_encode() {
    let src = "mov %S %I\n";
    let image = assemble_source(src).unwrap();
    let w = u32::from_le_bytes([image[0], image[1], image[2], image[3]]);
    assert_eq!(w, (OP_MOV << 21) | (0x32 << 14) | (0x30 << 7));
}

#[test]
fn register_aliases_apply() {
    let src = "!%counter = %07\nmov 1, %counter\n";
    let image = assemble_source(src).unwrap();
    let w = u32::from_le_bytes([image[0], image[1], image[2], image[3]]);
    assert_eq!(w, (OP_MOV << 21) | (0x7F << 14) | (7 << 7));
}

#[test]
fn comments_and_blank_lines_are_skipped() {
    let src = "// a comment\n\nnoop // trailing\n";
    let image = assemble_source(src).unwrap();
    assert_eq!(image.len(), 4);
}

#[test]
fn expression_precedence_groups_and_before_add() {
    // In `(6 | 1 + 2)` the bitwise group binds tighter: (6|1) + 2 = 9.
    let src = ".u32 (6 | 1 + 2)\n";
    let image = assemble_source(src).unwrap();
    assert_eq!(u32::from_le_bytes([image[0], image[1], image[2], image[3]]), 9);
}

#[test]
fn expression_multiplication_binds_tighter_than_add() {
    let src = ".u32 (1 + 2 * 3)\n";
    let image = assemble_source(src).unwrap();
    assert_eq!(u32::from_le_bytes([image[0], image[1], image[2], image[3]]), 7);
}

#[test]
fn intrinsics_evaluate() {
    let src = "$a min(3, 1, 2)\n$b max(3, 1, 2)\n$c div_ceil(7, 2)\n$d align(10, 8)\n.u32 a\n.u32 b\n.u32 c\n.u32 d\n";
    let image = assemble_source(src).unwrap();
    let at = |i: usize| u32::from_le_bytes([image[i], image[i + 1], image[i + 2], image[i + 3]]);
    assert_eq!(at(0), 1);
    assert_eq!(at(4), 3);
    assert_eq!(at(8), 4);
    assert_eq!(at(12), 16);
}

#[test]
fn variables_may_depend_on_later_labels() {
    let src = "$where after\njmp where\nafter:\n";
    let image = assemble_source(src).unwrap();
    let lit = u32::from_le_bytes([image[4], image[5], image[6], image[7]]);
    assert_eq!(lit, 8);
}

#[test]
fn radix_prefixes_parse() {
    let src = ".u32 0x10\n.u32 0b101\n.u32 0o17\n.u32 0q123\n.u32 0z10\n.u32 0d9\n";
    let image = assemble_source(src).unwrap();
    let at = |i: usize| u32::from_le_bytes([image[i], image[i + 1], image[i + 2], image[i + 3]]);
    assert_eq!(at(0), 16);
    assert_eq!(at(4), 5);
    assert_eq!(at(8), 15);
    assert_eq!(at(12), 27);
    assert_eq!(at(16), 12);
    assert_eq!(at(20), 9);
}

#[test]
fn underscores_in_numbers_are_separators() {
    let src = ".u32 1_000_000\n";
    let image = assemble_source(src).unwrap();
    assert_eq!(u32::from_le_bytes([image[0], image[1], image[2], image[3]]), 1_000_000);
}

#[test]
fn signed_literals_carry_their_suffix() {
    let src = ".i32 -5i\n.i16 -2i\n.i8 -1i\n";
    let image = assemble_source(src).unwrap();
    assert_eq!(i32::from_le_bytes([image[0], image[1], image[2], image[3]]), -5);
    assert_eq!(i16::from_le_bytes([image[4], image[5]]), -2);
    assert_eq!(image[6], 0xFF);
}

#[test]
fn float_literal_is_refused() {
    assert!(assemble_source(".u32 (1 + 2.5)\n").is_err());
    assert!(assemble_source(".f32 1.5\n").is_err());
}

#[test]
fn bad_escape_is_refused() {
    assert!(assemble_source(".ascii \"a\\yb\"\n").is_err());
}

#[test]
fn non_ascii_is_refused() {
    assert!(assemble_source(".ascii \"caf\u{00E9}\"\n").is_err());
}

#[test]
fn unknown_instruction_is_refused() {
    assert!(assemble_source("frobnicate %00\n").is_err());
}

#[test]
fn register_out_of_range_is_refused() {
    assert!(assemble_source("mov 1, %48\n").is_err());
    assert!(assemble_source("mov 1, %0x07\n").is_err());
}

#[test]
fn address_regression_is_refused() {
    assert!(assemble_source("@8\nnoop\n@4\nnoop\n").is_err());
}

#[test]
fn unresolved_variable_is_refused() {
    assert!(assemble_source(".u32 nowhere\n").is_err());
}

#[test]
fn division_by_zero_in_expression_is_refused() {
    assert!(assemble_source(".u32 (1 / 0)\n").is_err());
}

#[test]
fn mixed_kinds_in_expression_are_refused() {
    assert!(assemble_source(".u32 (1 + 2i)\n").is_err());
}

#[test]
fn unary_negation_of_unsigned_is_refused() {
    assert!(assemble_source(".u32 -5\n").is_err());
}

#[test]
fn value_out_of_declared_width_is_refused() {
    assert!(assemble_source(".u8 256\n").is_err());
    assert!(assemble_source(".u16 65536\n").is_err());
}

#[test]
fn include_lines_surface_for_the_embedder() {
    let instrs = parse_source("!include \"module\"\nnoop\n").unwrap();
    assert_eq!(instrs.len(), 2);
    match &instrs[0].1 {
        Instruction::Include(name) => assert_eq!(name.as_str(), "module"),
        _ => panic!("expected an include"),
    }
    // But a direct assembly of such a source is refused.
    assert!(assemble_source("!include \"module\"\n").is_err());
}

#[test]
fn location_pads_with_zeros() {
    let src = "@4\n.u8 9\n";
    let image = assemble_source(src).unwrap();
    assert_eq!(image, vec![0, 0, 0, 0, 9]);
}

#[test]
fn assembled_counter_program_runs() {
    // A loop that adds 1 to a register five times, then writes the result
    // into memory.
    let src = "\
$count 5\n\
mov 0, %00\n\
mov count, %01\n\
loop:\n\
add %00 1 %00\n\
sub %01 1 %01\n\
cmp 0 %01\n\
js loop\n\
st 0x80 %00\n\
";
    let image = assemble_source(src).unwrap();
    let size = 0x100u32;
    let mut mem = load_image(&image, 0, size).unwrap();
    let mut core = ThreadCore::new(0, 0, 0, size, 0xFFFF_FFFF);
    for _ in 0..200 {
        core.exec_instr(&mut mem);
    }
    assert_eq!(mem.read_word(0x80), 5);
}

#[test]
fn empty_source_gives_an_empty_image() {
    assert_eq!(assemble_source("").unwrap(), Vec::<u8>::new());
    assert_eq!(assemble_source("\n\n// nothing\n").unwrap(), Vec::<u8>::new());
}

#[test]
fn largest_word_literal_fits_and_one_more_does_not() {
    let image = assemble_source(".u32 0xFFFFFFFF\n").unwrap();
    assert_eq!(
        u32::from_le_bytes([image[0], image[1], image[2], image[3]]),
        0xFFFF_FFFF
    );
    assert!(assemble_source(".u32 0x100000000\n").is_err());
}

#[test]
fn collect_word_takes_the_identifier_run() {
    let bytes = b"abc_1+rest".to_vec();
    assert_eq!(collect_word(&bytes, 0, WordClass::Ident), 5);
    let nums = b"0x1F.5 tail".to_vec();
    assert_eq!(collect_word(&nums, 0, WordClass::Numeric), 6);
}

#[test]
fn assembled_call_and_ret_run() {
    // The main path calls a routine that stores 9 and returns; execution
    // resumes after the call.
    let src = "\
call fn\n\
st 0x80 7\n\
jmp end\n\
fn:\n\
st 0x84 9\n\
ret\n\
end:\n\
noop\n\
";
    let image = assemble_source(src).unwrap();
    let size = 0x200u32;
    let mut mem = load_image(&image, 0, size).unwrap();
    let mut core = ThreadCore::new(0, 0, 0, size, 0xFFFF_FFFF);
    core.registers[REG_S as usize] = 0x100;
    core.registers[REG_L as usize] = 0xF0;
    for _ in 0..8 {
        core.exec_instr(&mut mem);
    }
    assert_eq!(mem.read_word(0x84), 9);
    assert_eq!(mem.read_word(0x80), 7);
    // The frame unwound.
    assert_eq!(core.registers[REG_S as usize], 0x100);
    assert_eq!(core.registers[REG_L as usize], 0xF0);
}

#[test]
fn signed_ceiling_division_rounds_toward_positive() {
    let src = "$a div_ceil(-7i, 2i)\n$b div_ceil(7i, -2i)\n$c div_ceil(-7i, -2i)\n$d div_ceil(7i, 2i)\n.i32 a\n.i32 b\n.i32 c\n.i32 d\n";
    let image = assemble_source(src).unwrap();
    let at = |i: usize| i32::from_le_bytes([image[i], image[i + 1], image[i + 2], image[i + 3]]);
    assert_eq!(at(0), -3);
    assert_eq!(at(4), -3);
    assert_eq!(at(8), 4);
    assert_eq!(at(12), 4);
}

#[test]
fn overflowing_ceiling_division_is_refused() {
    // The one overflowing quotient: the smallest value divided by -1.
    let src = "$m (0i - 2147483647i - 1i)\n.i32 div_ceil(m, -1i)\n";
    assert!(assemble_source(src).is_err());
    assert!(assemble_source(".i32 div_ceil(5i, 0i)\n").is_err());
}
