//! Exercises the devices, the renderers, the debugger helpers and the
//! text utilities.

use crystalvm::debugger::{parse_debug_command, string_to_u32, Debugger};
use crystalvm::device::{Keyboard, MemRead, MemWrite, Mouse};
use crystalvm::screen::{render_screen, render_text};
use crystalvm::arch::{REG_I, REG_S};
use crystalvm::text::{u32_to_dec, string_of_bytes};

#[test]
fn keyboard_presents_identifier_then_frames() {
    let mut kb = Keyboard::new();
    let mut first: Vec<u8> = Vec::new();
    for _ in 0..16 {
        first.push(kb.write_byte().unwrap());
    }
    assert_eq!(&first[0..8], b"keyboard");
    assert_eq!(&first[8..16], &[0u8; 8]);
    kb.set_key_data(0x0102_0304, b'a', 0x81);
    let mut frame: Vec<u8> = Vec::new();
    for _ in 0..6 {
        frame.push(kb.write_byte().unwrap());
    }
    assert_eq!(frame, vec![1, 2, 3, 4, b'a', 0x81]);
}

#[test]
fn mouse_presents_identifier_then_frames() {
    let mut m = Mouse::new();
    let mut first: Vec<u8> = Vec::new();
    for _ in 0..16 {
        first.push(m.write_byte().unwrap());
    }
    assert_eq!(&first[0..5], b"mouse");
    m.set_mouse_data(7, 9, 0b101);
    let mut frame: Vec<u8> = Vec::new();
    for _ in 0..9 {
        frame.push(m.write_byte().unwrap());
    }
    assert_eq!(frame, vec![0, 0, 0, 7, 0, 0, 0, 9, 0b101]);
}

#[test]
fn keyboard_flags_pack_the_modifiers() {
    assert_eq!(crystalvm::device::keyboard_flags(true, false, false, false, true), 0x81);
    assert_eq!(crystalvm::device::keyboard_flags(false, true, true, true, false), 0b1110);
}

#[test]
fn mem_read_walks_a_slice() {
    let data = vec![5u8, 6, 7];
    let mut r = MemRead::new(&data);
    assert_eq!(r.next(), Some(5));
    let rest = r.read(10);
    assert_eq!(rest, vec![6, 7]);
    assert_eq!(r.next(), None);
}

#[test]
fn mem_write_respects_its_limit() {
    let mut w = MemWrite::new(2);
    let taken = w.write(&vec![1, 2, 3]);
    assert_eq!(taken, 2);
    assert_eq!(w.flush(), vec![1, 2]);
}

#[test]
fn render_screen_copies_the_buffer() {
    let mut buffer = vec![0u8; 256000];
    buffer[0] = 9;
    buffer[255999] = 8;
    let mut pix = vec![0u8; 256000];
    render_screen(&buffer, &mut pix);
    assert_eq!(pix[0], 9);
    assert_eq!(pix[255999], 8);
}

#[test]
fn render_text_blits_a_glyph() {
    let mut text = vec![0u8; 1000];
    text[0] = 1; // character 1 in the top-left cell
    let mut font = vec![0u8; 16384];
    font[64] = 200; // glyph 1, top-left sample
    let mut pix = vec![0u8; 256000];
    render_text(&text, &font, &mut pix);
    // The first pixel takes glyph 1's level in its color bytes.
    assert_eq!(pix[0], 200);
    assert_eq!(pix[1], 200);
    assert_eq!(pix[2], 200);
    assert_eq!(pix[3], 255);
    // One cell to the right shows glyph 0, which is blank.
    assert_eq!(pix[8 * 4], 0);
    assert_eq!(pix[8 * 4 + 3], 255);
}

#[test]
fn debugger_records_parse_big_endian() {
    let mut info: Vec<u8> = Vec::new();
    info.extend_from_slice(&0x10u32.to_be_bytes());
    info.extend_from_slice(&3u32.to_be_bytes());
    info.extend_from_slice(&0x14u32.to_be_bytes());
    info.extend_from_slice(&4u32.to_be_bytes());
    info.push(0xFF); // a trailing fragment is ignored
    let d = Debugger::with_debug_info_file(&info);
    assert_eq!(d.line_for(0x10), Some(3));
    assert_eq!(d.line_for(0x14), Some(4));
    assert_eq!(d.line_for(0x18), None);
}

#[test]
fn later_debug_records_shadow_earlier_ones() {
    let mut info: Vec<u8> = Vec::new();
    info.extend_from_slice(&0x10u32.to_be_bytes());
    info.extend_from_slice(&3u32.to_be_bytes());
    info.extend_from_slice(&0x10u32.to_be_bytes());
    info.extend_from_slice(&9u32.to_be_bytes());
    let d = Debugger::with_debug_info_file(&info);
    assert_eq!(d.line_for(0x10), Some(9));
}

#[test]
fn debugger_numbers_accept_radix_prefixes() {
    assert_eq!(string_to_u32(&b"0x1f".to_vec()), Some(31));
    assert_eq!(string_to_u32(&b"0b101".to_vec()), Some(5));
    assert_eq!(string_to_u32(&b"1_000".to_vec()), Some(1000));
    assert_eq!(string_to_u32(&b"42".to_vec()), Some(42));
    assert_eq!(string_to_u32(&b"zz".to_vec()), None);
    assert_eq!(string_to_u32(&b"".to_vec()), None);
}

#[test]
fn debug_commands_parse() {
    let c = parse_debug_command(&b"n=3, print=regs".to_vec()).unwrap();
    assert_eq!(c.n, 3);
    assert!(c.print_regs);
    assert!(!c.help);
    let c2 = parse_debug_command(&b"print=mem:0x10+8, bp=true, bpt=ab".to_vec()).unwrap();
    assert_eq!(c2.print_mem, Some((0x10, 8)));
    assert!(c2.breakpoint);
    assert_eq!(c2.breakpoint_tag, Some(b"ab".to_vec()));
    assert!(parse_debug_command(&b"nonsense".to_vec()).is_err());
    assert!(parse_debug_command(&b"help=maybe".to_vec()).is_err());
}

#[test]
fn operand_preview_reads_without_side_effects() {
    let mut mem = crystalvm::mem::Memory::new_zeroed(64);
    let mut core = crystalvm::cpu::ThreadCore::new(0, 0, 0, 64, 0xFFFF_FFFF);
    mem.write_word(16, 0xAB);
    mem.write_word(32, 0xCD);
    core.registers[REG_I as usize] = 16;
    core.registers[REG_S as usize] = 32;
    core.registers[3] = 77;
    assert_eq!(crystalvm::debugger::peek_arg(&core, &mem, 0x7F), 0xAB);
    assert_eq!(crystalvm::debugger::peek_arg(&core, &mem, 0x40), 0xCD);
    assert_eq!(crystalvm::debugger::peek_arg(&core, &mem, 3), 77);
    // Nothing moved.
    assert_eq!(core.registers[REG_I as usize], 16);
    assert_eq!(core.registers[REG_S as usize], 32);
}

#[test]
fn hex_and_decimal_rendering() {
    assert_eq!(crystalvm::debugger::u32_to_hex8(0xDEADBEEF).as_str(), "DEADBEEF");
    assert_eq!(crystalvm::debugger::u32_to_hex8(5).as_str(), "00000005");
    assert_eq!(u32_to_dec(0).as_str(), "0");
    assert_eq!(u32_to_dec(90210).as_str(), "90210");
    assert_eq!(u32_to_dec(4294967295).as_str(), "4294967295");
}

#[test]
fn operand_names_render() {
    assert_eq!(crystalvm::debugger::arg_name(0x7F).as_str(), "literal");
    assert_eq!(crystalvm::debugger::arg_name(0x40).as_str(), "*");
    assert_eq!(crystalvm::debugger::arg_name(0x30).as_str(), "%I");
    assert_eq!(crystalvm::debugger::arg_name(0x0A).as_str(), "%0A");
}

#[test]
fn string_of_bytes_takes_a_window() {
    let bytes = b"hello".to_vec();
    assert_eq!(string_of_bytes(&bytes, 1, 4).as_str(), "ell");
}
