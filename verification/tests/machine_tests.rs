//! Exercises the machine context: loading, the thread registry and the
//! atomic section.

use crystalvm::arch::{ENTRY_ADDRESS, IMAGE_BASE, OP_MOV, REG_I};
use crystalvm::cpu::{STATE_TERMINATED, STATE_TERMINATING};
use crystalvm::machine::{load_image, LoadError, Machine, MachineCtx};
use crystalvm::mem::Memory;

#[test]
fn image_that_does_not_fit_is_refused() {
    let image: Vec<u8> = vec![0; 100];
    // With base + N - 1 bytes of memory the load must fail.
    let r = load_image(&image, 64, 64 + 100 - 1);
    assert!(matches!(r, Err(LoadError::ImageTooLarge { .. })));
    let r2 = load_image(&image, 64, 64 + 100);
    assert!(r2.is_ok());
}

#[test]
fn loaded_image_lands_at_its_base() {
    let image: Vec<u8> = vec![1, 2, 3, 4];
    let mem = load_image(&image, 8, 16).unwrap();
    assert_eq!(mem.len(), 16);
    for i in 0..8 {
        assert_eq!(mem.read_byte(i), 0);
    }
    assert_eq!(mem.read_byte(8), 1);
    assert_eq!(mem.read_byte(11), 4);
    for i in 12..16 {
        assert_eq!(mem.read_byte(i), 0);
    }
}

#[test]
fn from_image_bytes_checks_the_size() {
    let image: Vec<u8> = vec![0; 10];
    assert!(Machine::from_image_bytes(&image, 9).is_err());
    let m = Machine::from_image_bytes(&image, 10).unwrap();
    assert_eq!(m.ctx.memory.len(), 10);
    assert_eq!(m.ctx.thread_count, 0);
    assert!(m.ctx.running);
}

#[test]
fn spawned_threads_count_until_terminated() {
    let mem = Memory::new_zeroed(64);
    let mut ctx = MachineCtx::new(mem);
    let t0 = ctx.spawn(0, 0, 0, 64, 0xFFFF_FFFF);
    let t1 = ctx.spawn(t0, 0, 0, 64, 0xFFFF_FFFF);
    assert_eq!(t0, 0);
    assert_eq!(t1, 1);
    assert_eq!(ctx.thread_count, 2);
    assert!(ctx.request_stop(t1));
    assert_eq!(ctx.threads[t1 as usize].state, STATE_TERMINATING);
    ctx.finish_thread(t1);
    assert_eq!(ctx.threads[t1 as usize].state, STATE_TERMINATED);
    assert_eq!(ctx.thread_count, 1);
    assert!(ctx.request_stop(t0));
    ctx.finish_thread(t0);
    // The counter reaches zero exactly when every core has terminated.
    assert_eq!(ctx.thread_count, 0);
    assert!(!ctx.request_stop(7));
}

#[test]
fn child_and_parent_walk_the_registry() {
    let mem = Memory::new_zeroed(64);
    let mut ctx = MachineCtx::new(mem);
    let t0 = ctx.spawn(0, 0, 0, 64, 0xFFFF_FFFF);
    let t1 = ctx.spawn(t0, 0, 0, 64, 0xFFFF_FFFF);
    let t2 = ctx.spawn(t1, 0, 0, 64, 0xFFFF_FFFF);
    assert!(ctx.threads[t2 as usize].is_child_of(&ctx, t0));
    assert!(ctx.threads[t2 as usize].is_child_of(&ctx, t1));
    assert!(ctx.threads[t2 as usize].is_child_of(&ctx, t2));
    assert!(!ctx.threads[t1 as usize].is_child_of(&ctx, t2));
    assert!(ctx.threads[t0 as usize].is_parent_of(&ctx, t2));
    assert!(!ctx.threads[t2 as usize].is_parent_of(&ctx, t0) || t2 == t0);
    assert!(!ctx.threads[t0 as usize].is_parent_of(&ctx, 9));
}

#[test]
fn atomic_increments_from_two_cores_all_land() {
    let mem = Memory::new_zeroed(64);
    let mut ctx = MachineCtx::new(mem);
    let _ = ctx.spawn(0, 0, 0, 64, 0xFFFF_FFFF);
    let _ = ctx.spawn(0, 0, 0, 64, 0xFFFF_FFFF);
    // Two cores take turns in the atomic section, a million increments
    // each; every one of the two million lands.
    let rounds = 1_000_000u32;
    for _ in 0..rounds {
        ctx.atomic_op(16, |x: u32| x.wrapping_add(1));
        ctx.atomic_op(16, |x: u32| x.wrapping_add(1));
    }
    assert_eq!(ctx.memory.read_word(16), 2_000_000);
    assert!(!ctx.atomic_lock);
}

#[test]
fn atomic_op_returns_the_previous_word() {
    let mem = Memory::new_zeroed(64);
    let mut ctx = MachineCtx::new(mem);
    ctx.memory.write_word(8, 41);
    let prev = ctx.atomic_op(8, |x: u32| x.wrapping_add(1));
    assert_eq!(prev, 41);
    assert_eq!(ctx.memory.read_word(8), 42);
}

#[test]
fn machine_run_executes_the_image_from_zero() {
    // mov 72 into register 5: one instruction at address zero, then a
    // console write of it.
    let mut image: Vec<u8> = Vec::new();
    let mov = (crystalvm::arch::OP_MOV << 21) | (0x7F << 14) | (5 << 7);
    image.extend_from_slice(&mov.to_le_bytes());
    image.extend_from_slice(&72u32.to_le_bytes());
    let wr = (crystalvm::arch::OP_WRITE_STDOUT << 21) | (5 << 14);
    image.extend_from_slice(&wr.to_le_bytes());
    let mut m = Machine::from_image_bytes(&image, 64).unwrap();
    let e = m.run(1000);
    assert_eq!(e, crystalvm::isa::Effect::PutChar { code: 72 });
    assert_eq!(m.ctx.threads[0].registers[5], 72);
}

#[test]
fn step_thread_interleaves_two_cores() {
    let mem = Memory::new_zeroed(128);
    let mut ctx = MachineCtx::new(mem);
    // Both cores run `ld 0x40 -> r0; add r0 1 -> r0; st 0x40 <- r0` style
    // increments through the shared word, one instruction at a time.
    let inc1 = (crystalvm::arch::OP_ADD << 21) | (0 << 14) | (1 << 7) | 2;
    ctx.memory.write_word(0, inc1);
    let t0 = ctx.spawn(0, 0, 0, 128, 0xFFFF_FFFF);
    let t1 = ctx.spawn(0, 0, 0, 128, 0xFFFF_FFFF);
    ctx.threads[t0 as usize].registers[0] = 10;
    ctx.threads[t0 as usize].registers[1] = 1;
    ctx.threads[t1 as usize].registers[0] = 20;
    ctx.threads[t1 as usize].registers[1] = 2;
    ctx.step_thread(t0);
    ctx.step_thread(t1);
    assert_eq!(ctx.threads[t0 as usize].registers[2], 11);
    assert_eq!(ctx.threads[t1 as usize].registers[2], 22);
}

#[test]
fn atomic_add_wraps_and_reports_the_previous_word() {
    let mem = Memory::new_zeroed(64);
    let mut ctx = MachineCtx::new(mem);
    ctx.memory.write_word(8, 0xFFFF_FFFF);
    let prev = ctx.atomic_add(8, 2);
    assert_eq!(prev, 0xFFFF_FFFF);
    assert_eq!(ctx.memory.read_word(8), 1);
}

#[test]
fn standard_layout_boots_at_the_entry_word() {
    // An image for the standard base: its entry word points at the code
    // placed right after it.
    let code_addr = ENTRY_ADDRESS + 4;
    let mut image: Vec<u8> = Vec::new();
    for _ in IMAGE_BASE..ENTRY_ADDRESS {
        image.push(0);
    }
    image.extend_from_slice(&code_addr.to_le_bytes());
    let mov = (OP_MOV << 21) | (0x7F << 14) | (9 << 7);
    image.extend_from_slice(&mov.to_le_bytes());
    image.extend_from_slice(&55u32.to_le_bytes());
    let mut m = crystalvm::machine::Machine::from_image_at(&image, IMAGE_BASE, ENTRY_ADDRESS + 0x100)
        .unwrap();
    let e = m.run(1);
    assert_eq!(e, crystalvm::isa::Effect::Done);
    assert_eq!(m.ctx.threads[0].registers[9], 55);
    assert_eq!(m.ctx.threads[0].registers[REG_I as usize], code_addr + 8);
}
