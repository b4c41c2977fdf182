//! One thread core: a register file, an access window and the operand
//! resolver, together with the window-checked memory accessors.
//!
//! The ghost type [`Vm`] bundles the parts of the machine state one core can
//! touch while executing — its registers and the shared memory — and the
//! `s*` spec functions define what every operation does to it.  Each
//! executable method is proved equal to its spec function, so the whole
//! instruction semantics is pinned down at the specification level.

use vstd::prelude::*;

use crate::arch::FLAG_BIT_E;
use crate::arch::NUM_REGS;
use crate::arch::REG_F;
use crate::arch::REG_I;
use crate::arch::REG_S;
use crate::arch::SPEC_LITERAL;
use crate::arch::SPEC_STACK_BIT;
use crate::arch::spec_arg_a;
use crate::arch::spec_arg_b;
use crate::arch::spec_arg_c;
use crate::arch::spec_opcode;
use crate::mem::Memory;
use crate::mem::word_byte;
use crate::mem::word_le;

verus! {

/// Thread state: ready to start.
pub const STATE_READY: u8 = 0;

/// Thread state: executing instructions.
pub const STATE_RUNNING: u8 = 1;

/// Thread state: asked to stop; noticed at the top of the run loop.
pub const STATE_TERMINATING: u8 = 2;

/// Thread state: the run loop has returned.
pub const STATE_TERMINATED: u8 = 3;

/// The ghost machine state one core works on: its register file, the byte
/// memory and the access window.
#[verifier::ext_equal]
pub ghost struct Vm {
    pub regs: Seq<u32>,
    pub mem: Seq<u8>,
    pub min: u32,
    pub max: u32,
}

impl Vm {
    /// Well-formed state: full register file and a window inside memory.
    pub open spec fn wf(self) -> bool {
        &&& self.regs.len() == 64
        &&& self.max <= self.mem.len()
        &&& self.mem.len() <= 0xFFFF_FFFF
    }
}

/// Register `r` of state `s`.
pub open spec fn reg(s: Vm, r: u32) -> u32 {
    s.regs[r as int]
}

/// `s` with register `r` set to `v`.
pub open spec fn with_reg(s: Vm, r: u32, v: u32) -> Vm {
    Vm { regs: s.regs.update(r as int, v), ..s }
}

/// `s` with the error flag raised.
pub open spec fn set_err(s: Vm) -> Vm {
    with_reg(s, REG_F, reg(s, REG_F) | FLAG_BIT_E)
}

/// Addition modulo 2^32.
pub open spec fn wrap_add(a: u32, b: u32) -> u32 {
    (((a + b) % 0x1_0000_0000) as u32)
}

/// Subtraction modulo 2^32.
pub open spec fn wrap_sub(a: u32, b: u32) -> u32 {
    (((a - b) % 0x1_0000_0000) as u32)
}

/// The byte at `addr` lies in the access window.
pub open spec fn win1(s: Vm, addr: u32) -> bool {
    s.min <= addr && addr < s.max
}

/// The word at `addr` lies in the access window.
pub open spec fn win4(s: Vm, addr: u32) -> bool {
    s.min <= addr && addr + 4 <= s.max
}

/// A byte read: the byte inside the window, else zero and the error flag.
pub open spec fn sread_u8(s: Vm, addr: u32) -> (Vm, u8) {
    if win1(s, addr) {
        (s, s.mem[addr as int])
    } else {
        (set_err(s), 0u8)
    }
}

/// A word read: the little-endian word inside the window, else zero and the
/// error flag.
pub open spec fn sread_u32(s: Vm, addr: u32) -> (Vm, u32) {
    if win4(s, addr) {
        (s, word_le(s.mem, addr as int))
    } else {
        (set_err(s), 0u32)
    }
}

/// A byte write inside the window; outside it only the error flag changes.
pub open spec fn swrite_u8(s: Vm, addr: u32, v: u8) -> Vm {
    if win1(s, addr) {
        Vm { mem: s.mem.update(addr as int, v), ..s }
    } else {
        set_err(s)
    }
}

/// A word write inside the window; outside it only the error flag changes.
pub open spec fn swrite_u32(s: Vm, addr: u32, v: u32) -> Vm {
    if win4(s, addr) {
        Vm {
            mem: s.mem.update(addr as int, word_byte(v, 0)).update(
                addr + 1,
                word_byte(v, 1),
            ).update(addr + 2, word_byte(v, 2)).update(addr + 3, word_byte(v, 3)),
            ..s
        }
    } else {
        set_err(s)
    }
}

/// Resolving an operand specifier for a read.
///
/// `0x7F` reads the word at the instruction pointer and advances it past the
/// literal; a specifier with the stack bit reads the word at the stack
/// pointer and moves the stack down; a register number below [`NUM_REGS`]
/// reads that register; anything else raises the error flag and reads zero.
pub open spec fn sread_arg(s: Vm, sp: u8) -> (Vm, u32) {
    if sp == SPEC_LITERAL {
        let i = reg(s, REG_I);
        let (s1, v) = sread_u32(s, i);
        (with_reg(s1, REG_I, wrap_add(i, 4)), v)
    } else if sp & SPEC_STACK_BIT != 0 {
        let sptr = reg(s, REG_S);
        let (s1, v) = sread_u32(s, sptr);
        (with_reg(s1, REG_S, wrap_sub(sptr, 4)), v)
    } else if (sp as u32) < NUM_REGS {
        (s, reg(s, sp as u32))
    } else {
        (set_err(s), 0u32)
    }
}

/// Resolving an operand specifier for a write.
///
/// Writing an inline literal is invalid and raises the error flag; a stack
/// specifier moves the stack up and stores at the new top; a register number
/// below [`NUM_REGS`] stores into that register.
pub open spec fn swrite_arg(s: Vm, sp: u8, v: u32) -> Vm {
    if sp == SPEC_LITERAL {
        set_err(s)
    } else if sp & SPEC_STACK_BIT != 0 {
        let sptr = wrap_add(reg(s, REG_S), 4);
        let s1 = with_reg(s, REG_S, sptr);
        swrite_u32(s1, sptr, v)
    } else if (sp as u32) < NUM_REGS {
        with_reg(s, sp as u32, v)
    } else {
        set_err(s)
    }
}

/// One thread core: a register file plus its access window and identity in
/// the thread tree.
pub struct ThreadCore {
    pub registers: Vec<u32>,
    pub state: u8,
    pub access_min_addr: u32,
    pub access_max_addr: u32,
    pub permissions: u32,
    pub thread_id: u32,
    pub parent_thread_id: u32,
}

impl ThreadCore {
    /// Well-formed core: a full register file.
    pub open spec fn wf(&self) -> bool {
        self.registers@.len() == 64
    }

    /// The ghost state this core works on, paired with a memory.
    pub open spec fn vm(&self, mem: Memory) -> Vm {
        Vm {
            regs: self.registers@,
            mem: mem@,
            min: self.access_min_addr,
            max: self.access_max_addr,
        }
    }

    /// The parts of the core the executor never touches.
    pub open spec fn meta_unchanged(&self, other: &ThreadCore) -> bool {
        &&& self.state == other.state
        &&& self.access_min_addr == other.access_min_addr
        &&& self.access_max_addr == other.access_max_addr
        &&& self.permissions == other.permissions
        &&& self.thread_id == other.thread_id
        &&& self.parent_thread_id == other.parent_thread_id
    }

    /// A fresh core with zeroed registers.
    pub fn new(thread_id: u32, parent_thread_id: u32, access_min_addr: u32, access_max_addr: u32, permissions: u32) -> (core: ThreadCore)
        ensures
            core.wf(),
            core.registers@ == Seq::new(64, |i: int| 0u32),
            core.state == STATE_READY,
            core.access_min_addr == access_min_addr,
            core.access_max_addr == access_max_addr,
            core.permissions == permissions,
            core.thread_id == thread_id,
            core.parent_thread_id == parent_thread_id,
    {
        let mut registers: Vec<u32> = Vec::new();
        let mut i: usize = 0;
        while i < 64
            invariant
                i <= 64,
                registers@ =~= Seq::new(i as nat, |j: int| 0u32),
            decreases 64 - i,
        {
            registers.push(0);
            i = i + 1;
        }
        proof {
            assert(registers@ =~= Seq::new(64, |i: int| 0u32));
        }
        ThreadCore {
            registers,
            state: STATE_READY,
            access_min_addr,
            access_max_addr,
            permissions,
            thread_id,
            parent_thread_id,
        }
    }

    /// Raises the error flag.
    pub(crate) fn set_error(&mut self)
        requires
            old(self).wf(),
        ensures
            final(self).wf(),
            final(self).registers@ == old(self).registers@.update(
                REG_F as int,
                old(self).registers@[REG_F as int] | FLAG_BIT_E,
            ),
            final(self).meta_unchanged(old(self)),
    {
        let f = self.registers[REG_F as usize];
        self.registers[REG_F as usize] = f | FLAG_BIT_E;
    }

    /// Reads the byte at `addr`, reporting a window violation through the
    /// error flag.
    pub fn read_u8(&mut self, mem: &Memory, addr: u32) -> (b: u8)
        requires
            old(self).wf(),
            old(self).vm(*mem).wf(),
        ensures
            final(self).wf(),
            final(self).meta_unchanged(old(self)),
            final(self).vm(*mem) == sread_u8(old(self).vm(*mem), addr).0,
            b == sread_u8(old(self).vm(*mem), addr).1,
    {
        if addr >= self.access_min_addr && addr < self.access_max_addr {
            proof {
                assert(final(self).vm(*mem) =~= sread_u8(old(self).vm(*mem), addr).0);
            }
            mem.read_byte(addr as usize)
        } else {
            self.set_error();
            proof {
                assert(self.vm(*mem) =~= sread_u8(old(self).vm(*mem), addr).0);
            }
            0
        }
    }

    /// Reads the little-endian word at `addr`, reporting a window violation
    /// through the error flag.
    pub fn read_u32(&mut self, mem: &Memory, addr: u32) -> (w: u32)
        requires
            old(self).wf(),
            old(self).vm(*mem).wf(),
        ensures
            final(self).wf(),
            final(self).meta_unchanged(old(self)),
            final(self).vm(*mem) == sread_u32(old(self).vm(*mem), addr).0,
            w == sread_u32(old(self).vm(*mem), addr).1,
    {
        if addr >= self.access_min_addr && (addr as u64) + 4 <= (self.access_max_addr as u64) {
            proof {
                assert(self.vm(*mem) =~= sread_u32(old(self).vm(*mem), addr).0);
            }
            mem.read_word(addr as usize)
        } else {
            self.set_error();
            proof {
                assert(self.vm(*mem) =~= sread_u32(old(self).vm(*mem), addr).0);
            }
            0
        }
    }

    /// Writes the byte at `addr`, reporting a window violation through the
    /// error flag.
    pub fn write_u8(&mut self, mem: &mut Memory, addr: u32, value: u8)
        requires
            old(self).wf(),
            old(self).vm(*old(mem)).wf(),
        ensures
            final(self).wf(),
            final(self).meta_unchanged(old(self)),
            final(self).vm(*final(mem)) == swrite_u8(old(self).vm(*old(mem)), addr, value),
    {
        if addr >= self.access_min_addr && addr < self.access_max_addr {
            mem.write_byte(addr as usize, value);
            proof {
                assert(self.vm(*mem) =~= swrite_u8(old(self).vm(*old(mem)), addr, value));
            }
        } else {
            self.set_error();
            proof {
                assert(self.vm(*mem) =~= swrite_u8(old(self).vm(*old(mem)), addr, value));
            }
        }
    }

    /// Writes the little-endian word at `addr`, reporting a window violation
    /// through the error flag.
    pub fn write_u32(&mut self, mem: &mut Memory, addr: u32, value: u32)
        requires
            old(self).wf(),
            old(self).vm(*old(mem)).wf(),
        ensures
            final(self).wf(),
            final(self).meta_unchanged(old(self)),
            final(self).vm(*final(mem)) == swrite_u32(old(self).vm(*old(mem)), addr, value),
    {
        if addr >= self.access_min_addr && (addr as u64) + 4 <= (self.access_max_addr as u64) {
            mem.write_word(addr as usize, value);
            proof {
                assert(self.vm(*mem) =~= swrite_u32(old(self).vm(*old(mem)), addr, value));
            }
        } else {
            self.set_error();
            proof {
                assert(self.vm(*mem) =~= swrite_u32(old(self).vm(*old(mem)), addr, value));
            }
        }
    }

    /// Addition modulo 2^32.
    pub(crate) fn wadd(a: u32, b: u32) -> (r: u32)
        ensures
            r == wrap_add(a, b),
    {
        let s = (a as u64) + (b as u64);
        if s > 0xFFFF_FFFF {
            (s - 0x1_0000_0000) as u32
        } else {
            s as u32
        }
    }

    /// Subtraction modulo 2^32.
    pub(crate) fn wsub(a: u32, b: u32) -> (r: u32)
        ensures
            r == wrap_sub(a, b),
    {
        if a >= b {
            a - b
        } else {
            (((a as u64) + 0x1_0000_0000) - (b as u64)) as u32
        }
    }

    /// Resolves an operand specifier for a read; see [`sread_arg`].
    pub fn read_arg(&mut self, mem: &Memory, sp: u8) -> (v: u32)
        requires
            old(self).wf(),
            old(self).vm(*mem).wf(),
        ensures
            final(self).wf(),
            final(self).meta_unchanged(old(self)),
            final(self).vm(*mem) == sread_arg(old(self).vm(*mem), sp).0,
            v == sread_arg(old(self).vm(*mem), sp).1,
    {
        if sp == SPEC_LITERAL {
            let i = self.registers[REG_I as usize];
            let v = self.read_u32(mem, i);
            self.registers[REG_I as usize] = Self::wadd(i, 4);
            proof {
                assert(self.vm(*mem) =~= sread_arg(old(self).vm(*mem), sp).0);
            }
            v
        } else if sp & SPEC_STACK_BIT != 0 {
            let sptr = self.registers[REG_S as usize];
            let v = self.read_u32(mem, sptr);
            self.registers[REG_S as usize] = Self::wsub(sptr, 4);
            proof {
                assert(self.vm(*mem) =~= sread_arg(old(self).vm(*mem), sp).0);
            }
            v
        } else if (sp as u32) < NUM_REGS {
            self.registers[sp as usize]
        } else {
            self.set_error();
            proof {
                assert(self.vm(*mem) =~= sread_arg(old(self).vm(*mem), sp).0);
            }
            0
        }
    }

    /// Resolves an operand specifier for a write; see [`swrite_arg`].
    pub fn write_arg(&mut self, mem: &mut Memory, sp: u8, v: u32)
        requires
            old(self).wf(),
            old(self).vm(*old(mem)).wf(),
        ensures
            final(self).wf(),
            final(self).meta_unchanged(old(self)),
            final(self).vm(*final(mem)) == swrite_arg(old(self).vm(*old(mem)), sp, v),
    {
        if sp == SPEC_LITERAL {
            self.set_error();
            proof {
                assert(self.vm(*mem) =~= swrite_arg(old(self).vm(*old(mem)), sp, v));
            }
        } else if sp & SPEC_STACK_BIT != 0 {
            let sptr = Self::wadd(self.registers[REG_S as usize], 4);
            self.registers[REG_S as usize] = sptr;
            self.write_u32(mem, sptr, v);
            proof {
                assert(self.vm(*mem) =~= swrite_arg(old(self).vm(*old(mem)), sp, v));
            }
        } else if (sp as u32) < NUM_REGS {
            self.registers[sp as usize] = v;
            proof {
                assert(self.vm(*mem) =~= swrite_arg(old(self).vm(*old(mem)), sp, v));
            }
        } else {
            self.set_error();
            proof {
                assert(self.vm(*mem) =~= swrite_arg(old(self).vm(*old(mem)), sp, v));
            }
        }
    }

    /// Advances the instruction pointer past the current instruction word.
    pub(crate) fn advance_ip(&mut self)
        requires
            old(self).wf(),
        ensures
            final(self).wf(),
            final(self).meta_unchanged(old(self)),
            final(self).registers@ == old(self).registers@.update(
                REG_I as int,
                wrap_add(old(self).registers@[REG_I as int], 4),
            ),
    {
        let i = self.registers[REG_I as usize];
        self.registers[REG_I as usize] = Self::wadd(i, 4);
    }

    /// Splits an instruction word into its opcode and the three operand
    /// specifiers.
    pub fn split_instr(instr: u32) -> (r: (u32, u8, u8, u8))
        ensures
            r.0 == spec_opcode(instr),
            r.1 == spec_arg_a(instr),
            r.2 == spec_arg_b(instr),
            r.3 == spec_arg_c(instr),
    {
        proof {
            lemma_decode_bounds(instr);
        }
        (
            (instr >> 21) & 0x7FF,
            ((instr >> 14) & 0x7F) as u8,
            ((instr >> 7) & 0x7F) as u8,
            (instr & 0x7F) as u8,
        )
    }
}

/// The decoded fields of an instruction word are in range.
pub proof fn lemma_decode_bounds(w: u32)
    by (bit_vector)
    ensures
        (w >> 21) & 0x7FF < 2048,
        (w >> 14) & 0x7F < 128,
        (w >> 7) & 0x7F < 128,
        w & 0x7F < 128,
{
}

} // verus!
