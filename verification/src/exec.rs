//! The fetch-decode-execute engine, proved equal to the specification in
//! [`crate::isa`].

use vstd::prelude::*;

use crate::alu::add_carry;
use crate::alu::bits_mag;
use crate::alu::bits_to_i32;
use crate::alu::from_i32;
use crate::alu::mul_wide;
use crate::alu::sadd_ovf;
use crate::alu::sdiv_checked;
use crate::alu::smul_ovf;
use crate::alu::spow_ovf;
use crate::alu::srem_checked;
use crate::alu::srem_euclid_checked;
use crate::alu::ssub_ovf;
use crate::alu::sub_borrow;
use crate::alu::to_i32;
use crate::alu::udiv_checked;
use crate::alu::upow_checked;
use crate::alu::urem_checked;
use crate::arch::FLAG_BIT_C;
use crate::arch::FLAG_BIT_E;
use crate::arch::FLAG_BIT_L;
use crate::arch::FLAG_BIT_M;
use crate::arch::FLAG_BIT_S;
use crate::arch::FLAG_BIT_Z;
use crate::arch::OP_ADD;
use crate::arch::OP_AND;
use crate::arch::OP_ATAN2;
use crate::arch::OP_CADD;
use crate::arch::OP_CALL;
use crate::arch::OP_CLCF;
use crate::arch::OP_CLEF;
use crate::arch::OP_CLLF;
use crate::arch::OP_CLSF;
use crate::arch::OP_CLZF;
use crate::arch::OP_CMP;
use crate::arch::OP_CMUL;
use crate::arch::OP_CONVF2U;
use crate::arch::OP_CONVI2U;
use crate::arch::OP_CONVU2I;
use crate::arch::OP_CSUB;
use crate::arch::OP_DIV;
use crate::arch::OP_FADD;
use crate::arch::OP_FCMP;
use crate::arch::OP_FDIV;
use crate::arch::OP_FLUSH_STDOUT;
use crate::arch::OP_FMAX;
use crate::arch::OP_FMIN;
use crate::arch::OP_FMUL;
use crate::arch::OP_FPOW;
use crate::arch::OP_FPOWI;
use crate::arch::OP_FREM;
use crate::arch::OP_FREME;
use crate::arch::OP_FSUB;
use crate::arch::OP_IABS;
use crate::arch::OP_IADD;
use crate::arch::OP_ICADD;
use crate::arch::OP_ICMP;
use crate::arch::OP_ICSUB;
use crate::arch::OP_IDIV;
use crate::arch::OP_IMAX;
use crate::arch::OP_IMIN;
use crate::arch::OP_IMUL;
use crate::arch::OP_IPOW;
use crate::arch::OP_IREM;
use crate::arch::OP_IREME;
use crate::arch::OP_ISUB;
use crate::arch::OP_JC;
use crate::arch::OP_JE;
use crate::arch::OP_JL;
use crate::arch::OP_JMP;
use crate::arch::OP_JNC;
use crate::arch::OP_JNE;
use crate::arch::OP_JNL;
use crate::arch::OP_JNS;
use crate::arch::OP_JNZ;
use crate::arch::OP_JS;
use crate::arch::OP_JZ;
use crate::arch::OP_LD;
use crate::arch::OP_LD8;
use crate::arch::OP_LOG;
use crate::arch::OP_MAG2D;
use crate::arch::OP_MAX;
use crate::arch::OP_MIN;
use crate::arch::OP_MOV;
use crate::arch::OP_MUL;
use crate::arch::OP_NEG;
use crate::arch::OP_NOOP;
use crate::arch::OP_OR;
use crate::arch::OP_POW;
use crate::arch::OP_READ_STDIN;
use crate::arch::OP_REM;
use crate::arch::OP_RET;
use crate::arch::OP_SHL;
use crate::arch::OP_SHR;
use crate::arch::OP_ST;
use crate::arch::OP_ST8;
use crate::arch::OP_SUB;
use crate::arch::OP_WRITE_STDOUT;
use crate::arch::OP_WSHL;
use crate::arch::OP_WSHR;
use crate::arch::OP_XOR;
use crate::arch::REG_C;
use crate::arch::REG_F;
use crate::arch::REG_I;
use crate::arch::REG_L;
use crate::arch::REG_S;
use crate::cpu::ThreadCore;
use crate::cpu::STATE_TERMINATING;
use crate::isa::Effect;
use crate::isa::is_alu_carry;
use crate::isa::is_alu_checked;
use crate::isa::is_alu_ovf;
use crate::isa::is_alu_pure1;
use crate::isa::is_alu_pure2;
use crate::isa::is_cmp;
use crate::isa::is_float_op;
use crate::isa::is_jump_if;
use crate::isa::is_jump_unless;
use crate::isa::is_mem_op;
use crate::isa::cmp_flags_word;
use crate::isa::salu_carry;
use crate::isa::salu_checked;
use crate::isa::salu_ovf;
use crate::isa::salu_pure1;
use crate::isa::salu_pure2;
use crate::isa::scall;
use crate::isa::scmp;
use crate::isa::sfloat;
use crate::isa::sjump;
use crate::isa::smem_op;
use crate::isa::sputchar;
use crate::isa::sret;
use crate::isa::sstep;
use crate::mem::Memory;

verus! {

impl ThreadCore {
    /// Raises `bit` in the flags register.
    pub(crate) fn or_flag(&mut self, bit: u32)
        requires
            old(self).wf(),
        ensures
            final(self).wf(),
            final(self).meta_unchanged(old(self)),
            final(self).registers@ == old(self).registers@.update(
                REG_F as int,
                old(self).registers@[REG_F as int] | bit,
            ),
    {
        let f = self.registers[REG_F as usize];
        self.registers[REG_F as usize] = f | bit;
    }

    /// Stores a carry word: the carry register receives `v` and the carry
    /// flag is raised when `v` is non-zero.
    pub(crate) fn set_carry(&mut self, v: u32)
        requires
            old(self).wf(),
        ensures
            final(self).wf(),
            final(self).meta_unchanged(old(self)),
            v != 0 ==> final(self).registers@ == old(self).registers@.update(
                REG_C as int,
                v,
            ).update(REG_F as int, old(self).registers@[REG_F as int] | FLAG_BIT_C),
            v == 0 ==> final(self).registers@ == old(self).registers@.update(REG_C as int, v),
    {
        self.registers[REG_C as usize] = v;
        if v != 0 {
            self.or_flag(FLAG_BIT_C);
        }
    }

    /// Writes the compare flags: zero for equal, sign for less.  The
    /// embedder reports floating-point compares back through this method.
    pub fn set_cmp_flags(&mut self, eq: bool, lt: bool)
        requires
            old(self).wf(),
        ensures
            final(self).wf(),
            final(self).meta_unchanged(old(self)),
            final(self).registers@ == old(self).registers@.update(
                REG_F as int,
                cmp_flags_word(old(self).registers@[REG_F as int], eq, lt),
            ),
    {
        let f = self.registers[REG_F as usize];
        let f1 = if eq {
            f | FLAG_BIT_Z
        } else {
            f & !FLAG_BIT_Z
        };
        let f2 = if lt {
            f1 | FLAG_BIT_S
        } else {
            f1 & !FLAG_BIT_S
        };
        self.registers[REG_F as usize] = f2;
    }

    fn exec_alu_carry(&mut self, mem: &mut Memory, op: u32, a: u8, b: u8, c: u8)
        requires
            old(self).wf(),
            old(self).vm(*old(mem)).wf(),
            is_alu_carry(op),
        ensures
            final(self).wf(),
            final(self).meta_unchanged(old(self)),
            final(self).vm(*final(mem)) == salu_carry(old(self).vm(*old(mem)), op, a, b, c),
            final(mem)@.len() == old(mem)@.len(),
    {
        let va = self.read_arg(mem, a);
        let vb = self.read_arg(mem, b);
        let f = self.registers[REG_F as usize];
        let cr = self.registers[REG_C as usize];
        let ci: bool = f & FLAG_BIT_M != 0 && cr & 1 != 0;
        let rv: u32;
        let cv: u32;
        if op == OP_ADD {
            let (r, o) = add_carry(va, vb, false);
            rv = r;
            cv = if o {
                1
            } else {
                0
            };
        } else if op == OP_SUB {
            let (r, o) = sub_borrow(va, vb, false);
            rv = r;
            cv = if o {
                1
            } else {
                0
            };
        } else if op == OP_MUL {
            let (lo, hi) = mul_wide(va, vb, 0);
            rv = lo;
            cv = hi;
        } else if op == OP_CADD {
            let (r, o) = add_carry(va, vb, ci);
            rv = r;
            cv = if o {
                1
            } else {
                0
            };
        } else if op == OP_CSUB {
            let (r, o) = sub_borrow(va, vb, ci);
            rv = r;
            cv = if o {
                1
            } else {
                0
            };
        } else if op == OP_CMUL {
            let (lo, hi) = mul_wide(va, vb, cr);
            rv = lo;
            cv = hi;
        } else if op == OP_IADD {
            let (r, o) = sadd_ovf(va, vb, false);
            rv = r;
            cv = if o {
                1
            } else {
                0
            };
        } else if op == OP_ISUB {
            let (r, o) = ssub_ovf(va, vb, false);
            rv = r;
            cv = if o {
                1
            } else {
                0
            };
        } else if op == OP_ICADD {
            let (r, o) = sadd_ovf(va, vb, ci);
            rv = r;
            cv = if o {
                1
            } else {
                0
            };
        } else {
            let (r, o) = ssub_ovf(va, vb, ci);
            rv = r;
            cv = if o {
                1
            } else {
                0
            };
        }
        self.write_arg(mem, c, rv);
        self.set_carry(cv);
        proof {
            assert(final(self).vm(*final(mem)) =~= salu_carry(
                old(self).vm(*old(mem)),
                op,
                a,
                b,
                c,
            ));
        }
    }

    fn exec_alu_ovf(&mut self, mem: &mut Memory, op: u32, a: u8, b: u8, c: u8)
        requires
            old(self).wf(),
            old(self).vm(*old(mem)).wf(),
            is_alu_ovf(op),
        ensures
            final(self).wf(),
            final(self).meta_unchanged(old(self)),
            final(self).vm(*final(mem)) == salu_ovf(old(self).vm(*old(mem)), op, a, b, c),
            final(mem)@.len() == old(mem)@.len(),
    {
        let va = self.read_arg(mem, a);
        let vb = self.read_arg(mem, b);
        let rv: u32;
        let ov: bool;
        if op == OP_IMUL {
            let (r, o) = smul_ovf(va, vb);
            rv = r;
            ov = o;
        } else if op == OP_IPOW {
            let (r, o) = spow_ovf(va, vb);
            rv = r;
            ov = o;
        } else if op == OP_SHL {
            if vb >= 32 {
                rv = 0;
                ov = true;
            } else {
                rv = va << vb;
                ov = false;
            }
        } else {
            if vb >= 32 {
                rv = 0;
                ov = true;
            } else {
                rv = va >> vb;
                ov = false;
            }
        }
        self.write_arg(mem, c, rv);
        if ov {
            self.or_flag(FLAG_BIT_C);
        }
        proof {
            assert(final(self).vm(*final(mem)) =~= salu_ovf(old(self).vm(*old(mem)), op, a, b, c));
        }
    }

    fn exec_alu_pure2(&mut self, mem: &mut Memory, op: u32, a: u8, b: u8, c: u8)
        requires
            old(self).wf(),
            old(self).vm(*old(mem)).wf(),
            is_alu_pure2(op),
        ensures
            final(self).wf(),
            final(self).meta_unchanged(old(self)),
            final(self).vm(*final(mem)) == salu_pure2(old(self).vm(*old(mem)), op, a, b, c),
            final(mem)@.len() == old(mem)@.len(),
    {
        let va = self.read_arg(mem, a);
        let vb = self.read_arg(mem, b);
        let rv: u32;
        if op == OP_MIN {
            rv = if va < vb {
                va
            } else {
                vb
            };
        } else if op == OP_MAX {
            rv = if va > vb {
                va
            } else {
                vb
            };
        } else if op == OP_IMIN {
            rv = if bits_to_i32(va) < bits_to_i32(vb) {
                va
            } else {
                vb
            };
        } else if op == OP_IMAX {
            rv = if bits_to_i32(va) > bits_to_i32(vb) {
                va
            } else {
                vb
            };
        } else if op == OP_WSHL {
            rv = va << (vb % 32);
        } else if op == OP_WSHR {
            rv = va >> (vb % 32);
        } else if op == OP_AND {
            rv = va & vb;
        } else if op == OP_OR {
            rv = va | vb;
        } else {
            rv = va ^ vb;
        }
        self.write_arg(mem, c, rv);
        proof {
            assert(final(self).vm(*final(mem)) =~= salu_pure2(
                old(self).vm(*old(mem)),
                op,
                a,
                b,
                c,
            ));
        }
    }

    fn exec_alu_pure1(&mut self, mem: &mut Memory, op: u32, a: u8, b: u8)
        requires
            old(self).wf(),
            old(self).vm(*old(mem)).wf(),
            is_alu_pure1(op),
        ensures
            final(self).wf(),
            final(self).meta_unchanged(old(self)),
            final(self).vm(*final(mem)) == salu_pure1(old(self).vm(*old(mem)), op, a, b),
            final(mem)@.len() == old(mem)@.len(),
    {
        let va = self.read_arg(mem, a);
        let rv: u32;
        if op == OP_NEG {
            rv = !va;
        } else if op == OP_IABS {
            rv = bits_mag(va);
        } else {
            rv = va;
        }
        self.write_arg(mem, b, rv);
        proof {
            assert(final(self).vm(*final(mem)) =~= salu_pure1(old(self).vm(*old(mem)), op, a, b));
        }
    }

    fn exec_alu_checked(&mut self, mem: &mut Memory, op: u32, a: u8, b: u8, c: u8)
        requires
            old(self).wf(),
            old(self).vm(*old(mem)).wf(),
            is_alu_checked(op),
        ensures
            final(self).wf(),
            final(self).meta_unchanged(old(self)),
            final(self).vm(*final(mem)) == salu_checked(old(self).vm(*old(mem)), op, a, b, c),
            final(mem)@.len() == old(mem)@.len(),
    {
        let va = self.read_arg(mem, a);
        let vb = self.read_arg(mem, b);
        let r: Option<u32>;
        let flag: u32;
        if op == OP_DIV {
            r = udiv_checked(va, vb);
            flag = FLAG_BIT_L;
        } else if op == OP_REM {
            r = urem_checked(va, vb);
            flag = FLAG_BIT_L;
        } else if op == OP_POW {
            r = upow_checked(va, vb);
            flag = FLAG_BIT_C;
        } else if op == OP_IDIV {
            r = sdiv_checked(va, vb);
            flag = FLAG_BIT_L;
        } else if op == OP_IREM {
            r = srem_checked(va, vb);
            flag = FLAG_BIT_L;
        } else {
            r = srem_euclid_checked(va, vb);
            flag = FLAG_BIT_L;
        }
        match r {
            Some(v) => {
                proof {
                    lemma_from_to_i32(v);
                }
                self.write_arg(mem, c, v);
            },
            None => {
                self.or_flag(flag);
            },
        }
        proof {
            assert(final(self).vm(*final(mem)) =~= salu_checked(
                old(self).vm(*old(mem)),
                op,
                a,
                b,
                c,
            ));
        }
    }

    fn exec_cmp(&mut self, mem: &mut Memory, op: u32, a: u8, b: u8)
        requires
            old(self).wf(),
            old(self).vm(*old(mem)).wf(),
            is_cmp(op),
        ensures
            final(self).wf(),
            final(self).meta_unchanged(old(self)),
            final(self).vm(*final(mem)) == scmp(old(self).vm(*old(mem)), op, a, b),
            final(mem)@.len() == old(mem)@.len(),
    {
        let va = self.read_arg(mem, a);
        let vb = self.read_arg(mem, b);
        let eq: bool;
        let lt: bool;
        if op == OP_CMP {
            eq = va == vb;
            lt = va < vb;
        } else {
            let sa = bits_to_i32(va);
            let sb = bits_to_i32(vb);
            eq = sa == sb;
            lt = sa < sb;
        }
        self.set_cmp_flags(eq, lt);
        proof {
            assert(final(self).vm(*final(mem)) =~= scmp(old(self).vm(*old(mem)), op, a, b));
        }
    }

    fn exec_jump(&mut self, mem: &mut Memory, op: u32, a: u8)
        requires
            old(self).wf(),
            old(self).vm(*old(mem)).wf(),
            op == OP_JMP || is_jump_if(op) || is_jump_unless(op),
        ensures
            final(self).wf(),
            final(self).meta_unchanged(old(self)),
            final(self).vm(*final(mem)) == sjump(old(self).vm(*old(mem)), op, a),
            final(mem)@.len() == old(mem)@.len(),
    {
        let va = self.read_arg(mem, a);
        let taken: bool;
        if op == OP_JMP {
            taken = true;
        } else {
            let mask: u32;
            if op == OP_JZ || op == OP_JNZ {
                mask = FLAG_BIT_Z;
            } else if op == OP_JS || op == OP_JNS {
                mask = FLAG_BIT_S;
            } else if op == OP_JC || op == OP_JNC {
                mask = FLAG_BIT_C;
            } else if op == OP_JE || op == OP_JNE {
                mask = FLAG_BIT_E;
            } else {
                mask = FLAG_BIT_L;
            }
            let f = self.registers[REG_F as usize];
            if op == OP_JZ || op == OP_JS || op == OP_JC || op == OP_JE || op == OP_JL {
                taken = f & mask != 0;
            } else {
                taken = f & mask == 0;
            }
        }
        if taken {
            self.registers[REG_I as usize] = va;
        }
        proof {
            assert(final(self).vm(*final(mem)) =~= sjump(old(self).vm(*old(mem)), op, a));
        }
    }

    fn exec_mem_op(&mut self, mem: &mut Memory, op: u32, a: u8, b: u8)
        requires
            old(self).wf(),
            old(self).vm(*old(mem)).wf(),
            is_mem_op(op),
        ensures
            final(self).wf(),
            final(self).meta_unchanged(old(self)),
            final(self).vm(*final(mem)) == smem_op(old(self).vm(*old(mem)), op, a, b),
            final(mem)@.len() == old(mem)@.len(),
    {
        let va = self.read_arg(mem, a);
        if op == OP_LD {
            let w = self.read_u32(mem, va);
            self.write_arg(mem, b, w);
        } else if op == OP_LD8 {
            let w = self.read_u8(mem, va);
            self.write_arg(mem, b, w as u32);
        } else if op == OP_ST {
            let vb = self.read_arg(mem, b);
            self.write_u32(mem, va, vb);
        } else {
            let vb = self.read_arg(mem, b);
            self.write_u8(mem, va, (vb & 0xFF) as u8);
        }
        proof {
            assert(final(self).vm(*final(mem)) =~= smem_op(old(self).vm(*old(mem)), op, a, b));
        }
    }

    fn exec_call(&mut self, mem: &mut Memory, a: u8)
        requires
            old(self).wf(),
            old(self).vm(*old(mem)).wf(),
        ensures
            final(self).wf(),
            final(self).meta_unchanged(old(self)),
            final(self).vm(*final(mem)) == scall(old(self).vm(*old(mem)), a),
            final(mem)@.len() == old(mem)@.len(),
    {
        let target = self.read_arg(mem, a);
        let ret = self.registers[REG_I as usize];
        let l = self.registers[REG_L as usize];
        let sp = self.registers[REG_S as usize];
        self.write_u32(mem, Self::wadd(sp, 4), l);
        self.write_u32(mem, Self::wadd(sp, 8), ret);
        self.registers[REG_I as usize] = target;
        self.registers[REG_L as usize] = sp;
        self.registers[REG_S as usize] = Self::wadd(sp, 8);
        proof {
            assert(final(self).vm(*final(mem)) =~= scall(old(self).vm(*old(mem)), a));
        }
    }

    fn exec_ret(&mut self, mem: &mut Memory)
        requires
            old(self).wf(),
            old(self).vm(*old(mem)).wf(),
        ensures
            final(self).wf(),
            final(self).meta_unchanged(old(self)),
            final(self).vm(*final(mem)) == sret(old(self).vm(*old(mem))),
            final(mem)@.len() == old(mem)@.len(),
    {
        let l = self.registers[REG_L as usize];
        let la = Self::wadd(l, 4);
        let lb = Self::wadd(l, 8);
        let in_window = la >= self.access_min_addr && (la as u64) + 4 <= (
        self.access_max_addr as u64) && lb >= self.access_min_addr && (lb as u64) + 4 <= (
        self.access_max_addr as u64);
        if in_window {
            let newi = mem.read_word(lb as usize);
            let newl = mem.read_word(la as usize);
            self.registers[REG_I as usize] = newi;
            self.registers[REG_L as usize] = newl;
            self.registers[REG_S as usize] = l;
        } else {
            self.set_error();
        }
        proof {
            assert(final(self).vm(*final(mem)) =~= sret(old(self).vm(*old(mem))));
        }
    }

    fn exec_putchar(&mut self, mem: &mut Memory, a: u8) -> (e: Effect)
        requires
            old(self).wf(),
            old(self).vm(*old(mem)).wf(),
        ensures
            final(self).wf(),
            final(self).meta_unchanged(old(self)),
            final(self).vm(*final(mem)) == sputchar(old(self).vm(*old(mem)), a).0,
            e == sputchar(old(self).vm(*old(mem)), a).1,
            final(mem)@.len() == old(mem)@.len(),
    {
        let va = self.read_arg(mem, a);
        if va < 0xD800 || (0xE000 <= va && va <= 0x10FFFF) {
            Effect::PutChar { code: va }
        } else {
            self.set_error();
            Effect::PutChar { code: 0xFFFD }
        }
    }

    fn exec_float(&mut self, mem: &mut Memory, op: u32, a: u8, b: u8, c: u8) -> (e: Effect)
        requires
            old(self).wf(),
            old(self).vm(*old(mem)).wf(),
            is_float_op(op) || op == OP_FCMP,
        ensures
            final(self).wf(),
            final(self).meta_unchanged(old(self)),
            final(self).vm(*final(mem)) == sfloat(old(self).vm(*old(mem)), op, a, b, c).0,
            e == sfloat(old(self).vm(*old(mem)), op, a, b, c).1,
            final(mem)@.len() == old(mem)@.len(),
    {
        if op == OP_FCMP {
            let x = self.read_arg(mem, a);
            let y = self.read_arg(mem, b);
            Effect::FloatCmp { x, y }
        } else if op == OP_FADD || op == OP_FSUB || op == OP_FMUL || op == OP_FDIV || op == OP_FREM
            || op == OP_FREME || op == OP_FPOWI || op == OP_FPOW || op == OP_LOG || op == OP_FMIN
            || op == OP_FMAX || op == OP_ATAN2 || op == OP_MAG2D {
            let x = self.read_arg(mem, a);
            let y = self.read_arg(mem, b);
            Effect::FloatOp { op, x, y, dest_b: b, dest_c: c }
        } else {
            let x = self.read_arg(mem, a);
            Effect::FloatOp { op, x, y: 0, dest_b: b, dest_c: c }
        }
    }

    /// Executes one instruction: fetch, decode, execute.  The returned
    /// effect is what the instruction asks of the embedder; the integer
    /// core is already fully applied when this returns.
    pub fn exec_instr(&mut self, mem: &mut Memory) -> (e: Effect)
        requires
            old(self).wf(),
            old(self).vm(*old(mem)).wf(),
        ensures
            final(self).wf(),
            final(self).meta_unchanged(old(self)),
            final(self).vm(*final(mem)) == sstep(old(self).vm(*old(mem))).0,
            e == sstep(old(self).vm(*old(mem))).1,
            final(mem)@.len() == old(mem)@.len(),
            final(self).vm(*final(mem)).wf(),
    {
        let i = self.registers[REG_I as usize];
        let w = self.read_u32(mem, i);
        self.advance_ip();
        let (op, a, b, c) = Self::split_instr(w);
        if op == OP_NOOP {
            Effect::Done
        } else if op == OP_ADD || op == OP_SUB || op == OP_MUL || op == OP_CADD || op == OP_CSUB
            || op == OP_CMUL || op == OP_IADD || op == OP_ISUB || op == OP_ICADD
            || op == OP_ICSUB {
            self.exec_alu_carry(mem, op, a, b, c);
            Effect::Done
        } else if op == OP_IMUL || op == OP_IPOW || op == OP_SHL || op == OP_SHR {
            self.exec_alu_ovf(mem, op, a, b, c);
            Effect::Done
        } else if op == OP_MIN || op == OP_MAX || op == OP_IMIN || op == OP_IMAX || op == OP_WSHL
            || op == OP_WSHR || op == OP_AND || op == OP_OR || op == OP_XOR {
            self.exec_alu_pure2(mem, op, a, b, c);
            Effect::Done
        } else if op == OP_NEG || op == OP_IABS || op == OP_CONVI2U || op == OP_CONVU2I
            || op == OP_MOV {
            self.exec_alu_pure1(mem, op, a, b);
            Effect::Done
        } else if op == OP_DIV || op == OP_REM || op == OP_POW || op == OP_IDIV || op == OP_IREM
            || op == OP_IREME {
            self.exec_alu_checked(mem, op, a, b, c);
            Effect::Done
        } else if op == OP_CMP || op == OP_ICMP {
            self.exec_cmp(mem, op, a, b);
            Effect::Done
        } else if op == OP_JMP || op == OP_JZ || op == OP_JNZ || op == OP_JS || op == OP_JNS
            || op == OP_JC || op == OP_JNC || op == OP_JE || op == OP_JNE || op == OP_JL
            || op == OP_JNL {
            self.exec_jump(mem, op, a);
            Effect::Done
        } else if op == OP_CLZF || op == OP_CLSF || op == OP_CLCF || op == OP_CLEF
            || op == OP_CLLF {
            let mask: u32;
            if op == OP_CLZF {
                mask = FLAG_BIT_Z;
            } else if op == OP_CLSF {
                mask = FLAG_BIT_S;
            } else if op == OP_CLCF {
                mask = FLAG_BIT_C;
            } else if op == OP_CLEF {
                mask = FLAG_BIT_E;
            } else {
                mask = FLAG_BIT_L;
            }
            let f = self.registers[REG_F as usize];
            self.registers[REG_F as usize] = f & !mask;
            Effect::Done
        } else if op == OP_WRITE_STDOUT {
            self.exec_putchar(mem, a)
        } else if op == OP_FLUSH_STDOUT {
            Effect::FlushOut
        } else if op == OP_READ_STDIN {
            Effect::ReadChar { dest: a }
        } else if op == OP_LD || op == OP_ST || op == OP_LD8 || op == OP_ST8 {
            self.exec_mem_op(mem, op, a, b);
            Effect::Done
        } else if op == OP_CALL {
            self.exec_call(mem, a);
            Effect::Done
        } else if op == OP_RET {
            self.exec_ret(mem);
            Effect::Done
        } else if (OP_CONVF2U <= op && op <= OP_MAG2D) || op == OP_FCMP {
            self.exec_float(mem, op, a, b, c)
        } else {
            self.set_error();
            Effect::Done
        }
    }

    /// Runs the fetch-decode-execute loop until the thread is asked to
    /// stop, the fuel runs out, or an instruction asks the embedder for
    /// work; the pending effect (or [`Effect::Done`]) is returned.
    #[verifier::loop_isolation(false)]
    pub fn run(&mut self, mem: &mut Memory, fuel: u64) -> (e: Effect)
        requires
            old(self).wf(),
            old(self).vm(*old(mem)).wf(),
        ensures
            final(self).wf(),
            final(self).meta_unchanged(old(self)),
            old(self).state == STATE_TERMINATING ==> final(self).vm(*final(mem)) == old(self).vm(
                *old(mem),
            ) && e == Effect::Done,
            old(self).state != STATE_TERMINATING ==> final(self).vm(*final(mem)) == srun(
                old(self).vm(*old(mem)),
                fuel as nat,
            ).0 && e == srun(old(self).vm(*old(mem)), fuel as nat).1,
            final(mem)@.len() == old(mem)@.len(),
    {
        let mut remaining: u64 = fuel;
        loop
            invariant
                self.wf(),
                self.vm(*mem).wf(),
                self.meta_unchanged(old(self)),
                mem@.len() == old(mem)@.len(),
                old(self).state != STATE_TERMINATING ==> srun(
                    old(self).vm(*old(mem)),
                    fuel as nat,
                ) == srun(self.vm(*mem), remaining as nat),
                old(self).state == STATE_TERMINATING ==> self.vm(*mem) == old(self).vm(*old(mem)),
            decreases remaining,
        {
            if self.state == STATE_TERMINATING || remaining == 0 {
                proof {
                    if old(self).state != STATE_TERMINATING {
                        assert(remaining == 0);
                    }
                }
                return Effect::Done;
            }
            let e = self.exec_instr(mem);
            remaining = remaining - 1;
            if !matches!(e, Effect::Done) {
                return e;
            }
        }
    }
}

/// Runs [`sstep`] until the fuel runs out or an instruction asks for an
/// effect.
pub open spec fn srun(s: crate::cpu::Vm, fuel: nat) -> (crate::cpu::Vm, Effect)
    decreases fuel,
{
    if fuel == 0 {
        (s, Effect::Done)
    } else {
        let r = sstep(s);
        if r.1 == Effect::Done {
            srun(r.0, (fuel - 1) as nat)
        } else {
            r
        }
    }
}

/// Converting a bit pattern to its signed value and back is the identity.
pub proof fn lemma_from_to_i32(v: u32)
    ensures
        from_i32(to_i32(v)) == v,
{
}

} // verus!
