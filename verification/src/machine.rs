//! The machine context: the shared memory, the thread registry and the
//! global atomic section, together with the image loader.
//!
//! Thread identifiers are handed out sequentially, so a thread's identifier
//! is its slot in the registry and every parent precedes its children.  The
//! thread-count field always equals the number of cores that have not yet
//! reached the terminated state; that invariant is what the shutdown
//! protocol rests on.

use vstd::prelude::*;

use crate::cpu::ThreadCore;
use crate::cpu::STATE_RUNNING;
use crate::cpu::STATE_TERMINATED;
use crate::cpu::STATE_TERMINATING;
use crate::cpu::Vm;
use crate::exec::srun;
use crate::isa::Effect;
use crate::mem::lemma_word_le_roundtrip;
use crate::mem::word_byte;
use crate::mem::word_le;
use crate::mem::Memory;

verus! {

/// Why an image cannot be loaded.
#[derive(Clone, Copy, Debug, PartialEq, Eq, Structural)]
pub enum LoadError {
    /// The image, placed at its base, does not fit the configured memory:
    /// `required` bytes would be needed but only `available` exist.
    ImageTooLarge { required: u128, available: u32 },
}

/// The bytes of memory after placing `image` at `base` in a zeroed memory
/// of `size` bytes.
pub open spec fn loaded_image(image: Seq<u8>, base: u32, size: u32) -> Seq<u8> {
    Seq::new(
        size as nat,
        |i: int|
            if base <= i < base + image.len() {
                image[i - base]
            } else {
                0u8
            },
    )
}

/// Places `image` at `base` in a zeroed memory of `memory_size` bytes.
/// Fails exactly when the image does not fit.
pub fn load_image(image: &Vec<u8>, base: u32, memory_size: u32) -> (r: Result<Memory, LoadError>)
    ensures
        (base + image@.len() <= memory_size) <==> r is Ok,
        r matches Ok(m) ==> m@ == loaded_image(image@, base, memory_size),
{
    let n = image.len();
    if (base as u128) + (n as u128) > memory_size as u128 {
        return Err(
            LoadError::ImageTooLarge {
                required: (base as u128) + (n as u128),
                available: memory_size,
            },
        );
    }
    let mut mem = Memory::new_zeroed(memory_size as usize);
    let mut i: usize = 0;
    while i < n
        invariant
            i <= n,
            n == image@.len(),
            base + n <= memory_size,
            mem@.len() == memory_size,
            forall|j: int|
                0 <= j < memory_size ==> mem@[j] == (if base <= j < base + i {
                    image@[j - base]
                } else {
                    0u8
                }),
        decreases n - i,
    {
        mem.write_byte(base as usize + i, image[i]);
        i = i + 1;
    }
    proof {
        assert(mem@ =~= loaded_image(image@, base, memory_size));
    }
    Ok(mem)
}

/// The number of cores that have not reached the terminated state.
pub open spec fn live_count(threads: Seq<ThreadCore>) -> nat
    decreases threads.len(),
{
    if threads.len() == 0 {
        0
    } else {
        live_count(threads.drop_last()) + (if threads.last().state != STATE_TERMINATED {
            1nat
        } else {
            0nat
        })
    }
}

/// Replacing one core changes the live count by the difference of the two
/// cores' liveness.
pub proof fn lemma_live_count_update(threads: Seq<ThreadCore>, i: int, c: ThreadCore)
    requires
        0 <= i < threads.len(),
    ensures
        live_count(threads.update(i, c)) + (if threads[i].state != STATE_TERMINATED {
            1nat
        } else {
            0nat
        }) == live_count(threads) + (if c.state != STATE_TERMINATED {
            1nat
        } else {
            0nat
        }),
    decreases threads.len(),
{
    if i == threads.len() - 1 {
        assert(threads.update(i, c).drop_last() =~= threads.drop_last());
    } else {
        assert(threads.update(i, c).drop_last() =~= threads.drop_last().update(i, c));
        lemma_live_count_update(threads.drop_last(), i, c);
    }
}

/// The live count never exceeds the registry size.
pub proof fn lemma_live_count_le(threads: Seq<ThreadCore>)
    ensures
        live_count(threads) <= threads.len(),
    decreases threads.len(),
{
    if threads.len() > 0 {
        lemma_live_count_le(threads.drop_last());
    }
}

/// A live core keeps the live count positive.
pub proof fn lemma_live_count_pos(threads: Seq<ThreadCore>, i: int)
    requires
        0 <= i < threads.len(),
        threads[i].state != STATE_TERMINATED,
    ensures
        live_count(threads) >= 1,
    decreases threads.len(),
{
    if i < threads.len() - 1 {
        lemma_live_count_pos(threads.drop_last(), i);
    }
}

/// The live count is zero exactly when every core has terminated.
pub proof fn lemma_live_count_zero(threads: Seq<ThreadCore>)
    ensures
        live_count(threads) == 0 <==> (forall|i: int|
            0 <= i < threads.len() ==> threads[i].state == STATE_TERMINATED),
    decreases threads.len(),
{
    if threads.len() > 0 {
        lemma_live_count_zero(threads.drop_last());
        if live_count(threads) == 0 {
            assert forall|i: int| 0 <= i < threads.len() implies threads[i].state
                == STATE_TERMINATED by {
                if i < threads.len() - 1 {
                    assert(threads.drop_last()[i] == threads[i]);
                }
            }
        }
    }
}

/// A thread is a (transitive) child of `tid` when its parent chain
/// reaches it.  A chain entry with a parent at or above itself stops the
/// walk; the registry invariant rules such entries out.
pub open spec fn schild_of(threads: Seq<ThreadCore>, id: u32, tid: u32) -> bool
    decreases id,
{
    if id == 0 || id >= threads.len() {
        false
    } else {
        let p = threads[id as int].parent_thread_id;
        if p == tid {
            true
        } else if p < id {
            schild_of(threads, p, tid)
        } else {
            false
        }
    }
}

/// The machine context shared by all thread cores: the memory, the thread
/// registry and the global atomic-section flag.
pub struct MachineCtx {
    pub memory: Memory,
    pub threads: Vec<ThreadCore>,
    pub running: bool,
    pub atomic_lock: bool,
    pub thread_count: u32,
    pub next_thread_id: u32,
}

impl MachineCtx {
    /// The registry invariant: identifiers are slots, parents precede
    /// children, every window lies inside memory, and the thread count is
    /// the number of cores not yet terminated.
    pub open spec fn wf(&self) -> bool {
        &&& self.threads@.len() == self.next_thread_id
        &&& self.memory@.len() <= 0xFFFF_FFFF
        &&& forall|i: int|
            0 <= i < self.threads@.len() ==> (#[trigger] self.threads@[i]).wf()
        &&& forall|i: int|
            0 <= i < self.threads@.len() ==> (#[trigger] self.threads@[i]).thread_id == i
        &&& forall|i: int|
            0 < i < self.threads@.len() ==> (#[trigger] self.threads@[i]).parent_thread_id < i
        &&& forall|i: int|
            0 <= i < self.threads@.len() ==> (#[trigger] self.threads@[i]).access_max_addr
                <= self.memory@.len()
        &&& self.thread_count == live_count(self.threads@)
    }

    /// A fresh context over `memory`: no threads, the machine running,
    /// the atomic section free.
    pub fn new(memory: Memory) -> (ctx: MachineCtx)
        requires
            memory@.len() <= 0xFFFF_FFFF,
        ensures
            ctx.wf(),
            ctx.memory@ == memory@,
            ctx.threads@.len() == 0,
            ctx.running,
            !ctx.atomic_lock,
            ctx.thread_count == 0,
            ctx.next_thread_id == 0,
    {
        MachineCtx {
            memory,
            threads: Vec::new(),
            running: true,
            atomic_lock: false,
            thread_count: 0,
            next_thread_id: 0,
        }
    }

    /// Spawns a core: the next identifier is assigned, the registers are
    /// zeroed but for the instruction pointer, and the core starts running.
    pub fn spawn(&mut self, parent_thread_id: u32, entry_ip: u32, access_min_addr: u32, access_max_addr: u32, permissions: u32) -> (tid: u32)
        requires
            old(self).wf(),
            old(self).threads@.len() < 0xFFFF_FFFF,
            parent_thread_id < old(self).threads@.len() || (old(self).threads@.len() == 0
                && parent_thread_id == 0),
            access_max_addr <= old(self).memory@.len(),
        ensures
            final(self).wf(),
            tid == old(self).threads@.len(),
            final(self).threads@.len() == old(self).threads@.len() + 1,
            final(self).threads@[tid as int].registers@ == Seq::new(64, |i: int| 0u32).update(
                crate::arch::REG_I as int,
                entry_ip,
            ),
            final(self).threads@[tid as int].state == STATE_RUNNING,
            final(self).threads@[tid as int].access_min_addr == access_min_addr,
            final(self).threads@[tid as int].access_max_addr == access_max_addr,
            final(self).threads@[tid as int].permissions == permissions,
            final(self).threads@[tid as int].thread_id == tid,
            final(self).threads@[tid as int].parent_thread_id == parent_thread_id,
            final(self).threads@.subrange(0, tid as int) == old(self).threads@,
            final(self).memory@ == old(self).memory@,
            final(self).running == old(self).running,
            final(self).atomic_lock == old(self).atomic_lock,
            final(self).thread_count == old(self).thread_count + 1,
            final(self).next_thread_id == old(self).next_thread_id + 1,
    {
        let tid = self.next_thread_id;
        proof {
            lemma_live_count_le(self.threads@);
        }
        let mut core = ThreadCore::new(
            tid,
            parent_thread_id,
            access_min_addr,
            access_max_addr,
            permissions,
        );
        core.registers[crate::arch::REG_I as usize] = entry_ip;
        core.state = STATE_RUNNING;
        let ghost prev = self.threads@;
        self.threads.push(core);
        self.next_thread_id = tid + 1;
        self.thread_count = self.thread_count + 1;
        proof {
            assert(self.threads@.drop_last() =~= prev);
            assert(self.threads@.subrange(0, tid as int) =~= prev);
            assert(live_count(self.threads@) == live_count(prev) + 1);
        }
        tid
    }

    /// Asks a core to stop; noticed at the top of its run loop.  A core
    /// that has already terminated is left alone.
    pub fn request_stop(&mut self, tid: u32) -> (found: bool)
        requires
            old(self).wf(),
        ensures
            final(self).wf(),
            found == (tid < old(self).threads@.len()),
            found && old(self).threads@[tid as int].state != STATE_TERMINATED ==> final(self).threads@ == old(self).threads@.update(
                tid as int,
                (ThreadCore { state: STATE_TERMINATING, ..old(self).threads@[tid as int] }),
            ),
            (!found || old(self).threads@[tid as int].state == STATE_TERMINATED) ==> final(self).threads@ == old(self).threads@,
            final(self).memory@ == old(self).memory@,
            final(self).thread_count == old(self).thread_count,
    {
        let n = self.threads.len();
        if (tid as usize) < n {
            let ghost prev = self.threads@;
            if self.threads[tid as usize].state != STATE_TERMINATED {
                self.threads[tid as usize].state = STATE_TERMINATING;
                proof {
                    assert(self.threads@ =~= prev.update(
                        tid as int,
                        ThreadCore { state: STATE_TERMINATING, ..prev[tid as int] },
                    ));
                    lemma_live_count_update(prev, tid as int, self.threads@[tid as int]);
                }
            }
            true
        } else {
            false
        }
    }

    /// The terminal transition: a stopping core becomes terminated and
    /// the thread count drops by exactly one.
    pub fn finish_thread(&mut self, tid: u32)
        requires
            old(self).wf(),
            tid < old(self).threads@.len(),
            old(self).threads@[tid as int].state == STATE_TERMINATING,
        ensures
            final(self).wf(),
            final(self).threads@ == old(self).threads@.update(
                tid as int,
                (ThreadCore { state: STATE_TERMINATED, ..old(self).threads@[tid as int] }),
            ),
            final(self).memory@ == old(self).memory@,
            final(self).thread_count == old(self).thread_count - 1,
    {
        proof {
            lemma_live_count_pos(self.threads@, tid as int);
        }
        let ghost prev = self.threads@;
        self.threads[tid as usize].state = STATE_TERMINATED;
        self.thread_count = self.thread_count - 1;
        proof {
            assert(self.threads@ =~= prev.update(
                tid as int,
                ThreadCore { state: STATE_TERMINATED, ..prev[tid as int] },
            ));
            lemma_live_count_update(prev, tid as int, self.threads@[tid as int]);
        }
    }

    /// Executes one instruction of core `tid` against the shared memory.
    pub fn step_thread(&mut self, tid: u32) -> (e: Effect)
        requires
            old(self).wf(),
            tid < old(self).threads@.len(),
        ensures
            final(self).wf(),
            ({
                let stepped = crate::isa::sstep(
                    old(self).threads@[tid as int].vm(old(self).memory),
                );
                &&& final(self).threads@[tid as int].vm(final(self).memory) == stepped.0
                &&& e == stepped.1
                &&& final(self).threads@[tid as int].meta_unchanged(
                    &old(self).threads@[tid as int],
                )
                &&& forall|i: int|
                    0 <= i < final(self).threads@.len() && i != tid ==> final(self).threads@[i]
                        == old(self).threads@[i]
                &&& final(self).threads@.len() == old(self).threads@.len()
            }),
            final(self).memory@.len() == old(self).memory@.len(),
            final(self).running == old(self).running,
            final(self).atomic_lock == old(self).atomic_lock,
            final(self).thread_count == old(self).thread_count,
    {
        let ghost prev = self.threads@;
        let mut core = self.threads.remove(tid as usize);
        let e = core.exec_instr(&mut self.memory);
        self.threads.insert(tid as usize, core);
        proof {
            assert(self.threads@ =~= prev.update(tid as int, self.threads@[tid as int]));
            lemma_live_count_update(prev, tid as int, self.threads@[tid as int]);
        }
        e
    }

    /// Runs core `tid` until it is asked to stop, the fuel runs out, or an
    /// instruction asks the embedder for work.
    pub fn run_thread(&mut self, tid: u32, fuel: u64) -> (e: Effect)
        requires
            old(self).wf(),
            tid < old(self).threads@.len(),
        ensures
            final(self).wf(),
            ({
                let core0 = old(self).threads@[tid as int];
                let ran = srun(core0.vm(old(self).memory), fuel as nat);
                &&& core0.state != STATE_TERMINATING ==> final(self).threads@[tid as int].vm(
                    final(self).memory,
                ) == ran.0 && e == ran.1
                &&& core0.state == STATE_TERMINATING ==> final(self).threads@[tid as int].vm(
                    final(self).memory,
                ) == core0.vm(old(self).memory) && e == Effect::Done
                &&& final(self).threads@[tid as int].meta_unchanged(&core0)
                &&& forall|i: int|
                    0 <= i < final(self).threads@.len() && i != tid ==> final(self).threads@[i]
                        == old(self).threads@[i]
                &&& final(self).threads@.len() == old(self).threads@.len()
            }),
            final(self).memory@.len() == old(self).memory@.len(),
            final(self).thread_count == old(self).thread_count,
    {
        let ghost prev = self.threads@;
        let mut core = self.threads.remove(tid as usize);
        let e = core.run(&mut self.memory, fuel);
        self.threads.insert(tid as usize, core);
        proof {
            assert(self.threads@ =~= prev.update(tid as int, self.threads@[tid as int]));
            lemma_live_count_update(prev, tid as int, self.threads@[tid as int]);
        }
        e
    }

    /// An atomic increment: adds `delta` to the word at `addr`, modulo
    /// 2^32, inside the atomic section, and returns the previous word.
    /// Increments from different cores are serialized by the lock, so
    /// every one of them lands.
    pub fn atomic_add(&mut self, addr: u32, delta: u32) -> (prev: u32)
        requires
            old(self).wf(),
            addr + 4 <= old(self).memory@.len(),
            !old(self).atomic_lock,
        ensures
            final(self).wf(),
            !final(self).atomic_lock,
            prev == word_le(old(self).memory@, addr as int),
            word_le(final(self).memory@, addr as int) == ((prev + delta) % 0x1_0000_0000) as u32,
            ({
                let v = word_le(final(self).memory@, addr as int);
                final(self).memory@ == old(self).memory@.update(
                    addr as int,
                    word_byte(v, 0),
                ).update(addr + 1, word_byte(v, 1)).update(addr + 2, word_byte(v, 2)).update(
                    addr + 3,
                    word_byte(v, 3),
                )
            }),
            final(self).threads@ == old(self).threads@,
            final(self).thread_count == old(self).thread_count,
            final(self).running == old(self).running,
    {
        self.atomic_lock = true;
        let prev = self.memory.read_word(addr as usize);
        let (v, _) = crate::alu::add_carry(prev, delta, false);
        self.memory.write_word(addr as usize, v);
        self.atomic_lock = false;
        proof {
            lemma_word_le_roundtrip(self.memory@, addr as int, v);
        }
        prev
    }

    /// The global atomic section: runs `op` on the word at `addr` with the
    /// atomic lock held, storing the result back.  All atomic sections are
    /// totally ordered by the lock; this is the machine's only interlock.
    pub fn atomic_op<F: Fn(u32) -> u32>(&mut self, addr: u32, op: F) -> (prev: u32)
        requires
            old(self).wf(),
            addr + 4 <= old(self).memory@.len(),
            !old(self).atomic_lock,
            forall|x: u32| #[trigger] op.requires((x,)),
        ensures
            final(self).wf(),
            !final(self).atomic_lock,
            prev == word_le(old(self).memory@, addr as int),
            call_ensures(op, (prev,), word_le(final(self).memory@, addr as int)),
            ({
                let v = word_le(final(self).memory@, addr as int);
                final(self).memory@ == old(self).memory@.update(
                    addr as int,
                    word_byte(v, 0),
                ).update(addr + 1, word_byte(v, 1)).update(addr + 2, word_byte(v, 2)).update(
                    addr + 3,
                    word_byte(v, 3),
                )
            }),
            final(self).threads@ == old(self).threads@,
            final(self).thread_count == old(self).thread_count,
            final(self).running == old(self).running,
    {
        self.atomic_lock = true;
        let prev = self.memory.read_word(addr as usize);
        let v = op(prev);
        self.memory.write_word(addr as usize, v);
        self.atomic_lock = false;
        proof {
            lemma_word_le_roundtrip(self.memory@, addr as int, v);
        }
        prev
    }
}

impl ThreadCore {
    /// Whether this core descends from thread `tid`; a core is its own
    /// child for permission purposes.
    pub fn is_child_of(&self, ctx: &MachineCtx, tid: u32) -> (r: bool)
        requires
            ctx.wf(),
        ensures
            r == (tid == self.thread_id || schild_of(ctx.threads@, self.thread_id, tid)),
    {
        if tid == self.thread_id {
            return true;
        }
        let mut id = self.thread_id;
        let n = self.thread_count_bound(ctx);
        loop
            invariant
                ctx.wf(),
                n == ctx.threads@.len(),
                tid != self.thread_id,
                schild_of(ctx.threads@, self.thread_id, tid) == schild_of(ctx.threads@, id, tid),
            decreases id,
        {
            if id == 0 || (id as usize) >= n {
                return false;
            }
            let p = ctx.threads[id as usize].parent_thread_id;
            if p == tid {
                return true;
            }
            if p >= id {
                return false;
            }
            id = p;
        }
    }

    /// The registry size, read through the context.
    fn thread_count_bound(&self, ctx: &MachineCtx) -> (n: usize)
        ensures
            n == ctx.threads@.len(),
    {
        ctx.threads.len()
    }

    /// Whether thread `tid` descends from this core.
    pub fn is_parent_of(&self, ctx: &MachineCtx, tid: u32) -> (r: bool)
        requires
            ctx.wf(),
        ensures
            r == (tid < ctx.threads@.len() && (self.thread_id == tid || schild_of(
                ctx.threads@,
                tid,
                self.thread_id,
            ))),
    {
        let n = ctx.threads.len();
        if (tid as usize) < n {
            ctx.threads[tid as usize].is_child_of(ctx, self.thread_id)
        } else {
            false
        }
    }
}

/// The machine: a context plus the lifecycle protocol around it.
pub struct Machine {
    pub ctx: MachineCtx,
}

impl Machine {
    /// Builds a machine from a raw image placed at address zero of a
    /// zero-filled memory of `memory_size` bytes, the placement the
    /// machine's own examples use.  For the standard layout, which
    /// reserves the low region for the frame buffers and glyph ROM, see
    /// [`Machine::from_image_at`].  Fails exactly when the image does not
    /// fit.
    pub fn from_image_bytes(image: &Vec<u8>, memory_size: u32) -> (r: Result<Machine, LoadError>)
        ensures
            (image@.len() <= memory_size) <==> r is Ok,
            r matches Ok(m) ==> m.ctx.wf() && m.ctx.memory@ == loaded_image(
                image@,
                0,
                memory_size,
            ) && m.ctx.threads@.len() == 0 && m.ctx.running && !m.ctx.atomic_lock
                && m.ctx.thread_count == 0 && m.ctx.next_thread_id == 0,
    {
        Self::from_image_at(image, 0, memory_size)
    }

    /// Builds a machine from a raw image placed at `base` — for the
    /// standard layout, [`crate::arch::IMAGE_BASE`] — in a zero-filled
    /// memory of `memory_size` bytes.  Fails exactly when the image does
    /// not fit.
    pub fn from_image_at(image: &Vec<u8>, base: u32, memory_size: u32) -> (r: Result<
        Machine,
        LoadError,
    >)
        ensures
            (base + image@.len() <= memory_size) <==> r is Ok,
            r matches Ok(m) ==> m.ctx.wf() && m.ctx.memory@ == loaded_image(
                image@,
                base,
                memory_size,
            ) && m.ctx.threads@.len() == 0 && m.ctx.running && !m.ctx.atomic_lock
                && m.ctx.thread_count == 0 && m.ctx.next_thread_id == 0,
    {
        let mem = load_image(image, base, memory_size)?;
        Ok(Machine { ctx: MachineCtx::new(mem) })
    }

    /// Where the main thread starts: the entrypoint word at
    /// [`crate::arch::ENTRY_ADDRESS`] when the memory reaches that far,
    /// and address zero in smaller memories (whose images begin with
    /// their code).
    pub open spec fn spec_entry(mem: Seq<u8>) -> u32 {
        if crate::arch::ENTRY_ADDRESS + 4 <= mem.len() {
            word_le(mem, crate::arch::ENTRY_ADDRESS as int)
        } else {
            0
        }
    }

    /// Spawns the main thread over the whole memory, starting at the
    /// entrypoint (see [`Machine::spec_entry`]), and runs it.  The
    /// returned effect is the first request the program makes of the
    /// embedder ([`Effect::Done`] if it ran out of fuel first).
    pub fn run(&mut self, fuel: u64) -> (e: Effect)
        requires
            old(self).ctx.wf(),
            old(self).ctx.threads@.len() == 0,
        ensures
            final(self).ctx.wf(),
            final(self).ctx.threads@.len() == 1,
            ({
                let core0 = final(self).ctx.threads@[0];
                let s0 = (Vm {
                    regs: Seq::new(64, |i: int| 0u32).update(
                        crate::arch::REG_I as int,
                        Self::spec_entry(old(self).ctx.memory@),
                    ),
                    mem: old(self).ctx.memory@,
                    min: 0,
                    max: old(self).ctx.memory@.len() as u32,
                });
                let ran = srun(s0, fuel as nat);
                core0.vm(final(self).ctx.memory) == ran.0 && e == ran.1
            }),
    {
        let len = self.ctx.memory.len();
        let entry: u32 = if crate::arch::ENTRY_ADDRESS as usize + 4 <= len {
            self.ctx.memory.read_word(crate::arch::ENTRY_ADDRESS as usize)
        } else {
            0
        };
        let tid = self.ctx.spawn(0, entry, 0, len as u32, 0xFFFF_FFFF);
        self.ctx.run_thread(tid, fuel)
    }
}

} // verus!
