//! The process table: process control blocks, the per-hart scheduler state,
//! slot allocation with process ids, the first process, and one scan of the
//! scheduler.
use vstd::prelude::*;
use linked_list_allocator::Heap;
use crate::mem_utils::slice_cpy;
use crate::memolayout::{kstack, spec_kstack, KernelImage, TRAMPOLINE, TRAPFRAME};
use crate::params::NPROC;
use crate::riscv::{r_tp, Hart, MAXPA, MAXVA, PGSIZE, PTE_R, PTE_W, PTE_X};
use crate::trap::{user_return, usertrapret, TrapError, UserReturn};
use crate::sv39::leaf_pte;
use crate::vm::{
    kalloc, lemma_mapped_page_failed, lemma_mapped_range, mappages, page_usable, spec_page_image,
    uvmcreate, uvminit, AddressSpace, VmError, USER_PAGE,
};

verus! {

/// The first program a process runs: it asks the kernel to run `/init`, and
/// to exit should that return.
pub const INITCODE: [u8; 60] = [
    0x17, 0x05, 0x00, 0x00, 0x03, 0x35, 0x05, 0x00, 0x97, 0x05, 0x00, 0x00, 0x83, 0xb5, 0x05, 0x00,
    0x93, 0x08, 0x20, 0x07, 0x09, 0xa0, 0x73, 0x00, 0x00, 0x00, 0xf5, 0xbf, 0x93, 0x08, 0xa0, 0x02,
    0x73, 0x00, 0x00, 0x00, 0xef, 0xf0, 0x9f, 0xff, 0x2f, 0x69, 0x6e, 0x69, 0x74, 0x00, 0x00, 0x01,
    0x00, 0x00, 0x00, 0x00, 0x00, 0x00, 0x00, 0x00, 0x00, 0x00, 0x00, 0x00,
];

/// The name of the first process, `initcode`.
pub const INIT_NAME: [u8; 8] = [0x69, 0x6e, 0x69, 0x74, 0x63, 0x6f, 0x64, 0x65];

/// The callee-saved registers, kept across a switch between two threads
/// of execution in the kernel.
#[derive(Clone, Copy, Debug, PartialEq, Eq, Structural)]
pub struct Context {
    pub ra: u64,
    pub sp: u64,
    pub s0: u64,
    pub s1: u64,
    pub s2: u64,
    pub s3: u64,
    pub s4: u64,
    pub s5: u64,
    pub s6: u64,
    pub s7: u64,
    pub s8: u64,
    pub s9: u64,
    pub s10: u64,
    pub s11: u64,
}

impl Context {
    /// A context with every register zero.
    pub open spec fn spec_zeroed() -> Context {
        Context {
            ra: 0,
            sp: 0,
            s0: 0,
            s1: 0,
            s2: 0,
            s3: 0,
            s4: 0,
            s5: 0,
            s6: 0,
            s7: 0,
            s8: 0,
            s9: 0,
            s10: 0,
            s11: 0,
        }
    }

    /// A context with every register zero.
    #[verifier::when_used_as_spec(spec_zeroed)]
    pub fn zeroed() -> (c: Context)
        ensures
            c == Context::spec_zeroed(),
    {
        Context {
            ra: 0,
            sp: 0,
            s0: 0,
            s1: 0,
            s2: 0,
            s3: 0,
            s4: 0,
            s5: 0,
            s6: 0,
            s7: 0,
            s8: 0,
            s9: 0,
            s10: 0,
            s11: 0,
        }
    }

    /// The context as it lies in memory: its fields as 64-bit words, in
    /// the order that the switch code relies on.
    pub open spec fn spec_words(self) -> Seq<u64> {
        seq![
            self.ra,
            self.sp,
            self.s0,
            self.s1,
            self.s2,
            self.s3,
            self.s4,
            self.s5,
            self.s6,
            self.s7,
            self.s8,
            self.s9,
            self.s10,
            self.s11,
        ]
    }

    /// The context that the words hold.
    pub open spec fn spec_from_words(w: Seq<u64>) -> Context {
        Context {
            ra: w[0],
            sp: w[1],
            s0: w[2],
            s1: w[3],
            s2: w[4],
            s3: w[5],
            s4: w[6],
            s5: w[7],
            s6: w[8],
            s7: w[9],
            s8: w[10],
            s9: w[11],
            s10: w[12],
            s11: w[13],
        }
    }

    /// Lays the context out as it lies in memory.
    pub fn to_words(&self) -> (w: [u64; 14])
        ensures
            w@ == self.spec_words(),
    {
        let w: [u64; 14] = [
            self.ra,
            self.sp,
            self.s0,
            self.s1,
            self.s2,
            self.s3,
            self.s4,
            self.s5,
            self.s6,
            self.s7,
            self.s8,
            self.s9,
            self.s10,
            self.s11,
        ];
        proof {
            assert(w@ =~= self.spec_words());
        }
        w
    }

    /// Reads the context from the words it lies in.
    pub fn from_words(w: &[u64; 14]) -> (r: Context)
        ensures
            r == Context::spec_from_words(w@),
    {
        Context {
            ra: w[0],
            sp: w[1],
            s0: w[2],
            s1: w[3],
            s2: w[4],
            s3: w[5],
            s4: w[6],
            s5: w[7],
            s6: w[8],
            s7: w[9],
            s8: w[10],
            s9: w[11],
            s10: w[12],
            s11: w[13],
        }
    }

    /// Laying out and reading back are inverse to each other.
    pub proof fn lemma_words_round_trip(self, w: Seq<u64>)
        requires
            w.len() == 14,
        ensures
            self.spec_words().len() == 14,
            Context::spec_from_words(self.spec_words()) == self,
            Context::spec_from_words(w).spec_words() == w,
    {
        assert(Context::spec_from_words(w).spec_words() =~= w);
    }
}

/// The scheduler state of one hart.
#[derive(Clone, Copy, Debug, PartialEq, Eq, Structural)]
pub struct Cpu {
    /// The slot of the process that runs on this hart, if one does.
    pub proc_index: Option<usize>,
    /// Where the hart's scheduler loop is resumed.
    pub context: Context,
    /// How deeply interrupt-disabling sections are nested.
    pub noff: i32,
    /// Whether interrupts were enabled before the outermost such section.
    pub intena: bool,
}

impl Cpu {
    /// The state of a hart at boot: no process, all zero.
    pub fn new() -> (cpu: Cpu)
        ensures
            cpu == (Cpu {
                proc_index: None,
                context: Context::spec_zeroed(),
                noff: 0,
                intena: false,
            }),
    {
        Cpu { proc_index: None, context: Context::zeroed(), noff: 0, intena: false }
    }
}

/// What the trampoline and the kernel hand each other when a process
/// crosses between user and supervisor mode.  It lies in a page of its own,
/// mapped just below the trampoline in the process's address space.  The
/// order of the fields is fixed by the trampoline's code.
#[derive(Clone, Copy, Debug, PartialEq, Eq, Structural)]
pub struct Trapframe {
    /// The kernel's page table, as a `satp` value.
    pub kernel_satp: u64,
    /// The top of the process's kernel stack.
    pub kernel_sp: u64,
    /// The address of the handler for traps from user mode.
    pub kernel_trap: u64,
    /// The saved user program counter.
    pub epc: u64,
    /// The hart the process runs on.
    pub kernel_hartid: u64,
    pub ra: u64,
    pub sp: u64,
    pub gp: u64,
    pub tp: u64,
    pub t0: u64,
    pub t1: u64,
    pub t2: u64,
    pub s0: u64,
    pub s1: u64,
    pub a0: u64,
    pub a1: u64,
    pub a2: u64,
    pub a3: u64,
    pub a4: u64,
    pub a5: u64,
    pub a6: u64,
    pub a7: u64,
    pub s2: u64,
    pub s3: u64,
    pub s4: u64,
    pub s5: u64,
    pub s6: u64,
    pub s7: u64,
    pub s8: u64,
    pub s9: u64,
    pub s10: u64,
    pub s11: u64,
    pub t3: u64,
    pub t4: u64,
    pub t5: u64,
    pub t6: u64,
}

impl Trapframe {
    /// A trapframe with every field zero.
    pub open spec fn spec_zeroed() -> Trapframe {
        Trapframe {
            kernel_satp: 0,
            kernel_sp: 0,
            kernel_trap: 0,
            epc: 0,
            kernel_hartid: 0,
            ra: 0,
            sp: 0,
            gp: 0,
            tp: 0,
            t0: 0,
            t1: 0,
            t2: 0,
            s0: 0,
            s1: 0,
            a0: 0,
            a1: 0,
            a2: 0,
            a3: 0,
            a4: 0,
            a5: 0,
            a6: 0,
            a7: 0,
            s2: 0,
            s3: 0,
            s4: 0,
            s5: 0,
            s6: 0,
            s7: 0,
            s8: 0,
            s9: 0,
            s10: 0,
            s11: 0,
            t3: 0,
            t4: 0,
            t5: 0,
            t6: 0,
        }
    }

    /// A trapframe with every field zero.
    #[verifier::when_used_as_spec(spec_zeroed)]
    pub fn zeroed() -> (t: Trapframe)
        ensures
            t == Trapframe::spec_zeroed(),
    {
        Trapframe {
            kernel_satp: 0,
            kernel_sp: 0,
            kernel_trap: 0,
            epc: 0,
            kernel_hartid: 0,
            ra: 0,
            sp: 0,
            gp: 0,
            tp: 0,
            t0: 0,
            t1: 0,
            t2: 0,
            s0: 0,
            s1: 0,
            a0: 0,
            a1: 0,
            a2: 0,
            a3: 0,
            a4: 0,
            a5: 0,
            a6: 0,
            a7: 0,
            s2: 0,
            s3: 0,
            s4: 0,
            s5: 0,
            s6: 0,
            s7: 0,
            s8: 0,
            s9: 0,
            s10: 0,
            s11: 0,
            t3: 0,
            t4: 0,
            t5: 0,
            t6: 0,
        }
    }

    /// The trapframe as it lies in memory: its fields as 64-bit words, in
    /// the order that the trampoline relies on.
    pub open spec fn spec_words(self) -> Seq<u64> {
        seq![
            self.kernel_satp,
            self.kernel_sp,
            self.kernel_trap,
            self.epc,
            self.kernel_hartid,
            self.ra,
            self.sp,
            self.gp,
            self.tp,
            self.t0,
            self.t1,
            self.t2,
            self.s0,
            self.s1,
            self.a0,
            self.a1,
            self.a2,
            self.a3,
            self.a4,
            self.a5,
            self.a6,
            self.a7,
            self.s2,
            self.s3,
            self.s4,
            self.s5,
            self.s6,
            self.s7,
            self.s8,
            self.s9,
            self.s10,
            self.s11,
            self.t3,
            self.t4,
            self.t5,
            self.t6,
        ]
    }

    /// The trapframe that the words hold.
    pub open spec fn spec_from_words(w: Seq<u64>) -> Trapframe {
        Trapframe {
            kernel_satp: w[0],
            kernel_sp: w[1],
            kernel_trap: w[2],
            epc: w[3],
            kernel_hartid: w[4],
            ra: w[5],
            sp: w[6],
            gp: w[7],
            tp: w[8],
            t0: w[9],
            t1: w[10],
            t2: w[11],
            s0: w[12],
            s1: w[13],
            a0: w[14],
            a1: w[15],
            a2: w[16],
            a3: w[17],
            a4: w[18],
            a5: w[19],
            a6: w[20],
            a7: w[21],
            s2: w[22],
            s3: w[23],
            s4: w[24],
            s5: w[25],
            s6: w[26],
            s7: w[27],
            s8: w[28],
            s9: w[29],
            s10: w[30],
            s11: w[31],
            t3: w[32],
            t4: w[33],
            t5: w[34],
            t6: w[35],
        }
    }

    /// Lays the trapframe out as it lies in memory.
    pub fn to_words(&self) -> (w: [u64; 36])
        ensures
            w@ == self.spec_words(),
    {
        let w: [u64; 36] = [
            self.kernel_satp,
            self.kernel_sp,
            self.kernel_trap,
            self.epc,
            self.kernel_hartid,
            self.ra,
            self.sp,
            self.gp,
            self.tp,
            self.t0,
            self.t1,
            self.t2,
            self.s0,
            self.s1,
            self.a0,
            self.a1,
            self.a2,
            self.a3,
            self.a4,
            self.a5,
            self.a6,
            self.a7,
            self.s2,
            self.s3,
            self.s4,
            self.s5,
            self.s6,
            self.s7,
            self.s8,
            self.s9,
            self.s10,
            self.s11,
            self.t3,
            self.t4,
            self.t5,
            self.t6,
        ];
        proof {
            assert(w@ =~= self.spec_words());
        }
        w
    }

    /// Reads the trapframe from the words it lies in.
    pub fn from_words(w: &[u64; 36]) -> (r: Trapframe)
        ensures
            r == Trapframe::spec_from_words(w@),
    {
        Trapframe {
            kernel_satp: w[0],
            kernel_sp: w[1],
            kernel_trap: w[2],
            epc: w[3],
            kernel_hartid: w[4],
            ra: w[5],
            sp: w[6],
            gp: w[7],
            tp: w[8],
            t0: w[9],
            t1: w[10],
            t2: w[11],
            s0: w[12],
            s1: w[13],
            a0: w[14],
            a1: w[15],
            a2: w[16],
            a3: w[17],
            a4: w[18],
            a5: w[19],
            a6: w[20],
            a7: w[21],
            s2: w[22],
            s3: w[23],
            s4: w[24],
            s5: w[25],
            s6: w[26],
            s7: w[27],
            s8: w[28],
            s9: w[29],
            s10: w[30],
            s11: w[31],
            t3: w[32],
            t4: w[33],
            t5: w[34],
            t6: w[35],
        }
    }

    /// Laying out and reading back are inverse to each other.
    pub proof fn lemma_words_round_trip(self, w: Seq<u64>)
        requires
            w.len() == 36,
        ensures
            self.spec_words().len() == 36,
            Trapframe::spec_from_words(self.spec_words()) == self,
            Trapframe::spec_from_words(w).spec_words() == w,
    {
        assert(Trapframe::spec_from_words(w).spec_words() =~= w);
    }
}

/// The states of a process slot.
#[derive(Clone, Copy, Debug, PartialEq, Eq, Structural)]
pub enum ProcessState {
    UNUSED,
    USED,
    SLEEPING,
    RUNNABLE,
    RUNNING,
    ZOMBIE,
}

/// The trapframe of a process and the physical page it lies in.
#[derive(Clone, Copy, Debug, PartialEq, Eq, Structural)]
pub struct TrapframePage {
    pub pa: u64,
    pub frame: Trapframe,
}

/// A process control block.
pub struct Proc {
    /// Where the slot is in its life.
    pub state: ProcessState,
    /// Set when the process is to be ended.
    pub killed: bool,
    /// The exit status, for the parent's wait.
    pub xstate: i32,
    /// The process id.
    pub pid: i32,
    /// The slot of the parent process.
    pub parent: Option<usize>,
    /// The lowest virtual address of the kernel stack of this slot.
    pub kstack: u64,
    /// The size of the process's memory in bytes.
    pub sz: u64,
    /// The process's address space.
    pub pagetable: Option<AddressSpace>,
    /// The process's trapframe page.
    pub trapframe: Option<TrapframePage>,
    /// Where the process is resumed in the kernel.
    pub context: Context,
    /// A name, for debugging.
    pub name: [u8; 16],
}

/// Why the process table could not do what was asked.
#[derive(Clone, Copy, Debug, PartialEq, Eq, Structural)]
pub enum ProcError {
    /// Every slot of the table is in use.
    NoSlot,
    /// The address space could not be built; the kernel halts on this.
    Vm(VmError),
    /// The operation is declared but not supported yet.
    Unsupported,
}

/// The table of process control blocks, the counter that hands out process
/// ids, and the addresses of the kernel image that new processes need.
pub struct ProcTable {
    pub procs: Vec<Proc>,
    pub next_pid: i32,
    pub image: KernelImage,
}

/// What the address space of a new process translates `v` to: the
/// trampoline page at the top, read-execute, the process's trapframe page
/// just below it, read-write, and nothing else.
pub open spec fn proc_map(trampoline: u64, trapframe: u64, v: u64) -> Option<u64> {
    if TRAMPOLINE <= v < MAXVA {
        Some(leaf_pte(trampoline, PTE_R | PTE_X))
    } else if TRAPFRAME <= v < TRAMPOLINE {
        Some(leaf_pte(trapframe, PTE_R | PTE_W))
    } else {
        None
    }
}

/// The context a new process is first switched to: it returns into
/// `forkret`, on a stack one page above the bottom of its kernel stack.
pub open spec fn first_context(image: &KernelImage, kstack: u64) -> Context {
    Context { ra: image.forkret, sp: (kstack + PGSIZE) as u64, ..Context::spec_zeroed() }
}

impl Proc {
    /// The slot as `procinit` leaves it: unused and all zero, but for the
    /// address of its kernel stack.
    pub open spec fn is_fresh(&self, index: int) -> bool {
        &&& self.state == ProcessState::UNUSED
        &&& !self.killed
        &&& self.xstate == 0
        &&& self.pid == 0
        &&& self.parent is None
        &&& self.kstack == spec_kstack(index)
        &&& self.sz == 0
        &&& self.pagetable is None
        &&& self.trapframe is None
        &&& self.context == Context::spec_zeroed()
        &&& self.name@ == Seq::new(16, |i: int| 0u8)
    }

    /// The invariant of the slot at `index`.  The kernel stack lies where
    /// the slot's number puts it.  A slot in use has the process id that
    /// its number gives it, a trapframe page, and an address space that
    /// maps the trampoline and that trapframe page at the two fixed
    /// addresses.
    pub open spec fn wf(&self, image: &KernelImage, index: int) -> bool {
        &&& self.kstack == spec_kstack(index)
        &&& self.state != ProcessState::UNUSED ==> {
            &&& self.pid == index + 1
            &&& self.pagetable is Some
            &&& self.pagetable.unwrap().wf()
            &&& self.trapframe is Some
            &&& self.trapframe.unwrap().pa % 4096 == 0
            &&& self.trapframe.unwrap().pa < MAXPA
            &&& forall|v: u64|
                TRAPFRAME <= v ==> #[trigger] self.pagetable.unwrap().lookup(v) == proc_map(
                    image.trampoline,
                    self.trapframe.unwrap().pa,
                    v,
                )
        }
    }
}

impl ProcTable {
    /// The invariant of the table.  It has `NPROC` slots.  Slots are handed
    /// out in order and never taken back, so the slots in use are those
    /// before slot `next_pid - 1`, and each holds the process id one above
    /// its number.
    pub open spec fn wf(&self) -> bool {
        &&& self.procs@.len() == NPROC
        &&& 1 <= self.next_pid <= NPROC + 1
        &&& forall|i: int| 0 <= i < NPROC ==> #[trigger] self.slot_wf(i)
    }

    /// The invariant of slot `i` in the table: that of the slot by itself,
    /// and the slot is in use exactly if it comes before slot
    /// `next_pid - 1`.
    pub open spec fn slot_wf(&self, i: int) -> bool {
        &&& self.procs@[i].wf(&self.image, i)
        &&& self.procs@[i].state != ProcessState::UNUSED <==> i < self.next_pid - 1
    }

    /// The slot at `index`.
    pub fn slot(&self, index: usize) -> (p: &Proc)
        requires
            index < self.procs@.len(),
        ensures
            *p == self.procs@[index as int],
    {
        &self.procs[index]
    }
}

/// Sets up the process table: every slot unused and zeroed, with the
/// address of its kernel stack, and process ids starting at 1.
pub fn procinit(image: KernelImage) -> (table: ProcTable)
    ensures
        table.wf(),
        table.next_pid == 1,
        table.image == image,
        forall|i: int| 0 <= i < NPROC ==> (#[trigger] table.procs@[i]).is_fresh(i),
{
    let mut procs: Vec<Proc> = Vec::new();
    let mut i: usize = 0;
    while i < NPROC
        invariant
            i <= NPROC,
            procs@.len() == i,
            forall|k: int| 0 <= k < i ==> (#[trigger] procs@[k]).is_fresh(k),
        decreases NPROC - i,
    {
        let p = Proc {
            state: ProcessState::UNUSED,
            killed: false,
            xstate: 0,
            pid: 0,
            parent: None,
            kstack: kstack(i),
            sz: 0,
            pagetable: None,
            trapframe: None,
            context: Context::zeroed(),
            name: [0u8; 16],
        };
        proof {
            assert(p.name@ =~= Seq::new(16, |i: int| 0u8));
        }
        procs.push(p);
        i += 1;
    }
    ProcTable { procs, next_pid: 1, image }
}

/// Builds the address space of a new process: empty but for the trampoline
/// page at `TRAMPOLINE` and the process's trapframe page, which lies at
/// physical address `trapframe`, at `TRAPFRAME`.
#[verifier::rlimit(50)]
pub fn proc_pagetable(heap: &mut Heap, image: &KernelImage, trapframe: u64) -> (r: Result<
    AddressSpace,
    VmError,
>)
    ensures
        match r {
            Ok(space) => space.wf() && space.frames().len() == 0 && forall|v: u64| #[trigger]
                space.lookup(v) == proc_map(image.trampoline, trapframe, v),
            Err(e) => e == VmError::OutOfMemory,
        },
{
    let mut space = match uvmcreate(heap) {
        Err(e) => {
            return Err(e);
        },
        Ok(space) => space,
    };
    let ghost s0 = space;
    // The trampoline, for the way into and out of the kernel.  Only the
    // supervisor uses it, so user mode gets no access.
    let r1 = mappages(&mut space, heap, TRAMPOLINE, image.trampoline, PGSIZE, PTE_R | PTE_X);
    let ghost s1 = space;
    match r1 {
        Err(e) => {
            proof {
                lemma_mapped_page_failed(&s0, &s1, TRAMPOLINE, image.trampoline, PTE_R | PTE_X, e);
            }
            return Err(e);
        },
        Ok(()) => {},
    }
    proof {
        lemma_mapped_range(&s0, &s1, TRAMPOLINE, image.trampoline, PGSIZE, PTE_R | PTE_X, r1);
    }
    // The trapframe, just below the trampoline.
    let r2 = mappages(&mut space, heap, TRAPFRAME, trapframe, PGSIZE, PTE_R | PTE_W);
    match r2 {
        Err(e) => {
            proof {
                lemma_mapped_page_failed(&s1, &space, TRAPFRAME, trapframe, PTE_R | PTE_W, e);
                assert(s1.lookup(TRAPFRAME) == s0.lookup(TRAPFRAME));
            }
            return Err(e);
        },
        Ok(()) => {},
    }
    proof {
        lemma_mapped_range(&s1, &space, TRAPFRAME, trapframe, PGSIZE, PTE_R | PTE_W, r2);
        assert forall|v: u64| #[trigger]
            space.lookup(v) == proc_map(image.trampoline, trapframe, v) by {
            // Naming what `v` translates to after each step brings in what
            // the two lemmas say about it.
            let at_start = s0.lookup(v);
            let with_trampoline = s1.lookup(v);
        }
    }
    Ok(space)
}

/// Takes the next process id.  The counter moves on with the same step,
/// so no id is handed out twice.
fn get_next_pid(table: &mut ProcTable) -> (pid: i32)
    requires
        old(table).next_pid < i32::MAX,
    ensures
        pid == old(table).next_pid,
        *final(table) == (ProcTable { next_pid: (pid + 1) as i32, ..*old(table) }),
{
    let pid = table.next_pid;
    table.next_pid = pid + 1;
    pid
}

/// What `allocproc` leaves behind: how the table `after` the call and the
/// result `r` relate to the table `before` it.
pub open spec fn allocated(
    before: &ProcTable,
    after: &ProcTable,
    r: Result<Option<usize>, VmError>,
) -> bool {
    match r {
        // The first unused slot was taken.  It has the next process id, a
        // zeroed trapframe, an address space with the two fixed pages and
        // nothing else, and the context of a process that has not run.
        Ok(Some(i)) => {
            let p = after.procs@[i as int];
            let q = before.procs@[i as int];
            &&& i < NPROC
            &&& q.state == ProcessState::UNUSED
            &&& forall|j: int|
                0 <= j < i ==> (#[trigger] before.procs@[j]).state != ProcessState::UNUSED
            &&& after.next_pid == before.next_pid + 1
            &&& after.image == before.image
            &&& after.procs@.len() == before.procs@.len()
            &&& forall|j: int|
                0 <= j < NPROC && j != i ==> #[trigger] after.procs@[j] == before.procs@[j]
            &&& p.state == ProcessState::USED
            &&& p.pid == before.next_pid
            &&& p.context == first_context(&before.image, q.kstack)
            &&& p.trapframe is Some
            &&& p.trapframe.unwrap().frame == Trapframe::spec_zeroed()
            &&& p.pagetable is Some
            &&& p.pagetable.unwrap().frames().len() == 0
            &&& forall|v: u64| #[trigger]
                p.pagetable.unwrap().lookup(v) == proc_map(
                    before.image.trampoline,
                    p.trapframe.unwrap().pa,
                    v,
                )
            &&& p.killed == q.killed
            &&& p.xstate == q.xstate
            &&& p.parent == q.parent
            &&& p.kstack == q.kstack
            &&& p.sz == q.sz
            &&& p.name == q.name
        },
        // No slot is unused, and nothing changed.
        Ok(None) => {
            &&& *after == *before
            &&& forall|j: int|
                0 <= j < NPROC ==> (#[trigger] before.procs@[j]).state != ProcessState::UNUSED
        },
        // A slot is unused, but the heap could not supply the pages of its
        // process.  Nothing changed.
        Err(e) => {
            &&& e == VmError::OutOfMemory
            &&& *after == *before
            &&& exists|j: int|
                0 <= j < NPROC && (#[trigger] before.procs@[j]).state == ProcessState::UNUSED
        },
    }
}

/// Makes a process of slot `i`, the first unused one, from what the heap
/// gave for it: `page` is the page for the trapframe (`None` if the heap had
/// none), and `space` the address space that was built around that page.
///
/// With a page that is page-aligned and below `MAXPA`, and an address
/// space, the slot gets the next process id, a zeroed trapframe in the
/// page, the address space, and the context that starts it in `forkret`.
/// Without, nothing changes.
#[verifier::rlimit(50)]
pub fn take_slot(
    table: &mut ProcTable,
    i: usize,
    page: Option<u64>,
    space: Result<AddressSpace, VmError>,
) -> (r: Result<Option<usize>, VmError>)
    requires
        old(table).wf(),
        i < NPROC,
        i == old(table).next_pid - 1,
        space matches Ok(s) ==> page is Some && s.wf() && s.frames().len() == 0 && forall|v: u64|
            #[trigger] s.lookup(v) == proc_map(old(table).image.trampoline, page.unwrap(), v),
    ensures
        final(table).wf(),
        r is Ok <==> page_usable(page) && space is Ok,
        r is Ok ==> r == Ok::<Option<usize>, VmError>(Some(i)) && final(table).procs@[i as int]
            == (Proc {
            pid: old(table).next_pid,
            state: ProcessState::USED,
            trapframe: Some(TrapframePage { pa: page.unwrap(), frame: Trapframe::spec_zeroed() }),
            pagetable: Some(space->Ok_0),
            context: first_context(&old(table).image, old(table).procs@[i as int].kstack),
            ..old(table).procs@[i as int]
        }),
        r is Err ==> r == Err::<Option<usize>, VmError>(VmError::OutOfMemory) && *final(table)
            == *old(table),
        allocated(old(table), final(table), r),
{
    proof {
        assert(table.slot_wf(i as int));
        if i > 0 {
            assert(table.slot_wf(i - 1));
        }
        assert forall|j: int| 0 <= j < i implies (#[trigger] table.procs@[j]).state
            != ProcessState::UNUSED by {
            assert(table.slot_wf(j));
        }
    }
    let frame_pa: u64 = match page {
        None => {
            return Err(VmError::OutOfMemory);
        },
        Some(pa) => pa,
    };
    if frame_pa % PGSIZE != 0 || frame_pa >= MAXPA {
        return Err(VmError::OutOfMemory);
    }
    let space = match space {
        Err(_) => {
            return Err(VmError::OutOfMemory);
        },
        Ok(space) => space,
    };
    let pid: i32 = get_next_pid(table);
    let stack: u64 = table.procs[i].kstack;
    table.procs[i].pid = pid;
    table.procs[i].state = ProcessState::USED;
    table.procs[i].trapframe = Some(TrapframePage { pa: frame_pa, frame: Trapframe::zeroed() });
    table.procs[i].pagetable = Some(space);
    let mut context = Context::zeroed();
    context.ra = table.image.forkret;
    context.sp = stack + PGSIZE;
    table.procs[i].context = context;
    proof {
        assert forall|k: int| 0 <= k < NPROC implies #[trigger] table.slot_wf(k) by {
            assert(old(table).slot_wf(k));
            if k == i {
                let p = table.procs@[k];
                assert(p.pid == k + 1);
                assert(p.kstack == spec_kstack(k));
                assert(p.pagetable is Some);
                assert(p.pagetable.unwrap() == space);
                assert(p.trapframe.unwrap().pa == frame_pa);
            } else {
                assert(table.procs@[k] == old(table).procs@[k]);
            }
        }
    }
    Ok(Some(i))
}

/// Finds the first unused slot and makes a process of it: gives it the
/// next process id, a trapframe page and an address space from `heap`, and
/// the context that starts it in `forkret`.  `Ok(None)` means that no slot
/// is unused.  What becomes of the slot for what the heap gave is the
/// business of [`take_slot`].
pub fn allocproc(table: &mut ProcTable, heap: &mut Heap) -> (r: Result<Option<usize>, VmError>)
    requires
        old(table).wf(),
    ensures
        final(table).wf(),
        allocated(old(table), final(table), r),
        r matches Ok(Some(i)) ==> i == old(table).next_pid - 1,
        r matches Ok(None) ==> *final(heap) == *old(heap) && old(table).next_pid == NPROC + 1,
{
    let mut i: usize = 0;
    while i < NPROC && table.procs[i].state != ProcessState::UNUSED
        invariant
            i <= NPROC,
            *table == *old(table),
            table.wf(),
            forall|j: int|
                0 <= j < i ==> (#[trigger] table.procs@[j]).state != ProcessState::UNUSED,
        decreases NPROC - i,
    {
        i += 1;
    }
    if i == NPROC {
        proof {
            assert(table.procs@[NPROC - 1].state != ProcessState::UNUSED);
            assert(table.slot_wf(NPROC - 1));
        }
        return Ok(None);
    }
    proof {
        assert(table.slot_wf(i as int));
        assert(table.procs@[i as int].state == ProcessState::UNUSED);
        if i > 0 {
            assert(table.procs@[i - 1].state != ProcessState::UNUSED);
            assert(table.slot_wf(i - 1));
        }
        assert(i == table.next_pid - 1);
    }
    let page = kalloc(heap);
    let space = match page {
        Some(pa) => proc_pagetable(heap, &table.image, pa),
        None => Err(VmError::OutOfMemory),
    };
    take_slot(table, i, page, space)
}

/// Where a new process starts in the kernel: it goes straight to user
/// mode, as `usertrapret` prepares it.  A process must run on this hart.
pub fn forkret(h: &mut Hart, cpus: &[Cpu], table: &mut ProcTable) -> (r: UserReturn)
    requires
        old(table).wf(),
        spec_myproc(old(h), cpus, old(table)) is Some,
    ensures
        final(table).wf(),
        user_return(old(h), cpus, old(table), final(h), final(table), r),
{
    usertrapret(h, cpus, table)
}

/// Reclaims a process slot.  Not supported yet: the table is left as it is.
pub fn freeproc(table: &mut ProcTable, i: usize) -> (r: Result<(), ProcError>)
    ensures
        r == Err::<(), ProcError>(ProcError::Unsupported),
        *final(table) == *old(table),
{
    Err(ProcError::Unsupported)
}

/// The number of the hart that runs this code, as the thread pointer
/// holds it.
pub open spec fn spec_cpuid(h: &Hart) -> usize {
    h.tp as usize
}

/// The number of the hart that runs this code.
#[verifier::when_used_as_spec(spec_cpuid)]
pub fn cpuid(h: &Hart) -> (id: usize)
    ensures
        id == spec_cpuid(h),
{
    r_tp(h) as usize
}

/// The slot of the process that runs on this hart, if one does and the hart
/// has scheduler state.
pub open spec fn spec_procid(h: &Hart, cpus: &[Cpu]) -> Option<usize> {
    if spec_cpuid(h) < cpus@.len() {
        cpus@[spec_cpuid(h) as int].proc_index
    } else {
        None
    }
}

/// The slot of the process that runs on this hart.
#[verifier::when_used_as_spec(spec_procid)]
pub fn procid(h: &Hart, cpus: &[Cpu]) -> (r: Option<usize>)
    ensures
        r == spec_procid(h, cpus),
{
    let id = cpuid(h);
    if id < cpus.len() {
        cpus[id].proc_index
    } else {
        None
    }
}

/// The slot of the process that runs on this hart, if the hart has one and
/// the slot is in use.
pub open spec fn spec_myproc(h: &Hart, cpus: &[Cpu], table: &ProcTable) -> Option<usize> {
    match spec_procid(h, cpus) {
        Some(i) => if i < table.procs@.len() && table.procs@[i as int].state
            != ProcessState::UNUSED {
            Some(i)
        } else {
            None
        },
        None => None,
    }
}

/// The slot of the process that runs on this hart.
#[verifier::when_used_as_spec(spec_myproc)]
pub fn myproc(h: &Hart, cpus: &[Cpu], table: &ProcTable) -> (r: Option<usize>)
    ensures
        r == spec_myproc(h, cpus, table),
{
    match procid(h, cpus) {
        Some(i) => if i < table.procs.len() && table.procs[i].state != ProcessState::UNUSED {
            Some(i)
        } else {
            None
        },
        None => None,
    }
}

/// The slot of the process that runs on this hart, for a hart that runs
/// one.
pub fn current(h: &Hart, cpus: &[Cpu], table: &ProcTable) -> (i: usize)
    requires
        spec_myproc(h, cpus, table) is Some,
    ensures
        spec_myproc(h, cpus, table) == Some(i),
        i < table.procs@.len(),
        table.procs@[i as int].state != ProcessState::UNUSED,
{
    match myproc(h, cpus, table) {
        Some(i) => i,
        None => {
            assert(false);
            0
        },
    }
}

/// Tests that a process runs on this hart, and says which.  The kernel
/// halts on an error.
pub fn check_process(h: &Hart, cpus: &[Cpu], table: &ProcTable) -> (r: Result<usize, TrapError>)
    ensures
        r == match spec_myproc(h, cpus, table) {
            Some(i) => Ok::<usize, TrapError>(i),
            None => Err::<usize, TrapError>(TrapError::NoProcess),
        },
{
    match myproc(h, cpus, table) {
        Some(i) => Ok(i),
        None => Err(TrapError::NoProcess),
    }
}

/// Where the next scan of the scheduler starts: after the slot that the
/// last scan picked, or at the first slot when that was the last one or
/// the scan found nothing.
pub open spec fn spec_next_scan(picked: Option<usize>) -> usize {
    match picked {
        Some(i) => if i + 1 < NPROC {
            (i + 1) as usize
        } else {
            0
        },
        None => 0,
    }
}

/// Where the next scan of the scheduler starts.
#[verifier::when_used_as_spec(spec_next_scan)]
pub fn next_scan(picked: Option<usize>) -> (start: usize)
    ensures
        start == spec_next_scan(picked),
{
    match picked {
        Some(i) => if i < NPROC - 1 {
            i + 1
        } else {
            0
        },
        None => 0,
    }
}

/// Before its first scan a hart runs no process.
pub fn scheduler_enter(cpu: &mut Cpu)
    ensures
        *final(cpu) == (Cpu { proc_index: None, ..*old(cpu) }),
{
    cpu.proc_index = None;
}

/// One scan of the scheduler, from slot `start` on: the first runnable
/// slot is marked running and becomes the hart's process.  The caller
/// then switches from the hart's context to that of the process, and scans
/// on from the slot after it when control comes back, or from slot 0 when
/// the scan found nothing.
pub fn scheduler(table: &mut ProcTable, cpu: &mut Cpu, start: usize) -> (r: Option<usize>)
    requires
        old(table).wf(),
    ensures
        final(table).wf(),
        final(table).next_pid == old(table).next_pid,
        final(table).image == old(table).image,
        final(table).procs@.len() == old(table).procs@.len(),
        match r {
            Some(i) => {
                &&& start <= i < NPROC
                &&& old(table).procs@[i as int].state == ProcessState::RUNNABLE
                &&& forall|j: int|
                    start <= j < i ==> (#[trigger] old(table).procs@[j]).state
                        != ProcessState::RUNNABLE
                &&& final(table).procs@[i as int] == (Proc {
                    state: ProcessState::RUNNING,
                    ..old(table).procs@[i as int]
                })
                &&& forall|j: int|
                    0 <= j < NPROC && j != i ==> #[trigger] final(table).procs@[j] == old(
                        table,
                    ).procs@[j]
                &&& *final(cpu) == (Cpu { proc_index: Some(i), ..*old(cpu) })
            },
            None => {
                &&& forall|j: int|
                    start <= j < NPROC ==> (#[trigger] old(table).procs@[j]).state
                        != ProcessState::RUNNABLE
                &&& *final(table) == *old(table)
                &&& *final(cpu) == *old(cpu)
            },
        },
{
    let mut i: usize = start;
    while i < NPROC
        invariant
            start <= i,
            *table == *old(table),
            *cpu == *old(cpu),
            table.wf(),
            forall|j: int|
                start <= j < i && j < NPROC ==> (#[trigger] table.procs@[j]).state
                    != ProcessState::RUNNABLE,
        decreases NPROC - i,
    {
        if table.procs[i].state == ProcessState::RUNNABLE {
            table.procs[i].state = ProcessState::RUNNING;
            cpu.proc_index = Some(i);
            proof {
                assert forall|k: int| 0 <= k < NPROC implies #[trigger] table.slot_wf(k) by {
                    assert(old(table).slot_wf(k));
                }
            }
            return Some(i);
        }
        i += 1;
    }
    None
}

/// The trapframe of the first process before it has run: it starts at
/// address 0, with its stack at the end of its one page.
pub open spec fn first_trapframe() -> Trapframe {
    Trapframe { epc: 0, sp: PGSIZE, ..Trapframe::spec_zeroed() }
}

/// What `userinit` leaves behind when it succeeds with slot `i`.
pub open spec fn initialized(before: &ProcTable, after: &ProcTable, i: usize) -> bool {
    let p = after.procs@[i as int];
    let q = before.procs@[i as int];
    // The first unused slot was taken, with the next process id.
    &&& i == before.next_pid - 1
    &&& i < NPROC
    &&& q.state == ProcessState::UNUSED
    &&& after.next_pid == before.next_pid + 1
    &&& after.image == before.image
    &&& after.procs@.len() == before.procs@.len()
    &&& forall|j: int| 0 <= j < NPROC && j != i ==> #[trigger] after.procs@[j] == before.procs@[j]
    &&& p.pid == before.next_pid
    // The process can be scheduled, and will start in `forkret`.
    &&& p.state == ProcessState::RUNNABLE
    &&& p.context == first_context(&before.image, q.kstack)
    // Its memory is one page, which starts with the first program and is
    // mapped at address 0 for user mode, besides the two fixed pages.
    &&& p.sz == PGSIZE
    &&& p.pagetable is Some
    &&& p.pagetable.unwrap().frames().len() == 1
    &&& p.trapframe is Some
    &&& forall|v: u64| #[trigger]
        p.pagetable.unwrap().lookup(v) == (if v < 4096 {
            Some(leaf_pte(p.pagetable.unwrap().frames()[0].pa, USER_PAGE))
        } else {
            proc_map(before.image.trampoline, p.trapframe.unwrap().pa, v)
        })
    &&& forall|v: u64|
        v < 4096 ==> #[trigger] p.pagetable.unwrap().byte_at(v) == Some(
            spec_page_image(INITCODE@)[v as int],
        )
    // It will enter user mode at address 0, with its stack at the end of
    // the page.
    &&& p.trapframe.unwrap().frame == first_trapframe()
    // It is called `initcode`.
    &&& forall|k: int| 0 <= k < 8 ==> p.name@[k] == INIT_NAME@[k]
    &&& forall|k: int| 8 <= k < 16 ==> p.name@[k] == q.name@[k]
    &&& p.killed == q.killed
    &&& p.xstate == q.xstate
    &&& p.parent == q.parent
    &&& p.kstack == q.kstack
}

/// The slot of the first process once its program is loaded: its memory
/// is one page, it enters user mode at address 0 with its stack at the end
/// of that page, it can be scheduled, and it is called `initcode`.
pub open spec fn made_first(p: Proc, q: Proc) -> bool {
    &&& p.state == ProcessState::RUNNABLE
    &&& p.sz == PGSIZE
    &&& p.trapframe == Some(
        TrapframePage {
            frame: Trapframe { epc: 0, sp: PGSIZE, ..q.trapframe.unwrap().frame },
            ..q.trapframe.unwrap()
        },
    )
    &&& forall|k: int| 0 <= k < 8 ==> p.name@[k] == INIT_NAME@[k]
    &&& forall|k: int| 8 <= k < 16 ==> p.name@[k] == q.name@[k]
    &&& p.pid == q.pid
    &&& p.killed == q.killed
    &&& p.xstate == q.xstate
    &&& p.parent == q.parent
    &&& p.kstack == q.kstack
    &&& p.pagetable == q.pagetable
    &&& p.context == q.context
}

/// Makes the process in slot `i`, whose program is loaded, the first one
/// to run: see [`made_first`].  The slot must be in use.
pub fn make_first(table: &mut ProcTable, i: usize)
    requires
        old(table).wf(),
        i < NPROC,
        old(table).procs@[i as int].state != ProcessState::UNUSED,
    ensures
        final(table).wf(),
        final(table).next_pid == old(table).next_pid,
        final(table).image == old(table).image,
        final(table).procs@.len() == old(table).procs@.len(),
        forall|j: int|
            0 <= j < NPROC && j != i ==> #[trigger] final(table).procs@[j] == old(table).procs@[j],
        made_first(final(table).procs@[i as int], old(table).procs@[i as int]),
{
    proof {
        assert(table.slot_wf(i as int));
    }
    table.procs[i].sz = PGSIZE;
    match &mut table.procs[i].trapframe {
        Some(page) => {
            page.frame.epc = 0;
            page.frame.sp = PGSIZE;
        },
        None => {},
    }
    table.procs[i].state = ProcessState::RUNNABLE;
    slice_cpy(&mut table.procs[i].name, &INIT_NAME);
    proof {
        assert forall|k: int| 0 <= k < NPROC implies #[trigger] table.slot_wf(k) by {
            assert(old(table).slot_wf(k));
        }
    }
}

/// Tests that `userinit` finds a slot: one must be unused.  The kernel
/// halts on an error.
pub fn check_userinit(table: &ProcTable) -> (r: Result<(), ProcError>)
    requires
        table.wf(),
    ensures
        r is Ok <==> table.next_pid <= NPROC,
        r matches Err(e) ==> e == ProcError::NoSlot,
{
    if table.next_pid <= NPROC as i32 {
        Ok(())
    } else {
        Err(ProcError::NoSlot)
    }
}

/// Creates the first process: takes a slot, loads the first program into
/// its address space at address 0, and makes it runnable.  A slot must be
/// unused, which [`check_userinit`] tests.
///
/// Where the heap runs out, either nothing has changed, or the slot has
/// been allocated and is left as `allocproc` made it; the kernel halts on
/// that.  What becomes of the slot once the program is loaded is the
/// business of [`make_first`].
#[verifier::rlimit(50)]
pub fn userinit(table: &mut ProcTable, heap: &mut Heap) -> (r: Result<usize, ProcError>)
    requires
        old(table).wf(),
        old(table).next_pid <= NPROC,
    ensures
        final(table).wf(),
        match r {
            Ok(i) => initialized(old(table), final(table), i),
            Err(ProcError::Vm(e)) => e == VmError::OutOfMemory && (*final(table) == *old(table)
                || allocated(
                old(table),
                final(table),
                Ok(Some((old(table).next_pid - 1) as usize)),
            )),
            Err(_) => false,
        },
{
    let i: usize = match allocproc(table, heap) {
        Err(e) => {
            return Err(ProcError::Vm(e));
        },
        Ok(None) => {
            assert(false);
            return Err(ProcError::NoSlot);
        },
        Ok(Some(i)) => i,
    };
    let ghost taken = *table;
    proof {
        assert(table.slot_wf(i as int));
    }
    let loaded = match &mut table.procs[i].pagetable {
        Some(space) => uvminit(space, heap, &INITCODE),
        None => Err(VmError::OutOfMemory),
    };
    match loaded {
        Err(e) => {
            proof {
                assert forall|k: int| 0 <= k < NPROC implies #[trigger] table.slot_wf(k) by {
                    assert(taken.slot_wf(k));
                }
                assert(allocated(old(table), table, Ok(Some(i))));
            }
            return Err(ProcError::Vm(e));
        },
        Ok(()) => {},
    }
    proof {
        assert forall|k: int| 0 <= k < NPROC implies #[trigger] table.slot_wf(k) by {
            assert(taken.slot_wf(k));
        }
    }
    make_first(table, i);
    proof {
        let p = table.procs@[i as int];
        assert(p.pagetable.unwrap().frames().len() == 1);
        assert(p.pagetable.unwrap().frames()[0] == p.pagetable.unwrap().frames().last());
    }
    Ok(i)
}

/// A run of successful allocations from a table fresh from `procinit`:
/// `tables[k + 1]` is what the call that returned `slots[k]` made of
/// `tables[k]`.
pub open spec fn allocation_run(tables: Seq<ProcTable>, slots: Seq<usize>) -> bool {
    &&& tables.len() == slots.len() + 1
    &&& tables[0].wf()
    &&& tables[0].next_pid == 1
    &&& forall|k: int|
        0 <= k < slots.len() ==> (#[trigger] tables[k + 1]).wf() && allocated(
            &tables[k],
            &tables[k + 1],
            Ok(Some(slots[k])),
        )
}

/// Process ids count the allocations.  In a run of successful calls of
/// `allocproc` from a fresh table, call number `k` (from 0) takes slot `k`
/// and gives it the process id `k + 1`; so the ids are 1, 2, 3 and so on in
/// the order of the calls, and no id is given twice.
pub proof fn law_pids_in_call_order(tables: Seq<ProcTable>, slots: Seq<usize>, k: int)
    requires
        allocation_run(tables, slots),
        0 <= k < slots.len(),
    ensures
        tables[k].next_pid == k + 1,
        slots[k] == k,
        k < NPROC,
        tables[k + 1].procs@[k].pid == k + 1,
        tables[k + 1].next_pid == k + 2,
    decreases k,
{
    if k > 0 {
        law_pids_in_call_order(tables, slots, k - 1);
    }
    assert(tables[k + 1].wf());
    let before = tables[k];
    let i = slots[k] as int;
    assert(before.wf()) by {
        if k > 0 {
            assert(tables[(k - 1) + 1].wf());
        }
    }
    assert(before.slot_wf(i));
    if i > 0 {
        assert(before.slot_wf(i - 1));
    }
}

/// The table runs out.  After `NPROC` successful calls of `allocproc` from
/// a fresh table, the next call finds no slot and changes nothing.
pub proof fn law_table_exhaustion(
    tables: Seq<ProcTable>,
    slots: Seq<usize>,
    after: &ProcTable,
    r: Result<Option<usize>, VmError>,
)
    requires
        allocation_run(tables, slots),
        slots.len() == NPROC,
        allocated(&tables[NPROC as int], after, r),
    ensures
        r == Ok::<Option<usize>, VmError>(None),
        *after == tables[NPROC as int],
{
    law_pids_in_call_order(tables, slots, NPROC - 1);
    let full = tables[NPROC as int];
    assert(tables[(NPROC - 1) + 1].wf());
    assert(full.next_pid == NPROC + 1);
    match r {
        Ok(Some(i)) => {
            assert(full.slot_wf(i as int));
        },
        Ok(None) => {},
        Err(e) => {
            let j = choose|j: int|
                0 <= j < NPROC && (#[trigger] full.procs@[j]).state == ProcessState::UNUSED;
            assert(full.slot_wf(j));
        },
    }
}

/// The two fixed pages.  In every slot in use, the address space maps the
/// trampoline page at `TRAMPOLINE` and the slot's own trapframe page at
/// `TRAPFRAME`, which is the page just below.
pub proof fn law_fixed_pages(table: &ProcTable, i: int)
    requires
        table.wf(),
        0 <= i < NPROC,
        table.procs@[i].state != ProcessState::UNUSED,
    ensures
        TRAPFRAME == TRAMPOLINE - PGSIZE,
        table.procs@[i].pagetable is Some,
        table.procs@[i].trapframe is Some,
        table.procs@[i].pagetable.unwrap().lookup(TRAMPOLINE) == Some(
            leaf_pte(table.image.trampoline, PTE_R | PTE_X),
        ),
        table.procs@[i].pagetable.unwrap().lookup(TRAPFRAME) == Some(
            leaf_pte(table.procs@[i].trapframe.unwrap().pa, PTE_R | PTE_W),
        ),
{
    assert(table.slot_wf(i));
}

} // verus!
