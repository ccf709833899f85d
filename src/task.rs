//! The task table, round-robin scheduler, tick counter and trap dispatch.
//!
//! Stack pointers and entry points are machine addresses held as `usize`.
//! The kernel never touches memory itself: where a trap frame must be
//! written (a new task's initial frame, the advanced program counter of a
//! yield) the frame is handed back to the caller, which stores it.

use vstd::prelude::*;
use crate::cause::{
    cause_of, decode_cause, TrapCause, EXC_ECALL_M, EXC_ILLEGAL_INSTRUCTION,
    EXC_LOAD_ACCESS_FAULT, EXC_STORE_ACCESS_FAULT, IRQ_MACHINE_EXTERNAL, IRQ_MACHINE_TIMER,
};
use crate::frame::{restored_gpr, restored_pc, TrapFrame, FRAME_BYTES, FRAME_WORDS, OFF_MCAUSE, OFF_MEPC};

verus! {

/// Number of task slots.
pub const MAX_TASKS: usize = 4;

/// Bytes of stack owned by each task slot.
pub const TASK_STACK_BYTES: usize = 4096;

/// Scheduling state of a task.
#[derive(Clone, Copy, PartialEq, Eq, Structural, Debug)]
pub enum TaskState {
    Ready,
    Running,
    Blocked,
}

/// Task control block.
#[derive(Clone, Copy, PartialEq, Eq, Structural, Debug)]
pub struct Tcb {
    /// Saved stack pointer: the address of the task's latest trap frame.
    pub sp: usize,
    /// Address of the task's entry function.
    pub entry: usize,
    pub state: TaskState,
    /// Recorded but not consulted by the round-robin scheduler.
    pub priority: u8,
    /// Lowest address of the task's stack slice.
    pub stack_lo: usize,
    /// One past the highest address of the task's stack slice.
    pub stack_hi: usize,
}

/// The kernel's scheduling state: the task table, the running slot, the tick
/// counter and the stack arena `[arena_start, arena_end)`.
pub struct Kernel {
    tasks: [Option<Tcb>; MAX_TASKS],
    num_tasks: usize,
    current: usize,
    ticks: u64,
    arena_start: usize,
    arena_end: usize,
}

/// Abstract state of a [`Kernel`].
pub ghost struct KernelView {
    pub tasks: Seq<Option<Tcb>>,
    pub num_tasks: nat,
    pub current: nat,
    pub ticks: u64,
    pub arena_start: nat,
    pub arena_end: nat,
}

impl View for Kernel {
    type V = KernelView;

    closed spec fn view(&self) -> KernelView {
        KernelView {
            tasks: self.tasks@,
            num_tasks: self.num_tasks as nat,
            current: self.current as nat,
            ticks: self.ticks,
            arena_start: self.arena_start as nat,
            arena_end: self.arena_end as nat,
        }
    }
}

/// Slot holds a task that may be picked.
pub open spec fn is_ready(t: Option<Tcb>) -> bool {
    t matches Some(tcb) && tcb.state == TaskState::Ready
}

/// Slot holds the running task.
pub open spec fn is_running(t: Option<Tcb>) -> bool {
    t matches Some(tcb) && tcb.state == TaskState::Running
}

/// The first Ready slot among `(from + k) % MAX_TASKS, ..., (from + MAX_TASKS) % MAX_TASKS`,
/// or `from` if there is none.
pub open spec fn scan_ready(tasks: Seq<Option<Tcb>>, from: nat, k: nat) -> nat
    decreases MAX_TASKS + 1 - k,
{
    if k > MAX_TASKS {
        from
    } else if is_ready(tasks[((from + k) % MAX_TASKS as nat) as int]) {
        (from + k) % MAX_TASKS as nat
    } else {
        scan_ready(tasks, from, k + 1)
    }
}

/// Round-robin choice after slot `from`: the first Ready slot strictly after
/// it in circular order (`from` itself last), or `from` if none is Ready.
pub open spec fn next_ready_of(tasks: Seq<Option<Tcb>>, from: nat) -> nat {
    scan_ready(tasks, from, 1)
}

proof fn lemma_scan_in_range(tasks: Seq<Option<Tcb>>, from: nat, k: nat)
    requires
        from < MAX_TASKS,
    ensures
        scan_ready(tasks, from, k) < MAX_TASKS,
    decreases MAX_TASKS + 1 - k,
{
    if k <= MAX_TASKS && !is_ready(tasks[((from + k) % MAX_TASKS as nat) as int]) {
        lemma_scan_in_range(tasks, from, k + 1);
    }
}

/// The first Ready slot at index `i` or later.
pub open spec fn first_ready_from(tasks: Seq<Option<Tcb>>, i: nat) -> Option<nat>
    decreases MAX_TASKS - i,
{
    if i >= MAX_TASKS {
        None
    } else if is_ready(tasks[i as int]) {
        Some(i)
    } else {
        first_ready_from(tasks, i + 1)
    }
}

pub open spec fn with_state(t: Tcb, s: TaskState) -> Tcb {
    Tcb { state: s, ..t }
}

/// The table after the running task is suspended with stack pointer `sp`:
/// its `sp` is recorded and, if it was Running, it becomes Ready.
pub open spec fn suspend_current(k: KernelView, sp: usize) -> Seq<Option<Tcb>> {
    match k.tasks[k.current as int] {
        Some(t) => k.tasks.update(
            k.current as int,
            Some(
                Tcb {
                    sp,
                    state: if t.state == TaskState::Running {
                        TaskState::Ready
                    } else {
                        t.state
                    },
                    ..t
                },
            ),
        ),
        None => k.tasks,
    }
}

/// One scheduling step with incoming stack pointer `sp`: the new state and the
/// stack pointer to resume.
pub open spec fn schedule_of(k: KernelView, sp: usize) -> (KernelView, usize) {
    let tasks = suspend_current(k, sp);
    let next = next_ready_of(tasks, k.current);
    match tasks[next as int] {
        Some(t) => (
            KernelView {
                tasks: tasks.update(next as int, Some(with_state(t, TaskState::Running))),
                current: next,
                ..k
            },
            t.sp,
        ),
        None => (KernelView { tasks, current: next, ..k }, sp),
    }
}

/// Lowest address of slot `id`'s stack.
pub open spec fn slot_stack_lo(k: KernelView, id: nat) -> nat {
    k.arena_start + id * (TASK_STACK_BYTES as nat)
}

/// `x` rounded down to a multiple of 16.
pub open spec fn align_down_16(x: nat) -> nat {
    (x - x % 16) as nat
}

/// Initial stack pointer of a task whose stack ends at `hi`: room for one
/// frame below the 16-byte-aligned top.
pub open spec fn initial_sp_of(hi: nat) -> nat {
    (align_down_16(hi) - FRAME_BYTES) as nat
}

/// The frame a new task starts from: all zero but the resume address.
pub open spec fn initial_frame_of(entry: usize) -> Seq<usize> {
    Seq::new(FRAME_WORDS as nat, |i: int| 0usize).update(OFF_MEPC as int, entry)
}

/// The state after creating a task with entry `entry` and priority `priority`.
pub open spec fn create_of(k: KernelView, entry: usize, priority: u8) -> KernelView {
    let id = k.num_tasks;
    let lo = slot_stack_lo(k, id);
    let hi = lo + (TASK_STACK_BYTES as nat);
    KernelView {
        tasks: k.tasks.update(
            id as int,
            Some(
                Tcb {
                    sp: initial_sp_of(hi) as usize,
                    entry,
                    state: TaskState::Ready,
                    priority,
                    stack_lo: lo as usize,
                    stack_hi: hi as usize,
                },
            ),
        ),
        num_tasks: id + 1,
        ..k
    }
}

/// The tick counter after one more tick, wrapping at 2^64.
pub open spec fn tick_after(t: u64) -> u64 {
    ((t + 1) % 0x1_0000_0000_0000_0000) as u64
}

/// The resume address after an ECALL at `pc`: the next instruction, 4 bytes
/// on, wrapping at the top of the address space.
pub open spec fn pc_after_ecall(pc: usize) -> usize {
    if pc + 4 > usize::MAX {
        (pc + 4 - (usize::MAX + 1)) as usize
    } else {
        (pc + 4) as usize
    }
}

/// Why a trap is fatal.
#[derive(Clone, Copy, PartialEq, Eq, Structural, Debug)]
pub enum Fault {
    IllegalInstruction,
    /// A load or store access fault, with its exception code.
    MemoryAccess(usize),
    UnexpectedException(usize),
    UnexpectedInterrupt(usize),
}

/// What the trap entry does after the handler.
#[derive(Clone, Copy, PartialEq, Eq, Structural, Debug)]
pub enum TrapAction {
    /// Restore the frame at `sp`; if `rearm_timer`, first program the
    /// next timer compare.
    Resume { sp: usize, rearm_timer: bool },
    /// A machine external interrupt: run the interrupt-controller hook, then
    /// pass its answer to [`Kernel::finish_external`].
    External,
    /// Hand off to the fatal path.
    Fatal(Fault),
}

/// What handling a trap does: the new kernel state, the new frame words and
/// the action for the trap entry, for a trap taken with stack pointer `sp`
/// and frame words `f`.
pub open spec fn trap_of(k: KernelView, sp: usize, f: Seq<usize>) -> (KernelView, Seq<usize>, TrapAction) {
    match cause_of(f[OFF_MCAUSE as int]) {
        TrapCause::Interrupt(code) => {
            if code == IRQ_MACHINE_TIMER {
                let k1 = KernelView { ticks: tick_after(k.ticks), ..k };
                let (k2, next) = schedule_of(k1, sp);
                (k2, f, TrapAction::Resume { sp: next, rearm_timer: true })
            } else if code == IRQ_MACHINE_EXTERNAL {
                (k, f, TrapAction::External)
            } else {
                (k, f, TrapAction::Fatal(Fault::UnexpectedInterrupt(code)))
            }
        },
        TrapCause::Exception(code) => {
            if code == EXC_ECALL_M {
                let f1 = f.update(OFF_MEPC as int, pc_after_ecall(f[OFF_MEPC as int]));
                let (k2, next) = schedule_of(k, sp);
                (k2, f1, TrapAction::Resume { sp: next, rearm_timer: false })
            } else if code == EXC_ILLEGAL_INSTRUCTION {
                (k, f, TrapAction::Fatal(Fault::IllegalInstruction))
            } else if code == EXC_LOAD_ACCESS_FAULT || code == EXC_STORE_ACCESS_FAULT {
                (k, f, TrapAction::Fatal(Fault::MemoryAccess(code)))
            } else {
                (k, f, TrapAction::Fatal(Fault::UnexpectedException(code)))
            }
        },
    }
}

impl Fault {
    /// The message the fatal path reports.
    pub fn message(&self) -> (r: &'static str)
        ensures
            r@ == match *self {
                Fault::IllegalInstruction => "Illegal instruction trapped"@,
                Fault::MemoryAccess(_) => "Memory access fault"@,
                Fault::UnexpectedException(_) => "Generic Exception"@,
                Fault::UnexpectedInterrupt(_) => "Generic Interrupt"@,
            },
    {
        match *self {
            Fault::IllegalInstruction => "Illegal instruction trapped",
            Fault::MemoryAccess(_) => "Memory access fault",
            Fault::UnexpectedException(_) => "Generic Exception",
            Fault::UnexpectedInterrupt(_) => "Generic Interrupt",
        }
    }
}

impl KernelView {
    /// Well-formedness: slots are filled in order, the running slot is in
    /// range, only it may be Running, and the arena is a valid range.
    pub open spec fn wf(self) -> bool {
        &&& self.tasks.len() == MAX_TASKS
        &&& self.num_tasks <= MAX_TASKS
        &&& self.current < MAX_TASKS
        &&& self.arena_start <= self.arena_end <= usize::MAX
        &&& forall|i: int| 0 <= i < MAX_TASKS ==> (#[trigger] self.tasks[i] is Some <==> i < self.num_tasks)
        &&& forall|i: int| 0 <= i < MAX_TASKS && #[trigger] is_running(self.tasks[i]) ==> i == self.current
    }
}

impl Kernel {
    pub open spec fn wf(&self) -> bool {
        self@.wf()
    }

    /// An empty kernel over the stack arena `[arena_start, arena_end)`.
    pub fn new(arena_start: usize, arena_end: usize) -> (k: Kernel)
        requires
            arena_start <= arena_end,
        ensures
            k.wf(),
            k@.num_tasks == 0,
            k@.current == 0,
            k@.ticks == 0,
            k@.arena_start == arena_start,
            k@.arena_end == arena_end,
    {
        Kernel { tasks: [None; MAX_TASKS], num_tasks: 0, current: 0, ticks: 0, arena_start, arena_end }
    }

    /// Number of tasks created.
    pub fn num_tasks(&self) -> (r: usize)
        ensures
            r == self@.num_tasks,
    {
        self.num_tasks
    }

    /// Slot of the running task.
    pub fn current(&self) -> (r: usize)
        ensures
            r == self@.current,
    {
        self.current
    }

    /// The control block in slot `id`, if any.
    pub fn task(&self, id: usize) -> (r: Option<Tcb>)
        requires
            id < MAX_TASKS,
        ensures
            r == self@.tasks[id as int],
    {
        self.tasks[id]
    }

    /// Size of the stack arena in bytes.
    pub fn arena_size(&self) -> (r: usize)
        requires
            self.wf(),
        ensures
            r == self@.arena_end - self@.arena_start,
    {
        self.arena_end - self.arena_start
    }

    /// Round-robin choice after slot `from`: scans `from + 1, ..., from +
    /// MAX_TASKS` (mod `MAX_TASKS`) for the first Ready task; `from` if none.
    pub fn next_ready(&self, from: usize) -> (r: usize)
        requires
            self.wf(),
            from < MAX_TASKS,
        ensures
            r == next_ready_of(self@.tasks, from as nat),
            r < MAX_TASKS,
    {
        proof {
            lemma_scan_in_range(self@.tasks, from as nat, 1);
        }
        let mut i: usize = 1;
        while i <= MAX_TASKS
            invariant
                1 <= i <= MAX_TASKS + 1,
                from < MAX_TASKS,
                self.wf(),
                next_ready_of(self@.tasks, from as nat) == scan_ready(self@.tasks, from as nat, i as nat),
            decreases MAX_TASKS + 1 - i,
        {
            let idx = (from + i) % MAX_TASKS;
            if let Some(t) = self.tasks[idx] {
                if t.state == TaskState::Ready {
                    return idx;
                }
            }
            i = i + 1;
        }
        from
    }

    /// Suspends the running task with stack pointer `current_sp` and picks the
    /// next one round-robin; returns the stack pointer to resume.
    pub fn schedule(&mut self, current_sp: usize) -> (r: usize)
        requires
            old(self).wf(),
        ensures
            final(self).wf(),
            (final(self)@, r) == schedule_of(old(self)@, current_sp),
    {
        let cur = self.current;
        if let Some(t) = self.tasks[cur] {
            let state = if t.state == TaskState::Running {
                TaskState::Ready
            } else {
                t.state
            };
            self.tasks[cur] = Some(Tcb { sp: current_sp, state, ..t });
        }
        assert(self@.tasks == suspend_current(old(self)@, current_sp));
        let next = self.next_ready(cur);
        self.current = next;
        if let Some(t) = self.tasks[next] {
            self.tasks[next] = Some(Tcb { state: TaskState::Running, ..t });
            t.sp
        } else {
            current_sp
        }
    }

    /// The stack slice `[lo, hi)` of slot `id`.
    pub fn carve_task_stack(&self, id: usize) -> (r: (usize, usize))
        requires
            self.wf(),
            id < MAX_TASKS,
            self@.arena_end - self@.arena_start >= MAX_TASKS * TASK_STACK_BYTES,
        ensures
            r.0 == slot_stack_lo(self@, id as nat),
            r.1 == r.0 + TASK_STACK_BYTES,
    {
        let lo = self.arena_start + id * TASK_STACK_BYTES;
        (lo, lo + TASK_STACK_BYTES)
    }

    /// Creates a task in the next free slot: carves its stack, builds its
    /// initial frame and records it Ready. Returns the slot and the frame,
    /// which the caller stores at the new task's `sp`.
    pub fn create_task(&mut self, entry: usize, priority: u8) -> (r: (usize, TrapFrame))
        requires
            old(self).wf(),
            old(self)@.num_tasks < MAX_TASKS,
            old(self)@.arena_end - old(self)@.arena_start >= MAX_TASKS * TASK_STACK_BYTES,
        ensures
            final(self).wf(),
            final(self)@ == create_of(old(self)@, entry, priority),
            r.0 == old(self)@.num_tasks,
            r.1.words@ == initial_frame_of(entry),
    {
        let id = self.num_tasks;
        let (lo, hi) = self.carve_task_stack(id);
        let (sp, frame) = build_initial_frame(hi, entry);
        self.tasks[id] = Some(
            Tcb { sp, entry, state: TaskState::Ready, priority, stack_lo: lo, stack_hi: hi },
        );
        self.num_tasks = id + 1;
        (id, frame)
    }

    /// Picks the first Ready task from slot 0 and marks it Running; returns
    /// its stack pointer, or `None` if no task is Ready.
    pub fn start_first_task(&mut self) -> (r: Option<usize>)
        requires
            old(self).wf(),
            forall|i: int| 0 <= i < MAX_TASKS ==> !is_running(#[trigger] old(self)@.tasks[i]),
        ensures
            final(self).wf(),
            match first_ready_from(old(self)@.tasks, 0) {
                Some(i) => {
                    &&& final(self)@ == KernelView {
                        tasks: old(self)@.tasks.update(
                            i as int,
                            Some(with_state(old(self)@.tasks[i as int]->Some_0, TaskState::Running)),
                        ),
                        current: i,
                        ..old(self)@
                    }
                    &&& r == Some(old(self)@.tasks[i as int]->Some_0.sp)
                },
                None => final(self)@ == old(self)@ && r is None,
            },
    {
        let mut i: usize = 0;
        while i < MAX_TASKS
            invariant
                i <= MAX_TASKS,
                self@ == old(self)@,
                self.wf(),
                forall|j: int| 0 <= j < MAX_TASKS ==> !is_running(#[trigger] self@.tasks[j]),
                first_ready_from(self@.tasks, 0) == first_ready_from(self@.tasks, i as nat),
            decreases MAX_TASKS - i,
        {
            if let Some(t) = self.tasks[i] {
                if t.state == TaskState::Ready {
                    self.current = i;
                    self.tasks[i] = Some(Tcb { state: TaskState::Running, ..t });
                    assert forall|j: int| 0 <= j < MAX_TASKS && #[trigger] is_running(self@.tasks[j]) implies j == self@.current by {
                        if j != i {
                            assert(self@.tasks[j] == old(self)@.tasks[j]);
                            assert(!is_running(old(self)@.tasks[j]));
                        }
                    }
                    return Some(t.sp);
                }
            }
            i = i + 1;
        }
        None
    }

    /// Counts one timer tick (wrapping at 2^64).
    pub fn rtos_on_timer_tick(&mut self)
        requires
            old(self).wf(),
        ensures
            final(self).wf(),
            final(self)@ == (KernelView { ticks: tick_after(old(self)@.ticks), ..old(self)@ }),
    {
        self.ticks = self.ticks.wrapping_add(1);
    }

    /// Handles a trap taken with stack pointer `sp` and saved frame `frame`:
    /// a timer interrupt counts a tick and reschedules; an ECALL advances the
    /// saved program counter past the ECALL and reschedules; an external
    /// interrupt is handed to the interrupt-controller hook; anything else is
    /// fatal.
    pub fn trap_handler(&mut self, sp: usize, frame: &mut TrapFrame) -> (r: TrapAction)
        requires
            old(self).wf(),
        ensures
            final(self).wf(),
            (final(self)@, final(frame).words@, r) == trap_of(old(self)@, sp, old(frame).words@),
    {
        match decode_cause(frame.words[OFF_MCAUSE]) {
            TrapCause::Interrupt(code) => {
                if code == IRQ_MACHINE_TIMER {
                    self.rtos_on_timer_tick();
                    let next = self.schedule(sp);
                    TrapAction::Resume { sp: next, rearm_timer: true }
                } else if code == IRQ_MACHINE_EXTERNAL {
                    TrapAction::External
                } else {
                    TrapAction::Fatal(Fault::UnexpectedInterrupt(code))
                }
            },
            TrapCause::Exception(code) => {
                if code == EXC_ECALL_M {
                    let pc = frame.words[OFF_MEPC];
                    frame.words[OFF_MEPC] = pc.wrapping_add(4);
                    let next = self.schedule(sp);
                    TrapAction::Resume { sp: next, rearm_timer: false }
                } else if code == EXC_ILLEGAL_INSTRUCTION {
                    TrapAction::Fatal(Fault::IllegalInstruction)
                } else if code == EXC_LOAD_ACCESS_FAULT || code == EXC_STORE_ACCESS_FAULT {
                    TrapAction::Fatal(Fault::MemoryAccess(code))
                } else {
                    TrapAction::Fatal(Fault::UnexpectedException(code))
                }
            },
        }
    }

    /// Completes a machine external interrupt taken with stack pointer `sp`:
    /// reschedules if the interrupt-controller hook reported a wake, else
    /// resumes the interrupted task.
    pub fn finish_external(&mut self, sp: usize, wake: bool) -> (r: usize)
        requires
            old(self).wf(),
        ensures
            final(self).wf(),
            wake ==> (final(self)@, r) == schedule_of(old(self)@, sp),
            !wake ==> final(self)@ == old(self)@ && r == sp,
    {
        if wake {
            self.schedule(sp)
        } else {
            sp
        }
    }
}

/// The tick counter.
pub fn ticks(k: &Kernel) -> (r: u64)
    ensures
        r == k@.ticks,
{
    k.ticks
}

/// Builds the initial frame of a task whose stack ends at `stack_hi`: the
/// stack pointer is the 16-byte-aligned top less one frame, and the frame is
/// zero but for the resume address `entry`.
pub fn build_initial_frame(stack_hi: usize, entry: usize) -> (r: (usize, TrapFrame))
    requires
        stack_hi >= FRAME_BYTES,
    ensures
        r.0 == initial_sp_of(stack_hi as nat),
        r.1.words@ == initial_frame_of(entry),
{
    let top = stack_hi & !0xFusize;
    assert(stack_hi & !0xFusize == stack_hi - stack_hi % 16) by (bit_vector);
    let sp = top - FRAME_BYTES;
    let mut words = [0usize; FRAME_WORDS];
    words[OFF_MEPC] = entry;
    assert(words@ =~= initial_frame_of(entry));
    (sp, TrapFrame { words })
}

} // verus!

verus! {

/// The kernel state after handling `traps` in order; each trap is the stack
/// pointer it was taken with and its saved frame words.
pub open spec fn run_traps(k: KernelView, traps: Seq<(usize, Seq<usize>)>) -> KernelView
    decreases traps.len(),
{
    if traps.len() == 0 {
        k
    } else {
        let (sp, f) = traps.last();
        trap_of(run_traps(k, traps.drop_last()), sp, f).0
    }
}

/// The frame words `f` record a machine-timer interrupt.
pub open spec fn is_timer_trap(f: Seq<usize>) -> bool {
    cause_of(f[OFF_MCAUSE as int]) == TrapCause::Interrupt(IRQ_MACHINE_TIMER)
}

/// Number of machine-timer interrupts among `traps`.
pub open spec fn timer_traps(traps: Seq<(usize, Seq<usize>)>) -> nat
    decreases traps.len(),
{
    if traps.len() == 0 {
        0
    } else {
        timer_traps(traps.drop_last()) + if is_timer_trap(traps.last().1) {
            1nat
        } else {
            0nat
        }
    }
}

/// No lost ticks: over any sequence of handled traps the tick counter grows
/// by exactly the number of timer interrupts among them (modulo 2^64).
pub proof fn lemma_ticks_count_timer_traps(k: KernelView, traps: Seq<(usize, Seq<usize>)>)
    ensures
        run_traps(k, traps).ticks == (k.ticks + timer_traps(traps)) % 0x1_0000_0000_0000_0000,
    decreases traps.len(),
{
    if traps.len() > 0 {
        lemma_ticks_count_timer_traps(k, traps.drop_last());
    }
}

/// ECALL advance: handling an ECALL stores the address of the next
/// instruction (4 bytes on) as the frame's resume address, never the ECALL's
/// own; the saved registers are unchanged, the caller's stack pointer is
/// recorded as its frame, and the trap ends in a resume.
pub proof fn lemma_ecall_advance(k: KernelView, sp: usize, f: Seq<usize>)
    requires
        k.wf(),
        f.len() == FRAME_WORDS,
        cause_of(f[OFF_MCAUSE as int]) == TrapCause::Exception(EXC_ECALL_M),
    ensures
        restored_pc(trap_of(k, sp, f).1) == pc_after_ecall(restored_pc(f)),
        restored_pc(trap_of(k, sp, f).1) != restored_pc(f),
        restored_gpr(trap_of(k, sp, f).1) == restored_gpr(f),
        trap_of(k, sp, f).2 is Resume,
        k.tasks[k.current as int] is Some ==> trap_of(k, sp, f).0.tasks[k.current as int]->Some_0.sp == sp,
{
    lemma_scan_in_range(suspend_current(k, sp), k.current, 1);
    let f2 = trap_of(k, sp, f).1;
    assert(restored_gpr(f2) =~= restored_gpr(f));
}

/// A task's saved stack pointer leaves room for one frame inside its stack.
pub open spec fn sp_within_stack(t: Tcb) -> bool {
    t.stack_lo <= t.sp <= t.stack_hi - FRAME_BYTES
}

/// Every task's saved stack pointer is within its own stack.
pub open spec fn stacks_disciplined(k: KernelView) -> bool {
    forall|i: int| 0 <= i < MAX_TASKS ==> (#[trigger] k.tasks[i] matches Some(t) ==> sp_within_stack(t))
}

/// A new task starts with its stack pointer 16-byte aligned and within its
/// own stack, so creating tasks keeps every stack pointer in bounds.
pub proof fn lemma_create_keeps_stacks(k: KernelView, entry: usize, priority: u8)
    requires
        k.wf(),
        k.num_tasks < MAX_TASKS,
        k.arena_end - k.arena_start >= MAX_TASKS * TASK_STACK_BYTES,
        stacks_disciplined(k),
    ensures
        stacks_disciplined(create_of(k, entry, priority)),
        create_of(k, entry, priority).tasks[k.num_tasks as int]->Some_0.sp % 16 == 0,
{
    let k2 = create_of(k, entry, priority);
    let lo = slot_stack_lo(k, k.num_tasks);
    let hi = lo + TASK_STACK_BYTES;
    assert(hi <= k.arena_end);
    assert forall|i: int| 0 <= i < MAX_TASKS implies (#[trigger] k2.tasks[i] matches Some(t) ==> sp_within_stack(t)) by {
        if i != k.num_tasks {
            assert(k2.tasks[i] == k.tasks[i]);
        }
    }
}

/// Scheduling keeps every stack pointer in bounds when the suspended task's
/// incoming stack pointer is within its own stack.
pub proof fn lemma_schedule_keeps_stacks(k: KernelView, sp: usize)
    requires
        k.wf(),
        stacks_disciplined(k),
        k.tasks[k.current as int] matches Some(t) ==> t.stack_lo <= sp <= t.stack_hi - FRAME_BYTES,
    ensures
        stacks_disciplined(schedule_of(k, sp).0),
{
    let tasks = suspend_current(k, sp);
    let next = next_ready_of(tasks, k.current);
    lemma_scan_in_range(tasks, k.current, 1);
    assert forall|i: int| 0 <= i < MAX_TASKS implies (#[trigger] tasks[i] matches Some(t) ==> sp_within_stack(t)) by {
        if i != k.current {
            assert(tasks[i] == k.tasks[i]);
        }
    }
    let k2 = schedule_of(k, sp).0;
    assert forall|i: int| 0 <= i < MAX_TASKS implies (#[trigger] k2.tasks[i] matches Some(t) ==> sp_within_stack(t)) by {
        assert(tasks[i] matches Some(t) ==> sp_within_stack(t));
    }
}

/// Stack discipline at every scheduling point: handling any trap keeps
/// every stack pointer in bounds when the trapped task's stack pointer is
/// within its own stack.
pub proof fn lemma_trap_keeps_stacks(k: KernelView, sp: usize, f: Seq<usize>)
    requires
        k.wf(),
        stacks_disciplined(k),
        k.tasks[k.current as int] matches Some(t) ==> t.stack_lo <= sp <= t.stack_hi - FRAME_BYTES,
    ensures
        stacks_disciplined(trap_of(k, sp, f).0),
{
    let k1 = KernelView { ticks: tick_after(k.ticks), ..k };
    lemma_schedule_keeps_stacks(k, sp);
    lemma_schedule_keeps_stacks(k1, sp);
}

} // verus!

verus! {

/// Tasks occupy slots `0..num_tasks`, each Ready or Running, with at least
/// one task, and the running slot among them.
pub open spec fn all_runnable(k: KernelView) -> bool {
    &&& k.wf()
    &&& k.num_tasks >= 1
    &&& k.current < k.num_tasks
    &&& forall|i: int|
        0 <= i < k.num_tasks ==> (#[trigger] k.tasks[i] matches Some(t) && (t.state == TaskState::Ready
            || t.state == TaskState::Running))
}

proof fn lemma_mod_wrap(x: int, n: int)
    requires
        0 <= x < 2 * n,
        n > 0,
    ensures
        x % n == if x < n {
            x
        } else {
            x - n
        },
{
    if x < n {
        vstd::arithmetic::div_mod::lemma_small_mod(x as nat, n as nat);
    } else {
        vstd::arithmetic::div_mod::lemma_small_mod((x - n) as nat, n as nat);
        vstd::arithmetic::div_mod::lemma_mod_add_multiples_vanish(x - n, n);
    }
}

/// One timer tick from a state where every task is runnable picks the next
/// slot in circular order and keeps every task runnable.
proof fn lemma_timer_step(k: KernelView, sp: usize, f: Seq<usize>)
    requires
        all_runnable(k),
        is_timer_trap(f),
    ensures
        all_runnable(trap_of(k, sp, f).0),
        trap_of(k, sp, f).0.num_tasks == k.num_tasks,
        trap_of(k, sp, f).0.current as int == (k.current as int + 1) % (k.num_tasks as int),
{
    let k1 = KernelView { ticks: tick_after(k.ticks), ..k };
    let tasks = suspend_current(k1, sp);
    let n = k.num_tasks;
    let c = k.current;
    assert forall|i: int| 0 <= i < MAX_TASKS implies (#[trigger] is_ready(tasks[i]) <==> i < n) by {
        if i != c {
            assert(tasks[i] == k.tasks[i]);
            if i < n {
                assert(!is_running(k.tasks[i]));
            }
        }
    }
    reveal_with_fuel(scan_ready, 5);
    let next = next_ready_of(tasks, c);
    assert(next as int == (c as int + 1) % (n as int)) by {
        lemma_mod_wrap((c + 1) as int, n as int);
        lemma_mod_wrap((c + 1) as int, MAX_TASKS as int);
        lemma_mod_wrap((c + 2) as int, MAX_TASKS as int);
        lemma_mod_wrap((c + 3) as int, MAX_TASKS as int);
        lemma_mod_wrap((c + 4) as int, MAX_TASKS as int);
    }
    let k2 = trap_of(k, sp, f).0;
    assert forall|i: int| 0 <= i < MAX_TASKS && #[trigger] is_running(k2.tasks[i]) implies i == k2.current by {
        if i != next {
            assert(k2.tasks[i] == tasks[i]);
        }
    }
    assert forall|i: int| 0 <= i < MAX_TASKS implies (#[trigger] k2.tasks[i] is Some <==> i < k2.num_tasks) by {
        if i != next {
            assert(k2.tasks[i] == tasks[i]);
        }
    }
    assert forall|i: int|
        0 <= i < k2.num_tasks implies (#[trigger] k2.tasks[i] matches Some(t) && (t.state == TaskState::Ready
            || t.state == TaskState::Running)) by {
        if i != next {
            assert(k2.tasks[i] == tasks[i]);
            assert(is_ready(tasks[i]));
        }
    }
}

/// The running slot after the first `j` timer ticks is `j` slots on, in
/// circular order over the tasks.
proof fn lemma_timer_steps(k: KernelView, traps: Seq<(usize, Seq<usize>)>)
    requires
        all_runnable(k),
        forall|i: int| 0 <= i < traps.len() ==> is_timer_trap(#[trigger] traps[i].1),
    ensures
        all_runnable(run_traps(k, traps)),
        run_traps(k, traps).num_tasks == k.num_tasks,
        run_traps(k, traps).current as int == (k.current as int + traps.len()) % (k.num_tasks as int),
    decreases traps.len(),
{
    if traps.len() == 0 {
        vstd::arithmetic::div_mod::lemma_small_mod(k.current, k.num_tasks);
    } else {
        let prefix = traps.drop_last();
        assert forall|i: int| 0 <= i < prefix.len() implies is_timer_trap(#[trigger] prefix[i].1) by {
            assert(prefix[i] == traps[i]);
        }
        lemma_timer_steps(k, prefix);
        let kp = run_traps(k, prefix);
        assert(is_timer_trap(traps[traps.len() - 1].1));
        lemma_timer_step(kp, traps.last().0, traps.last().1);
        let n = k.num_tasks as int;
        let a = k.current as int + prefix.len();
        vstd::arithmetic::div_mod::lemma_add_mod_noop(a, 1, n);
        vstd::arithmetic::div_mod::lemma_mod_twice(a, n);
        vstd::arithmetic::div_mod::lemma_add_mod_noop(a % n, 1, n);
    }
}

/// Slot `t` is the running one after some prefix of `traps` (at least one trap).
pub open spec fn runs_within(k: KernelView, traps: Seq<(usize, Seq<usize>)>, t: int) -> bool {
    exists|j: int| 1 <= j <= traps.len() && #[trigger] run_traps(k, traps.take(j)).current as int == t
}

/// Round-robin fairness: with every task Ready or Running, any window of as
/// many consecutive timer ticks as there are tasks runs each task exactly
/// once, in circular slot order after the running one.
pub proof fn lemma_round_robin(k: KernelView, traps: Seq<(usize, Seq<usize>)>)
    requires
        all_runnable(k),
        traps.len() == k.num_tasks,
        forall|i: int| 0 <= i < traps.len() ==> is_timer_trap(#[trigger] traps[i].1),
    ensures
        forall|j: int|
            1 <= j <= traps.len() ==> #[trigger] run_traps(k, traps.take(j)).current as int == (k.current + j) % (
            k.num_tasks as int),
        forall|t: int| 0 <= t < k.num_tasks ==> #[trigger] runs_within(k, traps, t),
        forall|j1: int, j2: int|
            1 <= j1 < j2 <= traps.len() ==> #[trigger] run_traps(k, traps.take(j1)).current
                != #[trigger] run_traps(k, traps.take(j2)).current,
{
    let n = k.num_tasks as int;
    let c = k.current as int;
    assert forall|j: int| 1 <= j <= traps.len() implies #[trigger] run_traps(k, traps.take(j)).current as int == (c + j) % n by {
        let p = traps.take(j);
        assert forall|i: int| 0 <= i < p.len() implies is_timer_trap(#[trigger] p[i].1) by {
            assert(p[i] == traps[i]);
        }
        lemma_timer_steps(k, p);
    }
    assert forall|t: int| 0 <= t < n implies #[trigger] runs_within(k, traps, t) by {
        let j = if t > c {
            t - c
        } else {
            t + n - c
        };
        lemma_mod_wrap(c + j, n);
        assert(run_traps(k, traps.take(j)).current as int == (c + j) % n);
    }
    assert forall|j1: int, j2: int| 1 <= j1 < j2 <= traps.len() implies #[trigger] run_traps(k, traps.take(j1)).current
        != #[trigger] run_traps(k, traps.take(j2)).current by {
        lemma_mod_wrap(c + j1, n);
        lemma_mod_wrap(c + j2, n);
        assert(run_traps(k, traps.take(j1)).current as int == (c + j1) % n);
        assert(run_traps(k, traps.take(j2)).current as int == (c + j2) % n);
    }
}

} // verus!
