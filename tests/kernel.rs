use rv_rtos::cause::INTERRUPT_FLAG;
use rv_rtos::frame::{Registers, TrapFrame, FRAME_BYTES, OFF_MCAUSE, OFF_MEPC};
use rv_rtos::task::{
    build_initial_frame, ticks, Fault, Kernel, TaskState, TrapAction, MAX_TASKS, TASK_STACK_BYTES,
};

const ARENA: usize = 0x8020_0000;

fn kernel_with(n: usize) -> Kernel {
    let mut k = Kernel::new(ARENA, ARENA + 0x4000);
    for i in 0..n {
        let (id, _) = k.create_task(0x8000_1000 + 0x100 * i, 1);
        assert_eq!(id, i);
    }
    k
}

fn frame_with_cause(cause: usize, pc: usize) -> TrapFrame {
    let mut f = TrapFrame { words: [0; 20] };
    f.words[OFF_MCAUSE] = cause;
    f.words[OFF_MEPC] = pc;
    f
}

fn timer_frame() -> TrapFrame {
    frame_with_cause(INTERRUPT_FLAG | 7, 0x8000_2000)
}

#[test]
fn create_task_builds_initial_frame_and_stack() {
    let mut k = Kernel::new(ARENA, ARENA + 0x4000);
    let (id, frame) = k.create_task(0x8000_1234, 3);
    assert_eq!(id, 0);
    assert_eq!(k.num_tasks(), 1);
    let t = k.task(0).unwrap();
    assert_eq!(t.stack_lo, ARENA);
    assert_eq!(t.stack_hi, ARENA + TASK_STACK_BYTES);
    assert_eq!(t.sp, ((ARENA + TASK_STACK_BYTES) & !0xF) - 160);
    assert_eq!(t.sp % 16, 0);
    assert_eq!(t.state, TaskState::Ready);
    assert_eq!(t.priority, 3);
    assert_eq!(t.entry, 0x8000_1234);
    for (i, w) in frame.words.iter().enumerate() {
        if i == OFF_MEPC {
            assert_eq!(*w, 0x8000_1234);
        } else {
            assert_eq!(*w, 0);
        }
    }
    let (id1, _) = k.create_task(0x8000_5678, 1);
    assert_eq!(id1, 1);
    let t1 = k.task(1).unwrap();
    assert_eq!(t1.stack_lo, ARENA + TASK_STACK_BYTES);
    assert_eq!(t1.stack_hi, ARENA + 2 * TASK_STACK_BYTES);
}

#[test]
fn initial_frame_aligns_unaligned_top() {
    let (sp, f) = build_initial_frame(0x1007, 0x42);
    assert_eq!(sp, 0x1000 - FRAME_BYTES);
    assert_eq!(f.words[OFF_MEPC], 0x42);
}

#[test]
fn stack_pointers_stay_within_stacks() {
    let mut k = kernel_with(MAX_TASKS);
    for i in 0..MAX_TASKS {
        let t = k.task(i).unwrap();
        assert!(t.stack_lo <= t.sp && t.sp <= t.stack_hi - FRAME_BYTES);
    }
    let sp0 = k.start_first_task().unwrap();
    let mut sp = sp0 - 64;
    for _ in 0..10 {
        let mut f = timer_frame();
        match k.trap_handler(sp, &mut f) {
            TrapAction::Resume { sp: next, .. } => sp = next - 32,
            other => panic!("unexpected {:?}", other),
        }
        for i in 0..MAX_TASKS {
            let t = k.task(i).unwrap();
            assert!(t.stack_lo <= t.sp && t.sp <= t.stack_hi - FRAME_BYTES);
        }
    }
}

#[test]
fn start_first_task_picks_slot_zero() {
    let mut k = kernel_with(3);
    let sp = k.start_first_task().unwrap();
    assert_eq!(k.current(), 0);
    assert_eq!(sp, k.task(0).unwrap().sp);
    assert_eq!(k.task(0).unwrap().state, TaskState::Running);
    assert_eq!(k.task(1).unwrap().state, TaskState::Ready);
}

#[test]
fn start_first_task_without_tasks() {
    let mut k = Kernel::new(ARENA, ARENA + 0x4000);
    assert_eq!(k.start_first_task(), None);
}

#[test]
fn two_tasks_alternate_at_each_tick() {
    let mut k = kernel_with(2);
    let sp_a = k.task(0).unwrap().sp;
    let sp_b = k.task(1).unwrap().sp;
    let mut sp = k.start_first_task().unwrap();
    assert_eq!(sp, sp_a);
    let mut runs = [0usize; 2];
    for i in 0..1000 {
        let mut f = timer_frame();
        match k.trap_handler(sp, &mut f) {
            TrapAction::Resume { sp: next, rearm_timer } => {
                assert!(rearm_timer);
                sp = next;
            }
            other => panic!("unexpected {:?}", other),
        }
        let expect = if i % 2 == 0 { sp_b } else { sp_a };
        assert_eq!(sp, expect);
        runs[k.current()] += 1;
    }
    assert_eq!(runs, [500, 500]);
    assert_eq!(ticks(&k), 1000);
}

#[test]
fn window_of_n_ticks_runs_each_task_once() {
    for n in 1..=MAX_TASKS {
        let mut k = kernel_with(n);
        let mut sp = k.start_first_task().unwrap();
        for _ in 0..n {
            let mut seen = [false; MAX_TASKS];
            for _ in 0..n {
                let mut f = timer_frame();
                if let TrapAction::Resume { sp: next, .. } = k.trap_handler(sp, &mut f) {
                    sp = next;
                }
                assert!(!seen[k.current()]);
                seen[k.current()] = true;
            }
            for s in seen.iter().take(n) {
                assert!(*s);
            }
        }
    }
}

#[test]
fn schedule_saves_incoming_sp() {
    let mut k = kernel_with(2);
    k.start_first_task();
    let next = k.schedule(0x8020_0F00);
    assert_eq!(k.task(0).unwrap().sp, 0x8020_0F00);
    assert_eq!(k.task(0).unwrap().state, TaskState::Ready);
    assert_eq!(k.task(1).unwrap().state, TaskState::Running);
    assert_eq!(next, k.task(1).unwrap().sp);
}

#[test]
fn single_task_is_reselected() {
    let mut k = kernel_with(1);
    k.start_first_task();
    let next = k.schedule(0x1234);
    assert_eq!(next, 0x1234);
    assert_eq!(k.current(), 0);
    assert_eq!(k.task(0).unwrap().state, TaskState::Running);
}

#[test]
fn next_ready_wraps_and_skips_empty_slots() {
    let k = kernel_with(2);
    assert_eq!(k.next_ready(0), 1);
    assert_eq!(k.next_ready(1), 0);
    assert_eq!(k.next_ready(3), 0);
    let empty = Kernel::new(ARENA, ARENA + 0x4000);
    assert_eq!(empty.next_ready(2), 2);
}

#[test]
fn timer_ticks_are_counted_exactly() {
    let mut k = kernel_with(2);
    let mut sp = k.start_first_task().unwrap();
    let before = ticks(&k);
    for i in 0..37 {
        let mut f = if i % 3 == 0 {
            frame_with_cause(11, 0x100)
        } else {
            timer_frame()
        };
        if let TrapAction::Resume { sp: next, .. } = k.trap_handler(sp, &mut f) {
            sp = next;
        }
    }
    assert_eq!(ticks(&k) - before, 24);
}

#[test]
fn ecall_advances_pc_and_yields() {
    let mut k = kernel_with(2);
    let sp = k.start_first_task().unwrap();
    let mut f = frame_with_cause(11, 0x8000_0100);
    let action = k.trap_handler(sp, &mut f);
    assert_eq!(f.words[OFF_MEPC], 0x8000_0104);
    assert_eq!(
        action,
        TrapAction::Resume { sp: k.task(1).unwrap().sp, rearm_timer: false }
    );
    assert_eq!(ticks(&k), 0);
    assert_eq!(k.task(0).unwrap().sp, sp);
}

#[test]
fn repeated_yields_keep_advancing() {
    let mut k = kernel_with(1);
    let mut sp = k.start_first_task().unwrap();
    let mut pc = 0x8000_0000usize;
    for _ in 0..100 {
        let mut f = frame_with_cause(11, pc);
        if let TrapAction::Resume { sp: next, .. } = k.trap_handler(sp, &mut f) {
            sp = next;
        }
        let regs = f.restore();
        assert_eq!(regs.pc, pc + 4);
        pc = regs.pc;
    }
}

#[test]
fn ecall_pc_wraps_at_top_of_address_space() {
    let mut k = kernel_with(1);
    let sp = k.start_first_task().unwrap();
    let mut f = frame_with_cause(11, usize::MAX - 1);
    k.trap_handler(sp, &mut f);
    assert_eq!(f.words[OFF_MEPC], 2);
}

#[test]
fn illegal_instruction_is_fatal() {
    let mut k = kernel_with(1);
    let sp = k.start_first_task().unwrap();
    let mut f = frame_with_cause(2, 0x8000_0040);
    let action = k.trap_handler(sp, &mut f);
    assert_eq!(action, TrapAction::Fatal(Fault::IllegalInstruction));
    assert_eq!(Fault::IllegalInstruction.message(), "Illegal instruction trapped");
    assert_eq!(f.words[OFF_MEPC], 0x8000_0040);
    assert_eq!(k.task(0).unwrap().sp, sp);
}

#[test]
fn access_faults_are_fatal() {
    let mut k = kernel_with(1);
    let sp = k.start_first_task().unwrap();
    for code in [5usize, 7] {
        let mut f = frame_with_cause(code, 0);
        let action = k.trap_handler(sp, &mut f);
        assert_eq!(action, TrapAction::Fatal(Fault::MemoryAccess(code)));
    }
    assert_eq!(Fault::MemoryAccess(5).message(), "Memory access fault");
}

#[test]
fn other_exceptions_and_interrupts_are_fatal() {
    let mut k = kernel_with(1);
    let sp = k.start_first_task().unwrap();
    let mut f = frame_with_cause(3, 0);
    assert_eq!(k.trap_handler(sp, &mut f), TrapAction::Fatal(Fault::UnexpectedException(3)));
    let mut g = frame_with_cause(INTERRUPT_FLAG | 3, 0);
    assert_eq!(k.trap_handler(sp, &mut g), TrapAction::Fatal(Fault::UnexpectedInterrupt(3)));
    assert_eq!(Fault::UnexpectedException(3).message(), "Generic Exception");
    assert_eq!(Fault::UnexpectedInterrupt(3).message(), "Generic Interrupt");
}

#[test]
fn external_interrupt_resumes_unless_woken() {
    let mut k = kernel_with(2);
    let sp = k.start_first_task().unwrap();
    let mut f = frame_with_cause(INTERRUPT_FLAG | 11, 0);
    assert_eq!(k.trap_handler(sp, &mut f), TrapAction::External);
    assert_eq!(k.finish_external(sp, false), sp);
    assert_eq!(k.current(), 0);
    let next = k.finish_external(sp, true);
    assert_eq!(k.current(), 1);
    assert_eq!(next, k.task(1).unwrap().sp);
}

#[test]
fn arena_size_is_reported() {
    let k = Kernel::new(0x8040_0000, 0x8040_4000);
    assert_eq!(k.arena_size(), 0x4000);
}

#[test]
fn frame_round_trip_restores_registers() {
    let mut gpr = [0usize; 16];
    for (i, r) in gpr.iter_mut().enumerate() {
        *r = 0x1111 * (i + 1);
    }
    let regs = Registers { gpr, pc: 0x8000_0abc };
    let f = TrapFrame::save(&regs, 11, 0xdead);
    assert_eq!(f.words[16], 0x8000_0abc);
    assert_eq!(f.words[17], 11);
    assert_eq!(f.words[18], 0xdead);
    assert_eq!(f.words[19], 0);
    assert_eq!(f.words[4], 0x5555);
    assert_eq!(f.mepc(), 0x8000_0abc);
    assert_eq!(f.mcause(), 11);
    assert_eq!(f.mtval(), 0xdead);
    assert_eq!(f.restore(), regs);
}
