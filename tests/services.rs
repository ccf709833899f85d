use rv_rtos::cause::{check_trap_vector, decode_cause, fault_cause, TrapCause, INTERRUPT_FLAG};
use rv_rtos::digits::{put_dec, put_hex, Digits};
use rv_rtos::sync::{Semaphore, SpinLock};
use rv_rtos::timer::{compare_value, delay_expired, delay_ms, ms_to_ticks, TICK_INTERVAL};
use rv_rtos::task::{Kernel, MAX_TASKS, TASK_STACK_BYTES};

fn text(d: &Digits) -> String {
    let mut s = String::new();
    for i in 0..d.len() {
        s.push(d.get(i) as char);
    }
    s
}

#[test]
fn hex_digits() {
    assert_eq!(text(&put_hex(0)), "0");
    assert_eq!(text(&put_hex(0xA)), "A");
    assert_eq!(text(&put_hex(0x4000)), "4000");
    assert_eq!(text(&put_hex(0xDEAD_BEEF)), "DEADBEEF");
    assert_eq!(text(&put_hex(usize::MAX)), "FFFFFFFFFFFFFFFF");
}

#[test]
fn decimal_digits() {
    assert_eq!(text(&put_dec(0)), "0");
    assert_eq!(text(&put_dec(7)), "7");
    assert_eq!(text(&put_dec(10)), "10");
    assert_eq!(text(&put_dec(1_234_567_890)), "1234567890");
    assert_eq!(text(&put_dec(usize::MAX)), "18446744073709551615");
}

#[test]
fn boot_diagnostics() {
    let base: usize = 0x8020_0000;
    let k = Kernel::new(base, base + 0x4000);
    assert!(MAX_TASKS * TASK_STACK_BYTES <= k.arena_size());
    assert_eq!(text(&put_hex(base)), "80200000");
    assert_eq!(text(&put_hex(k.arena_size())), "4000");
    let entry: usize = 0x8000_0100;
    assert_eq!(check_trap_vector(entry, entry), (true, true));
}

#[test]
fn trap_vector_checks() {
    assert_eq!(check_trap_vector(0x8000_0101, 0x8000_0100), (false, true));
    assert_eq!(check_trap_vector(0x8000_0102, 0x8000_0100), (false, true));
    assert_eq!(check_trap_vector(0x8000_0200, 0x8000_0100), (true, false));
    assert_eq!(check_trap_vector(0x8000_0100, 0x8000_0103), (true, true));
}

#[test]
fn cause_decoding() {
    assert_eq!(decode_cause(INTERRUPT_FLAG | 7), TrapCause::Interrupt(7));
    assert_eq!(decode_cause(11), TrapCause::Exception(11));
    assert_eq!(decode_cause(usize::MAX), TrapCause::Interrupt(usize::MAX >> 1));
}

#[test]
fn fault_report_names_illegal_instruction() {
    let (cause, name) = fault_cause(2);
    assert_eq!(cause, TrapCause::Exception(2));
    assert_eq!(name, "Illegal instruction");
}

#[test]
fn fault_report_names() {
    assert_eq!(fault_cause(INTERRUPT_FLAG | 7), (TrapCause::Interrupt(7), "Machine Timer Interrupt"));
    assert_eq!(
        fault_cause(INTERRUPT_FLAG | 11),
        (TrapCause::Interrupt(11), "Machine External Interrupt (PLIC)")
    );
    assert_eq!(fault_cause(INTERRUPT_FLAG | 3), (TrapCause::Interrupt(3), "Machine Software Interrupt"));
    assert_eq!(fault_cause(INTERRUPT_FLAG | 9), (TrapCause::Interrupt(9), "Other Interrupt"));
    assert_eq!(fault_cause(5), (TrapCause::Exception(5), "Load access fault"));
    assert_eq!(fault_cause(7), (TrapCause::Exception(7), "Store/AMO access fault"));
    assert_eq!(
        fault_cause(11),
        (TrapCause::Exception(11), "Environment call from M-mode (ECALL / task_yield)")
    );
    assert_eq!(fault_cause(10), (TrapCause::Exception(10), "Other Exception"));
    assert_eq!(fault_cause(15), (TrapCause::Exception(15), "Store/AMO page fault"));
}

#[test]
fn ms_to_ticks_rounds_up() {
    assert_eq!(ms_to_ticks(0), 0);
    assert_eq!(ms_to_ticks(1), 1);
    assert_eq!(ms_to_ticks(500), 500);
}

#[test]
fn delay_deadline_and_expiry() {
    let deadline = delay_ms(100, 500);
    assert_eq!(deadline, 600);
    assert!(!delay_expired(100, deadline));
    assert!(!delay_expired(599, deadline));
    assert!(delay_expired(600, deadline));
    assert!(delay_expired(601, deadline));
}

#[test]
fn delay_survives_wrap() {
    let start = u64::MAX - 10;
    let deadline = delay_ms(start, 500);
    assert_eq!(deadline, 489);
    assert!(!delay_expired(start, deadline));
    assert!(!delay_expired(u64::MAX, deadline));
    assert!(!delay_expired(488, deadline));
    assert!(delay_expired(489, deadline));
}

#[test]
fn periodic_delay_waits_at_least_its_length() {
    let mut now: u64 = 3;
    let mut last_print = now;
    for _ in 0..5 {
        let deadline = delay_ms(now, 500);
        while !delay_expired(now, deadline) {
            now += 1;
        }
        assert!(now - last_print >= 500 && now - last_print < 600);
        last_print = now;
    }
}

#[test]
fn timer_compare_values() {
    assert_eq!(compare_value(5, TICK_INTERVAL), 10_005);
    assert_eq!(compare_value(0, 10_000), 10_000);
}

#[test]
fn semaphore_counts_tokens() {
    let mut s = Semaphore::new(0);
    assert!(!s.try_wait());
    s.post();
    assert_eq!(s.count(), 1);
    assert!(s.try_wait());
    assert_eq!(s.count(), 0);
    assert!(!s.wait());
    s.post();
    assert!(s.wait());
}

#[test]
fn semaphore_with_negative_initial() {
    let mut s = Semaphore::new(-1);
    assert!(!s.try_wait());
    s.post();
    assert!(!s.try_wait());
    s.post();
    assert!(s.try_wait());
    assert_eq!(s.count(), 0);
}

#[test]
fn producer_consumer_never_overtakes_posts() {
    let mut s = Semaphore::new(0);
    let mut posts = 0u64;
    let mut got: Vec<u64> = Vec::new();
    for tick in 0..2000u64 {
        if tick > 0 && tick % 200 == 0 {
            s.post();
            posts += 1;
        }
        if s.wait() {
            got.push(tick);
        }
        assert!(got.len() as u64 <= posts);
    }
    assert_eq!(got.len() as u64, posts);
    for w in got.windows(2) {
        assert!(w[1] >= w[0] + 200);
    }
}

#[test]
fn spinlock_excludes_second_holder() {
    let mut l = SpinLock::new(5u32);
    assert!(!l.is_locked());
    let mut g = l.lock().unwrap();
    assert!(l.is_locked());
    assert!(l.lock().is_none());
    assert_eq!(*g.get(), 5);
    g.set(9);
    l.unlock(g);
    assert!(!l.is_locked());
    let g2 = l.lock().unwrap();
    assert_eq!(*g2.get(), 9);
    l.unlock(g2);
}
