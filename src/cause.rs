//! Decoding of the trap-cause register, the names of the standard causes,
//! and the trap-vector checks made at boot.

use vstd::prelude::*;

verus! {

/// The value of the trap-cause register's top bit (bit XLEN-1): set for
/// interrupts, clear for exceptions.
pub const INTERRUPT_FLAG: usize = usize::MAX / 2 + 1;

/// Exception code: illegal instruction.
pub const EXC_ILLEGAL_INSTRUCTION: usize = 2;

/// Exception code: load access fault.
pub const EXC_LOAD_ACCESS_FAULT: usize = 5;

/// Exception code: store/AMO access fault.
pub const EXC_STORE_ACCESS_FAULT: usize = 7;

/// Exception code: environment call from machine mode.
pub const EXC_ECALL_M: usize = 11;

/// Interrupt code: machine timer.
pub const IRQ_MACHINE_TIMER: usize = 7;

/// Interrupt code: machine external.
pub const IRQ_MACHINE_EXTERNAL: usize = 11;

/// A decoded trap cause: interrupt or exception, with its code.
#[derive(Clone, Copy, PartialEq, Eq, Structural, Debug)]
pub enum TrapCause {
    Interrupt(usize),
    Exception(usize),
}

/// What the trap-cause register value `bits` means: the top bit selects
/// interrupt or exception, the remaining bits are the code.
pub open spec fn cause_of(bits: usize) -> TrapCause {
    if bits >= INTERRUPT_FLAG {
        TrapCause::Interrupt((bits - INTERRUPT_FLAG) as usize)
    } else {
        TrapCause::Exception(bits)
    }
}

/// Decodes a trap-cause register value.
pub fn decode_cause(bits: usize) -> (r: TrapCause)
    ensures
        r == cause_of(bits),
{
    if bits >= INTERRUPT_FLAG {
        TrapCause::Interrupt(bits - INTERRUPT_FLAG)
    } else {
        TrapCause::Exception(bits)
    }
}

/// Relies on riscv's `Mcause::from_bits` and `Mcause::cause`: the register
/// keeps all bits, its top bit selects interrupt or exception and the other
/// bits are the code.
#[verifier::external_body]
fn mcause_trap(bits: usize) -> (r: TrapCause)
    ensures
        r == cause_of(bits),
{
    match riscv::register::mcause::Mcause::from_bits(bits).cause() {
        riscv::interrupt::Trap::Interrupt(code) => TrapCause::Interrupt(code),
        riscv::interrupt::Trap::Exception(code) => TrapCause::Exception(code),
    }
}

/// The diagnostic name of a trap cause.
pub open spec fn cause_name_of(c: TrapCause) -> Seq<char> {
    match c {
        TrapCause::Exception(code) => {
            if code == 0 {
                "Instruction address misaligned"@
            } else if code == 1 {
                "Instruction access fault"@
            } else if code == 2 {
                "Illegal instruction"@
            } else if code == 3 {
                "Breakpoint"@
            } else if code == 4 {
                "Load address misaligned"@
            } else if code == 5 {
                "Load access fault"@
            } else if code == 6 {
                "Store/AMO address misaligned"@
            } else if code == 7 {
                "Store/AMO access fault"@
            } else if code == 8 {
                "Environment call from U-mode"@
            } else if code == 9 {
                "Environment call from S-mode"@
            } else if code == 11 {
                "Environment call from M-mode (ECALL / task_yield)"@
            } else if code == 12 {
                "Instruction page fault"@
            } else if code == 13 {
                "Load page fault"@
            } else if code == 15 {
                "Store/AMO page fault"@
            } else {
                "Other Exception"@
            }
        },
        TrapCause::Interrupt(code) => {
            if code == 3 {
                "Machine Software Interrupt"@
            } else if code == 7 {
                "Machine Timer Interrupt"@
            } else if code == 11 {
                "Machine External Interrupt (PLIC)"@
            } else {
                "Other Interrupt"@
            }
        },
    }
}

/// The diagnostic name of a trap cause, as the fatal path prints it.
pub fn cause_name(c: TrapCause) -> (r: &'static str)
    ensures
        r@ == cause_name_of(c),
{
    match c {
        TrapCause::Exception(code) => {
            if code == 0 {
                "Instruction address misaligned"
            } else if code == 1 {
                "Instruction access fault"
            } else if code == 2 {
                "Illegal instruction"
            } else if code == 3 {
                "Breakpoint"
            } else if code == 4 {
                "Load address misaligned"
            } else if code == 5 {
                "Load access fault"
            } else if code == 6 {
                "Store/AMO address misaligned"
            } else if code == 7 {
                "Store/AMO access fault"
            } else if code == 8 {
                "Environment call from U-mode"
            } else if code == 9 {
                "Environment call from S-mode"
            } else if code == 11 {
                "Environment call from M-mode (ECALL / task_yield)"
            } else if code == 12 {
                "Instruction page fault"
            } else if code == 13 {
                "Load page fault"
            } else if code == 15 {
                "Store/AMO page fault"
            } else {
                "Other Exception"
            }
        },
        TrapCause::Interrupt(code) => {
            if code == 3 {
                "Machine Software Interrupt"
            } else if code == 7 {
                "Machine Timer Interrupt"
            } else if code == 11 {
                "Machine External Interrupt (PLIC)"
            } else {
                "Other Interrupt"
            }
        },
    }
}

/// The decoded cause and its name for the fatal-path report of a raw
/// trap-cause register value.
pub fn fault_cause(bits: usize) -> (r: (TrapCause, &'static str))
    ensures
        r.0 == cause_of(bits),
        r.1@ == cause_name_of(cause_of(bits)),
{
    let c = mcause_trap(bits);
    (c, cause_name(c))
}

/// Trap-vector mode field.
#[derive(Clone, Copy, PartialEq, Eq, Structural, Debug)]
pub enum VectorMode {
    Direct,
    Vectored,
}

/// Relies on riscv's `Mtvec::try_trap_mode`: the two low bits of the register,
/// 0 for Direct, 1 for Vectored, an error otherwise.
#[verifier::external_body]
fn mtvec_mode(bits: usize) -> (r: Option<VectorMode>)
    ensures
        bits % 4 == 0 ==> r == Some(VectorMode::Direct),
        bits % 4 == 1 ==> r == Some(VectorMode::Vectored),
        bits % 4 >= 2 ==> r is None,
{
    match riscv::register::mtvec::Mtvec::from_bits(bits).try_trap_mode() {
        Ok(riscv::register::mtvec::TrapMode::Direct) => Some(VectorMode::Direct),
        Ok(riscv::register::mtvec::TrapMode::Vectored) => Some(VectorMode::Vectored),
        Err(_) => None,
    }
}

/// Relies on riscv's `Mtvec::address`: the register with its two mode bits
/// cleared.
#[verifier::external_body]
fn mtvec_address(bits: usize) -> (r: usize)
    ensures
        r == bits & !3usize,
{
    riscv::register::mtvec::Mtvec::from_bits(bits).address()
}

/// The two boot checks on the trap-vector register value read back after it
/// was written: whether it is in Direct mode, and whether its base address is
/// the trap entry's address with the two mode bits cleared.
pub fn check_trap_vector(mtvec_bits: usize, entry: usize) -> (r: (bool, bool))
    ensures
        r.0 == (mtvec_bits % 4 == 0),
        r.1 == ((mtvec_bits & !3usize) == (entry & !3usize)),
{
    let direct = match mtvec_mode(mtvec_bits) {
        Some(VectorMode::Direct) => true,
        _ => false,
    };
    let base_ok = mtvec_address(mtvec_bits) == entry & !3usize;
    (direct, base_ok)
}

} // verus!
