//! The 20-word trap frame that the assembly entry stores on the interrupted
//! task's stack, and the register state it carries.

use vstd::prelude::*;

verus! {

/// Number of 8-byte words in a trap frame.
pub const FRAME_WORDS: usize = 20;

/// Size of a trap frame in bytes.
pub const FRAME_BYTES: usize = 160;

/// Number of general registers saved in a frame (ra, t0-t2, a0-a7, t3-t6).
pub const SAVED_GPRS: usize = 16;

pub const OFF_RA: usize = 0;
pub const OFF_T0: usize = 1;
pub const OFF_T1: usize = 2;
pub const OFF_T2: usize = 3;
pub const OFF_A0: usize = 4;
pub const OFF_A1: usize = 5;
pub const OFF_A2: usize = 6;
pub const OFF_A3: usize = 7;
pub const OFF_A4: usize = 8;
pub const OFF_A5: usize = 9;
pub const OFF_A6: usize = 10;
pub const OFF_A7: usize = 11;
pub const OFF_T3: usize = 12;
pub const OFF_T4: usize = 13;
pub const OFF_T5: usize = 14;
pub const OFF_T6: usize = 15;
pub const OFF_MEPC: usize = 16;
pub const OFF_MCAUSE: usize = 17;
pub const OFF_MTVAL: usize = 18;
pub const OFF_PAD: usize = 19;

/// The integer state a trap preserves: the caller-saved general registers,
/// in frame order (ra, t0-t2, a0-a7, t3-t6), and the program counter.
#[derive(Clone, Copy, PartialEq, Eq, Debug)]
pub struct Registers {
    pub gpr: [usize; SAVED_GPRS],
    pub pc: usize,
}

/// A trap frame, word 0 at the lowest address.
#[derive(Clone, Copy, PartialEq, Eq, Debug)]
pub struct TrapFrame {
    pub words: [usize; FRAME_WORDS],
}

/// The words the entry stub stores for registers `gpr`, program counter `pc`,
/// trap cause `cause` and trap value `tval`.
pub open spec fn frame_words(gpr: Seq<usize>, pc: usize, cause: usize, tval: usize) -> Seq<usize> {
    gpr + seq![pc, cause, tval, 0usize]
}

/// The general registers the entry stub reloads from frame words `w`.
pub open spec fn restored_gpr(w: Seq<usize>) -> Seq<usize> {
    w.subrange(0, SAVED_GPRS as int)
}

/// The program counter machine-return resumes at, from frame words `w`.
pub open spec fn restored_pc(w: Seq<usize>) -> usize {
    w[OFF_MEPC as int]
}

impl TrapFrame {
    /// The frame the entry stub builds when it saves `regs` on a trap with
    /// cause `cause` and trap value `tval`.
    pub fn save(regs: &Registers, cause: usize, tval: usize) -> (f: TrapFrame)
        ensures
            f.words@ == frame_words(regs.gpr@, regs.pc, cause, tval),
    {
        let mut words = [0usize; FRAME_WORDS];
        let mut i: usize = 0;
        while i < SAVED_GPRS
            invariant
                i <= SAVED_GPRS,
                words@.len() == FRAME_WORDS,
                forall|j: int| 0 <= j < i ==> words@[j] == regs.gpr@[j],
                forall|j: int| i <= j < FRAME_WORDS ==> words@[j] == 0,
            decreases SAVED_GPRS - i,
        {
            words[i] = regs.gpr[i];
            i = i + 1;
        }
        words[OFF_MEPC] = regs.pc;
        words[OFF_MCAUSE] = cause;
        words[OFF_MTVAL] = tval;
        let f = TrapFrame { words };
        assert(f.words@ =~= frame_words(regs.gpr@, regs.pc, cause, tval));
        f
    }

    /// The register state the entry stub reloads from this frame before
    /// machine-return.
    pub fn restore(&self) -> (r: Registers)
        ensures
            r.gpr@ == restored_gpr(self.words@),
            r.pc == restored_pc(self.words@),
    {
        let mut gpr = [0usize; SAVED_GPRS];
        let mut i: usize = 0;
        while i < SAVED_GPRS
            invariant
                i <= SAVED_GPRS,
                gpr@.len() == SAVED_GPRS,
                self.words@.len() == FRAME_WORDS,
                forall|j: int| 0 <= j < i ==> gpr@[j] == self.words@[j],
            decreases SAVED_GPRS - i,
        {
            gpr[i] = self.words[i];
            i = i + 1;
        }
        assert(gpr@ =~= restored_gpr(self.words@));
        Registers { gpr, pc: self.words[OFF_MEPC] }
    }

    /// The saved program counter.
    pub fn mepc(&self) -> (r: usize)
        ensures
            r == self.words@[OFF_MEPC as int],
    {
        self.words[OFF_MEPC]
    }

    /// The saved trap cause.
    pub fn mcause(&self) -> (r: usize)
        ensures
            r == self.words@[OFF_MCAUSE as int],
    {
        self.words[OFF_MCAUSE]
    }

    /// The saved trap value.
    pub fn mtval(&self) -> (r: usize)
        ensures
            r == self.words@[OFF_MTVAL as int],
    {
        self.words[OFF_MTVAL]
    }
}

/// Saving registers into a frame and restoring from it gives back the same
/// general registers and program counter; and restoring a frame then saving
/// it with the frame's own cause and trap value gives back its first 19 words.
pub proof fn lemma_frame_round_trip(gpr: Seq<usize>, pc: usize, cause: usize, tval: usize, f: Seq<usize>)
    requires
        gpr.len() == SAVED_GPRS,
        f.len() == FRAME_WORDS,
    ensures
        restored_gpr(frame_words(gpr, pc, cause, tval)) == gpr,
        restored_pc(frame_words(gpr, pc, cause, tval)) == pc,
        frame_words(restored_gpr(f), restored_pc(f), f[OFF_MCAUSE as int], f[OFF_MTVAL as int]).subrange(0, OFF_PAD as int)
            == f.subrange(0, OFF_PAD as int),
{
    assert(restored_gpr(frame_words(gpr, pc, cause, tval)) =~= gpr);
    assert(frame_words(restored_gpr(f), restored_pc(f), f[OFF_MCAUSE as int], f[OFF_MTVAL as int]).subrange(0, OFF_PAD as int)
        =~= f.subrange(0, OFF_PAD as int));
}

} // verus!
