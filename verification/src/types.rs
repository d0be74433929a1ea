use vstd::prelude::*;

verus! {

/// A physical address.
pub type Paddr = usize;

/// A virtual address.
pub type Vaddr = usize;

/// Size in bytes of one page.
pub const PAGE_SIZE: u32 = 4096;

/// Number of slots in the process table.
pub const PROCS_MAX: usize = 8;

/// The pair of registers `a0`, `a1` that an SBI call hands back.
pub struct SbiRet {
    pub error: isize,
    pub value: isize,
}

/// The registers saved on a trap.
pub struct TrapFrame {
    pub ra: u32,
    pub gp: u32,
    pub tp: u32,
    pub t0: u32,
    pub t1: u32,
    pub t2: u32,
    pub t3: u32,
    pub t4: u32,
    pub t5: u32,
    pub t6: u32,
    pub a0: u32,
    pub a1: u32,
    pub a2: u32,
    pub a3: u32,
    pub a4: u32,
    pub a5: u32,
    pub a6: u32,
    pub a7: u32,
    pub s0: u32,
    pub s1: u32,
    pub s2: u32,
    pub s3: u32,
    pub s4: u32,
    pub s5: u32,
    pub s6: u32,
    pub s7: u32,
    pub s8: u32,
    pub s9: u32,
    pub s10: u32,
    pub s11: u32,
    pub sp: u32,
}

/// The state of a slot of the process table.
#[allow(non_camel_case_types)]
#[derive(PartialEq, Eq, Structural, Clone, Copy, Debug)]
pub enum State {
    UNUSED,
    RUNNABLE,
    IDLE,
    EXITED,
}

} // verus!
