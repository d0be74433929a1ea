use vstd::prelude::*;
use crate::types::{State, Vaddr, PROCS_MAX};

verus! {

/// Size in bytes of each process's kernel stack.
pub const STACK_SIZE: usize = 8192;

/// Number of 32-bit words in a saved context: `ra`, then `s0` to `s11`.
pub const CONTEXT_WORDS: usize = 13;

/// Byte offset, from the bottom of a process's stack, of the context that a
/// new process starts from: the top `CONTEXT_WORDS` words of the stack.
pub const CONTEXT_OFFSET: usize = STACK_SIZE - 4 * CONTEXT_WORDS;

/// Process id given to the idle process.
pub const IDLE_PID: usize = 0xFFFF_FFFF;

/// One slot of the process table.
///
/// `sp` is the saved stack pointer of the process. `process_init` and
/// `create_process` set it to the byte offset, from the bottom of `stack`,
/// of the initial saved context they write; when the process is switched
/// away from, the stack pointer that the switch saved is recorded here with
/// `Process_Controler::save_sp`. It is 0 for a slot never prepared.
#[derive(Clone, Copy, Debug)]
pub struct Process {
    pub pid: usize,
    pub state: State,
    pub sp: Vaddr,
    pub stack: [u8; 8192],
}

/// The four bytes of `w`, least significant first.
pub open spec fn le_bytes(w: u32) -> Seq<u8> {
    seq![
        (w % 256) as u8,
        ((w / 256) % 256) as u8,
        ((w / 65536) % 256) as u8,
        (w / 16777216) as u8,
    ]
}

/// The 32-bit little-endian word stored at byte offset `off` of `s`.
pub open spec fn word_at(s: Seq<u8>, off: int) -> int {
    s[off] + 256 * s[off + 1] + 65536 * s[off + 2] + 16777216 * s[off + 3]
}

/// Word `k` of the saved context at the top of stack `s`.
pub open spec fn context_word(s: Seq<u8>, k: int) -> int {
    word_at(s, CONTEXT_OFFSET + 4 * k)
}

/// The bytes of an initial saved context: `ra`, then twelve zero words.
pub open spec fn context_frame(ra: u32) -> Seq<u8> {
    le_bytes(ra) + Seq::new(48, |i: int| 0u8)
}

/// `stack` with an initial saved context for return address `ra` written at
/// its top.
pub open spec fn with_context(stack: Seq<u8>, ra: u32) -> Seq<u8> {
    stack.take(CONTEXT_OFFSET as int) + context_frame(ra)
}

/// `new` is `old` made ready to run from `ra` under `pid` and `state`:
/// a fresh initial context on top of its stack, and its saved stack pointer
/// set to that context.
pub open spec fn prepared(old: Process, new: Process, pid: usize, state: State, ra: u32) -> bool {
    &&& new.pid == pid
    &&& new.state == state
    &&& new.sp == CONTEXT_OFFSET
    &&& new.stack@ == with_context(old.stack@, ra)
}

/// The initial context written on top of a stack holds `ra` in its first
/// word and 0 in each of its other words, and the bytes below it keep their
/// old values.
pub proof fn law_context_frame(stack: Seq<u8>, ra: u32)
    requires
        stack.len() == STACK_SIZE,
    ensures
        with_context(stack, ra).len() == STACK_SIZE,
        context_word(with_context(stack, ra), 0) == ra,
        forall|k: int|
            1 <= k < CONTEXT_WORDS ==> #[trigger] context_word(with_context(stack, ra), k) == 0,
        forall|j: int| 0 <= j < CONTEXT_OFFSET ==> with_context(stack, ra)[j] == stack[j],
{
    let s = with_context(stack, ra);
    let o = CONTEXT_OFFSET as int;
    assert(s[o] == (ra % 256) as u8);
    assert(s[o + 1] == ((ra / 256) % 256) as u8);
    assert(s[o + 2] == ((ra / 65536) % 256) as u8);
    assert(s[o + 3] == (ra / 16777216) as u8);
    assert((ra % 256) + 256 * ((ra / 256) % 256) + 65536 * ((ra / 65536) % 256) + 16777216 * (ra
        / 16777216) == ra) by (nonlinear_arith);
    assert forall|k: int| 1 <= k < CONTEXT_WORDS implies #[trigger] context_word(s, k) == 0 by {
        assert(s[o + 4 * k] == 0);
        assert(s[o + 4 * k + 1] == 0);
        assert(s[o + 4 * k + 2] == 0);
        assert(s[o + 4 * k + 3] == 0);
    }
}

/// A process made ready to run from `ra` resumes at `ra`: the word at its
/// saved stack pointer, which a context switch loads into `ra`, is `ra`.
pub proof fn law_prepared_resumes_at(old: Process, new: Process, pid: usize, state: State, ra: u32)
    requires
        prepared(old, new, pid, state, ra),
    ensures
        word_at(new.stack@, new.sp as int) == ra,
{
    law_context_frame(old.stack@, ra);
}

impl Process {
    /// An unused slot: pid 0, no saved stack pointer, a zeroed stack.
    pub fn new() -> (p: Self)
        ensures
            p.pid == 0,
            p.state == State::UNUSED,
            p.sp == 0,
            p.stack@ == Seq::new(STACK_SIZE as nat, |i: int| 0u8),
    {
        let p = Process { pid: 0, state: State::UNUSED, sp: 0, stack: [0u8; 8192] };
        assert(p.stack@ =~= Seq::new(STACK_SIZE as nat, |i: int| 0u8));
        p
    }

    /// Writes an initial saved context for return address `ra` on top of
    /// the stack and points the saved stack pointer at it.
    fn push_initial_context(&mut self, ra: u32)
        ensures
            final(self).pid == old(self).pid,
            final(self).state == old(self).state,
            final(self).sp == CONTEXT_OFFSET,
            final(self).stack@ == with_context(old(self).stack@, ra),
    {
        let o = CONTEXT_OFFSET;
        self.stack[o] = (ra % 256) as u8;
        self.stack[o + 1] = ((ra / 256) % 256) as u8;
        self.stack[o + 2] = ((ra / 65536) % 256) as u8;
        self.stack[o + 3] = (ra / 16777216) as u8;
        let mut k: usize = o + 4;
        while k < STACK_SIZE
            invariant
                o + 4 <= k <= STACK_SIZE,
                o == CONTEXT_OFFSET,
                self.pid == old(self).pid,
                self.state == old(self).state,
                forall|j: int| 0 <= j < o ==> self.stack@[j] == old(self).stack@[j],
                self.stack@[o as int] == (ra % 256) as u8,
                self.stack@[o + 1] == ((ra / 256) % 256) as u8,
                self.stack@[o + 2] == ((ra / 65536) % 256) as u8,
                self.stack@[o + 3] == (ra / 16777216) as u8,
                forall|j: int| o + 4 <= j < k ==> self.stack@[j] == 0,
            decreases STACK_SIZE - k,
        {
            self.stack[k] = 0;
            k = k + 1;
        }
        self.sp = o;
        assert(self.stack@ =~= with_context(old(self).stack@, ra));
    }
}


/// Index of the first `UNUSED` slot of `t` at or after `i`, or `t.len()`
/// when there is none.
pub open spec fn unused_from(t: Seq<Process>, i: int) -> int
    decreases t.len() - i,
{
    if i >= t.len() {
        t.len() as int
    } else if t[i].state == State::UNUSED {
        i
    } else {
        unused_from(t, i + 1)
    }
}

/// Index of the first `UNUSED` slot of `t`, or `t.len()` when every slot is
/// taken.
pub open spec fn first_unused(t: Seq<Process>) -> int {
    unused_from(t, 0)
}

/// The slot that `create_process` fills: the first `UNUSED` one, or slot 0
/// when every slot is taken.
pub open spec fn creation_slot(t: Seq<Process>) -> int {
    if first_unused(t) < t.len() {
        first_unused(t)
    } else {
        0
    }
}

/// The slot that the scheduler looks at in step `i` of a scan that starts
/// after slot `cur`.
pub open spec fn scan_slot(cur: int, i: int) -> int {
    (cur + i + 1) % (PROCS_MAX as int)
}

/// The first `RUNNABLE` slot met from step `i` on of the scan after `cur`, or
/// `cur` when the scan meets none.
pub open spec fn runnable_from(t: Seq<Process>, cur: int, i: int) -> int
    decreases PROCS_MAX - i,
{
    if i >= PROCS_MAX {
        cur
    } else if t[scan_slot(cur, i)].state == State::RUNNABLE {
        scan_slot(cur, i)
    } else {
        runnable_from(t, cur, i + 1)
    }
}

/// The slot that the scheduler hands the processor to after `cur`: the next
/// `RUNNABLE` slot in cyclic order, `cur` itself counted last.
pub open spec fn next_runnable(t: Seq<Process>, cur: int) -> int {
    runnable_from(t, cur, 0)
}

/// Number of scan steps from `cur` to slot `j`: `0` for the slot just
/// after `cur`, `PROCS_MAX - 1` for `cur` itself.
pub open spec fn scan_distance(cur: int, j: int) -> int {
    (j - cur - 1 + PROCS_MAX as int) % (PROCS_MAX as int)
}

/// Every `RUNNABLE` slot of `t` carries its own index as pid.
pub open spec fn runnable_pids_match(t: Seq<Process>) -> bool {
    forall|i: int|
        0 <= i < t.len() && (#[trigger] t[i]).state == State::RUNNABLE ==> t[i].pid == i
}

/// Where the processor is after `k` calls of `yield_proc` from slot `cur`,
/// when no slot of `t` changes in between.
pub open spec fn yields(t: Seq<Process>, cur: int, k: nat) -> int
    decreases k,
{
    if k == 0 {
        cur
    } else {
        yields(t, next_runnable(t, cur), (k - 1) as nat)
    }
}

/// A switch of the processor from slot `prev` to slot `next`.
#[derive(PartialEq, Eq, Structural, Clone, Copy, Debug)]
pub struct ContextSwitch {
    pub prev: usize,
    pub next: usize,
}

/// The process table and the slot that holds the processor.
#[allow(non_camel_case_types)]
pub struct Process_Controler {
    procs: [Process; PROCS_MAX],
    current_idx: usize,
}

impl Process_Controler {
    /// The slots of the table.
    pub closed spec fn table(&self) -> Seq<Process> {
        self.procs@
    }

    /// The slot that holds the processor.
    pub closed spec fn current(&self) -> int {
        self.current_idx as int
    }

    /// The table invariant, which Verus holds every table to from `new` on:
    /// the table has `PROCS_MAX` slots, the current slot is one of them, and
    /// every `RUNNABLE` slot carries its own index as pid.
    #[verifier::type_invariant]
    pub open spec fn wf(&self) -> bool {
        &&& self.table().len() == PROCS_MAX
        &&& 0 <= self.current() < PROCS_MAX
        &&& runnable_pids_match(self.table())
    }

    /// A table of unused slots, with slot 0 current.
    pub fn new() -> (c: Self)
        ensures
            c.wf(),
            c.current() == 0,
            forall|i: int|
                0 <= i < PROCS_MAX ==> {
                    let p = #[trigger] c.table()[i];
                    &&& p.pid == 0
                    &&& p.state == State::UNUSED
                    &&& p.sp == 0
                    &&& p.stack@ == Seq::new(STACK_SIZE as nat, |j: int| 0u8)
                },
    {
        let p = Process::new();
        Process_Controler { procs: [p, p, p, p, p, p, p, p], current_idx: 0 }
    }
}


impl Process_Controler {
    /// Makes slot 0 the idle process: state `IDLE`, pid `IDLE_PID`, and an
    /// initial saved context with return address 0.
    pub fn process_init(&mut self)
        ensures
            final(self).wf(),
            final(self).current() == old(self).current(),
            prepared(old(self).table()[0], final(self).table()[0], IDLE_PID, State::IDLE, 0),
            forall|j: int|
                1 <= j < PROCS_MAX ==> #[trigger] final(self).table()[j] == old(self).table()[j],
    {
        proof {
            use_type_invariant(&*self);
        }
        let mut p = self.procs[0];
        p.state = State::IDLE;
        p.pid = IDLE_PID;
        p.push_initial_context(0);
        self.procs[0] = p;
    }

    /// The first `UNUSED` slot, or `None` when every slot is taken.
    pub fn find_free_slot(&self) -> (slot: Option<usize>)
        ensures
            match slot {
                Some(i) => i == first_unused(self.table()) && i < PROCS_MAX,
                None => first_unused(self.table()) == PROCS_MAX,
            },
    {
        proof {
            use_type_invariant(self);
        }
        let mut i: usize = 0;
        while i < PROCS_MAX
            invariant
                i <= PROCS_MAX,
                self.wf(),
                unused_from(self.table(), i as int) == first_unused(self.table()),
            decreases PROCS_MAX - i,
        {
            if self.procs[i].state == State::UNUSED {
                return Some(i);
            }
            i = i + 1;
        }
        None
    }

    /// Puts a new process in the first `UNUSED` slot, or in slot 0 when every
    /// slot is taken: its pid is the slot's index, its state `RUNNABLE`, and
    /// its initial saved context returns to `pc`. No other slot changes.
    pub fn create_process(&mut self, pc: u32)
        ensures
            final(self).wf(),
            final(self).current() == old(self).current(),
            ({
                let i = creation_slot(old(self).table());
                &&& prepared(
                    old(self).table()[i],
                    final(self).table()[i],
                    i as usize,
                    State::RUNNABLE,
                    pc,
                )
                &&& forall|j: int|
                    0 <= j < PROCS_MAX && j != i ==> #[trigger] final(self).table()[j]
                        == old(self).table()[j]
            }),
    {
        proof {
            use_type_invariant(&*self);
        }
        let slot = self.find_free_slot();
        let i = match slot {
            Some(i) => i,
            None => 0,
        };
        let mut p = self.procs[i];
        p.push_initial_context(pc);
        p.pid = i;
        p.state = State::RUNNABLE;
        self.procs[i] = p;
    }

    /// The slot that the scheduler picks after the current one.
    fn pick_next(&self) -> (idx: usize)
        ensures
            idx == next_runnable(self.table(), self.current()),
    {
        proof {
            use_type_invariant(self);
        }
        let cur = self.current_idx;
        let mut idx: usize = 0;
        let mut i: usize = 0;
        while i < PROCS_MAX
            invariant_except_break
                i <= PROCS_MAX,
                self.wf(),
                cur == self.current(),
                runnable_from(self.table(), cur as int, i as int) == next_runnable(
                    self.table(),
                    cur as int,
                ),
                i > 0 ==> idx == scan_slot(cur as int, i - 1),
            ensures
                idx == next_runnable(self.table(), cur as int),
            decreases PROCS_MAX - i,
        {
            idx = (cur + i + 1) % PROCS_MAX;
            if self.procs[idx].state == State::RUNNABLE {
                break;
            }
            i = i + 1;
        }
        idx
    }

    /// Hands the processor to the next `RUNNABLE` slot after the current
    /// one, in cyclic order. Returns the switch to perform, or `None` when
    /// that slot is the current one, in which case nothing changes.
    pub fn yield_proc(&mut self) -> (switch: Option<ContextSwitch>)
        ensures
            final(self).wf(),
            final(self).table() == old(self).table(),
            final(self).current() == next_runnable(old(self).table(), old(self).current()),
            match switch {
                None => {
                    &&& next_runnable(old(self).table(), old(self).current()) == old(self).current()
                    &&& final(self).current() == old(self).current()
                },
                Some(sw) => {
                    &&& sw.prev == old(self).current()
                    &&& sw.next == next_runnable(old(self).table(), old(self).current())
                    &&& sw.next != sw.prev
                    &&& final(self).current() == sw.next
                },
            },
    {
        proof {
            use_type_invariant(&*self);
        }
        let idx = self.pick_next();
        proof {
            law_next_runnable(self.table(), self.current());
        }
        if self.current_idx == idx {
            return None;
        }
        let prev = self.current_idx;
        self.current_idx = idx;
        Some(ContextSwitch { prev, next: idx })
    }
}

/// The scheduler's choice is a slot of the table; when it is not the current
/// slot, it is `RUNNABLE`.
pub proof fn law_next_runnable(t: Seq<Process>, cur: int)
    requires
        t.len() == PROCS_MAX,
        0 <= cur < PROCS_MAX,
    ensures
        0 <= next_runnable(t, cur) < PROCS_MAX,
        next_runnable(t, cur) != cur ==> t[next_runnable(t, cur)].state == State::RUNNABLE,
{
    lemma_runnable_from(t, cur, 0);
}

/// Step of the scan after `cur`, from step `i` on, at which the first
/// `RUNNABLE` slot is met, or `PROCS_MAX` when none is.
spec fn runnable_step_from(t: Seq<Process>, cur: int, i: int) -> int
    decreases PROCS_MAX - i,
{
    if i >= PROCS_MAX {
        PROCS_MAX as int
    } else if t[scan_slot(cur, i)].state == State::RUNNABLE {
        i
    } else {
        runnable_step_from(t, cur, i + 1)
    }
}

proof fn lemma_runnable_from(t: Seq<Process>, cur: int, i: int)
    requires
        t.len() == PROCS_MAX,
        0 <= cur < PROCS_MAX,
        0 <= i <= PROCS_MAX,
    ensures
        i <= runnable_step_from(t, cur, i) <= PROCS_MAX,
        runnable_from(t, cur, i) == if runnable_step_from(t, cur, i) == PROCS_MAX {
            cur
        } else {
            scan_slot(cur, runnable_step_from(t, cur, i))
        },
        runnable_step_from(t, cur, i) < PROCS_MAX ==> t[scan_slot(
            cur,
            runnable_step_from(t, cur, i),
        )].state == State::RUNNABLE,
        forall|m: int|
            i <= m < runnable_step_from(t, cur, i) ==> t[#[trigger] scan_slot(cur, m)].state
                != State::RUNNABLE,
        0 <= runnable_from(t, cur, i) < PROCS_MAX,
        runnable_from(t, cur, i) == cur || t[runnable_from(t, cur, i)].state == State::RUNNABLE,
    decreases PROCS_MAX - i,
{
    if i < PROCS_MAX {
        lemma_runnable_from(t, cur, i + 1);
    }
}

proof fn lemma_scan_distance(cur: int)
    requires
        0 <= cur < PROCS_MAX,
    ensures
        forall|k: int|
            0 <= k < PROCS_MAX ==> 0 <= #[trigger] scan_slot(cur, k) < PROCS_MAX && scan_distance(
                cur,
                scan_slot(cur, k),
            ) == k,
        forall|j: int|
            0 <= j < PROCS_MAX ==> 0 <= #[trigger] scan_distance(cur, j) < PROCS_MAX && scan_slot(
                cur,
                scan_distance(cur, j),
            ) == j,
        scan_distance(cur, cur) == PROCS_MAX - 1,
{
    assert forall|k: int| 0 <= k < PROCS_MAX implies 0 <= #[trigger] scan_slot(cur, k) < PROCS_MAX
        && scan_distance(cur, scan_slot(cur, k)) == k by {
        if cur + k + 1 < PROCS_MAX {
            assert(scan_slot(cur, k) == cur + k + 1);
        } else {
            assert(scan_slot(cur, k) == cur + k + 1 - PROCS_MAX);
        }
    }
    assert forall|j: int| 0 <= j < PROCS_MAX implies 0 <= #[trigger] scan_distance(cur, j)
        < PROCS_MAX && scan_slot(cur, scan_distance(cur, j)) == j by {
        if j > cur {
            assert(scan_distance(cur, j) == j - cur - 1);
        } else {
            assert(scan_distance(cur, j) == j - cur - 1 + PROCS_MAX);
        }
    }
}

/// Round robin: the scheduler picks, among the `RUNNABLE` slots, the one
/// that comes first in cyclic order after the current slot (the current slot
/// itself coming last), and stays on the current slot only when no other
/// slot is `RUNNABLE`.
pub proof fn law_round_robin(t: Seq<Process>, cur: int)
    requires
        t.len() == PROCS_MAX,
        0 <= cur < PROCS_MAX,
    ensures
        forall|j: int|
            0 <= j < PROCS_MAX && (#[trigger] t[j]).state == State::RUNNABLE ==> {
                &&& t[next_runnable(t, cur)].state == State::RUNNABLE
                &&& scan_distance(cur, next_runnable(t, cur)) <= scan_distance(cur, j)
            },
        (exists|j: int| 0 <= j < PROCS_MAX && j != cur && (#[trigger] t[j]).state == State::RUNNABLE)
            ==> next_runnable(t, cur) != cur,
{
    lemma_runnable_from(t, cur, 0);
    lemma_scan_distance(cur);
    let step = runnable_step_from(t, cur, 0);
    assert forall|j: int|
        0 <= j < PROCS_MAX && (#[trigger] t[j]).state == State::RUNNABLE implies {
            &&& t[next_runnable(t, cur)].state == State::RUNNABLE
            &&& scan_distance(cur, next_runnable(t, cur)) <= scan_distance(cur, j)
        } by {
        let d = scan_distance(cur, j);
        assert(scan_slot(cur, d) == j);
        if step > d {
            assert(t[scan_slot(cur, d)].state != State::RUNNABLE);
        }
        assert(step <= d);
        assert(next_runnable(t, cur) == scan_slot(cur, step));
    }
    if exists|j: int| 0 <= j < PROCS_MAX && j != cur && (#[trigger] t[j]).state == State::RUNNABLE {
        let j = choose|j: int| 0 <= j < PROCS_MAX && j != cur && (#[trigger] t[j]).state == State::RUNNABLE;
        let d = scan_distance(cur, j);
        assert(scan_slot(cur, d) == j);
        if step > d {
            assert(t[scan_slot(cur, d)].state != State::RUNNABLE);
        }
        assert(d < PROCS_MAX - 1);
        assert(scan_distance(cur, next_runnable(t, cur)) < PROCS_MAX - 1);
    }
}


impl Process_Controler {
    /// Records `sp` as the saved stack pointer of slot `slot`, as the context
    /// switch hands it back; nothing else changes.
    pub fn save_sp(&mut self, slot: usize, sp: Vaddr)
        requires
            slot < PROCS_MAX,
        ensures
            final(self).wf(),
            final(self).current() == old(self).current(),
            final(self).table()[slot as int].sp == sp,
            final(self).table()[slot as int].pid == old(self).table()[slot as int].pid,
            final(self).table()[slot as int].state == old(self).table()[slot as int].state,
            final(self).table()[slot as int].stack == old(self).table()[slot as int].stack,
            forall|j: int|
                0 <= j < PROCS_MAX && j != slot ==> #[trigger] final(self).table()[j]
                    == old(self).table()[j],
    {
        proof {
            use_type_invariant(&*self);
        }
        let mut p = self.procs[slot];
        p.sp = sp;
        self.procs[slot] = p;
    }

    /// The slot that holds the processor.
    pub fn current_idx(&self) -> (i: usize)
        ensures
            i == self.current(),
            i < PROCS_MAX,
    {
        proof {
            use_type_invariant(self);
        }
        self.current_idx
    }

    /// Slot `i` of the table.
    pub fn process(&self, i: usize) -> (p: &Process)
        requires
            i < PROCS_MAX,
        ensures
            *p == self.table()[i as int],
    {
        proof {
            use_type_invariant(self);
        }
        &self.procs[i]
    }
}


proof fn lemma_unused_from(t: Seq<Process>, i: int)
    requires
        0 <= i <= t.len(),
    ensures
        i <= unused_from(t, i) <= t.len(),
        unused_from(t, i) < t.len() ==> t[unused_from(t, i)].state == State::UNUSED,
        forall|j: int| i <= j < unused_from(t, i) ==> (#[trigger] t[j]).state != State::UNUSED,
    decreases t.len() - i,
{
    if i < t.len() && t[i].state != State::UNUSED {
        lemma_unused_from(t, i + 1);
    }
}

/// The slot that `find_free_slot` reports is `UNUSED` and every slot before
/// it is taken; it reports none exactly when every slot is taken.
pub proof fn law_first_unused(t: Seq<Process>)
    ensures
        0 <= first_unused(t) <= t.len(),
        first_unused(t) < t.len() ==> t[first_unused(t)].state == State::UNUSED,
        forall|j: int| 0 <= j < first_unused(t) ==> (#[trigger] t[j]).state != State::UNUSED,
        first_unused(t) == t.len() <==> forall|j: int|
            0 <= j < t.len() ==> (#[trigger] t[j]).state != State::UNUSED,
{
    lemma_unused_from(t, 0);
}


proof fn lemma_scan_distance_between(cur: int, n: int, j: int)
    requires
        0 <= cur < PROCS_MAX,
        0 <= n < PROCS_MAX,
        0 <= j < PROCS_MAX,
        n != cur,
        n != j,
        scan_distance(cur, n) <= scan_distance(cur, j),
    ensures
        scan_distance(n, j) == scan_distance(cur, j) - scan_distance(cur, n) - 1,
{
}

/// Round robin reaches every `RUNNABLE` slot: while no slot changes, a
/// `RUNNABLE` slot `j` holds the processor after at most `PROCS_MAX - 1`
/// calls of `yield_proc`; the returned `k` is such a number of calls.
pub proof fn law_round_robin_reach(t: Seq<Process>, cur: int, j: int) -> (k: nat)
    requires
        t.len() == PROCS_MAX,
        0 <= cur < PROCS_MAX,
        0 <= j < PROCS_MAX,
        t[j].state == State::RUNNABLE,
    ensures
        k <= PROCS_MAX - 1,
        yields(t, cur, k) == j,
        j != cur ==> k <= scan_distance(cur, j) + 1,
    decreases scan_distance(cur, j),
{
    lemma_scan_distance(cur);
    if j == cur {
        0
    } else {
        law_round_robin(t, cur);
        law_next_runnable(t, cur);
        let n = next_runnable(t, cur);
        assert(t[j].state == State::RUNNABLE);
        assert(n != cur);
        assert(scan_distance(cur, n) <= scan_distance(cur, j));
        if n == j {
            assert(yields(t, n, 0) == j);
            1
        } else {
            lemma_scan_distance_between(cur, n, j);
            let k1 = law_round_robin_reach(t, n, j);
            assert(yields(t, cur, k1 + 1) == yields(t, n, k1));
            k1 + 1
        }
    }
}

} // verus!
