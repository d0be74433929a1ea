use rvkernel::process::{
    ContextSwitch, Process, Process_Controler, CONTEXT_OFFSET, CONTEXT_WORDS, IDLE_PID, STACK_SIZE,
};
use rvkernel::types::{State, PROCS_MAX};

fn word(stack: &[u8], off: usize) -> u32 {
    u32::from_le_bytes([stack[off], stack[off + 1], stack[off + 2], stack[off + 3]])
}

fn kernel_like() -> Process_Controler {
    let mut c = Process_Controler::new();
    c.process_init();
    c.create_process(0x8020_0000);
    c.create_process(0x8020_1000);
    c
}

#[test]
fn process_new_is_unused_and_zeroed() {
    let p = Process::new();
    assert_eq!(p.pid, 0);
    assert_eq!(p.state, State::UNUSED);
    assert_eq!(p.sp, 0);
    assert!(p.stack.iter().all(|&b| b == 0));
    assert_eq!(p.stack.len(), STACK_SIZE);
}

#[test]
fn controller_new_has_only_unused_slots() {
    let c = Process_Controler::new();
    assert_eq!(c.current_idx(), 0);
    for i in 0..PROCS_MAX {
        assert_eq!(c.process(i).state, State::UNUSED);
        assert_eq!(c.process(i).sp, 0);
    }
}

#[test]
fn context_offset_is_top_thirteen_words() {
    assert_eq!(CONTEXT_WORDS, 13);
    assert_eq!(CONTEXT_OFFSET, 8192 - 52);
}

#[test]
fn process_init_makes_slot_zero_idle() {
    let mut c = Process_Controler::new();
    c.process_init();
    let p = c.process(0);
    assert_eq!(p.state, State::IDLE);
    assert_eq!(p.pid, IDLE_PID);
    assert_eq!(IDLE_PID, 0xFFFF_FFFF);
    assert_eq!(p.sp, CONTEXT_OFFSET);
    for k in 0..CONTEXT_WORDS {
        assert_eq!(word(&p.stack, p.sp + 4 * k), 0);
    }
    assert_eq!(c.process(1).state, State::UNUSED);
    assert_eq!(c.current_idx(), 0);
}

#[test]
fn create_process_takes_first_unused_slot() {
    let mut c = Process_Controler::new();
    c.process_init();
    assert_eq!(c.find_free_slot(), Some(1));
    c.create_process(0x1234_5678);
    let p = c.process(1);
    assert_eq!(p.state, State::RUNNABLE);
    assert_eq!(p.pid, 1);
    assert_eq!(p.sp, CONTEXT_OFFSET);
    assert_eq!(&p.stack[CONTEXT_OFFSET..CONTEXT_OFFSET + 4], &[0x78, 0x56, 0x34, 0x12]);
    assert_eq!(word(&p.stack, p.sp), 0x1234_5678);
    for k in 1..CONTEXT_WORDS {
        assert_eq!(word(&p.stack, p.sp + 4 * k), 0);
    }
    assert_eq!(c.process(0).state, State::IDLE);
    assert_eq!(c.process(2).state, State::UNUSED);
}

#[test]
fn create_process_without_init_uses_slot_zero() {
    let mut c = Process_Controler::new();
    assert_eq!(c.find_free_slot(), Some(0));
    c.create_process(42);
    assert_eq!(c.process(0).pid, 0);
    assert_eq!(c.process(0).state, State::RUNNABLE);
}

#[test]
fn find_free_slot_is_none_when_table_is_full() {
    let mut c = Process_Controler::new();
    c.process_init();
    for i in 1..PROCS_MAX {
        assert_eq!(c.find_free_slot(), Some(i));
        c.create_process(i as u32);
    }
    assert_eq!(c.find_free_slot(), None);
    for i in 1..PROCS_MAX {
        assert_eq!(c.process(i).pid, i);
        assert_eq!(word(&c.process(i).stack, CONTEXT_OFFSET), i as u32);
    }
}

#[test]
fn yield_with_nothing_runnable_stays() {
    let mut c = Process_Controler::new();
    c.process_init();
    assert_eq!(c.yield_proc(), None);
    assert_eq!(c.current_idx(), 0);
}

#[test]
fn yield_from_idle_goes_to_first_process() {
    let mut c = kernel_like();
    assert_eq!(c.yield_proc(), Some(ContextSwitch { prev: 0, next: 1 }));
    assert_eq!(c.current_idx(), 1);
}

#[test]
fn yield_alternates_between_two_processes() {
    let mut c = kernel_like();
    assert_eq!(c.yield_proc(), Some(ContextSwitch { prev: 0, next: 1 }));
    assert_eq!(c.yield_proc(), Some(ContextSwitch { prev: 1, next: 2 }));
    assert_eq!(c.yield_proc(), Some(ContextSwitch { prev: 2, next: 1 }));
    assert_eq!(c.yield_proc(), Some(ContextSwitch { prev: 1, next: 2 }));
    assert_eq!(c.process(0).state, State::IDLE);
}

#[test]
fn yield_with_single_runnable_process_stays_on_it() {
    let mut c = Process_Controler::new();
    c.process_init();
    c.create_process(7);
    assert_eq!(c.yield_proc(), Some(ContextSwitch { prev: 0, next: 1 }));
    assert_eq!(c.yield_proc(), None);
    assert_eq!(c.current_idx(), 1);
}

#[test]
fn yield_wraps_around_the_table() {
    let mut c = Process_Controler::new();
    c.process_init();
    for i in 1..PROCS_MAX {
        c.create_process(i as u32);
    }
    let mut seen = Vec::new();
    for _ in 0..(2 * (PROCS_MAX - 1)) {
        let sw = c.yield_proc().unwrap();
        assert_ne!(sw.prev, sw.next);
        seen.push(sw.next);
    }
    assert_eq!(seen, vec![1, 2, 3, 4, 5, 6, 7, 1, 2, 3, 4, 5, 6, 7]);
}

#[test]
fn yield_never_changes_the_table() {
    let mut c = kernel_like();
    let before: Vec<(usize, State, usize)> =
        (0..PROCS_MAX).map(|i| (c.process(i).pid, c.process(i).state, c.process(i).sp)).collect();
    for _ in 0..5 {
        c.yield_proc();
    }
    let after: Vec<(usize, State, usize)> =
        (0..PROCS_MAX).map(|i| (c.process(i).pid, c.process(i).state, c.process(i).sp)).collect();
    assert_eq!(before, after);
}

#[test]
fn create_process_on_full_table_takes_slot_zero() {
    let mut c = Process_Controler::new();
    c.process_init();
    for i in 1..PROCS_MAX {
        c.create_process(i as u32);
    }
    assert_eq!(c.find_free_slot(), None);
    c.create_process(0xABCD);
    let p = c.process(0);
    assert_eq!(p.pid, 0);
    assert_eq!(p.state, State::RUNNABLE);
    assert_eq!(word(&p.stack, p.sp), 0xABCD);
    assert_eq!(c.process(7).pid, 7);
    assert_eq!(word(&c.process(7).stack, CONTEXT_OFFSET), 7);
}

#[test]
fn every_runnable_slot_is_reached_within_table_size_yields() {
    for target in 1..PROCS_MAX {
        let mut c = Process_Controler::new();
        c.process_init();
        for i in 1..PROCS_MAX {
            c.create_process(i as u32);
        }
        for _ in 0..3 {
            c.yield_proc();
        }
        let mut steps = 0;
        while c.current_idx() != target {
            c.yield_proc();
            steps += 1;
            assert!(steps <= PROCS_MAX - 1);
        }
        assert_eq!(c.process(target).pid, target);
    }
}

#[test]
fn save_sp_records_only_the_saved_stack_pointer() {
    let mut c = kernel_like();
    let sw = c.yield_proc().unwrap();
    let before = *c.process(sw.prev);
    c.save_sp(sw.prev, 0x8021_0FC0);
    let after = c.process(sw.prev);
    assert_eq!(after.sp, 0x8021_0FC0);
    assert_eq!(after.pid, before.pid);
    assert_eq!(after.state, before.state);
    assert_eq!(after.stack, before.stack);
    assert_eq!(c.process(sw.next).sp, CONTEXT_OFFSET);
    assert_eq!(c.current_idx(), sw.next);
}
