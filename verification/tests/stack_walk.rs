use profiler_toolkit::proc_maps::stack_walk::{StackWalker, ThreadInfo};
use std::collections::HashMap;

fn walk(rip: u64, rbp: u64, memory: &HashMap<u64, u64>) -> (Vec<u64>, usize) {
    let mut walker = StackWalker::new(rip, rbp);
    let mut reads = 0;
    while let Some(address) = walker.next_read() {
        assert!(!walker.is_done());
        reads += 1;
        walker.supply(memory.get(&address).copied());
    }
    assert!(walker.is_done());
    (walker.finish(), reads)
}

fn stack(frames: &[(u64, u64, u64)]) -> HashMap<u64, u64> {
    let mut memory = HashMap::new();
    for (frame_ptr, caller, return_address) in frames {
        memory.insert(*frame_ptr, *caller);
        memory.insert(*frame_ptr + 8, *return_address);
    }
    memory
}

#[test]
fn null_frame_pointer_gives_the_program_counter_alone() {
    let memory = stack(&[(0x7000, 0x7100, 0xaaaa)]);
    assert_eq!(walk(0x4242, 0, &memory), (vec![0x4242], 0));
}

#[test]
fn misaligned_frame_pointer_is_not_followed() {
    let memory = stack(&[(0x7004, 0x7100, 0xaaaa)]);
    assert_eq!(walk(0x4242, 0x7004, &memory), (vec![0x4242], 0));
}

#[test]
fn frames_come_out_caller_first() {
    let memory = stack(&[
        (0x7000, 0x7100, 0xaaaa),
        (0x7100, 0x7200, 0xbbbb),
        (0x7200, 0, 0xcccc),
    ]);
    assert_eq!(walk(0x4242, 0x7000, &memory), (vec![0xbbbb, 0xaaaa, 0x4242], 5));
}

#[test]
fn walk_stops_at_a_caller_that_is_not_above() {
    let lower = stack(&[(0x7000, 0x7100, 0xaaaa), (0x7100, 0x7000, 0xbbbb)]);
    assert_eq!(walk(1, 0x7000, &lower), (vec![0xaaaa, 1], 3));
    let same = stack(&[(0x7000, 0x7000, 0xaaaa)]);
    assert_eq!(walk(1, 0x7000, &same), (vec![1], 1));
}

#[test]
fn walk_stops_at_a_word_that_cannot_be_read() {
    let mut memory = stack(&[(0x7000, 0x7100, 0xaaaa), (0x7100, 0x7200, 0xbbbb)]);
    assert_eq!(walk(1, 0x7000, &memory), (vec![0xbbbb, 0xaaaa, 1], 5));
    memory.remove(&0x7108);
    assert_eq!(walk(1, 0x7000, &memory), (vec![0xaaaa, 1], 4));
    memory.remove(&0x7100);
    assert_eq!(walk(1, 0x7000, &memory), (vec![0xaaaa, 1], 3));
    memory.remove(&0x7000);
    assert_eq!(walk(1, 0x7000, &memory), (vec![1], 1));
}

#[test]
fn walk_stops_at_a_misaligned_caller() {
    let memory = stack(&[(0x7000, 0x7104, 0xaaaa), (0x7104, 0x7200, 0xbbbb)]);
    assert_eq!(walk(1, 0x7000, &memory), (vec![0xaaaa, 1], 2));
}

#[test]
fn frame_at_the_top_of_the_address_space_has_no_return_address() {
    let top = u64::MAX - 7;
    let mut memory = HashMap::new();
    memory.insert(top, u64::MAX);
    assert_eq!(walk(1, top, &memory), (vec![1], 1));
}

#[test]
fn supplying_after_the_end_changes_nothing() {
    let mut walker = StackWalker::new(9, 0);
    assert_eq!(walker.next_read(), None);
    walker.supply(Some(0x7000));
    walker.supply(None);
    assert_eq!(walker.next_read(), None);
    assert_eq!(walker.finish(), vec![9]);
}

#[test]
fn walker_asks_for_the_frame_pointer_then_the_return_address() {
    let mut walker = StackWalker::new(9, 0x1000);
    assert_eq!(walker.next_read(), Some(0x1000));
    walker.supply(Some(0x2000));
    assert_eq!(walker.next_read(), Some(0x1008));
    walker.supply(Some(0xabc));
    assert_eq!(walker.next_read(), Some(0x2000));
    walker.supply(None);
    assert_eq!(walker.next_read(), None);
    assert_eq!(walker.finish(), vec![0xabc, 9]);
}

#[test]
fn thread_info_holds_a_backtrace() {
    let (frames, _) = walk(5, 0, &HashMap::new());
    let thread = ThreadInfo { tid: 77, name: "main".to_string(), backtrace: Some(frames) };
    assert_eq!(thread.tid, 77);
    assert_eq!(thread.name, "main");
    assert_eq!(thread.backtrace, Some(vec![5]));
}
