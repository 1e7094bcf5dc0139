use raytrs::chunk::CHUNK_SIZE;
use raytrs::scheduler::{chunk_count, ChunkState, Dispatch, Scheduler, Signal};

#[test]
fn chunk_count_pads_the_last_chunk() {
    assert_eq!(CHUNK_SIZE, 256);
    assert_eq!(chunk_count(0), 0);
    assert_eq!(chunk_count(1), 1);
    assert_eq!(chunk_count(255), 1);
    assert_eq!(chunk_count(256), 1);
    assert_eq!(chunk_count(257), 2);
    assert_eq!(chunk_count(64 * 64), 16);
    assert_eq!(chunk_count(100 * 100), 40);
}

#[test]
fn new_scheduler_has_every_chunk_unrendered() {
    let s = Scheduler::new(600);
    assert_eq!(s.chunk_total(), 3);
    for i in 0..3 {
        assert_eq!(s.state(i), ChunkState::Unrendered);
    }
    assert_eq!(s.progress(), (0, 3));
}

#[test]
fn free_slots_get_the_chunks_in_order() {
    let mut s = Scheduler::new(3 * CHUNK_SIZE);
    assert_eq!(s.on_signal(Signal::SlotFree), Dispatch::Render(0));
    assert_eq!(s.state(0), ChunkState::InProgress);
    assert_eq!(s.on_signal(Signal::SlotFree), Dispatch::Render(1));
    assert_eq!(s.on_signal(Signal::SlotFree), Dispatch::Render(2));
    assert_eq!(s.on_signal(Signal::SlotFree), Dispatch::Wait);
    assert_eq!(s.progress(), (0, 3));
}

#[test]
fn scheduler_waits_while_chunks_are_in_progress() {
    let mut s = Scheduler::new(2 * CHUNK_SIZE);
    assert_eq!(s.on_signal(Signal::SlotFree), Dispatch::Render(0));
    assert_eq!(s.on_signal(Signal::SlotFree), Dispatch::Render(1));
    assert_eq!(s.on_signal(Signal::ChunkDone(1)), Dispatch::Wait);
    assert_eq!(s.state(1), ChunkState::Done);
    assert_eq!(s.progress(), (1, 2));
    assert_eq!(s.on_signal(Signal::ChunkDone(0)), Dispatch::Finished);
    assert_eq!(s.progress(), (2, 2));
}

#[test]
fn a_finished_chunk_frees_its_slot_for_the_next() {
    let mut s = Scheduler::new(3 * CHUNK_SIZE + 1);
    assert_eq!(s.chunk_total(), 4);
    assert_eq!(s.on_signal(Signal::SlotFree), Dispatch::Render(0));
    assert_eq!(s.on_signal(Signal::ChunkDone(0)), Dispatch::Render(1));
    assert_eq!(s.on_signal(Signal::ChunkDone(1)), Dispatch::Render(2));
    assert_eq!(s.on_signal(Signal::ChunkDone(2)), Dispatch::Render(3));
    assert_eq!(s.on_signal(Signal::ChunkDone(3)), Dispatch::Finished);
}

#[test]
fn an_image_without_pixels_is_finished_at_once() {
    let mut s = Scheduler::new(0);
    assert_eq!(s.on_signal(Signal::SlotFree), Dispatch::Finished);
}

fn run_with(threads: usize, chunks: usize, finish_latest_first: bool) -> Vec<usize> {
    let mut s = Scheduler::new(chunks * CHUNK_SIZE);
    let mut signals: Vec<Signal> = Vec::new();
    for _ in 0..threads {
        signals.push(Signal::SlotFree);
    }
    let mut running: Vec<usize> = Vec::new();
    let mut order: Vec<usize> = Vec::new();
    let mut finished = false;
    while !finished {
        let signal = if !signals.is_empty() {
            signals.remove(0)
        } else {
            let k = if finish_latest_first { running.pop().unwrap() } else { running.remove(0) };
            Signal::ChunkDone(k)
        };
        match s.on_signal(signal) {
            Dispatch::Render(k) => {
                running.push(k);
                order.push(k);
            }
            Dispatch::Wait => {}
            Dispatch::Finished => {
                finished = true;
            }
        }
    }
    assert_eq!(s.progress(), (chunks, chunks));
    order
}

#[test]
fn every_chunk_is_rendered_once_whatever_the_thread_count() {
    let expected: Vec<usize> = (0..7).collect();
    assert_eq!(run_with(1, 7, false), expected);
    assert_eq!(run_with(2, 7, true), expected);
    assert_eq!(run_with(4, 7, false), expected);
    assert_eq!(run_with(32, 7, true), expected);
}

#[test]
fn a_signal_for_a_chunk_that_is_not_there_only_frees_a_slot() {
    let mut s = Scheduler::new(2 * CHUNK_SIZE);
    assert_eq!(s.on_signal(Signal::ChunkDone(7)), Dispatch::Render(0));
    assert_eq!(s.on_signal(Signal::ChunkDone(2)), Dispatch::Render(1));
    assert_eq!(s.on_signal(Signal::ChunkDone(usize::MAX)), Dispatch::Wait);
    assert_eq!(s.progress(), (0, 2));
}

#[test]
fn a_chunk_reported_done_is_never_handed_out() {
    let mut s = Scheduler::new(3 * CHUNK_SIZE);
    assert_eq!(s.on_signal(Signal::ChunkDone(0)), Dispatch::Render(1));
    assert_eq!(s.state(0), ChunkState::Done);
    assert_eq!(s.on_signal(Signal::ChunkDone(1)), Dispatch::Render(2));
    assert_eq!(s.on_signal(Signal::ChunkDone(2)), Dispatch::Finished);
    assert_eq!(s.progress(), (3, 3));
}
