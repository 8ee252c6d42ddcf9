use gterm::errors::ConnError;
use gterm::events::OutputEvent;
use gterm::pump::{PumpState, ReadOutcome};
use gterm::queue::InputQueue;

/// Drain the queue through the pump, handing the transport at most
/// `chunk` bytes per write, and return every byte in the order written.
fn drain_in_chunks(q: &mut InputQueue, chunk: usize) -> Vec<u8> {
    let mut p = PumpState::new();
    let mut sink: Vec<u8> = Vec::new();
    let mut pending = false;
    loop {
        if !pending {
            if q.len() == 0 {
                break;
            }
            pending = p.start_write(q);
            if !pending {
                continue; // an empty buffer completed on the spot
            }
        }
        let pos = p.write_position();
        let buf = p.current_buffer().clone();
        let n = if chunk < buf.len() - pos { chunk } else { buf.len() - pos };
        sink.extend_from_slice(&buf[pos..pos + n]);
        if p.advance_write(n) {
            pending = false;
        }
    }
    sink
}

#[test]
fn sequential_buffers_written_in_order() {
    let mut q = InputQueue::new();
    q.push(vec![1, 2, 3]).unwrap();
    q.push(vec![4, 5]).unwrap();
    q.push(vec![6, 7, 8, 9]).unwrap();
    let sink = drain_in_chunks(&mut q, 64);
    assert_eq!(sink, vec![1, 2, 3, 4, 5, 6, 7, 8, 9]);
}

#[test]
fn partial_writes_never_interleave_buffers() {
    let mut q = InputQueue::new();
    q.push(vec![10, 11, 12, 13, 14]).unwrap();
    q.push(vec![20, 21, 22]).unwrap();
    q.push(vec![30]).unwrap();
    // two bytes at a time: every buffer is still contiguous in the output
    let sink = drain_in_chunks(&mut q, 2);
    assert_eq!(sink, vec![10, 11, 12, 13, 14, 20, 21, 22, 30]);
}

#[test]
fn empty_buffers_complete_without_write() {
    let mut q = InputQueue::new();
    q.push(Vec::new()).unwrap();
    q.push(vec![7]).unwrap();
    q.push(Vec::new()).unwrap();
    let sink = drain_in_chunks(&mut q, 1);
    assert_eq!(sink, vec![7]);
}

#[test]
fn queue_fifo_pop_order() {
    let mut q = InputQueue::new();
    q.push(vec![1]).unwrap();
    q.push(vec![2]).unwrap();
    assert_eq!(q.len(), 2);
    assert_eq!(q.pop(), Some(vec![1]));
    assert_eq!(q.pop(), Some(vec![2]));
    assert_eq!(q.pop(), None);
}

#[test]
fn closed_queue_rejects_input() {
    let mut q = InputQueue::new();
    assert!(q.is_open());
    q.push(vec![1]).unwrap();
    q.close();
    assert!(!q.is_open());
    assert_eq!(q.push(vec![2]), Err(ConnError::QueueClosed));
    // the consumer can still drain what was already queued
    assert_eq!(q.pop(), Some(vec![1]));
}

#[test]
fn would_block_write_changes_nothing() {
    let mut q = InputQueue::new();
    q.push(vec![1, 2]).unwrap();
    let mut p = PumpState::new();
    assert!(p.start_write(&mut q));
    let before = (p.write_position(), p.current_buffer().clone());
    let ev = p.write_failed(true);
    assert!(ev.is_none());
    assert!(!p.should_stop());
    assert_eq!(before, (p.write_position(), p.current_buffer().clone()));
}

#[test]
fn fatal_write_error_reported_once() {
    let mut q = InputQueue::new();
    q.push(vec![1]).unwrap();
    let mut p = PumpState::new();
    assert!(p.start_write(&mut q));
    let ev = p.write_failed(false);
    assert_eq!(ev, Some(OutputEvent::Error(String::from("I/O error"))));
    assert!(p.should_stop());
}

#[test]
fn read_outcomes_map_to_events() {
    let mut p = PumpState::new();
    assert_eq!(p.handle_read(ReadOutcome::WouldBlock), None);
    assert!(!p.should_stop());
    assert_eq!(
        p.handle_read(ReadOutcome::Data(b"out".to_vec())),
        Some(OutputEvent::Data(b"out".to_vec()))
    );
    assert!(!p.should_stop());
    assert_eq!(p.handle_read(ReadOutcome::Eof), Some(OutputEvent::Closed));
    assert!(p.should_stop());
}

#[test]
fn read_error_stops_pump() {
    let mut p = PumpState::new();
    let ev = p.handle_read(ReadOutcome::Failed);
    assert!(matches!(ev, Some(OutputEvent::Error(_))));
    assert!(p.should_stop());
}

#[test]
fn shutdown_signal_stops_pump() {
    let mut p = PumpState::new();
    p.observe_shutdown(false);
    assert!(!p.should_stop());
    p.observe_shutdown(true);
    assert!(p.should_stop());
}
