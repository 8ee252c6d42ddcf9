use gterm::events::OutputEvent;
use gterm::local::{spawn_plan, LocalConnection, ReaderState, SpawnOutcome};
use gterm::pump::{PumpState, ReadOutcome};
use gterm::queue::InputQueue;
use gterm::ssh::{ConnectOutcome, SshConnection};

fn contains_bytes(h: &[u8], n: &[u8]) -> bool {
    if n.len() > h.len() {
        return false;
    }
    (0..=h.len() - n.len()).any(|i| &h[i..i + n.len()] == n)
}

/// Default-shell echo round trip: spawn with every default, queue an echo
/// command, drive the writer until the command is on the transport, and
/// check that the scripted shell output produces a Data event carrying "hi".
#[test]
fn local_echo_round_trip() {
    let plan = spawn_plan(None, None, None, None);
    assert_eq!(plan.shell, "/bin/zsh");
    assert_eq!(plan.cwd, "/");
    assert_eq!((plan.cols, plan.rows), (80, 24));
    assert_eq!(plan.term, "xterm-256color");

    let mut conn = LocalConnection::new(String::from("w1"));
    assert_eq!(conn.spawn(SpawnOutcome::Ready), Ok(()));
    assert_eq!(conn.send_input(b"echo hi\n".to_vec()), Ok(()));

    // writer side: what reaches the transport is exactly the queued command
    let mut q = InputQueue::new();
    q.push(b"echo hi\n".to_vec()).unwrap();
    let mut writer = PumpState::new();
    let mut transport: Vec<u8> = Vec::new();
    while writer.start_write(&mut q) {
        let pos = writer.write_position();
        let buf = writer.current_buffer().clone();
        transport.extend_from_slice(&buf[pos..]);
        writer.advance_write(buf.len() - pos);
    }
    assert_eq!(transport, b"echo hi\n".to_vec());

    // reader side: the shell's scripted reply arrives as one Data event
    let mut reader = ReaderState::new();
    let (ev, _) = reader.step(ReadOutcome::Data(b"hi\r\n".to_vec()));
    match ev {
        Some(OutputEvent::Data(bytes)) => assert!(contains_bytes(&bytes, b"hi")),
        other => panic!("expected a Data event, got {:?}", other),
    }
    assert_eq!(conn.disconnect(), Ok(()));
}

/// Wrong passphrase: the attempt fails with AuthFailed, nothing is left to
/// pump, and a subsequent disconnect succeeds trivially.
#[test]
fn remote_wrong_passphrase() {
    let mut conn = SshConnection::new(String::from("r1"));
    let r = conn.connect(ConnectOutcome::AuthRejected);
    assert_eq!(r, Err(gterm::errors::ConnError::AuthFailed));
    assert!(!conn.connected());
    assert_eq!(conn.disconnect(), Ok(()));
    assert!(!conn.connected());
}

/// Mid-session resize takes effect immediately, independent of queued input.
#[test]
fn resize_mid_session_immediate() {
    let mut conn = SshConnection::new(String::from("r1"));
    conn.connect(ConnectOutcome::Ready).unwrap();
    conn.send_input(vec![b'x'; 4096]).unwrap();
    assert_eq!(conn.resize(132, 43), Ok(()));
    assert_eq!(conn.current_geometry(), (132, 43));
}

/// A large input burst against steady output: one unified-loop iteration
/// always advances at most one write chunk and always attempts one read, so
/// neither direction waits more than one iteration for the other.
#[test]
fn burst_input_does_not_starve_reads() {
    let buffers = 128usize;
    let buf_len = 8192usize; // one megabyte in total
    let mut q = InputQueue::new();
    for i in 0..buffers {
        q.push(vec![(i % 251) as u8; buf_len]).unwrap();
    }

    let mut pump = PumpState::new();
    let mut written: usize = 0;
    let mut reads: usize = 0;
    let mut iterations: usize = 0;
    let chunk = 4096usize;

    while written < buffers * buf_len {
        iterations += 1;
        // write phase: at most one chunk of the buffer in flight
        let pending = if pump.has_pending_write() {
            true
        } else {
            pump.start_write(&mut q)
        };
        if pending {
            let pos = pump.write_position();
            let buf_len_now = pump.current_buffer().len();
            let n = chunk.min(buf_len_now - pos);
            pump.advance_write(n);
            written += n;
        }
        // read phase: runs every iteration, whatever the write did
        let ev = pump.handle_read(ReadOutcome::Data(vec![0u8; 1024]));
        assert!(matches!(ev, Some(OutputEvent::Data(_))));
        reads += 1;
    }

    // every iteration produced a read event: zero starved iterations
    assert_eq!(reads, iterations);
    assert_eq!(written, buffers * buf_len);
}
