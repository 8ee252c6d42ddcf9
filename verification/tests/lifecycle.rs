use gterm::errors::ConnError;
use gterm::local::{LocalConnection, SpawnOutcome};
use gterm::ssh::{ConnectOutcome, SshConnection};

#[test]
fn ssh_send_input_before_connect_fails() {
    let mut c = SshConnection::new(String::from("s1"));
    let r = c.send_input(b"ls\n".to_vec());
    assert_eq!(r, Err(ConnError::NotConnected));
}

#[test]
fn ssh_resize_before_connect_fails() {
    let mut c = SshConnection::new(String::from("s1"));
    assert_eq!(c.resize(100, 40), Err(ConnError::NotConnected));
    assert_eq!(c.current_geometry(), (80, 24));
}

#[test]
fn ssh_connect_ready_enables_operations() {
    let mut c = SshConnection::new(String::from("s1"));
    assert!(!c.connected());
    assert_eq!(c.connect(ConnectOutcome::Ready), Ok(()));
    assert!(c.connected());
    assert_eq!(c.current_geometry(), (80, 24));
    assert_eq!(c.send_input(b"echo hi\n".to_vec()), Ok(()));
    assert_eq!(c.resize(132, 43), Ok(()));
    assert_eq!(c.current_geometry(), (132, 43));
}

#[test]
fn ssh_double_connect_rejected() {
    let mut c = SshConnection::new(String::from("s1"));
    assert_eq!(c.connect(ConnectOutcome::Ready), Ok(()));
    assert_eq!(c.connect(ConnectOutcome::Ready), Err(ConnError::ConnectError));
    assert!(c.connected());
}

#[test]
fn ssh_connect_error_taxonomy() {
    let mut a = SshConnection::new(String::from("a"));
    assert_eq!(a.connect(ConnectOutcome::TcpFailed), Err(ConnError::ConnectError));
    let mut b = SshConnection::new(String::from("b"));
    assert_eq!(b.connect(ConnectOutcome::HandshakeFailed), Err(ConnError::ProtocolError));
    let mut c = SshConnection::new(String::from("c"));
    assert_eq!(c.connect(ConnectOutcome::AuthRejected), Err(ConnError::AuthFailed));
    let mut d = SshConnection::new(String::from("d"));
    assert_eq!(d.connect(ConnectOutcome::ChannelFailed), Err(ConnError::ProtocolError));
}

#[test]
fn ssh_auth_rejection_leaves_connection_empty() {
    let mut c = SshConnection::new(String::from("s1"));
    assert_eq!(c.connect(ConnectOutcome::AuthRejected), Err(ConnError::AuthFailed));
    assert!(!c.connected());
    // no input path was left behind
    assert_eq!(c.send_input(b"x".to_vec()), Err(ConnError::NotConnected));
    // a subsequent disconnect is a safe no-op
    assert_eq!(c.disconnect(), Ok(()));
    assert!(!c.connected());
    // and the instance is still usable for a fresh attempt
    assert_eq!(c.connect(ConnectOutcome::Ready), Ok(()));
}

#[test]
fn ssh_disconnect_idempotent() {
    let mut never = SshConnection::new(String::from("n"));
    assert_eq!(never.disconnect(), Ok(()));
    assert!(!never.connected());
    assert_eq!(never.current_geometry(), (80, 24));

    let mut c = SshConnection::new(String::from("s1"));
    assert_eq!(c.connect(ConnectOutcome::Ready), Ok(()));
    assert_eq!(c.resize(132, 43), Ok(()));
    assert_eq!(c.disconnect(), Ok(()));
    let first = (c.connected(), c.current_geometry());
    assert_eq!(c.disconnect(), Ok(()));
    let second = (c.connected(), c.current_geometry());
    assert_eq!(first, second);
    assert_eq!(first, (false, (80, 24)));
    assert_eq!(c.send_input(b"x".to_vec()), Err(ConnError::NotConnected));
}

#[test]
fn ssh_resize_keeps_identity_and_queue() {
    let mut c = SshConnection::new(String::from("keep"));
    assert_eq!(c.connect(ConnectOutcome::Ready), Ok(()));
    assert_eq!(c.send_input(b"queued before resize".to_vec()), Ok(()));
    assert_eq!(c.resize(132, 43), Ok(()));
    assert_eq!(c.current_geometry(), (132, 43));
    assert_eq!(c.id_str().as_str(), "keep");
    // further input still accepted: the input path was untouched
    assert_eq!(c.send_input(b"queued after resize".to_vec()), Ok(()));
}

#[test]
fn local_send_input_before_spawn_fails() {
    let mut c = LocalConnection::new(String::from("w1"));
    assert_eq!(c.send_input(b"ls\n".to_vec()), Err(ConnError::NotConnected));
}

#[test]
fn local_spawn_lifecycle() {
    let mut c = LocalConnection::new(String::from("w1"));
    assert_eq!(c.resize(100, 40), Err(ConnError::NotConnected));
    assert_eq!(c.spawn(SpawnOutcome::Ready), Ok(()));
    assert!(c.connected());
    assert_eq!(c.current_geometry(), (80, 24));
    assert_eq!(c.send_input(b"echo hi\n".to_vec()), Ok(()));
    assert_eq!(c.resize(132, 43), Ok(()));
    assert_eq!(c.current_geometry(), (132, 43));
    assert_eq!(c.spawn(SpawnOutcome::Ready), Err(ConnError::SpawnError));
    assert_eq!(c.disconnect(), Ok(()));
    assert!(!c.connected());
    assert_eq!(c.send_input(b"x".to_vec()), Err(ConnError::NotConnected));
}

#[test]
fn local_spawn_failures_are_spawn_error() {
    let mut a = LocalConnection::new(String::from("a"));
    assert_eq!(a.spawn(SpawnOutcome::PtyFailed), Err(ConnError::SpawnError));
    assert!(!a.connected());
    let mut b = LocalConnection::new(String::from("b"));
    assert_eq!(b.spawn(SpawnOutcome::SpawnFailed), Err(ConnError::SpawnError));
    assert!(!b.connected());
}

#[test]
fn local_disconnect_idempotent() {
    let mut c = LocalConnection::new(String::from("w1"));
    assert_eq!(c.spawn(SpawnOutcome::Ready), Ok(()));
    assert_eq!(c.disconnect(), Ok(()));
    let first = (c.connected(), c.current_geometry());
    assert_eq!(c.disconnect(), Ok(()));
    assert_eq!(first, (c.connected(), c.current_geometry()));
    assert_eq!(first, (false, (80, 24)));
}

#[test]
fn local_resize_truncates_to_window_units() {
    let mut c = LocalConnection::new(String::from("w1"));
    assert_eq!(c.spawn(SpawnOutcome::Ready), Ok(()));
    assert_eq!(c.resize(65536 + 132, 43), Ok(()));
    assert_eq!(c.current_geometry(), (132, 43));
}

#[test]
fn ssh_send_after_pump_stop_is_queue_closed() {
    let mut c = SshConnection::new(String::from("s1"));
    c.connect(ConnectOutcome::Ready).unwrap();
    c.close_input();
    assert_eq!(c.send_input(b"x".to_vec()), Err(ConnError::QueueClosed));
    // the transport is still up: resize still works
    assert_eq!(c.resize(100, 40), Ok(()));
    assert_eq!(c.disconnect(), Ok(()));
    assert_eq!(c.send_input(b"x".to_vec()), Err(ConnError::NotConnected));
}

#[test]
fn local_send_after_pump_stop_is_queue_closed() {
    let mut c = LocalConnection::new(String::from("w1"));
    c.spawn(SpawnOutcome::Ready).unwrap();
    c.close_input();
    assert_eq!(c.send_input(b"x".to_vec()), Err(ConnError::QueueClosed));
    assert_eq!(c.disconnect(), Ok(()));
}

#[test]
fn error_messages_are_exact() {
    assert_eq!(ConnError::NotConnected.message(), "not connected");
    assert_eq!(ConnError::SpawnError.message(), "failed to spawn shell");
    assert_eq!(ConnError::ConnectError.message(), "connection failed");
    assert_eq!(ConnError::AuthFailed.message(), "Authentication failed");
    assert_eq!(ConnError::ProtocolError.message(), "protocol error");
    assert_eq!(ConnError::IoError.message(), "I/O error");
    assert_eq!(ConnError::QueueClosed.message(), "input queue closed");
}
