use gterm::errors::ConnError;
use gterm::registry::AppState;
use gterm::ssh::ConnectOutcome;

#[test]
fn connect_stores_one_connection_per_id() {
    let mut st = AppState::new();
    assert_eq!(st.ssh_connect(String::from("s1"), ConnectOutcome::Ready), Ok(()));
    assert!(st.has_connection(&String::from("s1")));
    assert_eq!(st.len(), 1);
    // connecting again under the same id replaces, never duplicates
    assert_eq!(st.ssh_connect(String::from("s1"), ConnectOutcome::Ready), Ok(()));
    assert_eq!(st.len(), 1);
    assert_eq!(st.ssh_connect(String::from("s2"), ConnectOutcome::Ready), Ok(()));
    assert_eq!(st.len(), 2);
}

#[test]
fn failed_connect_stores_nothing() {
    let mut st = AppState::new();
    assert_eq!(
        st.ssh_connect(String::from("s1"), ConnectOutcome::AuthRejected),
        Err(ConnError::AuthFailed)
    );
    assert!(!st.has_connection(&String::from("s1")));
    assert_eq!(st.len(), 0);
    assert_eq!(
        st.ssh_connect(String::from("s1"), ConnectOutcome::TcpFailed),
        Err(ConnError::ConnectError)
    );
    assert_eq!(st.len(), 0);
}

#[test]
fn operations_on_missing_session_report_not_found() {
    let mut st = AppState::new();
    assert_eq!(st.ssh_send_input(&String::from("ghost"), b"x".to_vec()), None);
    assert_eq!(st.ssh_resize(&String::from("ghost"), 100, 40), None);
    assert_eq!(st.ssh_disconnect(&String::from("ghost")), None);
}

#[test]
fn send_and_resize_reach_the_stored_session() {
    let mut st = AppState::new();
    st.ssh_connect(String::from("s1"), ConnectOutcome::Ready).unwrap();
    assert_eq!(st.ssh_send_input(&String::from("s1"), b"echo hi\n".to_vec()), Some(Ok(())));
    assert_eq!(st.ssh_resize(&String::from("s1"), 132, 43), Some(Ok(())));
}

#[test]
fn disconnect_removes_and_frees_the_id() {
    let mut st = AppState::new();
    st.ssh_connect(String::from("s1"), ConnectOutcome::Ready).unwrap();
    st.ssh_connect(String::from("s2"), ConnectOutcome::Ready).unwrap();
    assert_eq!(st.ssh_disconnect(&String::from("s1")), Some(Ok(())));
    assert!(!st.has_connection(&String::from("s1")));
    assert!(st.has_connection(&String::from("s2")));
    assert_eq!(st.len(), 1);
    // disconnect is safe to repeat: the id is simply gone
    assert_eq!(st.ssh_disconnect(&String::from("s1")), None);
    // and the id can be reused
    assert_eq!(st.ssh_connect(String::from("s1"), ConnectOutcome::Ready), Ok(()));
    assert_eq!(st.len(), 2);
}
