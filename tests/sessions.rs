use enzymeml_suite::jupyter::{parse_output_and_create_session, JupyterSession, JupyterSessions, SessionError};

#[test]
fn sessions_added_listed_and_removed() {
    let mut s: JupyterSessions<u32> = JupyterSessions::new();
    s.add_session(JupyterSession::new("a:8888".to_string(), "http://localhost:8888/lab?token=aa".to_string(), 8888));
    s.add_session_with_child("b:8889".to_string(), "http://localhost:8889/lab?token=bb".to_string(), 8889, 7);
    let all = s.get_sessions();
    assert_eq!(all.len(), 2);
    assert_eq!(all[1].id, "b:8889");
    assert_eq!(s.get_session("http://localhost:8889/lab?token=bb").unwrap().port, 8889);
    assert!(s.get_session("http://x").is_none());
    assert_eq!(s.take_child_from_session("b:8889"), Some(7));
    assert_eq!(s.take_child_from_session("b:8889"), None);
    assert_eq!(s.sessions.len(), 2);
    let removed = s.remove_session_by_id("a:8888").unwrap();
    assert_eq!(removed.port, 8888);
    assert!(s.remove_session_by_id("a:8888").is_none());
    assert_eq!(s.get_sessions().len(), 1);
}

#[test]
fn server_output_becomes_a_session() {
    let mut s: JupyterSessions<u32> = JupyterSessions::new();
    let mut child = Some(3u32);
    assert_eq!(
        parse_output_and_create_session(&mut s, "starting...", 8890, "proj".to_string(), &mut child),
        Err(SessionError::NoUrl)
    );
    assert_eq!(child, Some(3));
    let line = "  http://localhost:8890/lab?token=1f2e";
    assert_eq!(parse_output_and_create_session(&mut s, line, 8890, "proj".to_string(), &mut child), Ok(()));
    assert_eq!(child, None);
    assert_eq!(s.sessions[0].id, "proj:8890");
    assert_eq!(s.sessions[0].url, "http://localhost:8890/lab?token=1f2e");
    assert_eq!(s.sessions[0].child, Some(3));
    assert_eq!(
        parse_output_and_create_session(&mut s, line, 8890, "proj".to_string(), &mut child),
        Err(SessionError::ChildTaken)
    );
}
