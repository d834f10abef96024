use ai_agent::session::manager::{InMemorySessionManager, SessionError};
use ai_agent::session::model::Session;

#[test]
fn create_then_get_returns_the_session() {
    let mut m = InMemorySessionManager::new();
    let s = m.create("s1", Some("alice")).expect("new id");
    assert_eq!(s.session_id, "s1");
    assert_eq!(s.user_id.as_deref(), Some("alice"));
    let got = m.get("s1").expect("stored");
    assert_eq!(got.session_id, "s1");
    assert!(m.get("s2").is_none());
}

#[test]
fn create_refuses_an_existing_id() {
    let mut m = InMemorySessionManager::new();
    m.create("s1", None).expect("new id");
    let err = m.create("s1", None).expect_err("taken");
    let SessionError::AlreadyExists(id) = &err;
    assert_eq!(id, "s1");
    assert_eq!(err.message(), "session already exists: s1");
}

#[test]
fn save_replaces_and_get_reads_it_back() {
    let mut m = InMemorySessionManager::default();
    let mut s = Session::new("s1".to_string(), None);
    m.save(s.clone());
    s.state.context_summary = Some("summary".to_string());
    m.save(s);
    let got = m.get("s1").expect("saved");
    assert_eq!(got.state.context_summary.as_deref(), Some("summary"));
}

#[test]
fn get_or_create_keeps_an_existing_session() {
    let mut m = InMemorySessionManager::new();
    let mut s = Session::new("s1".to_string(), Some("bob".to_string()));
    s.state.last_summary_idx = Some(7);
    m.save(s);
    let got = m.get_or_create("s1", None);
    assert_eq!(got.state.last_summary_idx, Some(7));
    assert_eq!(got.user_id.as_deref(), Some("bob"));
    let fresh = m.get_or_create("s2", Some("carol"));
    assert!(fresh.events.is_empty());
    assert_eq!(fresh.user_id.as_deref(), Some("carol"));
    assert!(m.get("s2").is_some());
}
