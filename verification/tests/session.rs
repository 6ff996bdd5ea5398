use lazytail::session::{context_key, SessionFile, GLOBAL_KEY, MAX_CONTEXTS};

#[test]
fn test_context_key() {
    assert_eq!(context_key(None), GLOBAL_KEY);
    assert_eq!(
        context_key(Some("/home/user/project")),
        "/home/user/project"
    );
}

#[test]
fn test_cap_entries() {
    let mut session = SessionFile::new();
    for i in 0..150 {
        session.record_last_source(format!("/project/{}", i), format!("source-{}", i));
    }

    assert_eq!(session.len(), MAX_CONTEXTS);
}

#[test]
fn record_then_read_back() {
    let mut session = SessionFile::new();
    session.record_last_source("/home/user/project".to_string(), "api-logs".to_string());
    session.record_last_source(GLOBAL_KEY.to_string(), "system".to_string());
    assert_eq!(session.last_source("/home/user/project").as_deref(), Some("api-logs"));
    assert_eq!(session.last_source(GLOBAL_KEY).as_deref(), Some("system"));
    session.record_last_source("/home/user/project".to_string(), "web".to_string());
    assert_eq!(session.last_source("/home/user/project").as_deref(), Some("web"));
    assert_eq!(session.len(), 2);
    assert_eq!(session.last_source("/elsewhere"), None);
}

#[test]
fn capping_drops_the_oldest_contexts() {
    let mut session = SessionFile::new();
    for i in 0..(MAX_CONTEXTS + 3) {
        session.record_last_source(format!("/p/{}", i), format!("s{}", i));
    }
    assert_eq!(session.last_source("/p/0"), None);
    assert_eq!(session.last_source("/p/2"), None);
    assert_eq!(session.last_source("/p/3").as_deref(), Some("s3"));
    let last = format!("/p/{}", MAX_CONTEXTS + 2);
    assert_eq!(session.last_source(&last).as_deref(), Some(format!("s{}", MAX_CONTEXTS + 2).as_str()));
}
