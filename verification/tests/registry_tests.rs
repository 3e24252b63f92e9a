use codex_core::registry::{RegistryError, SessionRegistry};

fn s(t: &str) -> String {
    t.to_string()
}

#[test]
fn start_is_idempotent() {
    let mut reg = SessionRegistry::new();
    let first = reg.register(s("alpha"), s("/work/alpha"), 1);
    assert!(first.is_none());
    // a second start under the same identifier, with any configuration,
    // changes nothing and hands the losing handle back
    let second = reg.register(s("alpha"), s("/elsewhere"), 2);
    assert_eq!(second, Some(2));
    assert_eq!(reg.list(), vec![s("alpha")]);
    assert_eq!(reg.working_directory(&s("alpha")).unwrap(), s("/work/alpha"));
}

#[test]
fn absent_identifier_is_reported_and_nothing_changes() {
    let mut reg = SessionRegistry::new();
    reg.register(s("alpha"), s("/work/alpha"), 1);
    let ghost = s("ghost");
    assert!(matches!(reg.lookup_handle(&ghost), Err(RegistryError::SessionNotFound)));
    assert!(matches!(reg.working_directory(&ghost), Err(RegistryError::SessionNotFound)));
    assert!(matches!(reg.close(&ghost), Err(RegistryError::SessionNotFound)));
    assert_eq!(reg.list(), vec![s("alpha")]);
    assert!(reg.contains(&s("alpha")));
}

#[test]
fn lookup_returns_the_registered_handle() {
    let mut reg = SessionRegistry::new();
    reg.register(s("alpha"), s("/a"), 7);
    reg.register(s("beta"), s("/b"), 8);
    assert_eq!(reg.lookup_handle(&s("alpha")).unwrap(), 7);
    assert_eq!(reg.lookup_handle(&s("beta")).unwrap(), 8);
    assert_eq!(reg.working_directory(&s("beta")).unwrap(), s("/b"));
}

#[test]
fn close_removes_exactly_the_one_session() {
    let mut reg = SessionRegistry::new();
    reg.register(s("alpha"), s("/a"), 7);
    reg.register(s("beta"), s("/b"), 8);
    let h = reg.close(&s("alpha")).unwrap();
    assert_eq!(h, 7);
    assert!(!reg.contains(&s("alpha")));
    assert!(reg.contains(&s("beta")));
    assert_eq!(reg.list(), vec![s("beta")]);
    assert!(matches!(reg.close(&s("alpha")), Err(RegistryError::SessionNotFound)));
}

#[test]
fn list_keeps_insertion_order() {
    let mut reg = SessionRegistry::new();
    reg.register(s("one"), s("/1"), 1);
    reg.register(s("two"), s("/2"), 2);
    reg.register(s("three"), s("/3"), 3);
    assert_eq!(reg.list(), vec![s("one"), s("two"), s("three")]);
}

#[test]
fn two_distinct_starts_both_present() {
    let mut reg = SessionRegistry::new();
    assert!(reg.register(s("left"), s("/l"), 1).is_none());
    assert!(reg.register(s("right"), s("/r"), 2).is_none());
    assert!(reg.contains(&s("left")));
    assert!(reg.contains(&s("right")));
    assert_eq!(reg.list().len(), 2);
}
