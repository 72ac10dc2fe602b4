use sshcore::errors::ErrorKind;
use sshcore::registry::{finish_connect, Registry};

#[test]
fn register_then_lookup_returns_handle() {
    let mut reg: Registry<String> = Registry::new();
    let id = reg.register("alpha".to_string());
    assert_eq!(id, 0);
    let handle = reg.lookup(id).expect("session must be present");
    assert_eq!(handle, "alpha");
}

#[test]
fn lookup_unknown_id_fails_with_unknown_session() {
    let reg: Registry<String> = Registry::new();
    let err = reg.lookup(7).expect_err("lookup of unregistered id must fail");
    assert_eq!(err.kind(), ErrorKind::UnknownSession);
}

#[test]
fn ids_are_not_reused_after_removal() {
    let mut reg: Registry<u32> = Registry::new();
    let first = reg.register(10);
    assert!(reg.remove(first).is_some());
    let second = reg.register(20);
    assert_ne!(first, second);
    assert!(reg.lookup(first).is_err());
    assert_eq!(*reg.lookup(second).unwrap(), 20);
}

#[test]
fn ids_are_distinct_across_many_registrations() {
    let mut reg: Registry<u32> = Registry::new();
    let mut seen = Vec::new();
    for k in 0..100u32 {
        let id = reg.register(k);
        assert!(!seen.contains(&id));
        seen.push(id);
        if k % 3 == 0 {
            reg.remove(id);
        }
    }
}

#[test]
fn remove_returns_handle_once_then_none() {
    let mut reg: Registry<String> = Registry::new();
    let id = reg.register("beta".to_string());
    assert_eq!(reg.remove(id), Some("beta".to_string()));
    assert_eq!(reg.remove(id), None);
    assert_eq!(reg.remove(id), None);
}

#[test]
fn remove_of_unknown_id_is_a_noop() {
    let mut reg: Registry<u32> = Registry::new();
    let id = reg.register(1);
    assert_eq!(reg.remove(id + 5), None);
    assert!(reg.contains(id));
}

#[test]
fn finish_connect_registers_on_auth_success() {
    let mut reg: Registry<String> = Registry::new();
    let id = finish_connect(&mut reg, true, "conn".to_string()).expect("must register");
    assert!(reg.contains(id));
    assert_eq!(reg.lookup(id).unwrap(), "conn");
}

#[test]
fn finish_connect_rejected_auth_leaves_registry_untouched() {
    let mut reg: Registry<String> = Registry::new();
    let kept = reg.register("kept".to_string());
    let err = finish_connect(&mut reg, false, "conn".to_string())
        .expect_err("rejected auth must fail");
    assert_eq!(err.kind(), ErrorKind::AuthRejected);
    assert!(reg.contains(kept));
    assert!(!reg.contains(kept + 1));
    let next = reg.register("after".to_string());
    assert_eq!(next, kept + 1);
}
