use terminal_host::registry::{SessionError, TerminalState};

#[test]
fn ids_start_at_one_and_increase() {
    let mut state: TerminalState<&str> = TerminalState::new();
    assert_eq!(state.register("a"), Ok(1));
    assert_eq!(state.register("b"), Ok(2));
    assert_eq!(state.register("c"), Ok(3));
}

#[test]
fn ids_are_not_reused_after_close() {
    let mut state: TerminalState<&str> = TerminalState::new();
    let a = state.register("a").unwrap();
    let b = state.register("b").unwrap();
    assert_eq!(state.close(b), Some("b"));
    assert_eq!(state.close(a), Some("a"));
    let c = state.register("c").unwrap();
    assert_eq!(c, 3);
    assert!(c > b && b > a);
}

#[test]
fn unknown_id_is_not_found() {
    let mut state: TerminalState<u8> = TerminalState::new();
    assert_eq!(state.get(1).err(), Some(SessionError::NotFound(1)));
    assert_eq!(state.get(0).err(), Some(SessionError::NotFound(0)));
    state.register(7).unwrap();
    assert_eq!(state.get(2).err(), Some(SessionError::NotFound(2)));
    assert_eq!(state.get(1).ok(), Some(&7));
}

#[test]
fn closed_id_is_not_found_and_close_is_idempotent() {
    let mut state: TerminalState<u8> = TerminalState::new();
    let id = state.register(5).unwrap();
    assert!(state.contains(id));
    assert_eq!(state.close(id), Some(5));
    assert!(!state.contains(id));
    assert_eq!(state.get(id).err(), Some(SessionError::NotFound(id)));
    assert_eq!(state.close(id), None);
    assert_eq!(state.close(99), None);
    assert_eq!(state.get(id).err(), Some(SessionError::NotFound(id)));
}

#[test]
fn closing_one_session_leaves_the_others() {
    let mut state: TerminalState<u8> = TerminalState::new();
    let a = state.register(10).unwrap();
    let b = state.register(20).unwrap();
    let c = state.register(30).unwrap();
    state.close(b);
    assert_eq!(state.get(a).ok(), Some(&10));
    assert_eq!(state.get(c).ok(), Some(&30));
    assert_eq!(state.get(b).err(), Some(SessionError::NotFound(b)));
}

#[test]
fn failed_lookup_changes_nothing() {
    // A resize whose backend call fails goes through a lookup only; the
    // registry and the other sessions stay as they were.
    let mut state: TerminalState<(u16, u16)> = TerminalState::new();
    let a = state.register((24, 80)).unwrap();
    let b = state.register((0, 0)).unwrap();
    assert_eq!(state.get(b).ok(), Some(&(0, 0)));
    assert_eq!(state.get(a).ok(), Some(&(24, 80)));
    assert_eq!(state.register((1, 1)), Ok(3));
}

#[test]
fn write_and_resize_after_close_are_not_found() {
    let mut state: TerminalState<String> = TerminalState::new();
    let id = state.register("/tmp".to_string()).unwrap();
    assert!(state.get(id).is_ok());
    state.close(id);
    assert_eq!(state.get(id).err(), Some(SessionError::NotFound(id)));
}
