use terminal_host::reader::{OutputReader, ReaderAction, ReaderEvent, ReaderPhase, TerminalExit};

fn output_of(action: ReaderAction) -> (u32, String) {
    match action {
        ReaderAction::Publish(o) => (o.id, o.data),
        other => panic!("expected an output event, got {:?}", other),
    }
}

#[test]
fn chunks_are_published_in_order() {
    let mut r = OutputReader::new(4);
    assert_eq!(r.id(), 4);
    let a = r.step(ReaderEvent::Chunk(b"$ ec".to_vec()));
    let b = r.step(ReaderEvent::Chunk(b"ho hi\r\n".to_vec()));
    assert_eq!(output_of(a), (4, "$ ec".to_string()));
    assert_eq!(output_of(b), (4, "ho hi\r\n".to_string()));
    assert_eq!(r.phase(), ReaderPhase::Reading);
}

#[test]
fn invalid_bytes_are_replaced() {
    let mut r = OutputReader::new(1);
    let a = r.step(ReaderEvent::Chunk(vec![b'o', b'k', 0xff, b'!']));
    assert_eq!(output_of(a), (1, "ok\u{FFFD}!".to_string()));
    let b = r.step(ReaderEvent::Chunk(vec![0xe2, 0x82, 0xac]));
    assert_eq!(output_of(b), (1, "\u{20AC}".to_string()));
}

#[test]
fn shell_exit_gives_one_exit_event_after_output() {
    let mut r = OutputReader::new(2);
    let first = r.step(ReaderEvent::Chunk(b"exit\r\nlogout\r\n".to_vec()));
    assert_eq!(output_of(first), (2, "exit\r\nlogout\r\n".to_string()));
    assert!(matches!(r.step(ReaderEvent::Chunk(Vec::new())), ReaderAction::AwaitChild));
    assert_eq!(r.phase(), ReaderPhase::AwaitingExit);
    match r.step(ReaderEvent::ChildExited(Some(0))) {
        ReaderAction::PublishExit(x) => assert_eq!(x, TerminalExit { id: 2, code: Some(0) }),
        other => panic!("expected the exit event, got {:?}", other),
    }
    assert_eq!(r.phase(), ReaderPhase::Finished);
    assert!(matches!(r.step(ReaderEvent::ChildExited(Some(0))), ReaderAction::Ignored));
    assert!(matches!(r.step(ReaderEvent::Chunk(b"late".to_vec())), ReaderAction::Ignored));
}

#[test]
fn read_error_ends_reading_and_exit_code_may_be_absent() {
    let mut r = OutputReader::new(9);
    assert!(matches!(r.step(ReaderEvent::ReadFailed), ReaderAction::AwaitChild));
    assert!(matches!(r.step(ReaderEvent::Chunk(b"x".to_vec())), ReaderAction::Ignored));
    match r.step(ReaderEvent::ChildExited(None)) {
        ReaderAction::PublishExit(x) => assert_eq!(x, TerminalExit { id: 9, code: None }),
        other => panic!("expected the exit event, got {:?}", other),
    }
}

#[test]
fn exit_seen_while_reading_is_ignored() {
    let mut r = OutputReader::new(3);
    assert!(matches!(r.step(ReaderEvent::ChildExited(Some(1))), ReaderAction::Ignored));
    assert_eq!(r.phase(), ReaderPhase::Reading);
    let a = r.step(ReaderEvent::Chunk(b"/home/user\r\n".to_vec()));
    assert_eq!(output_of(a), (3, "/home/user\r\n".to_string()));
}

#[test]
fn nonzero_exit_code_is_passed_on() {
    let mut r = OutputReader::new(5);
    r.step(ReaderEvent::Chunk(Vec::new()));
    match r.step(ReaderEvent::ChildExited(Some(127))) {
        ReaderAction::PublishExit(x) => assert_eq!(x.code, Some(127)),
        other => panic!("expected the exit event, got {:?}", other),
    }
}
