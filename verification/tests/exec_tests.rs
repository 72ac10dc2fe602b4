use sshcore::exec::{collect_exec_output, is_terminal_event, render_exec_output, ExecEvent};

#[test]
fn data_chunks_are_concatenated_until_eof() {
    let events = vec![
        ExecEvent::Data(b"hello ".to_vec()),
        ExecEvent::Data(b"world".to_vec()),
        ExecEvent::Eof,
        ExecEvent::Data(b"ignored".to_vec()),
    ];
    assert_eq!(collect_exec_output(events), b"hello world".to_vec());
}

#[test]
fn exit_status_ends_the_drain() {
    let events = vec![
        ExecEvent::Data(b"partial".to_vec()),
        ExecEvent::ExitStatus(0),
        ExecEvent::Data(b"late".to_vec()),
    ];
    assert_eq!(collect_exec_output(events), b"partial".to_vec());
}

#[test]
fn closed_stream_ends_the_drain() {
    let events = vec![ExecEvent::Data(b"out".to_vec()), ExecEvent::Closed];
    assert_eq!(collect_exec_output(events), b"out".to_vec());
}

#[test]
fn other_messages_are_ignored() {
    let events = vec![
        ExecEvent::Other,
        ExecEvent::Data(b"a".to_vec()),
        ExecEvent::Other,
        ExecEvent::Data(b"b".to_vec()),
        ExecEvent::Eof,
    ];
    assert_eq!(collect_exec_output(events), b"ab".to_vec());
}

#[test]
fn no_messages_give_empty_output() {
    assert_eq!(collect_exec_output(Vec::new()), Vec::<u8>::new());
}

#[test]
fn terminal_events_are_exactly_eof_exit_and_closed() {
    assert!(is_terminal_event(&ExecEvent::Eof));
    assert!(is_terminal_event(&ExecEvent::ExitStatus(1)));
    assert!(is_terminal_event(&ExecEvent::Closed));
    assert!(!is_terminal_event(&ExecEvent::Data(b"x".to_vec())));
    assert!(!is_terminal_event(&ExecEvent::Other));
}

#[test]
fn render_decodes_utf8_output() {
    let events = vec![ExecEvent::Data("gr\u{00fc}\u{00df}e\n".as_bytes().to_vec()), ExecEvent::Eof];
    assert_eq!(render_exec_output(events), "gr\u{00fc}\u{00df}e\n".to_string());
}

#[test]
fn render_replaces_invalid_utf8_instead_of_failing() {
    let events = vec![ExecEvent::Data(vec![b'o', b'k', 0xff, b'!']), ExecEvent::Eof];
    assert_eq!(render_exec_output(events), "ok\u{FFFD}!".to_string());
}

#[test]
fn render_of_no_output_is_empty() {
    let events = vec![ExecEvent::ExitStatus(0)];
    assert_eq!(render_exec_output(events), String::new());
}

#[test]
fn two_executors_keep_their_outputs_separate() {
    let first = vec![ExecEvent::Data(b"first".to_vec()), ExecEvent::Eof];
    let second = vec![ExecEvent::Data(b"second".to_vec()), ExecEvent::ExitStatus(0)];
    let out_first = collect_exec_output(first);
    let out_second = collect_exec_output(second);
    assert_eq!(out_first, b"first".to_vec());
    assert_eq!(out_second, b"second".to_vec());
}
