use bored_node::cli::{is_whitespace, parse_cli_line, CliInput};

#[test]
fn blank_lines_do_nothing() {
    assert!(matches!(parse_cli_line(""), CliInput::Nothing));
    assert!(matches!(parse_cli_line(" \t\u{3000} "), CliInput::Nothing));
}

#[test]
fn send_to_splits_at_first_space() {
    match parse_cli_line("  /to peer1 hello there  ") {
        CliInput::SendTo { target, text } => {
            assert_eq!(target, "peer1");
            assert_eq!(text, "hello there");
        }
        other => panic!("unexpected {other:?}"),
    }
    assert!(matches!(parse_cli_line("/to peer1"), CliInput::SendToUsage));
    assert!(matches!(parse_cli_line("/to"), CliInput::Broadcast(t) if t == "/to"));
}

#[test]
fn keywords() {
    assert!(matches!(parse_cli_line("/list"), CliInput::Status));
    assert!(matches!(parse_cli_line("/queue next"), CliInput::Dismiss));
    assert!(matches!(parse_cli_line("/queue star\n"), CliInput::Star));
    assert!(matches!(parse_cli_line("/queue all"), CliInput::ListPending));
    assert!(matches!(parse_cli_line("/list star"), CliInput::ListStarred));
    assert!(matches!(parse_cli_line("/list  star"), CliInput::Broadcast(t) if t == "/list  star"));
}

#[test]
fn unstar_reads_an_id() {
    assert!(matches!(parse_cli_line("/unstar 1234"), CliInput::Unstar(1234)));
    assert!(matches!(parse_cli_line("/unstar    99  "), CliInput::Unstar(99)));
    assert!(matches!(parse_cli_line("/unstar x"), CliInput::UnstarUsage));
    assert!(matches!(parse_cli_line("/unstar -1"), CliInput::UnstarUsage));
}

#[test]
fn other_text_is_broadcast() {
    assert!(matches!(parse_cli_line("  hi there "), CliInput::Broadcast(t) if t == "hi there"));
}

#[test]
fn whitespace_matches_std() {
    for u in 0u32..0x3100 {
        if let Some(c) = char::from_u32(u) {
            assert_eq!(is_whitespace(c), c.is_whitespace(), "char {u:#x}");
        }
    }
}
