use airpods_gnome_daemon::control::{
    reply_outcome, trimmed, valid_command, CommandReader, ReadStep, ReplyOutcome,
    MAX_COMMAND_BYTES,
};

#[test]
fn a_newline_ends_a_command() {
    let mut reader = CommandReader::new();
    for b in b"noise:anc" {
        assert_eq!(reader.byte(*b), ReadStep::More);
    }
    assert_eq!(reader.byte(b'\n'), ReadStep::Complete);
    assert_eq!(reader.command().as_deref(), Some("noise:anc"));
}

#[test]
fn closing_the_connection_ends_a_command_unless_nothing_was_sent() {
    let mut reader = CommandReader::new();
    assert_eq!(reader.end(), ReadStep::Invalid);
    reader.byte(b's');
    assert_eq!(reader.end(), ReadStep::Complete);
    assert_eq!(reader.command().as_deref(), Some("s"));
}

#[test]
fn overlong_commands_are_refused() {
    let mut reader = CommandReader::new();
    for _ in 0..MAX_COMMAND_BYTES {
        assert_eq!(reader.byte(b'a'), ReadStep::More);
    }
    assert_eq!(reader.byte(b'a'), ReadStep::Invalid);
    assert_eq!(reader.byte(b'\n'), ReadStep::Complete);
    assert_eq!(reader.bytes.len(), MAX_COMMAND_BYTES);
}

#[test]
fn commands_must_be_utf8() {
    let mut reader = CommandReader::new();
    reader.byte(0xff);
    assert_eq!(reader.command(), None);
    let mut reader = CommandReader::new();
    for b in "adaptive:5–".as_bytes() {
        reader.byte(*b);
    }
    assert_eq!(reader.command().as_deref(), Some("adaptive:5–"));
}

#[test]
fn the_client_checks_its_command() {
    assert!(valid_command("status"));
    assert!(valid_command(""));
    assert!(!valid_command("noise:anc\n"));
    assert!(!valid_command("a\rb"));
    assert!(!valid_command("a\0"));
    assert!(valid_command(&"a".repeat(128)));
    assert!(!valid_command(&"a".repeat(129)));
    assert!(!valid_command(&"é".repeat(65)));
}

#[test]
fn the_client_reads_the_reply() {
    assert_eq!(reply_outcome("status", "{\"connected\":true}\n"), ReplyOutcome::Print);
    assert_eq!(reply_outcome("ear:off", "ok\n"), ReplyOutcome::Done);
    assert_eq!(reply_outcome("ear:off", "ok"), ReplyOutcome::Unexpected);
    assert_eq!(reply_outcome("ear:off", ""), ReplyOutcome::Empty);
    assert_eq!(reply_outcome("status", "error: Unknown command\n"), ReplyOutcome::Refused);
    assert_eq!(reply_outcome("status", &"x".repeat(65_537)), ReplyOutcome::Oversized);
    assert_eq!(reply_outcome("status", &"x".repeat(65_536)), ReplyOutcome::Print);
    assert_eq!(trimmed("  error: Unknown command\n"), "error: Unknown command");
    assert_eq!(trimmed("\u{3000}x\u{85}"), "x");
    assert_eq!(trimmed(""), "");
}
