use opencode_desktop::events::CommandEvent;
use opencode_desktop::events::SqliteMigrationProgress;
use opencode_desktop::interceptor::Interceptor;

#[test]
fn migration_line_suppression() {
    let mut interceptor = Interceptor::new();

    let (fwd, notice) =
        interceptor.process(CommandEvent::Stdout(b"sqlite-migration: 42".to_vec()));
    assert!(fwd.is_none());
    assert_eq!(notice, Some(SqliteMigrationProgress::InProgress(42)));

    let (fwd, notice) =
        interceptor.process(CommandEvent::Stdout(b"sqlite-migration: done".to_vec()));
    assert!(fwd.is_none());
    assert_eq!(notice, Some(SqliteMigrationProgress::Done));

    let (fwd, notice) =
        interceptor.process(CommandEvent::Stdout(b"sqlite-migration: 50".to_vec()));
    assert_eq!(
        fwd,
        Some(CommandEvent::Stdout(b"sqlite-migration: 50".to_vec()))
    );
    assert!(notice.is_none());
}

#[test]
fn malformed_marker_lines_are_dropped_silently() {
    let mut interceptor = Interceptor::new();

    let (fwd, notice) =
        interceptor.process(CommandEvent::Stdout(b"sqlite-migration: banana".to_vec()));
    assert!(fwd.is_none());
    assert!(notice.is_none());

    let (fwd, notice) =
        interceptor.process(CommandEvent::Stdout(b"sqlite-migration: 256".to_vec()));
    assert!(fwd.is_none());
    assert!(notice.is_none());
}

#[test]
fn plus_signed_percentage_parses_like_the_standard_parser() {
    let mut interceptor = Interceptor::new();

    let (fwd, notice) =
        interceptor.process(CommandEvent::Stdout(b"sqlite-migration: +7".to_vec()));
    assert!(fwd.is_none());
    assert_eq!(notice, Some(SqliteMigrationProgress::InProgress(7)));
}

#[test]
fn padded_done_token_is_recognised() {
    let mut interceptor = Interceptor::new();

    let (fwd, notice) =
        interceptor.process(CommandEvent::Stdout(b"sqlite-migration:   done  ".to_vec()));
    assert!(fwd.is_none());
    assert_eq!(notice, Some(SqliteMigrationProgress::Done));
}

#[test]
fn unrelated_events_pass_through_in_order() {
    let mut interceptor = Interceptor::new();

    let (fwd, notice) = interceptor.process(CommandEvent::Stdout(b"plain line".to_vec()));
    assert_eq!(fwd, Some(CommandEvent::Stdout(b"plain line".to_vec())));
    assert!(notice.is_none());

    let (fwd, notice) = interceptor.process(CommandEvent::Stderr(b"warning".to_vec()));
    assert_eq!(fwd, Some(CommandEvent::Stderr(b"warning".to_vec())));
    assert!(notice.is_none());
}

#[test]
fn non_utf8_stdout_lines_pass_through() {
    let mut interceptor = Interceptor::new();

    let (fwd, notice) = interceptor.process(CommandEvent::Stdout(vec![0xff, 0xfe, 0x41]));
    assert_eq!(fwd, Some(CommandEvent::Stdout(vec![0xff, 0xfe, 0x41])));
    assert!(notice.is_none());
}

#[test]
fn marker_line_with_non_utf8_payload_is_dropped() {
    let mut interceptor = Interceptor::new();

    let mut line = b"sqlite-migration: ".to_vec();
    line.push(0xff);
    let (fwd, notice) = interceptor.process(CommandEvent::Stdout(line));
    assert!(fwd.is_none());
    assert!(notice.is_none());
}

#[test]
fn unicode_whitespace_around_payload_is_trimmed() {
    let mut interceptor = Interceptor::new();

    let (fwd, notice) = interceptor.process(CommandEvent::Stdout(
        "sqlite-migration:\u{a0}42\u{3000}".as_bytes().to_vec(),
    ));
    assert!(fwd.is_none());
    assert_eq!(notice, Some(SqliteMigrationProgress::InProgress(42)));

    let (fwd, notice) = interceptor.process(CommandEvent::Stdout(
        "sqlite-migration:\u{2028}done\u{85}".as_bytes().to_vec(),
    ));
    assert!(fwd.is_none());
    assert_eq!(notice, Some(SqliteMigrationProgress::Done));
}

#[test]
fn bare_prefix_without_payload_is_dropped() {
    let mut interceptor = Interceptor::new();

    let (fwd, notice) = interceptor.process(CommandEvent::Stdout(b"sqlite-migration:".to_vec()));
    assert!(fwd.is_none());
    assert!(notice.is_none());
}

#[test]
fn unpadded_done_token_is_recognised() {
    let mut interceptor = Interceptor::new();

    let (fwd, notice) =
        interceptor.process(CommandEvent::Stdout(b"sqlite-migration:done".to_vec()));
    assert!(fwd.is_none());
    assert_eq!(notice, Some(SqliteMigrationProgress::Done));
}
