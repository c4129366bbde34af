use problemo::{
    Attachments, ErrorType,
    ConcurrencyError, ExitError, LowLevelError, MessageError, OverflowError, Problem,
    ThreadError,
};

#[test]
fn disk_full_scenario() {
    let converted = Problem::from_error(MessageError::new("disk full"));
    assert_eq!(converted.display(), "disk full");
    let p = converted.via(MessageError::new("write failed")).with("file.txt".to_string());
    assert_eq!(p.causes.len(), 2);
    assert_eq!(p.display(), "write failed: disk full");
    assert_eq!(p.attachment_of_type::<String>(), Some("file.txt".to_string()));
    assert_eq!(p.causes[0].attachments_of_type::<String>(), vec!["file.txt".to_string()]);
    assert!(p.causes[1].attachments_of_type::<String>().is_empty());
}

#[test]
fn labels_prefix_messages() {
    let p = Problem::from_error(ConcurrencyError::new("lock poisoned"))
        .via(ThreadError::new("worker"))
        .via(ThreadError(None));
    assert_eq!(p.display(), "thread: thread: worker: concurrency: lock poisoned");
}

#[test]
fn tags_render_their_label() {
    let p = Problem::from_error(OverflowError).via(LowLevelError);
    assert_eq!(p.display(), "low-level: overflow");
}

#[test]
fn message_error_without_message_renders_its_type() {
    let p = Problem::from_error(MessageError(None)).via(MessageError::new(""));
    assert_eq!(p.display(), "MessageError: MessageError");
    let p = Problem::from_error(ThreadError::new(""));
    assert_eq!(p.display(), "thread");
}

#[test]
fn exit_error_renders() {
    assert_eq!(ExitError::failure("bye").display(), "exit: bye");
    assert_eq!(ExitError::success().display(), "exit");
}

#[test]
fn empty_problem_renders_empty() {
    assert_eq!(Problem::new().display(), "");
    assert_eq!(Problem::new().debug(), "");
}

#[test]
fn debug_lists_errors_one_per_line() {
    let p = Problem::from_error(MessageError::new("say \"hi\"")).via(LowLevelError);
    assert_eq!(p.debug(), "LowLevelError\nMessageError(Some(\"say \\\"hi\\\"\"))");
    assert_eq!(Problem::from_error(MessageError(None)).debug(), "MessageError(None)");
}

#[test]
fn captured_error_renders_alone() {
    let e = ConcurrencyError::new("x").capture();
    assert_eq!(e.display(), "concurrency: x");
    assert_eq!(e.debug(), "ConcurrencyError(Some(\"x\"))");
    assert_eq!(LowLevelError.capture().debug(), "LowLevelError");
}
