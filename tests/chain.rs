use problemo::{
    Attachments, BacktraceAttachment, CapturedError, ErrorType, LowLevelError, MessageError,
    OverflowError, Problem, ThreadError,
};

fn message_of(error: &CapturedError) -> Option<String> {
    error.message.clone()
}

#[test]
fn conversion_gives_one_cause_of_the_type() {
    let p = Problem::from_error(MessageError::new("disk full"));
    assert_eq!(p.causes.len(), 1);
    let found = p.cause_of_type::<MessageError>().expect("a message error");
    assert_eq!(found.depth, 0);
    assert_eq!(found.error.kind, "MessageError");
    assert_eq!(message_of(found.error), Some("disk full".to_string()));
    assert!(p.has(&MessageError::new("disk full")));
    assert!(!p.has(&MessageError::new("disk empty")));
}

#[test]
fn conversion_attaches_one_backtrace() {
    let p = Problem::from_error(LowLevelError);
    let top = p.top().expect("a top cause");
    assert_eq!(top.attachments.len(), 1);
    assert_eq!(top.attachments_of_type::<BacktraceAttachment>().len(), 1);
}

#[test]
fn via_orders_top_to_root() {
    let p = Problem::from_error(MessageError::new("e1"))
        .via(MessageError::new("e2"))
        .via(MessageError::new("e3"));
    let messages: Vec<Option<String>> = p.errors().iter().map(|e| message_of(e)).collect();
    assert_eq!(
        messages,
        vec![Some("e3".to_string()), Some("e2".to_string()), Some("e1".to_string())]
    );
    assert_eq!(p.display(), "e3: e2: e1");
}

#[test]
fn via_does_not_capture_backtraces() {
    let p = Problem::from_error(LowLevelError).via(OverflowError);
    assert_eq!(p.causes[0].attachments.len(), 0);
    assert_eq!(p.causes[1].attachments.len(), 1);
}

#[test]
fn with_attaches_to_current_top() {
    let p = Problem::from_error(MessageError::new("e1"))
        .with("a1".to_string())
        .via(MessageError::new("e2"))
        .with("a2".to_string());
    assert_eq!(p.causes[0].attachments_of_type::<String>(), vec!["a2".to_string()]);
    assert_eq!(p.causes[1].attachments_of_type::<String>(), vec!["a1".to_string()]);
    assert_eq!(
        p.attachments_of_type::<String>(),
        vec!["a2".to_string(), "a1".to_string()]
    );
}

#[test]
fn with_on_empty_problem_is_no_op() {
    let p = Problem::new().with("lost".to_string()).maybe_with(Some("lost".to_string()));
    assert_eq!(p.causes.len(), 0);
    assert!(p.attachment_of_type::<String>().is_none());
}

#[test]
fn maybe_with_attaches_only_some() {
    let p = Problem::from_error(LowLevelError)
        .maybe_with(None::<String>)
        .maybe_with(Some("x".to_string()));
    assert_eq!(p.attachments_of_type::<String>(), vec!["x".to_string()]);
}

#[test]
fn attachments_of_same_type_keep_order() {
    let p = Problem::from_error(LowLevelError)
        .with("first".to_string())
        .with("second".to_string());
    assert_eq!(
        p.causes[0].attachments_of_type::<String>(),
        vec!["first".to_string(), "second".to_string()]
    );
    assert_eq!(p.causes[0].attachment_of_type::<String>(), Some("first".to_string()));
}

#[test]
fn has_type_through_sources() {
    let nested = MessageError::new("outer")
        .capture()
        .with_source(ThreadError::new("middle").capture().with_source(LowLevelError.capture()));
    let p = Problem::from_captured(nested).via(MessageError::new("top"));
    assert!(p.has_type::<LowLevelError>());
    assert!(p.has_type::<ThreadError>());
    let found = p.cause_of_type::<LowLevelError>().expect("found through sources");
    assert_eq!(found.depth, 1);
    assert_eq!(found.error.kind, "LowLevelError");
    assert!(found.is_root());
    assert!(!found.is_top());
}

#[test]
fn has_type_finds_nothing() {
    let p = Problem::from_error(MessageError::new("a")).via(ThreadError::new("b"));
    assert!(!p.has_type::<LowLevelError>());
    assert!(p.cause_of_type::<OverflowError>().is_none());
    assert!(p.causes_of_type::<OverflowError>().is_empty());
}

#[test]
fn own_error_found_before_source() {
    let inner = MessageError::new("inner").capture();
    let outer = MessageError::new("outer").capture().with_source(inner);
    let p = Problem::from_captured(outer);
    let found = p.cause_of_type::<MessageError>().expect("found");
    assert_eq!(message_of(found.error), Some("outer".to_string()));
}

#[test]
fn causes_of_type_in_chain_order() {
    let p = Problem::from_error(LowLevelError)
        .via(MessageError::new("x"))
        .via(LowLevelError);
    let depths: Vec<usize> = p.causes_of_type::<LowLevelError>().iter().map(|c| c.depth).collect();
    assert_eq!(depths, vec![0, 2]);
}

#[test]
fn causes_for_match_by_value() {
    let p = Problem::from_error(MessageError::new("a"))
        .via(MessageError::new("b"))
        .via(MessageError::new("a"));
    let depths: Vec<usize> = p
        .causes_for(&MessageError::new("a"))
        .iter()
        .map(|c| c.depth)
        .collect();
    assert_eq!(depths, vec![0, 2]);
    assert_eq!(p.cause_for(&MessageError::new("b")).map(|c| c.depth), Some(1));
    assert!(p.cause_for(&MessageError::new("c")).is_none());
    assert!(!p.has(&MessageError::new("c")));
}

#[test]
fn tags_are_equal_by_type() {
    let p = Problem::from_error(LowLevelError);
    assert!(p.has(&LowLevelError));
    assert!(!p.has(&OverflowError));
}

#[test]
fn walking_under_a_cause() {
    let p = Problem::from_error(MessageError::new("root"))
        .via(MessageError::new("middle"))
        .via(LowLevelError);
    let top = p.cause_of_type::<LowLevelError>().expect("top");
    let under = top.under().expect("a cause under");
    assert_eq!(under.depth, 1);
    assert_eq!(message_of(under.error), Some("middle".to_string()));
    let mut it = top.iter_under();
    assert_eq!(it.next().map(|c| c.depth), Some(1));
    assert_eq!(it.next().map(|c| c.depth), Some(2));
    assert!(it.next().is_none());
    assert!(it.next().is_none());
}

#[test]
fn top_and_root() {
    let p = Problem::from_error(MessageError::new("root")).via(LowLevelError);
    assert_eq!(p.top().map(|c| c.error.kind.clone()), Some("LowLevelError".to_string()));
    assert_eq!(p.root().map(|c| c.error.kind.clone()), Some("MessageError".to_string()));
    assert!(Problem::new().top().is_none());
    assert!(Problem::default().root().is_none());
}

#[test]
fn all_attachments_top_to_root() {
    let p = Problem::from_error(LowLevelError)
        .with("root".to_string())
        .via(OverflowError)
        .with("top".to_string());
    let kinds: Vec<String> = p.attachments().iter().map(|a| a.kind.clone()).collect();
    assert_eq!(kinds, vec!["String", "Backtrace", "String"]);
}

#[test]
fn cause_to_ref() {
    let p = Problem::from_error(MessageError::new("root")).via(LowLevelError);
    let r = p.causes[1].to_ref(&p, 1);
    assert!(r.is_root());
    assert!(r.under().is_none());
    assert_eq!(message_of(r.error), Some("root".to_string()));
}

#[test]
fn captured_errors_downcast_to_their_type() {
    let p = Problem::from_error(MessageError::new("disk full"));
    let error = &p.causes[0].error;
    assert_eq!(error.downcast::<MessageError>().map(|e| e.0), Some(Some("disk full".to_string())));
    assert!(error.downcast::<ThreadError>().is_none());
    assert!(error.downcast::<LowLevelError>().is_none());
    let tag = LowLevelError.capture();
    assert_eq!(tag.downcast::<LowLevelError>(), Some(LowLevelError));
}

#[test]
fn has_compares_every_source() {
    let outer = MessageError::new("a").capture().with_source(MessageError::new("b").capture());
    let p = Problem::from_captured(outer);
    assert!(p.has(&MessageError::new("a")));
    assert!(p.has(&MessageError::new("b")));
    assert!(!p.has(&MessageError::new("c")));
    let found = p.cause_for(&MessageError::new("b")).expect("found down the sources");
    assert_eq!(message_of(found.error), Some("b".to_string()));
}

#[test]
fn walking_always_advances() {
    let p = Problem::from_error(LowLevelError);
    let mut it = problemo::CauseRefIterator::new(&p, 1);
    assert!(it.next().is_none());
    assert_eq!(it.depth, 2);
}
