use problemo::{
    Attachments,
    BacktraceAttachment, ExitCodeAttachment, ExitError, FailFast, IntoProblem,
    IntoProblemResult, LowLevelError, MapIntoCommonProblemResult, MapIntoProblemResult,
    MessageError, OverflowError, Problem, ProblemReceiver, ProblemResult, Problems,
    ReportReceiverResult, WithExitCode,
};

#[test]
fn check_succeeds_when_empty() {
    let problems = Problems::new();
    assert!(problems.is_empty());
    assert!(problems.check().is_ok());
    assert!(Problems::with_capacity(8).check().is_ok());
}

#[test]
fn check_fails_after_add() {
    let mut problems = Problems::default();
    problems.add(Problem::from_error(MessageError::new("one")));
    assert_eq!(problems.len(), 1);
    match problems.check() {
        Ok(()) => panic!("check should fail"),
        Err(all) => {
            assert_eq!(all.problems.len(), 1);
            assert_eq!(all.problems[0].display(), "one");
        }
    }
}

#[test]
fn critical_type_is_handed_back() {
    let mut problems = Problems::new();
    problems.handle_type_as_critical::<OverflowError>();
    let given = Problem::from_error(LowLevelError).via(OverflowError);
    let r = problems.give(given);
    match r {
        Ok(()) => panic!("critical problems propagate"),
        Err(p) => assert_eq!(p.display(), "overflow: low-level"),
    }
    assert_eq!(problems.len(), 0);
    assert!(problems.give(Problem::from_error(LowLevelError)).is_ok());
    assert_eq!(problems.len(), 1);
}

#[test]
fn only_the_top_error_decides() {
    let mut problems = Problems::new();
    problems.handle_type_as_critical::<OverflowError>();
    let p = Problem::from_error(OverflowError).via(LowLevelError);
    assert!(!problems.is_critical(&p));
    assert!(problems.give(p).is_ok());
    assert_eq!(problems.len(), 1);
}

#[test]
fn empty_problem_is_not_critical() {
    let mut problems = Problems::new();
    problems.handle_type_as_critical::<OverflowError>();
    assert!(!problems.is_critical(&Problem::new()));
}

#[test]
fn fail_fast_hands_everything_back() {
    let mut receiver = FailFast;
    let r = receiver.give(Problem::from_error(LowLevelError));
    assert_eq!(r.err().map(|p| p.display()), Some("low-level".to_string()));
}

#[test]
fn give_ok_accumulates_or_propagates() {
    let mut problems = Problems::new();
    let failed: Result<u32, Problem> = Err(Problem::from_error(LowLevelError));
    assert_eq!(failed.give_ok(&mut problems).ok(), Some(None));
    assert_eq!(problems.len(), 1);
    let fine: Result<u32, Problem> = Ok(7);
    assert_eq!(fine.give_ok(&mut problems).ok(), Some(Some(7)));
    let failed: Result<u32, Problem> = Err(Problem::from_error(LowLevelError));
    assert!(failed.give_ok(&mut FailFast).is_err());
}

#[test]
fn give_unwrap_or_uses_the_default() {
    let mut problems = Problems::new();
    let failed: Result<u32, Problem> = Err(Problem::from_error(LowLevelError));
    assert_eq!(failed.give_unwrap_or(&mut problems, 5).ok(), Some(5));
    let failed: Result<u32, Problem> = Err(Problem::from_error(LowLevelError));
    assert_eq!(failed.give_unwrap_or_default(&mut problems).ok(), Some(0));
    assert_eq!(problems.len(), 2);
}

#[test]
fn problems_from_errors() {
    let problems = Problems::from_errors(vec![MessageError::new("a"), MessageError::new("b")]);
    assert_eq!(problems.len(), 2);
    assert_eq!(problems.display(), "a\nb");
    assert_eq!(problems.debug(), "MessageError(Some(\"a\"))\nMessageError(Some(\"b\"))");
}

#[test]
fn splicing_behind_keeps_ours_on_top() {
    let ours = Problem::from_error(MessageError::new("o1")).via(MessageError::new("o2"));
    let theirs = Problem::from_error(MessageError::new("t1")).via(MessageError::new("t2"));
    let p = ours.behind(theirs);
    assert_eq!(p.causes.len(), 4);
    assert_eq!(p.display(), "o2: o1: t2: t1");
}

#[test]
fn splicing_under_puts_ours_deeper() {
    let ours = Problem::from_error(MessageError::new("o1")).via(MessageError::new("o2"));
    let theirs = Problem::from_error(MessageError::new("t1"));
    let p = ours.under(theirs);
    assert_eq!(p.causes.len(), 3);
    assert_eq!(p.display(), "t1: o2: o1");
}

#[test]
fn splicing_with_empty_keeps_causes() {
    let p = Problem::new().behind(Problem::from_error(LowLevelError));
    assert_eq!(p.display(), "low-level");
    let p = Problem::new().under(Problem::new());
    assert_eq!(p.causes.len(), 0);
}

#[test]
fn give_ok_on_plain_errors() {
    let mut problems = Problems::new();
    let failed: Result<u32, LowLevelError> = Err(LowLevelError);
    assert_eq!(failed.give_ok(&mut problems).ok(), Some(None));
    assert_eq!(problems.len(), 1);
    assert_eq!(problems.problems[0].display(), "low-level");
    let failed: Result<u32, LowLevelError> = Err(LowLevelError);
    assert!(failed.give_unwrap_or(&mut FailFast, 3).is_err());
    let failed: Result<u32, LowLevelError> = Err(LowLevelError);
    assert_eq!(failed.give_unwrap_or_default(&mut problems).ok(), Some(0));
    assert_eq!(problems.len(), 2);
}

#[test]
fn give_ok_hands_critical_problems_back() {
    let mut problems = Problems::new();
    problems.handle_type_as_critical::<LowLevelError>();
    let failed: Result<u32, Problem> = Err(Problem::from_error(LowLevelError));
    assert!(failed.give_ok(&mut problems).is_err());
    assert_eq!(problems.len(), 0);
}

#[test]
fn plain_error_results_build_problems() {
    let r: Result<(), LowLevelError> = Err(LowLevelError);
    let p = r.via(MessageError::new("reading")).err().expect("failed");
    assert_eq!(p.display(), "reading: low-level");
    let r: Result<(), LowLevelError> = Err(LowLevelError);
    let p = r.with("path".to_string()).err().expect("failed");
    assert_eq!(p.attachment_of_type::<String>(), Some("path".to_string()));
    let r: Result<(), LowLevelError> = Err(LowLevelError);
    let p = r.with_backtrace().err().expect("failed");
    assert_eq!(p.causes[0].attachments.len(), 1);
    let r: Result<(), LowLevelError> = Err(LowLevelError);
    assert_eq!(r.maybe_with(None::<String>).err().map(|p| p.causes.len()), Some(1));
}

#[test]
fn with_backtrace_twice_attaches_once() {
    let p = Problem::from_error(LowLevelError).via(OverflowError);
    assert_eq!(p.causes[0].attachments.len(), 0);
    let p = p.with_backtrace().with_backtrace();
    assert_eq!(p.causes[0].attachments_of_type::<BacktraceAttachment>().len(), 1);
    assert_eq!(p.causes[0].attachments.len(), 1);
}

#[test]
fn with_backtrace_on_converted_problem_keeps_one() {
    let p = Problem::from_error(LowLevelError).with_backtrace();
    assert_eq!(p.causes[0].attachments.len(), 1);
}

#[test]
fn exit_codes() {
    assert_eq!(ExitCodeAttachment::failure().exit_code, 1);
    assert_eq!(ExitCodeAttachment::success().exit_code, 0);
    let p = Problem::from_error(LowLevelError).with_exit_code(3).with_failure_exit_code();
    let codes: Vec<u8> = p
        .causes[0]
        .attachments_of_type::<ExitCodeAttachment>()
        .iter()
        .map(|a| a.exit_code)
        .collect();
    assert_eq!(codes, vec![3, 1]);
    let p = ExitError::problem("stop", 4);
    assert_eq!(p.attachment_of_type::<ExitCodeAttachment>(), Some(ExitCodeAttachment { exit_code: 4 }));
    assert_eq!(
        ExitError::success().attachment_of_type::<ExitCodeAttachment>().map(|a| a.exit_code),
        Some(0)
    );
}

#[test]
fn result_helpers() {
    let r: Result<(), Problem> = Err(LowLevelError.into_problem());
    let r = r.via(MessageError::new("reading")).with("path".to_string()).with_success_exit_code();
    let p = r.err().expect("failed");
    assert_eq!(p.display(), "reading: low-level");
    assert_eq!(p.attachment_of_type::<String>(), Some("path".to_string()));
    assert_eq!(p.attachment_of_type::<ExitCodeAttachment>().map(|a| a.exit_code), Some(0));
    let r: Result<(), Problem> = Err(LowLevelError.into_problem());
    let p = r.with_exit_code(9).err().expect("failed");
    assert_eq!(p.attachment_of_type::<ExitCodeAttachment>().map(|a| a.exit_code), Some(9));
    let ok: Result<u8, Problem> = Ok(1);
    assert_eq!(ok.via(LowLevelError).ok(), Some(1));
}

#[test]
fn result_conversions() {
    let r: Result<u8, LowLevelError> = Err(LowLevelError);
    assert_eq!(r.into_problem().err().map(|p| p.display()), Some("low-level".to_string()));
    let r: Result<u8, String> = Err("oops".to_string());
    assert_eq!(r.into_message_problem().err().map(|p| p.display()), Some("oops".to_string()));
    let r: Result<u8, String> = Err("oops".to_string());
    assert_eq!(
        r.into_concurrency_problem().err().map(|p| p.display()),
        Some("concurrency: oops".to_string())
    );
    let r: Result<u8, u32> = Err(3);
    let p = r.map_into_problem(|_| OverflowError).err().expect("failed");
    assert_eq!(p.display(), "overflow");
}
