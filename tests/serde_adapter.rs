use problemo::{
    FromSerdeProblemResult, IntoCommonProblem, IntoSerdeProblemResult, LowLevelError,
    SerdeProblem,
};

#[test]
fn serialize_problem_wraps_the_error() {
    let r: Result<(), LowLevelError> = Err(LowLevelError);
    let p = r.into_serde_serialize_problem().from_serde_problem().err().expect("failed");
    assert_eq!(p.display(), "serialize: serde: low-level");
    let r: Result<(), LowLevelError> = Err(LowLevelError);
    let p = r.into_serde_deserialize_problem().err().expect("failed").problem;
    assert_eq!(p.display(), "deserialize: serde: low-level");
}

#[test]
fn custom_serde_messages() {
    assert_eq!(SerdeProblem::serialize_custom("bad").problem.display(), "serialize: serde: bad");
    assert_eq!(
        SerdeProblem::deserialize_custom("eof").problem.display(),
        "deserialize: serde: eof"
    );
}

#[test]
fn messages_into_problems() {
    assert_eq!("boom".to_string().into_message_problem().display(), "boom");
    assert_eq!("boom".to_string().into_thread_problem().display(), "thread: boom");
    let wrapped = "boom".to_string().into_message_problem().into_error();
    assert_eq!(wrapped.problem.causes.len(), 1);
}
