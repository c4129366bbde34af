use vstd::prelude::*;
use vstd::string::*;

use crate::captured::{
    is_attachment_of, opt_view, AttachmentType, AttachmentValue,
    CapturedAttachment, CapturedError, ErrorType,
};
use crate::problem::{top_extended, Problem};

verus! {

/// Exit code that a process reports on success.
pub const SUCCESS_CODE: u8 = 0;

/// Exit code that a process reports on failure.
pub const FAILURE_CODE: u8 = 1;

/// An exit code attached to a problem, for the process to exit with.
#[derive(Clone, Copy, Debug, PartialEq, Eq, Structural)]
pub struct ExitCodeAttachment {
    /// Exit code.
    pub exit_code: u8,
}

impl ExitCodeAttachment {
    /// The failure exit code.
    pub fn failure() -> (r: ExitCodeAttachment)
        ensures
            r.exit_code == FAILURE_CODE,
    {
        ExitCodeAttachment { exit_code: FAILURE_CODE }
    }

    /// The success exit code.
    pub fn success() -> (r: ExitCodeAttachment)
        ensures
            r.exit_code == SUCCESS_CODE,
    {
        ExitCodeAttachment { exit_code: SUCCESS_CODE }
    }

    /// The given exit code.
    pub fn new(exit_code: u8) -> (r: ExitCodeAttachment)
        ensures
            r.exit_code == exit_code,
    {
        ExitCodeAttachment { exit_code }
    }
}

impl AttachmentType for ExitCodeAttachment {
    open spec fn spec_kind() -> Seq<char> {
        "ExitCodeAttachment"@
    }

    open spec fn spec_value(&self) -> AttachmentValue {
        AttachmentValue::Code(self.exit_code)
    }

    open spec fn spec_restore(v: AttachmentValue) -> Option<Self> {
        match v {
            AttachmentValue::Code(exit_code) => Some(ExitCodeAttachment { exit_code }),
            _ => None,
        }
    }

    fn kind() -> (r: String) {
        String::from_str("ExitCodeAttachment")
    }

    fn capture(self) -> (r: CapturedAttachment) {
        CapturedAttachment { kind: Self::kind(), value: AttachmentValue::Code(self.exit_code) }
    }

    fn restore(v: &AttachmentValue) -> (r: Option<Self>) {
        match v {
            AttachmentValue::Code(exit_code) => Some(ExitCodeAttachment { exit_code: *exit_code }),
            _ => None,
        }
    }

    proof fn lemma_restore_capture(a: Self) {
    }
}

/// Attaching exit codes.
pub trait WithExitCode: Sized {
    /// Attaches the given exit code.
    fn with_exit_code(self, exit_code: u8) -> Self;

    /// Attaches the failure exit code.
    fn with_failure_exit_code(self) -> Self;

    /// Attaches the success exit code.
    fn with_success_exit_code(self) -> Self;
}

impl WithExitCode for Problem {
    /// Attaches the exit code to the top cause; no-op on an empty chain.
    fn with_exit_code(self, exit_code: u8) -> (r: Problem)
        ensures
            top_extended(self.causes@, r.causes@),
            self.causes@.len() > 0 ==> is_attachment_of(
                r.causes@[0].attachments@.last(),
                ExitCodeAttachment { exit_code },
            ),
    {
        self.with(ExitCodeAttachment::new(exit_code))
    }

    /// Attaches the failure exit code to the top cause; no-op on an empty chain.
    fn with_failure_exit_code(self) -> (r: Problem)
        ensures
            top_extended(self.causes@, r.causes@),
            self.causes@.len() > 0 ==> is_attachment_of(
                r.causes@[0].attachments@.last(),
                ExitCodeAttachment { exit_code: FAILURE_CODE },
            ),
    {
        self.with(ExitCodeAttachment::failure())
    }

    /// Attaches the success exit code to the top cause; no-op on an empty chain.
    fn with_success_exit_code(self) -> (r: Problem)
        ensures
            top_extended(self.causes@, r.causes@),
            self.causes@.len() > 0 ==> is_attachment_of(
                r.causes@[0].attachments@.last(),
                ExitCodeAttachment { exit_code: SUCCESS_CODE },
            ),
    {
        self.with(ExitCodeAttachment::success())
    }
}

impl<OkT> WithExitCode for Result<OkT, Problem> {
    /// Attaches the exit code to the top cause of the problem, if this is one.
    fn with_exit_code(self, exit_code: u8) -> (r: Result<OkT, Problem>)
        ensures
            self is Ok ==> r == self,
            self is Err ==> r is Err && top_extended(self->Err_0.causes@, r->Err_0.causes@),
            self is Err && self->Err_0.causes@.len() > 0 ==> is_attachment_of(
                r->Err_0.causes@[0].attachments@.last(),
                ExitCodeAttachment { exit_code },
            ),
    {
        match self {
            Ok(ok) => Ok(ok),
            Err(problem) => Err(problem.with_exit_code(exit_code)),
        }
    }

    /// Attaches the failure exit code to the top cause of the problem, if this is one.
    fn with_failure_exit_code(self) -> (r: Result<OkT, Problem>)
        ensures
            self is Ok ==> r == self,
            self is Err ==> r is Err && top_extended(self->Err_0.causes@, r->Err_0.causes@),
            self is Err && self->Err_0.causes@.len() > 0 ==> is_attachment_of(
                r->Err_0.causes@[0].attachments@.last(),
                ExitCodeAttachment { exit_code: FAILURE_CODE },
            ),
    {
        self.with_exit_code(FAILURE_CODE)
    }

    /// Attaches the success exit code to the top cause of the problem, if this is one.
    fn with_success_exit_code(self) -> (r: Result<OkT, Problem>)
        ensures
            self is Ok ==> r == self,
            self is Err ==> r is Err && top_extended(self->Err_0.causes@, r->Err_0.causes@),
            self is Err && self->Err_0.causes@.len() > 0 ==> is_attachment_of(
                r->Err_0.causes@[0].attachments@.last(),
                ExitCodeAttachment { exit_code: SUCCESS_CODE },
            ),
    {
        self.with_exit_code(SUCCESS_CODE)
    }
}

/// An error that asks the process to exit, with an optional message. It renders as
/// `exit: ` followed by its message, or `exit` without one.
pub struct ExitError(pub Option<String>);

impl ErrorType for ExitError {
    open spec fn spec_kind() -> Seq<char> {
        "ExitError"@
    }

    open spec fn spec_label() -> Seq<char> {
        "exit"@
    }

    open spec fn spec_message(&self) -> Option<Seq<char>> {
        opt_view(self.0)
    }

    open spec fn spec_carries_message() -> bool {
        true
    }

    fn kind() -> (r: String) {
        String::from_str("ExitError")
    }

    fn message(&self) -> (r: Option<String>) {
        match &self.0 {
            Some(m) => Some(m.clone()),
            None => None,
        }
    }

    open spec fn spec_accepts(message: Option<Seq<char>>) -> bool {
        true
    }

    fn from_captured(error: &CapturedError) -> (r: Option<Self>) {
        if error.kind == Self::kind() {
            Some(Self(error.message.clone()))
        } else {
            None
        }
    }

    proof fn lemma_accepts_own_message(e: Self) {
    }

    fn capture(self) -> (r: CapturedError) {
        CapturedError::new(Self::kind(), String::from_str("exit"), self.0)
    }
}

/// Whether `p` is a problem of one cause, an exit error with the given message, to which a
/// backtrace and then the given exit code are attached.
pub open spec fn is_exit_problem(p: Problem, message: Option<Seq<char>>, exit_code: u8) -> bool {
    &&& p.causes@.len() == 1
    &&& p.causes@[0].error.kind@ == ExitError::spec_kind()
    &&& p.causes@[0].error.label@ == ExitError::spec_label()
    &&& opt_view(p.causes@[0].error.message) == message
    &&& p.causes@[0].error.source is None
    &&& p.causes@[0].attachments@.len() == 2
    &&& p.causes@[0].attachments@[0].kind@ == crate::trace::backtrace_kind()
    &&& is_attachment_of(p.causes@[0].attachments@[1], ExitCodeAttachment { exit_code })
}

impl ExitError {
    /// A problem for an exit error with the message, with the exit code attached.
    pub fn problem(message: &str, exit_code: u8) -> (r: Problem)
        ensures
            is_exit_problem(r, Some(message@), exit_code),
    {
        let error = ExitError(Some(String::from_str(message)));
        let p = Problem::from_error(error);
        p.with_exit_code(exit_code)
    }

    /// A problem for an exit error with the message, with the failure exit code attached.
    pub fn failure(message: &str) -> (r: Problem)
        ensures
            is_exit_problem(r, Some(message@), FAILURE_CODE),
    {
        ExitError::problem(message, FAILURE_CODE)
    }

    /// A problem for an exit error without message, with the success exit code attached.
    pub fn success() -> (r: Problem)
        ensures
            is_exit_problem(r, None, SUCCESS_CODE),
    {
        let p = Problem::from_error(ExitError(None));
        p.with_success_exit_code()
    }
}

} // verus!
