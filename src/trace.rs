use vstd::prelude::*;
use vstd::string::*;

use crate::captured::{AttachmentType, AttachmentValue, CapturedAttachment};

verus! {

/// A backtrace of the execution, as rendered when it was captured.
pub struct BacktraceAttachment {
    /// The rendered frames.
    pub trace: String,
}

/// Relies on `backtrace::Backtrace::new`, which captures and resolves the current stack, and on
/// its `Debug` rendering. What comes back depends on the machine and the moment: nothing is
/// stated of it.
#[verifier::external_body]
fn capture_backtrace() -> String {
    format!("{:?}", backtrace::Backtrace::new())
}

impl BacktraceAttachment {
    /// Captures the backtrace of the current execution.
    pub fn capture_now() -> (r: BacktraceAttachment) {
        BacktraceAttachment { trace: capture_backtrace() }
    }
}

/// Name under which backtraces are attached.
pub open spec fn backtrace_kind() -> Seq<char> {
    "Backtrace"@
}

impl AttachmentType for BacktraceAttachment {
    open spec fn spec_kind() -> Seq<char> {
        backtrace_kind()
    }

    open spec fn spec_value(&self) -> AttachmentValue {
        AttachmentValue::Text(self.trace)
    }

    open spec fn spec_restore(v: AttachmentValue) -> Option<Self> {
        match v {
            AttachmentValue::Text(trace) => Some(BacktraceAttachment { trace }),
            _ => None,
        }
    }

    fn kind() -> (r: String) {
        String::from_str("Backtrace")
    }

    fn capture(self) -> (r: CapturedAttachment) {
        CapturedAttachment { kind: Self::kind(), value: AttachmentValue::Text(self.trace) }
    }

    fn restore(v: &AttachmentValue) -> (r: Option<Self>) {
        match v {
            AttachmentValue::Text(trace) => Some(BacktraceAttachment { trace: trace.clone() }),
            _ => None,
        }
    }

    proof fn lemma_restore_capture(a: Self) {
    }
}

} // verus!
