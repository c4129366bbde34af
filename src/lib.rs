//! Error enrichment: causation chains of captured errors, typed attachments on each link,
//! and receivers that either propagate problems at once or accumulate them.
//!
//! - [`captured`]: errors and attachments with their concrete type erased to a kind name.
//! - [`cause`]: one link of a chain, an error with its attachments.
//! - [`problem`]: the chain itself and the fluent building of it.
//! - [`chain`]: searches of a chain by error type or value, down through sources.
//! - [`receiver`] and [`problems`]: fail-fast and accumulating receivers.
//! - [`common`], [`exit_code`], [`trace`]: common error and attachment types.
//! - [`result`], [`compatibility`]: conversions of results and adapters.
//! - [`laws`]: properties that relate several operations.

pub mod captured;
pub mod cause;
pub mod chain;
pub mod common;
pub mod compatibility;
pub mod exit_code;
pub mod laws;
pub mod problem;
pub mod problems;
pub mod receiver;
pub mod result;
pub mod trace;

pub use captured::{
    AttachmentType, AttachmentValue, CapturedAttachment, CapturedError, ErrorType,
};
pub use cause::{Attachments, Cause};
pub use chain::{CauseRef, CauseRefIterator};
pub use common::{
    ConcurrencyError, DeserializeError, LowLevelError, MessageError, OverflowError,
    SerializeError, ThreadError,
};
pub use compatibility::{
    FromSerdeProblemResult, IntoSerdeProblemResult, ProblemAsError, SerdeProblem,
};
pub use exit_code::{ExitCodeAttachment, ExitError, WithExitCode};
pub use problem::Problem;
pub use problems::Problems;
pub use receiver::{FailFast, ProblemReceiver, ReportReceiverResult};
pub use result::{
    IntoCommonProblem, IntoProblem, IntoProblemResult, MapIntoCommonProblemResult,
    MapIntoProblemResult, ProblemResult,
};
pub use trace::BacktraceAttachment;
