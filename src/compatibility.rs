use vstd::prelude::*;
use vstd::string::*;

use crate::captured::{is_capture_of, opt_view, ErrorType};
use crate::common::{DeserializeError, SerializeError};
use crate::problem::Problem;
use crate::trace::backtrace_kind;

verus! {

/// A problem handed across an interface that accepts only plain errors. It must not be put
/// back into another problem's chain: that would hide the chain's structure.
pub struct ProblemAsError {
    /// Problem.
    pub problem: Problem,
}

impl Problem {
    /// Wraps the problem to cross an interface that accepts only plain errors.
    pub fn into_error(self) -> (r: ProblemAsError)
        ensures
            r.problem == self,
    {
        ProblemAsError { problem: self }
    }
}

/// A problem reported through a serialization framework's error interface. It must not be
/// put back into another problem's chain.
pub struct SerdeProblem {
    /// Problem.
    pub problem: Problem,
}

/// Whether `p` is a problem of one cause, of the error type `E`, with the message
/// `"serde: "` followed by `message`, with a backtrace attached.
pub open spec fn is_serde_custom<E: ErrorType>(p: Problem, message: Seq<char>) -> bool {
    &&& p.causes@.len() == 1
    &&& p.causes@[0].error.kind@ == E::spec_kind()
    &&& p.causes@[0].error.label@ == E::spec_label()
    &&& opt_view(p.causes@[0].error.message) == Some("serde: "@ + message)
    &&& p.causes@[0].error.source is None
    &&& p.causes@[0].attachments@.len() == 1
    &&& p.causes@[0].attachments@[0].kind@ == backtrace_kind()
}

impl SerdeProblem {
    /// The problem for a custom serialization failure with the given message.
    pub fn serialize_custom(message: &str) -> (r: SerdeProblem)
        ensures
            is_serde_custom::<SerializeError>(r.problem, message@),
    {
        let mut text = String::from_str("serde: ");
        text.append(message);
        proof { reveal_strlit("serde: "); }
        SerdeProblem { problem: Problem::from_error(SerializeError::from_string(text)) }
    }

    /// The problem for a custom deserialization failure with the given message.
    pub fn deserialize_custom(message: &str) -> (r: SerdeProblem)
        ensures
            is_serde_custom::<DeserializeError>(r.problem, message@),
    {
        let mut text = String::from_str("serde: ");
        text.append(message);
        proof { reveal_strlit("serde: "); }
        SerdeProblem { problem: Problem::from_error(DeserializeError::from_string(text)) }
    }
}

/// Whether `after` is the problem made of `error`, with a cause of type `E` with message
/// `"serde"` pushed on top.
pub open spec fn is_serde_wrapped<E: ErrorType, W: ErrorType>(after: Problem, error: E) -> bool {
    &&& after.causes@.len() == 2
    &&& after.causes@[0].error.kind@ == W::spec_kind()
    &&& opt_view(after.causes@[0].error.message) == Some("serde"@)
    &&& after.causes@[0].attachments@.len() == 0
    &&& is_capture_of(after.causes@[1].error, error)
}

/// Moving the error of a failed result into a [`SerdeProblem`].
pub trait IntoSerdeProblemResult<OkT> {
    /// The error becomes the root of a problem, under a [`SerializeError`] with message
    /// `"serde"`.
    fn into_serde_serialize_problem(self) -> Result<OkT, SerdeProblem>;

    /// The error becomes the root of a problem, under a [`DeserializeError`] with message
    /// `"serde"`.
    fn into_serde_deserialize_problem(self) -> Result<OkT, SerdeProblem>;
}

impl<OkT, E: ErrorType> IntoSerdeProblemResult<OkT> for Result<OkT, E> {
    fn into_serde_serialize_problem(self) -> (r: Result<OkT, SerdeProblem>)
        ensures
            self is Ok <==> r is Ok,
            self is Ok ==> r->Ok_0 == self->Ok_0,
            self is Err ==> is_serde_wrapped::<E, SerializeError>(r->Err_0.problem, self->Err_0),
    {
        match self {
            Ok(ok) => Ok(ok),
            Err(error) => {
                let p = Problem::from_error(error);
                let p = p.via(SerializeError::new("serde"));
                assert(p.causes@[1] == p.causes@.skip(1)[0]);
                Err(SerdeProblem { problem: p })
            },
        }
    }

    fn into_serde_deserialize_problem(self) -> (r: Result<OkT, SerdeProblem>)
        ensures
            self is Ok <==> r is Ok,
            self is Ok ==> r->Ok_0 == self->Ok_0,
            self is Err ==> is_serde_wrapped::<E, DeserializeError>(r->Err_0.problem, self->Err_0),
    {
        match self {
            Ok(ok) => Ok(ok),
            Err(error) => {
                let p = Problem::from_error(error);
                let p = p.via(DeserializeError::new("serde"));
                assert(p.causes@[1] == p.causes@.skip(1)[0]);
                Err(SerdeProblem { problem: p })
            },
        }
    }
}

/// Moving the problem of a failed result back out of a [`SerdeProblem`].
pub trait FromSerdeProblemResult<OkT> {
    /// The same result, failing with the problem that the [`SerdeProblem`] held.
    fn from_serde_problem(self) -> Result<OkT, Problem>;
}

impl<OkT> FromSerdeProblemResult<OkT> for Result<OkT, SerdeProblem> {
    fn from_serde_problem(self) -> (r: Result<OkT, Problem>)
        ensures
            self is Ok <==> r is Ok,
            self is Ok ==> r->Ok_0 == self->Ok_0,
            self is Err ==> r->Err_0 == self->Err_0.problem,
    {
        match self {
            Ok(ok) => Ok(ok),
            Err(serde_problem) => Err(serde_problem.problem),
        }
    }
}

} // verus!
