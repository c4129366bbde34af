use vstd::prelude::*;

use crate::captured::{is_attachment_of, AttachmentType, CapturedAttachment, ErrorType};
use crate::common::{ConcurrencyError, MessageError, ThreadError};
use crate::problem::{backtrace_ensured, is_problem_of, pushed, top_extended, Problem};
use crate::cause::count_kind;
use crate::trace::backtrace_kind;

verus! {

/// Building on the problem of a failed result.
pub trait ProblemResult<OkT>: Sized {
    /// Pushes a cause holding `error` onto the top of the problem's chain.
    fn via<E: ErrorType>(self, error: E) -> Result<OkT, Problem>;

    /// Attaches `attachment` to the top cause of the problem.
    fn with<T: AttachmentType>(self, attachment: T) -> Result<OkT, Problem>;

    /// Attaches `attachment`, if there is one, to the top cause of the problem.
    fn maybe_with<T: AttachmentType>(self, attachment: Option<T>) -> Result<OkT, Problem>;

    /// Attaches a backtrace to the top cause of the problem, unless it holds one already.
    fn with_backtrace(self) -> Result<OkT, Problem>;
}

impl<OkT> ProblemResult<OkT> for Result<OkT, Problem> {
    fn via<E: ErrorType>(self, error: E) -> (r: Result<OkT, Problem>)
        ensures
            self is Ok ==> r == self,
            self is Err ==> r is Err && pushed(self->Err_0, r->Err_0, error),
    {
        match self {
            Ok(ok) => Ok(ok),
            Err(problem) => Err(problem.via(error)),
        }
    }

    fn with<T: AttachmentType>(self, attachment: T) -> (r: Result<OkT, Problem>)
        ensures
            self is Ok ==> r == self,
            self is Err ==> {
                &&& r is Err
                &&& top_extended(self->Err_0.causes@, r->Err_0.causes@)
                &&& self->Err_0.causes@.len() > 0 ==> is_attachment_of(
                    r->Err_0.causes@[0].attachments@.last(),
                    attachment,
                )
            },
    {
        match self {
            Ok(ok) => Ok(ok),
            Err(problem) => Err(problem.with(attachment)),
        }
    }

    fn maybe_with<T: AttachmentType>(self, attachment: Option<T>) -> (r: Result<OkT, Problem>)
        ensures
            self is Ok || attachment is None ==> r == self,
            self is Err && attachment is Some ==> {
                &&& r is Err
                &&& top_extended(self->Err_0.causes@, r->Err_0.causes@)
                &&& self->Err_0.causes@.len() > 0 ==> is_attachment_of(
                    r->Err_0.causes@[0].attachments@.last(),
                    attachment->Some_0,
                )
            },
    {
        match self {
            Ok(ok) => Ok(ok),
            Err(problem) => {
                let p = problem.maybe_with(attachment);
                Err(p)
            },
        }
    }

    fn with_backtrace(self) -> (r: Result<OkT, Problem>)
        ensures
            self is Ok ==> r == self,
            self is Err ==> r is Err && backtrace_ensured(self->Err_0.causes@, r->Err_0.causes@),
    {
        match self {
            Ok(ok) => Ok(ok),
            Err(problem) => Err(problem.with_backtrace()),
        }
    }
}

impl<OkT, E: ErrorType> ProblemResult<OkT> for Result<OkT, E> {
    /// On failure, the error becomes the root of a problem, under `error`.
    fn via<V: ErrorType>(self, error: V) -> (r: Result<OkT, Problem>)
        ensures
            self is Ok <==> r is Ok,
            self is Ok ==> r->Ok_0 == self->Ok_0,
            self is Err ==> exists|p: Problem|
                #[trigger] is_problem_of(p, self->Err_0) && pushed(p, r->Err_0, error),
    {
        match self {
            Ok(ok) => Ok(ok),
            Err(e) => {
                let p = Problem::from_error(e);
                let ghost gp = p;
                let r: Result<OkT, Problem> = Err(p.via(error));
                assert(is_problem_of(gp, self->Err_0) && pushed(gp, r->Err_0, error));
                r
            },
        }
    }

    /// On failure, the error becomes a problem with `attachment` on its cause.
    fn with<T: AttachmentType>(self, attachment: T) -> (r: Result<OkT, Problem>)
        ensures
            self is Ok <==> r is Ok,
            self is Ok ==> r->Ok_0 == self->Ok_0,
            self is Err ==> exists|p: Problem|
                #[trigger] is_problem_of(p, self->Err_0) && top_extended(p.causes@, r->Err_0.causes@)
                    && is_attachment_of(r->Err_0.causes@[0].attachments@.last(), attachment),
    {
        match self {
            Ok(ok) => Ok(ok),
            Err(e) => {
                let p = Problem::from_error(e);
                let ghost gp = p;
                let r: Result<OkT, Problem> = Err(p.with(attachment));
                assert(is_problem_of(gp, self->Err_0) && top_extended(gp.causes@, r->Err_0.causes@));
                r
            },
        }
    }

    /// On failure, the error becomes a problem with `attachment`, if there is one, on its
    /// cause.
    fn maybe_with<T: AttachmentType>(self, attachment: Option<T>) -> (r: Result<OkT, Problem>)
        ensures
            self is Ok <==> r is Ok,
            self is Ok ==> r->Ok_0 == self->Ok_0,
            self is Err && attachment is None ==> is_problem_of(r->Err_0, self->Err_0),
            self is Err && attachment is Some ==> exists|p: Problem|
                #[trigger] is_problem_of(p, self->Err_0) && top_extended(p.causes@, r->Err_0.causes@)
                    && is_attachment_of(r->Err_0.causes@[0].attachments@.last(), attachment->Some_0),
    {
        match self {
            Ok(ok) => Ok(ok),
            Err(e) => {
                let p = Problem::from_error(e);
                let ghost gp = p;
                let r: Result<OkT, Problem> = Err(p.maybe_with(attachment));
                assert(is_problem_of(gp, self->Err_0));
                r
            },
        }
    }

    /// On failure, the error becomes a problem, which holds a backtrace already.
    fn with_backtrace(self) -> (r: Result<OkT, Problem>)
        ensures
            self is Ok <==> r is Ok,
            self is Ok ==> r->Ok_0 == self->Ok_0,
            self is Err ==> is_problem_of(r->Err_0, self->Err_0),
    {
        match self {
            Ok(ok) => Ok(ok),
            Err(e) => {
                let p = Problem::from_error(e);
                proof {
                    let a = p.causes@[0].attachments@;
                    assert(a.drop_last() =~= Seq::<CapturedAttachment>::empty());
                    assert(count_kind(a.drop_last(), backtrace_kind()) == 0);
                    assert(a.last() == a[0]);
                    assert(count_kind(a, backtrace_kind()) == 1);
                }
                Err(p.with_backtrace())
            },
        }
    }
}

/// Conversion of an error into a problem.
pub trait IntoProblem {
    /// The problem whose only cause is this error, with a backtrace attached.
    fn into_problem(self) -> Problem;
}

impl<E: ErrorType> IntoProblem for E {
    fn into_problem(self) -> (r: Problem)
        ensures
            is_problem_of(r, self),
    {
        Problem::from_error(self)
    }
}

/// Conversion of a message into a problem of one of the common error types.
pub trait IntoCommonProblem {
    /// A problem whose only cause is a [`MessageError`] with this message.
    fn into_message_problem(self) -> Problem;

    /// A problem whose only cause is a [`ThreadError`] with this message.
    fn into_thread_problem(self) -> Problem;
}

impl IntoCommonProblem for String {
    fn into_message_problem(self) -> (r: Problem)
        ensures
            is_problem_of(r, MessageError(Some(self))),
    {
        Problem::from_error(MessageError::from_string(self))
    }

    fn into_thread_problem(self) -> (r: Problem)
        ensures
            is_problem_of(r, ThreadError(Some(self))),
    {
        Problem::from_error(ThreadError::from_string(self))
    }
}

/// Conversion of a result into one that fails with a problem.
pub trait IntoProblemResult<OkT> {
    /// The same result, failing with a problem.
    fn into_problem(self) -> Result<OkT, Problem>;
}

impl<OkT> IntoProblemResult<OkT> for Result<OkT, Problem> {
    fn into_problem(self) -> (r: Result<OkT, Problem>)
        ensures
            r == self,
    {
        self
    }
}

impl<OkT, E: ErrorType> IntoProblemResult<OkT> for Result<OkT, E> {
    fn into_problem(self) -> (r: Result<OkT, Problem>)
        ensures
            self is Ok <==> r is Ok,
            self is Ok ==> r->Ok_0 == self->Ok_0,
            self is Err ==> is_problem_of(r->Err_0, self->Err_0),
    {
        match self {
            Ok(ok) => Ok(ok),
            Err(error) => Err(Problem::from_error(error)),
        }
    }
}

/// Conversion of a failed result's error, by a mapping, into a problem.
pub trait MapIntoProblemResult<OkT, ErrorT> {
    /// Maps the error with `map` and makes the result a problem whose only cause it is.
    fn map_into_problem<M: ErrorType, F: FnOnce(ErrorT) -> M>(self, map: F) -> Result<OkT, Problem>
        requires
            forall|e: ErrorT| call_requires(map, (e,)),
    ;
}

impl<OkT, ErrorT> MapIntoProblemResult<OkT, ErrorT> for Result<OkT, ErrorT> {
    fn map_into_problem<M: ErrorType, F: FnOnce(ErrorT) -> M>(self, map: F) -> (r: Result<
        OkT,
        Problem,
    >)
        ensures
            self is Ok <==> r is Ok,
            self is Ok ==> r->Ok_0 == self->Ok_0,
            self is Err ==> {
                let p = r->Err_0;
                &&& p.causes@.len() == 1
                &&& p.causes@[0].error.kind@ == M::spec_kind()
                &&& p.causes@[0].error.label@ == M::spec_label()
                &&& p.causes@[0].attachments@.len() == 1
                &&& p.causes@[0].attachments@[0].kind@ == backtrace_kind()
            },
            self is Err ==> exists|m: M|
                #[trigger] call_ensures(map, (self->Err_0,), m) && is_problem_of(r->Err_0, m),
    {
        match self {
            Ok(ok) => Ok(ok),
            Err(error) => {
                let ghost e = error;
                let m = map(error);
                let ghost gm = m;
                let p = Problem::from_error(m);
                let r: Result<OkT, Problem> = Err(p);
                assert(call_ensures(map, (e,), gm) && is_problem_of(r->Err_0, gm));
                r
            },
        }
    }
}

/// Conversion of a result that fails with a message into one that fails with a problem of
/// one of the common error types.
pub trait MapIntoCommonProblemResult<OkT> {
    /// Fails with a problem whose only cause is a [`MessageError`] with the message.
    fn into_message_problem(self) -> Result<OkT, Problem>;

    /// Fails with a problem whose only cause is a [`ConcurrencyError`] with the message.
    fn into_concurrency_problem(self) -> Result<OkT, Problem>;

    /// Fails with a problem whose only cause is a [`ThreadError`] with the message.
    fn into_thread_problem(self) -> Result<OkT, Problem>;
}

impl<OkT> MapIntoCommonProblemResult<OkT> for Result<OkT, String> {
    fn into_message_problem(self) -> (r: Result<OkT, Problem>)
        ensures
            self is Ok <==> r is Ok,
            self is Ok ==> r->Ok_0 == self->Ok_0,
            self is Err ==> is_problem_of(r->Err_0, MessageError(Some(self->Err_0))),
    {
        match self {
            Ok(ok) => Ok(ok),
            Err(message) => Err(Problem::from_error(MessageError::from_string(message))),
        }
    }

    fn into_concurrency_problem(self) -> (r: Result<OkT, Problem>)
        ensures
            self is Ok <==> r is Ok,
            self is Ok ==> r->Ok_0 == self->Ok_0,
            self is Err ==> is_problem_of(r->Err_0, ConcurrencyError(Some(self->Err_0))),
    {
        match self {
            Ok(ok) => Ok(ok),
            Err(message) => Err(Problem::from_error(ConcurrencyError::from_string(message))),
        }
    }

    fn into_thread_problem(self) -> (r: Result<OkT, Problem>)
        ensures
            self is Ok <==> r is Ok,
            self is Ok ==> r->Ok_0 == self->Ok_0,
            self is Err ==> is_problem_of(r->Err_0, ThreadError(Some(self->Err_0))),
    {
        match self {
            Ok(ok) => Ok(ok),
            Err(message) => Err(Problem::from_error(ThreadError::from_string(message))),
        }
    }
}

} // verus!
