use vstd::prelude::*;

use crate::captured::ErrorType;
use crate::problem::{is_problem_of, Problem};

verus! {

/// Where problems are reported to. A receiver either keeps the problem it is given (and
/// returns `Ok`), or hands it back to be propagated (as `Err`).
pub trait ProblemReceiver: Sized {
    /// Whether giving `problem` to the receiver `before` may leave it as `after` and return
    /// `r`.
    spec fn spec_gave(before: Self, problem: Problem, after: Self, r: Result<(), Problem>) -> bool;

    /// Gives a problem to the receiver.
    fn give(&mut self, problem: Problem) -> (r: Result<(), Problem>)
        ensures
            r is Err ==> r->Err_0 == problem,
            Self::spec_gave(*old(self), problem, *final(self), r),
    ;
}

/// A receiver that keeps nothing: every problem given to it is handed back at once.
pub struct FailFast;

impl ProblemReceiver for FailFast {
    open spec fn spec_gave(before: Self, problem: Problem, after: Self, r: Result<(), Problem>) -> bool {
        r == Err::<(), Problem>(problem) && after == before
    }

    fn give(&mut self, problem: Problem) -> (r: Result<(), Problem>) {
        Err(problem)
    }
}

/// Handing the problem of a failed result to a receiver instead of propagating it.
pub trait ReportReceiverResult<OkT, R: ProblemReceiver>: Sized {
    /// The value, if there is one; otherwise the problem goes to `receiver`, and is
    /// propagated if the receiver hands it back.
    fn give_ok(self, receiver: &mut R) -> Result<Option<OkT>, Problem>;

    /// The value, if there is one; otherwise the problem goes to `receiver`, and `default`
    /// stands in for the value unless the receiver hands the problem back.
    fn give_unwrap_or(self, receiver: &mut R, default: OkT) -> Result<OkT, Problem>;

    /// The value, if there is one; otherwise the problem goes to `receiver`, and the default
    /// value stands in for the value unless the receiver hands the problem back.
    fn give_unwrap_or_default(self, receiver: &mut R) -> Result<OkT, Problem> where OkT: Default;
}

impl<OkT, R: ProblemReceiver> ReportReceiverResult<OkT, R> for Result<OkT, Problem> {
    fn give_ok(self, receiver: &mut R) -> (r: Result<Option<OkT>, Problem>)
        ensures
            self is Ok ==> r == Ok::<Option<OkT>, Problem>(Some(self->Ok_0)) && *final(receiver) == *old(receiver),
            self is Err ==> exists|g: Result<(), Problem>|
                #[trigger] R::spec_gave(*old(receiver), self->Err_0, *final(receiver), g)
                    && (g is Ok ==> r == Ok::<Option<OkT>, Problem>(None))
                    && (g is Err ==> r == Err::<Option<OkT>, Problem>(self->Err_0)),
    {
        match self {
            Ok(ok) => Ok(Some(ok)),
            Err(problem) => match receiver.give(problem) {
                Ok(()) => Ok(None),
                Err(problem) => Err(problem),
            },
        }
    }

    fn give_unwrap_or(self, receiver: &mut R, default: OkT) -> (r: Result<OkT, Problem>)
        ensures
            self is Ok ==> r == Ok::<OkT, Problem>(self->Ok_0) && *final(receiver) == *old(receiver),
            self is Err ==> exists|g: Result<(), Problem>|
                #[trigger] R::spec_gave(*old(receiver), self->Err_0, *final(receiver), g)
                    && (g is Ok ==> r == Ok::<OkT, Problem>(default))
                    && (g is Err ==> r == Err::<OkT, Problem>(self->Err_0)),
    {
        match self {
            Ok(ok) => Ok(ok),
            Err(problem) => match receiver.give(problem) {
                Ok(()) => Ok(default),
                Err(problem) => Err(problem),
            },
        }
    }

    fn give_unwrap_or_default(self, receiver: &mut R) -> (r: Result<OkT, Problem>) where
        OkT: Default,
        ensures
            self is Ok ==> r == Ok::<OkT, Problem>(self->Ok_0) && *final(receiver) == *old(receiver),
            self is Err ==> exists|g: Result<(), Problem>|
                #[trigger] R::spec_gave(*old(receiver), self->Err_0, *final(receiver), g)
                    && (g is Ok ==> r is Ok)
                    && (g is Err ==> r == Err::<OkT, Problem>(self->Err_0)),
    {
        match self {
            Ok(ok) => Ok(ok),
            Err(problem) => match receiver.give(problem) {
                Ok(()) => Ok(OkT::default()),
                Err(problem) => Err(problem),
            },
        }
    }
}

impl<OkT, E: ErrorType, R: ProblemReceiver> ReportReceiverResult<OkT, R> for Result<OkT, E> {
    /// On failure, the problem made of the error is what goes to `receiver`.
    fn give_ok(self, receiver: &mut R) -> (r: Result<Option<OkT>, Problem>)
        ensures
            self is Ok ==> r == Ok::<Option<OkT>, Problem>(Some(self->Ok_0)) && *final(receiver) == *old(receiver),
            self is Err ==> exists|p: Problem, g: Result<(), Problem>|
                is_problem_of(p, self->Err_0) && #[trigger] R::spec_gave(*old(receiver), p, *final(receiver), g)
                    && (g is Ok ==> r == Ok::<Option<OkT>, Problem>(None))
                    && (g is Err ==> r == Err::<Option<OkT>, Problem>(p)),
    {
        match self {
            Ok(ok) => Ok(Some(ok)),
            Err(error) => {
                let p = Problem::from_error(error);
                let ghost gp = p;
                let g = receiver.give(p);
                assert(R::spec_gave(*old(receiver), gp, *receiver, g));
                match g {
                    Ok(()) => Ok(None),
                    Err(problem) => Err(problem),
                }
            },
        }
    }

    /// On failure, the problem made of the error is what goes to `receiver`.
    fn give_unwrap_or(self, receiver: &mut R, default: OkT) -> (r: Result<OkT, Problem>)
        ensures
            self is Ok ==> r == Ok::<OkT, Problem>(self->Ok_0) && *final(receiver) == *old(receiver),
            self is Err ==> exists|p: Problem, g: Result<(), Problem>|
                is_problem_of(p, self->Err_0) && #[trigger] R::spec_gave(*old(receiver), p, *final(receiver), g)
                    && (g is Ok ==> r == Ok::<OkT, Problem>(default))
                    && (g is Err ==> r == Err::<OkT, Problem>(p)),
    {
        match self {
            Ok(ok) => Ok(ok),
            Err(error) => {
                let p = Problem::from_error(error);
                let ghost gp = p;
                let g = receiver.give(p);
                assert(R::spec_gave(*old(receiver), gp, *receiver, g));
                match g {
                    Ok(()) => Ok(default),
                    Err(problem) => Err(problem),
                }
            },
        }
    }

    /// On failure, the problem made of the error is what goes to `receiver`.
    fn give_unwrap_or_default(self, receiver: &mut R) -> (r: Result<OkT, Problem>) where
        OkT: Default,
        ensures
            self is Ok ==> r == Ok::<OkT, Problem>(self->Ok_0) && *final(receiver) == *old(receiver),
            self is Err ==> exists|p: Problem, g: Result<(), Problem>|
                is_problem_of(p, self->Err_0) && #[trigger] R::spec_gave(*old(receiver), p, *final(receiver), g)
                    && (g is Ok ==> r is Ok)
                    && (g is Err ==> r == Err::<OkT, Problem>(p)),
    {
        match self {
            Ok(ok) => Ok(ok),
            Err(error) => {
                let p = Problem::from_error(error);
                let ghost gp = p;
                let g = receiver.give(p);
                assert(R::spec_gave(*old(receiver), gp, *receiver, g));
                match g {
                    Ok(()) => Ok(OkT::default()),
                    Err(problem) => Err(problem),
                }
            },
        }
    }
}

} // verus!
