use vstd::prelude::*;

use crate::captured::{CapturedError, ErrorType};
use crate::problem::{is_problem_of, joined, Problem};
use crate::receiver::ProblemReceiver;

verus! {

/// An accumulator of problems. Problems whose top error is of a type registered as critical
/// are not kept but handed back, to be propagated at once.
pub struct Problems {
    /// The problems kept, in the order they came.
    pub problems: Vec<Problem>,
    /// Kinds of the error types registered as critical.
    pub critical_error_types: Vec<String>,
}

impl Problems {
    /// The kinds registered as critical.
    pub open spec fn critical_kinds(&self) -> Set<Seq<char>> {
        Set::new(
            |k: Seq<char>|
                exists|i: int|
                    0 <= i < self.critical_error_types@.len() && (
                    #[trigger] self.critical_error_types@[i])@ == k,
        )
    }

    /// Whether giving `problem` is handed back: its top error is of a critical kind.
    pub open spec fn spec_is_critical(&self, problem: Problem) -> bool {
        problem.causes@.len() > 0 && self.critical_kinds().contains(problem.causes@[0].error.kind@)
    }

    /// An empty accumulator with no critical kind.
    pub fn new() -> (r: Problems)
        ensures
            r.problems@.len() == 0,
            r.critical_kinds() == Set::<Seq<char>>::empty(),
    {
        let r = Problems { problems: Vec::new(), critical_error_types: Vec::new() };
        assert(r.critical_kinds() =~= Set::<Seq<char>>::empty());
        r
    }

    /// An empty accumulator with no critical kind, with room for `capacity` problems.
    pub fn with_capacity(capacity: usize) -> (r: Problems)
        ensures
            r.problems@.len() == 0,
            r.critical_kinds() == Set::<Seq<char>>::empty(),
    {
        Problems::from_problems(Vec::with_capacity(capacity))
    }

    /// An accumulator holding `problems`, with no critical kind.
    pub fn from_problems(problems: Vec<Problem>) -> (r: Problems)
        ensures
            r.problems == problems,
            r.critical_kinds() == Set::<Seq<char>>::empty(),
    {
        let r = Problems { problems, critical_error_types: Vec::new() };
        assert(r.critical_kinds() =~= Set::<Seq<char>>::empty());
        r
    }

    /// An accumulator holding a problem made from each error, in order, with no critical
    /// kind.
    pub fn from_errors<E: ErrorType>(errors: Vec<E>) -> (r: Problems)
        ensures
            r.problems@.len() == errors@.len(),
            forall|i: int| 0 <= i < errors@.len() ==> is_problem_of(#[trigger] r.problems@[i], errors@[i]),
            r.critical_kinds() == Set::<Seq<char>>::empty(),
    {
        let ghost all = errors@;
        let mut rest = errors;
        let mut problems: Vec<Problem> = Vec::new();
        while rest.len() > 0
            invariant
                problems@.len() + rest@.len() == all.len(),
                rest@ == all.skip(problems@.len() as int),
                forall|i: int| 0 <= i < problems@.len() ==> is_problem_of(#[trigger] problems@[i], all[i]),
            decreases rest@.len(),
        {
            let ghost k = problems@.len() as int;
            let error = rest.remove(0);
            assert(error == all[k]);
            problems.push(Problem::from_error(error));
            assert(rest@ =~= all.skip(k + 1));
        }
        Problems::from_problems(problems)
    }

    /// Registers a kind as critical.
    pub fn handle_kind_as_critical(&mut self, kind: String)
        ensures
            final(self).problems == old(self).problems,
            final(self).critical_kinds() == old(self).critical_kinds().insert(kind@),
    {
        let ghost k = kind@;
        self.critical_error_types.push(kind);
        let ghost n = old(self).critical_error_types@.len();
        assert(self.critical_error_types@[n as int]@ == k);
        assert forall|x: Seq<char>| old(self).critical_kinds().contains(x) implies self.critical_kinds().contains(x) by {
            let i = choose|i: int|
                0 <= i < old(self).critical_error_types@.len() && (#[trigger] old(self).critical_error_types@[i])@ == x;
            assert(self.critical_error_types@[i] == old(self).critical_error_types@[i]);
        }
        assert forall|x: Seq<char>| self.critical_kinds().contains(x) implies old(self).critical_kinds().insert(k).contains(x) by {
            let i = choose|i: int|
                0 <= i < self.critical_error_types@.len() && (#[trigger] self.critical_error_types@[i])@ == x;
            if i < n {
                assert(old(self).critical_error_types@[i] == self.critical_error_types@[i]);
            }
        }
        assert(self.critical_kinds() =~= old(self).critical_kinds().insert(k));
    }

    /// Registers the error type `E` as critical.
    pub fn handle_type_as_critical<E: ErrorType>(&mut self)
        ensures
            final(self).problems == old(self).problems,
            final(self).critical_kinds() == old(self).critical_kinds().insert(E::spec_kind()),
    {
        self.handle_kind_as_critical(E::kind());
    }

    /// Whether the error's kind is registered as critical.
    pub fn is_error_critical(&self, error: &CapturedError) -> (r: bool)
        ensures
            r == self.critical_kinds().contains(error.kind@),
    {
        let mut i: usize = 0;
        while i < self.critical_error_types.len()
            invariant
                i <= self.critical_error_types@.len(),
                forall|j: int| 0 <= j < i ==> (#[trigger] self.critical_error_types@[j])@ != error.kind@,
            decreases self.critical_error_types@.len() - i,
        {
            if self.critical_error_types[i] == error.kind {
                assert(self.critical_kinds().contains(error.kind@));
                return true;
            }
            i += 1;
        }
        false
    }

    /// Whether the problem's top error is of a critical kind.
    pub fn is_critical(&self, problem: &Problem) -> (r: bool)
        ensures
            r == self.spec_is_critical(*problem),
    {
        match problem.top() {
            Some(cause) => self.is_error_critical(&cause.error),
            None => false,
        }
    }

    /// Keeps a problem, whatever its kind.
    pub fn add(&mut self, problem: Problem)
        ensures
            final(self).problems@ == old(self).problems@.push(problem),
            final(self).critical_error_types == old(self).critical_error_types,
    {
        self.problems.push(problem);
    }

    /// Whether no problem is kept.
    pub fn is_empty(&self) -> (r: bool)
        ensures
            r == (self.problems@.len() == 0),
    {
        self.problems.len() == 0
    }

    /// How many problems are kept.
    pub fn len(&self) -> (r: usize)
        ensures
            r == self.problems@.len(),
    {
        self.problems.len()
    }

    /// Succeeds when no problem is kept; otherwise fails with the whole accumulator.
    pub fn check(self) -> (r: Result<(), Problems>)
        ensures
            r is Ok <==> self.problems@.len() == 0,
            r is Err ==> r->Err_0 == self,
    {
        if self.is_empty() {
            Ok(())
        } else {
            Err(self)
        }
    }
}

impl Problems {
    /// What the accumulator renders as: each problem's rendering, one per line.
    pub open spec fn spec_display(&self) -> Seq<char> {
        joined(self.problems@.map_values(|p: Problem| p.spec_display()), "\n"@)
    }

    /// What the accumulator renders as for developers: each problem's developer rendering,
    /// one per line.
    pub open spec fn spec_debug(&self) -> Seq<char> {
        joined(self.problems@.map_values(|p: Problem| p.spec_debug()), "\n"@)
    }

    /// Renders each problem, one per line.
    pub fn display(&self) -> (r: String)
        ensures
            r@ == self.spec_display(),
    {
        let ghost ds = self.problems@.map_values(|p: Problem| p.spec_display());
        let mut s = String::new();
        let mut i: usize = 0;
        while i < self.problems.len()
            invariant
                i <= self.problems@.len(),
                ds == self.problems@.map_values(|p: Problem| p.spec_display()),
                s@ == joined(ds.take(i as int), "\n"@),
            decreases self.problems@.len() - i,
        {
            assert(ds.take(i as int + 1).drop_last() =~= ds.take(i as int));
            let d = self.problems[i].display();
            if i > 0 {
                s.append("\n");
            } else {
                assert(ds.take(1) =~= seq![ds[0]]);
            }
            s.append(d.as_str());
            i += 1;
        }
        assert(ds.take(self.problems@.len() as int) =~= ds);
        s
    }

    /// Renders each problem for developers, one per line.
    pub fn debug(&self) -> (r: String)
        ensures
            r@ == self.spec_debug(),
    {
        let ghost ds = self.problems@.map_values(|p: Problem| p.spec_debug());
        let mut s = String::new();
        let mut i: usize = 0;
        while i < self.problems.len()
            invariant
                i <= self.problems@.len(),
                ds == self.problems@.map_values(|p: Problem| p.spec_debug()),
                s@ == joined(ds.take(i as int), "\n"@),
            decreases self.problems@.len() - i,
        {
            assert(ds.take(i as int + 1).drop_last() =~= ds.take(i as int));
            let d = self.problems[i].debug();
            if i > 0 {
                s.append("\n");
            } else {
                assert(ds.take(1) =~= seq![ds[0]]);
            }
            s.append(d.as_str());
            i += 1;
        }
        assert(ds.take(self.problems@.len() as int) =~= ds);
        s
    }
}

impl Default for Problems {
    /// An empty accumulator with no critical kind.
    fn default() -> (r: Problems)
        ensures
            r.problems@.len() == 0,
            r.critical_kinds() == Set::<Seq<char>>::empty(),
    {
        Problems::new()
    }
}

impl ProblemReceiver for Problems {
    /// A critical problem is handed back and the accumulator stays as it was; any other is
    /// kept.
    open spec fn spec_gave(before: Self, problem: Problem, after: Self, r: Result<(), Problem>) -> bool {
        if before.spec_is_critical(problem) {
            r == Err::<(), Problem>(problem) && after == before
        } else {
            &&& r == Ok::<(), Problem>(())
            &&& after.problems@ == before.problems@.push(problem)
            &&& after.critical_error_types == before.critical_error_types
        }
    }

    /// Hands the problem back if its top error is of a critical kind, leaving the accumulator
    /// as it was; keeps it otherwise.
    fn give(&mut self, problem: Problem) -> (r: Result<(), Problem>) {
        if self.is_critical(&problem) {
            Err(problem)
        } else {
            self.problems.push(problem);
            Ok(())
        }
    }
}

} // verus!
