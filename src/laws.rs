use vstd::prelude::*;

use crate::captured::{
    equals_value, is_attachment_of, is_capture_of, opt_view, rendered, AttachmentType,
    ErrorType,
};
use crate::cause::count_kind;
use crate::chain::find_kind;
use crate::problem::{
    backtrace_ensured, error_displays, is_problem_of, joined, pushed, top_extended, Problem,
};
use crate::problems::Problems;
use crate::trace::backtrace_kind;

verus! {

/// A problem made from an error has exactly one cause, and that cause's error is found by a
/// search for the error's type and downcasts back to a value of that type, equal to the
/// error.
pub proof fn lemma_conversion_single_cause<E: ErrorType>(p: Problem, error: E)
    requires
        is_problem_of(p, error),
    ensures
        p.causes@.len() == 1,
        find_kind(p.causes@[0].error, E::spec_kind()) == Some(p.causes@[0].error),
        equals_value(p.causes@[0].error, error),
        p.causes@[0].error.kind@ == E::spec_kind() && E::spec_accepts(
            opt_view(p.causes@[0].error.message),
        ),
{
    E::lemma_accepts_own_message(error);
}

/// Pushing errors in turn onto a problem made from a first error orders the chain from the
/// last pushed to the first, and renders it so, joined by `": "`.
pub proof fn lemma_via_order<E1: ErrorType, E2: ErrorType, E3: ErrorType>(
    one: Problem,
    two: Problem,
    three: Problem,
    e1: E1,
    e2: E2,
    e3: E3,
)
    requires
        is_problem_of(one, e1),
        pushed(one, two, e2),
        pushed(two, three, e3),
    ensures
        three.causes@.len() == 3,
        is_capture_of(three.causes@[0].error, e3),
        is_capture_of(three.causes@[1].error, e2),
        is_capture_of(three.causes@[2].error, e1),
        three.spec_display() == rendered(E3::spec_kind(), E3::spec_label(), e3.spec_message())
            + ": "@ + rendered(E2::spec_kind(), E2::spec_label(), e2.spec_message()) + ": "@
            + rendered(E1::spec_kind(), E1::spec_label(), e1.spec_message()),
{
    assert(three.causes@[1] == three.causes@.skip(1)[0]);
    assert(three.causes@[2] == two.causes@[1]);
    assert(two.causes@[1] == two.causes@.skip(1)[0]);
    let ds = error_displays(three.causes@);
    let sep = ": "@;
    assert(ds.len() == 3);
    assert(ds[0] == rendered(E3::spec_kind(), E3::spec_label(), e3.spec_message()));
    assert(ds[1] == rendered(E2::spec_kind(), E2::spec_label(), e2.spec_message()));
    assert(ds[2] == rendered(E1::spec_kind(), E1::spec_label(), e1.spec_message()));
    let d2 = ds.drop_last();
    let d1 = d2.drop_last();
    assert(d1.len() == 1);
    assert(joined(d1, sep) == d1[0]);
    assert(joined(d2, sep) == joined(d1, sep) + sep + d2.last());
    assert(joined(ds, sep) == joined(d2, sep) + sep + ds.last());
    assert(d1[0] == ds[0]);
    assert(d2.last() == ds[1]);
}

/// Attachments go to the cause on top when they are made: attaching `a1`, pushing an error,
/// then attaching `a2` leaves `a1` last on the first cause and `a2` alone on the new top.
pub proof fn lemma_with_goes_to_top<E: ErrorType, A1: AttachmentType, A2: AttachmentType>(
    base: Problem,
    attached: Problem,
    pushed_on: Problem,
    result: Problem,
    a1: A1,
    e2: E,
    a2: A2,
)
    requires
        base.causes@.len() > 0,
        top_extended(base.causes@, attached.causes@),
        is_attachment_of(attached.causes@[0].attachments@.last(), a1),
        pushed(attached, pushed_on, e2),
        top_extended(pushed_on.causes@, result.causes@),
        is_attachment_of(result.causes@[0].attachments@.last(), a2),
    ensures
        result.causes@.len() == base.causes@.len() + 1,
        is_capture_of(result.causes@[0].error, e2),
        result.causes@[0].attachments@.len() == 1,
        is_attachment_of(result.causes@[0].attachments@[0], a2),
        result.causes@[1].error == base.causes@[0].error,
        result.causes@[1].attachments@.len() == base.causes@[0].attachments@.len() + 1,
        is_attachment_of(result.causes@[1].attachments@.last(), a1),
{
    assert(result.causes@[1] == result.causes@.skip(1)[0]);
    assert(pushed_on.causes@[1] == pushed_on.causes@.skip(1)[0]);
}

/// Splicing keeps every cause: the chain's length is the sum of both, and each side keeps
/// its own order, ours on top when the donor's goes behind it.
pub proof fn lemma_behind_keeps_causes(ours: Problem, theirs: Problem, r: Problem)
    requires
        r.causes@ == ours.causes@ + theirs.causes@,
    ensures
        r.causes@.len() == ours.causes@.len() + theirs.causes@.len(),
        r.causes@.take(ours.causes@.len() as int) == ours.causes@,
        r.causes@.skip(ours.causes@.len() as int) == theirs.causes@,
{
    assert(r.causes@.take(ours.causes@.len() as int) =~= ours.causes@);
    assert(r.causes@.skip(ours.causes@.len() as int) =~= theirs.causes@);
}

/// Splicing keeps every cause: the chain's length is the sum of both, and each side keeps
/// its own order, the donor's on top when ours goes under it.
pub proof fn lemma_under_keeps_causes(ours: Problem, theirs: Problem, r: Problem)
    requires
        r.causes@ == theirs.causes@ + ours.causes@,
    ensures
        r.causes@.len() == ours.causes@.len() + theirs.causes@.len(),
        r.causes@.take(theirs.causes@.len() as int) == theirs.causes@,
        r.causes@.skip(theirs.causes@.len() as int) == ours.causes@,
{
    assert(r.causes@.take(theirs.causes@.len() as int) =~= theirs.causes@);
    assert(r.causes@.skip(theirs.causes@.len() as int) =~= ours.causes@);
}

/// Attaching a backtrace twice attaches it once: the second call changes nothing, and the
/// top cause holds exactly one backtrace if it held none before.
pub proof fn lemma_backtrace_idempotent(before_calls: Problem, once: Problem, twice: Problem)
    requires
        before_calls.causes@.len() > 0,
        backtrace_ensured(before_calls.causes@, once.causes@),
        backtrace_ensured(once.causes@, twice.causes@),
    ensures
        twice.causes@ == once.causes@,
        count_kind(before_calls.causes@[0].attachments@, backtrace_kind()) == 0 ==> count_kind(
            twice.causes@[0].attachments@,
            backtrace_kind(),
        ) == 1,
        count_kind(before_calls.causes@[0].attachments@, backtrace_kind()) > 0 ==> twice.causes@ == before_calls.causes@,
{
    let before = before_calls.causes@[0].attachments@;
    if count_kind(before, backtrace_kind()) == 0 {
        let after = once.causes@[0].attachments@;
        assert(after.drop_last() == before);
        assert(count_kind(after, backtrace_kind()) == 1);
    }
}

/// Once a problem is added, the accumulator no longer checks out, and the problem is the
/// last of those it holds, which a failed check hands back.
pub proof fn lemma_add_then_check(before: Problems, after: Problems, problem: Problem)
    requires
        after.problems@ == before.problems@.push(problem),
    ensures
        after.problems@.len() != 0,
        after.problems@.last() == problem,
        after.problems@.contains(problem),
{
    assert(after.problems@[after.problems@.len() - 1] == problem);
}

/// Once an error type is registered as critical, a problem whose top error is of that type
/// is critical: giving it hands it back and keeps nothing.
pub proof fn lemma_registered_type_is_critical<E: ErrorType>(
    before: Problems,
    after: Problems,
    problem: Problem,
)
    requires
        after.critical_kinds() == before.critical_kinds().insert(E::spec_kind()),
        problem.causes@.len() > 0,
        problem.causes@[0].error.kind@ == E::spec_kind(),
    ensures
        after.spec_is_critical(problem),
{
}

} // verus!
