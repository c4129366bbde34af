use std::collections::VecDeque;
use vstd::prelude::*;
use vstd::string::*;

use crate::captured::{
    is_attachment_of, is_capture_of, AttachmentType, CapturedAttachment, CapturedError,
    ErrorType,
};
use crate::cause::{count_kind, Cause};
use crate::trace::backtrace_kind;

verus! {

/// One thing that went wrong: a causation chain, from the top (most specific, most recent)
/// cause to the root (original) cause.
pub struct Problem {
    /// Causes in order of causation, from top to root.
    pub causes: VecDeque<Cause>,
}

/// `after` is `before` with one more attachment on its top cause; an empty chain stays as
/// it is.
pub open spec fn top_extended(before: Seq<Cause>, after: Seq<Cause>) -> bool {
    if before.len() == 0 {
        after == before
    } else {
        &&& after.len() == before.len()
        &&& after.skip(1) == before.skip(1)
        &&& after[0].error == before[0].error
        &&& after[0].attachments@.len() == before[0].attachments@.len() + 1
        &&& after[0].attachments@.drop_last() == before[0].attachments@
    }
}

/// `after` is `before` with a backtrace attached to its top cause, unless that cause holds
/// one already; an empty chain stays as it is.
pub open spec fn backtrace_ensured(before: Seq<Cause>, after: Seq<Cause>) -> bool {
    if before.len() == 0 || count_kind(before[0].attachments@, backtrace_kind()) > 0 {
        after == before
    } else {
        top_extended(before, after) && after[0].attachments@.last().kind@ == backtrace_kind()
    }
}

/// Whether `after` is `before` with a cause capturing `error` pushed on top.
pub open spec fn pushed<E: ErrorType>(before: Problem, after: Problem, error: E) -> bool {
    &&& after.causes@.len() == before.causes@.len() + 1
    &&& after.causes@.skip(1) == before.causes@
    &&& is_capture_of(after.causes@[0].error, error)
    &&& after.causes@[0].attachments@.len() == 0
}

/// Whether `p` is a problem of one cause capturing `error`, with a backtrace attached.
pub open spec fn is_problem_of<E: ErrorType>(p: Problem, error: E) -> bool {
    &&& p.causes@.len() == 1
    &&& is_capture_of(p.causes@[0].error, error)
    &&& p.causes@[0].attachments@.len() == 1
    &&& p.causes@[0].attachments@[0].kind@ == backtrace_kind()
}

/// The texts joined, with `sep` between each two.
pub open spec fn joined(s: Seq<Seq<char>>, sep: Seq<char>) -> Seq<char>
    decreases s.len(),
{
    if s.len() == 0 {
        seq![]
    } else if s.len() == 1 {
        s[0]
    } else {
        joined(s.drop_last(), sep) + sep + s.last()
    }
}

/// The rendering of each cause's error, top to root.
pub open spec fn error_displays(causes: Seq<Cause>) -> Seq<Seq<char>> {
    causes.map_values(|c: Cause| c.error.spec_display())
}

/// The developer rendering of each cause's error, top to root.
pub open spec fn error_debugs(causes: Seq<Cause>) -> Seq<Seq<char>> {
    causes.map_values(|c: Cause| c.error.spec_debug())
}

impl Problem {
    /// What the problem renders as for developers: its errors from top to root, one per line.
    pub open spec fn spec_debug(&self) -> Seq<char> {
        joined(error_debugs(self.causes@), "\n"@)
    }

    /// What the problem renders as: its errors from top to root, joined by `": "`.
    pub open spec fn spec_display(&self) -> Seq<char> {
        joined(error_displays(self.causes@), ": "@)
    }

    /// A problem with an empty chain, to be given its first cause.
    pub fn new() -> (r: Problem)
        ensures
            r.causes@ == Seq::<Cause>::empty(),
    {
        Problem { causes: VecDeque::new() }
    }

    /// A problem whose only cause is the captured `error`, with no attachment.
    pub fn from_captured(error: CapturedError) -> (r: Problem)
        ensures
            r.causes@.len() == 1,
            r.causes@[0].error == error,
            r.causes@[0].attachments@.len() == 0,
    {
        let mut causes = VecDeque::new();
        causes.push_back(Cause::new(error));
        Problem { causes }
    }

    /// A problem whose only cause is `error`, with a backtrace of the current execution
    /// attached to it.
    pub fn from_error<E: ErrorType>(error: E) -> (r: Problem)
        ensures
            is_problem_of(r, error),
    {
        let p = Problem::from_captured(error.capture());
        let r = p.with_backtrace();
        assert(r.causes@[0].attachments@ =~= seq![r.causes@[0].attachments@.last()]);
        r
    }

    /// The top cause, if any.
    pub fn top(&self) -> (r: Option<&Cause>)
        ensures
            match r {
                Some(c) => self.causes@.len() > 0 && *c == self.causes@[0],
                None => self.causes@.len() == 0,
            },
    {
        if self.causes.len() == 0 {
            None
        } else {
            Some(&self.causes[0])
        }
    }

    /// The root cause, if any.
    pub fn root(&self) -> (r: Option<&Cause>)
        ensures
            match r {
                Some(c) => self.causes@.len() > 0 && *c == self.causes@.last(),
                None => self.causes@.len() == 0,
            },
    {
        let n = self.causes.len();
        if n == 0 {
            None
        } else {
            Some(&self.causes[n - 1])
        }
    }

    /// The errors of the chain, top to root, without descending into their sources.
    pub fn errors(&self) -> (r: Vec<&CapturedError>)
        ensures
            r@.len() == self.causes@.len(),
            forall|i: int| 0 <= i < r@.len() ==> *#[trigger] r@[i] == self.causes@[i].error,
    {
        let mut r: Vec<&CapturedError> = Vec::new();
        let mut i: usize = 0;
        while i < self.causes.len()
            invariant
                i <= self.causes@.len(),
                r@.len() == i,
                forall|j: int| 0 <= j < i ==> *#[trigger] r@[j] == self.causes@[j].error,
            decreases self.causes@.len() - i,
        {
            r.push(&self.causes[i].error);
            i += 1;
        }
        r
    }

    /// Pushes a cause holding the captured `error` onto the top of the chain.
    pub fn via_captured(self, error: CapturedError) -> (r: Problem)
        ensures
            r.causes@ == seq![Cause { error, attachments: r.causes@[0].attachments }] + self.causes@,
            r.causes@[0].attachments@.len() == 0,
    {
        let mut p = self;
        p.causes.push_front(Cause::new(error));
        p
    }

    /// Pushes a cause holding `error` onto the top of the chain.
    pub fn via<E: ErrorType>(self, error: E) -> (r: Problem)
        ensures
            pushed(self, r, error),
    {
        let r = self.via_captured(error.capture());
        assert(r.causes@.skip(1) =~= self.causes@);
        r
    }

    /// Splices the chains: ours stays on top, and the chain of `problem` goes behind it
    /// (deeper, toward the root). The donor's chain is moved, not copied.
    pub fn behind(self, problem: Problem) -> (r: Problem)
        ensures
            r.causes@ == self.causes@ + problem.causes@,
    {
        let mut ours = self;
        let mut theirs = problem;
        ours.causes.append(&mut theirs.causes);
        ours
    }

    /// Splices the chains: ours goes under that of `problem` (deeper, toward the root), and
    /// the chain of `problem` stays on top. The donor's chain is moved, not copied.
    pub fn under(self, problem: Problem) -> (r: Problem)
        ensures
            r.causes@ == problem.causes@ + self.causes@,
    {
        let mut ours = self;
        let mut theirs = problem;
        theirs.causes.append(&mut ours.causes);
        theirs
    }

    /// Attaches an already captured attachment to the top cause; no-op on an empty chain.
    pub fn with_captured(self, attachment: CapturedAttachment) -> (r: Problem)
        ensures
            top_extended(self.causes@, r.causes@),
            self.causes@.len() > 0 ==> r.causes@[0].attachments@.last() == attachment,
    {
        let mut p = self;
        match p.causes.pop_front() {
            Some(mut top) => {
                top.attach_captured(attachment);
                p.causes.push_front(top);
                assert(p.causes@.skip(1) =~= self.causes@.skip(1));
                assert(p.causes@[0].attachments@.drop_last() =~= self.causes@[0].attachments@);
                p
            },
            None => p,
        }
    }

    /// Attaches `attachment` to the top cause; no-op on an empty chain.
    pub fn with<T: AttachmentType>(self, attachment: T) -> (r: Problem)
        ensures
            top_extended(self.causes@, r.causes@),
            self.causes@.len() > 0 ==> is_attachment_of(r.causes@[0].attachments@.last(), attachment),
    {
        self.with_captured(attachment.capture())
    }

    /// Attaches `attachment` to the top cause if there is one; no-op on an empty chain.
    pub fn maybe_with<T: AttachmentType>(self, attachment: Option<T>) -> (r: Problem)
        ensures
            attachment is None ==> r == self,
            attachment is Some ==> top_extended(self.causes@, r.causes@),
            attachment is Some && self.causes@.len() > 0 ==> is_attachment_of(
                r.causes@[0].attachments@.last(),
                attachment->Some_0,
            ),
    {
        match attachment {
            Some(attachment) => self.with(attachment),
            None => self,
        }
    }

    /// Attaches a backtrace of the current execution to the top cause, unless the top cause
    /// holds one already; no-op on an empty chain.
    pub fn with_backtrace(self) -> (r: Problem)
        ensures
            backtrace_ensured(self.causes@, r.causes@),
    {
        let mut p = self;
        match p.causes.pop_front() {
            Some(mut top) => {
                top.attach_backtrace();
                p.causes.push_front(top);
                assert(p.causes@.skip(1) =~= self.causes@.skip(1));
                proof {
                    if count_kind(self.causes@[0].attachments@, backtrace_kind()) > 0 {
                        assert(p.causes@ =~= self.causes@);
                    }
                }
                p
            },
            None => p,
        }
    }

    /// Renders the problem: its errors from top to root, joined by `": "`.
    pub fn display(&self) -> (r: String)
        ensures
            r@ == self.spec_display(),
    {
        let ghost ds = error_displays(self.causes@);
        let mut s = String::new();
        let mut i: usize = 0;
        while i < self.causes.len()
            invariant
                i <= self.causes@.len(),
                ds == error_displays(self.causes@),
                s@ == joined(ds.take(i as int), ": "@),
            decreases self.causes@.len() - i,
        {
            assert(ds.take(i as int + 1).drop_last() =~= ds.take(i as int));
            let d = self.causes[i].error.display();
            if i > 0 {
                s.append(": ");
            } else {
                assert(ds.take(1) =~= seq![ds[0]]);
            }
            s.append(d.as_str());
            i += 1;
        }
        assert(ds.take(self.causes@.len() as int) =~= ds);
        s
    }

    /// Renders the problem for developers: its errors from top to root, one per line.
    pub fn debug(&self) -> (r: String)
        ensures
            r@ == self.spec_debug(),
    {
        let ghost ds = error_debugs(self.causes@);
        let mut s = String::new();
        let mut i: usize = 0;
        while i < self.causes.len()
            invariant
                i <= self.causes@.len(),
                ds == error_debugs(self.causes@),
                s@ == joined(ds.take(i as int), "\n"@),
            decreases self.causes@.len() - i,
        {
            assert(ds.take(i as int + 1).drop_last() =~= ds.take(i as int));
            let d = self.causes[i].error.debug();
            if i > 0 {
                s.append("\n");
            } else {
                assert(ds.take(1) =~= seq![ds[0]]);
            }
            s.append(d.as_str());
            i += 1;
        }
        assert(ds.take(self.causes@.len() as int) =~= ds);
        s
    }
}

impl Default for Problem {
    /// A problem with an empty chain, to be given its first cause.
    fn default() -> (r: Problem)
        ensures
            r.causes@ == Seq::<Cause>::empty(),
    {
        Problem::new()
    }
}

} // verus!
