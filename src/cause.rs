use vstd::prelude::*;

use crate::chain::CauseRef;
use crate::problem::Problem;
use crate::trace::{backtrace_kind, BacktraceAttachment};
use crate::captured::{
    first, is_attachment_of, restore_all, restored, AttachmentType, CapturedAttachment,
    CapturedError, ErrorType,
};

verus! {

/// Access to a list of captured attachments, queried by concrete type.
pub trait Attachments {
    /// All attachments, in the order they were attached.
    spec fn spec_attachments(&self) -> Seq<CapturedAttachment>;

    /// All attachments of type `T`, in the order they were attached.
    fn attachments_of_type<T: AttachmentType>(&self) -> (r: Vec<T>)
        ensures
            r@ == restored::<T>(self.spec_attachments()),
    ;

    /// The first attachment of type `T`.
    fn attachment_of_type<T: AttachmentType>(&self) -> (r: Option<T>)
        ensures
            r == first(restored::<T>(self.spec_attachments())),
    {
        let mut all = self.attachments_of_type::<T>();
        if all.len() == 0 {
            None
        } else {
            Some(all.remove(0))
        }
    }
}

/// How many of the attachments have the given kind.
pub open spec fn count_kind(s: Seq<CapturedAttachment>, kind: Seq<char>) -> nat
    decreases s.len(),
{
    if s.len() == 0 {
        0
    } else {
        count_kind(s.drop_last(), kind) + if s.last().kind@ == kind {
            1nat
        } else {
            0nat
        }
    }
}

/// A link in a problem's causation chain: one error and the attachments made to it.
pub struct Cause {
    /// Error.
    pub error: CapturedError,
    /// Attachments, in the order they were made.
    pub attachments: Vec<CapturedAttachment>,
}

impl Cause {
    /// A cause holding `error` and no attachment.
    pub fn new(error: CapturedError) -> (r: Cause)
        ensures
            r.error == error,
            r.attachments@ == Seq::<CapturedAttachment>::empty(),
    {
        Cause { error, attachments: Vec::new() }
    }

    /// A cause holding the captured `error` and no attachment.
    pub fn from_error<E: ErrorType>(error: E) -> (r: Cause)
        ensures
            crate::captured::is_capture_of(r.error, error),
            r.attachments@ == Seq::<CapturedAttachment>::empty(),
    {
        Cause::new(error.capture())
    }

    /// A reference to this cause, standing at `depth` of `problem`.
    pub fn to_ref<'a>(&'a self, problem: &'a Problem, depth: usize) -> (r: CauseRef<'a>)
        ensures
            r.problem == problem,
            r.depth == depth,
            *r.error == self.error,
            *r.attachments == self.attachments,
    {
        CauseRef::new(problem, depth, &self.error, &self.attachments)
    }

    /// Appends an already captured attachment.
    pub fn attach_captured(&mut self, attachment: CapturedAttachment)
        ensures
            final(self).error == old(self).error,
            final(self).attachments@ == old(self).attachments@.push(attachment),
    {
        self.attachments.push(attachment);
    }

    /// Appends an attachment.
    pub fn attach<T: AttachmentType>(&mut self, attachment: T)
        ensures
            final(self).error == old(self).error,
            final(self).attachments@.len() == old(self).attachments@.len() + 1,
            final(self).attachments@.drop_last() == old(self).attachments@,
            is_attachment_of(final(self).attachments@.last(), attachment),
    {
        let captured = attachment.capture();
        self.attach_captured(captured);
        assert(self.attachments@.drop_last() =~= old(self).attachments@);
    }

    /// Appends the attachment if there is one.
    pub fn maybe_attach<T: AttachmentType>(&mut self, attachment: Option<T>)
        ensures
            final(self).error == old(self).error,
            attachment is None ==> final(self).attachments@ == old(self).attachments@,
            attachment is Some ==> {
                &&& final(self).attachments@.len() == old(self).attachments@.len() + 1
                &&& final(self).attachments@.drop_last() == old(self).attachments@
                &&& is_attachment_of(final(self).attachments@.last(), attachment->Some_0)
            },
    {
        if let Some(attachment) = attachment {
            self.attach(attachment)
        }
    }
}

impl Cause {
    /// Whether some attachment has the given kind.
    pub fn has_attachment_kind(&self, kind: &String) -> (r: bool)
        ensures
            r == (count_kind(self.attachments@, kind@) > 0),
    {
        let mut i: usize = 0;
        while i < self.attachments.len()
            invariant
                i <= self.attachments@.len(),
                count_kind(self.attachments@.take(i as int), kind@) == 0,
            decreases self.attachments@.len() - i,
        {
            assert(self.attachments@.take(i as int + 1).drop_last() =~= self.attachments@.take(i as int));
            if self.attachments[i].kind == *kind {
                proof { lemma_count_kind_prefix(self.attachments@, kind@, i as int + 1); }
                return true;
            }
            i += 1;
        }
        assert(self.attachments@.take(self.attachments@.len() as int) =~= self.attachments@);
        false
    }

    /// Attaches a backtrace of the current execution, unless one is attached already.
    pub fn attach_backtrace(&mut self)
        ensures
            final(self).error == old(self).error,
            count_kind(old(self).attachments@, backtrace_kind()) > 0 ==> *final(self) == *old(self),
            count_kind(old(self).attachments@, backtrace_kind()) == 0 ==> {
                &&& final(self).attachments@.len() == old(self).attachments@.len() + 1
                &&& final(self).attachments@.drop_last() == old(self).attachments@
                &&& final(self).attachments@.last().kind@ == backtrace_kind()
            },
    {
        let kind = <BacktraceAttachment as AttachmentType>::kind();
        if !self.has_attachment_kind(&kind) {
            self.attach(BacktraceAttachment::capture_now());
        }
    }
}

/// A prefix that holds an attachment of a kind shows it in the whole.
proof fn lemma_count_kind_prefix(s: Seq<CapturedAttachment>, kind: Seq<char>, n: int)
    requires
        0 <= n <= s.len(),
        count_kind(s.take(n), kind) > 0,
    ensures
        count_kind(s, kind) > 0,
    decreases s.len() - n,
{
    if n < s.len() {
        assert(s.take(n + 1).drop_last() =~= s.take(n));
        lemma_count_kind_prefix(s, kind, n + 1);
    } else {
        assert(s.take(n) =~= s);
    }
}

impl Attachments for Cause {
    open spec fn spec_attachments(&self) -> Seq<CapturedAttachment> {
        self.attachments@
    }

    fn attachments_of_type<T: AttachmentType>(&self) -> (r: Vec<T>) {
        restore_all::<T>(&self.attachments)
    }
}

} // verus!
