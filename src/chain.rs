use vstd::prelude::*;

use crate::captured::{
    lemma_restored_concat, opt_view, restore_all, restored, AttachmentType, CapturedAttachment,
    CapturedError, ErrorType,
};
use crate::cause::{Attachments, Cause};
use crate::problem::Problem;

verus! {

/// The first error of the given kind met when walking from `e` down its sources: `e` itself
/// first, then its source, and so on.
pub open spec fn find_kind(e: CapturedError, kind: Seq<char>) -> Option<CapturedError>
    decreases e,
{
    if e.kind@ == kind {
        Some(e)
    } else {
        match e.source {
            Some(s) => find_kind(*s, kind),
            None => None,
        }
    }
}

/// The error `n` steps down the source links of `e`, if the links go that deep.
pub open spec fn source_at(e: CapturedError, n: nat) -> Option<CapturedError>
    decreases n,
{
    if n == 0 {
        Some(e)
    } else {
        match e.source {
            Some(s) => source_at(*s, (n - 1) as nat),
            None => None,
        }
    }
}

/// For each cause, top to root, whose error or some error down its sources has the given
/// kind: the cause's depth and the shallowest such error.
pub open spec fn matches_in(causes: Seq<Cause>, kind: Seq<char>) -> Seq<(int, CapturedError)>
    decreases causes.len(),
{
    if causes.len() == 0 {
        seq![]
    } else {
        let rest = matches_in(causes.drop_last(), kind);
        match find_kind(causes.last().error, kind) {
            Some(e) => rest.push((causes.len() - 1, e)),
            None => rest,
        }
    }
}

/// The first error of the given kind and message met when walking from `e` down its
/// sources: `e` itself first, then its source, and so on.
pub open spec fn find_value(e: CapturedError, kind: Seq<char>, message: Option<Seq<char>>) -> Option<
    CapturedError,
>
    decreases e,
{
    if e.kind@ == kind && opt_view(e.message) == message {
        Some(e)
    } else {
        match e.source {
            Some(s) => find_value(*s, kind, message),
            None => None,
        }
    }
}

/// For each cause, top to root, whose error or some error down its sources has the given
/// kind and message: the cause's depth and the shallowest such error.
pub open spec fn matches_with_message(
    causes: Seq<Cause>,
    kind: Seq<char>,
    message: Option<Seq<char>>,
) -> Seq<(int, CapturedError)>
    decreases causes.len(),
{
    if causes.len() == 0 {
        seq![]
    } else {
        let rest = matches_with_message(causes.drop_last(), kind, message);
        match find_value(causes.last().error, kind, message) {
            Some(e) => rest.push((causes.len() - 1, e)),
            None => rest,
        }
    }
}

/// Whether some cause's error, or some error down its sources, has the given kind and
/// message.
pub open spec fn reaches_value(causes: Seq<Cause>, kind: Seq<char>, message: Option<Seq<char>>) -> bool {
    exists|i: int, n: nat|
        0 <= i < causes.len() && (#[trigger] source_at(causes[i].error, n)) is Some && source_at(
            causes[i].error,
            n,
        )->Some_0.kind@ == kind && opt_view(source_at(causes[i].error, n)->Some_0.message)
            == message
}

/// The first error of the given kind and message met when walking from `error` down its
/// sources.
fn find_value_in<'a>(error: &'a CapturedError, kind: &String, message: &Option<String>) -> (r: Option<
    &'a CapturedError,
>)
    ensures
        match r {
            Some(e) => find_value(*error, kind@, opt_view(*message)) == Some(*e),
            None => find_value(*error, kind@, opt_view(*message)) is None,
        },
    decreases error,
{
    if error.kind == *kind && same_message(&error.message, message) {
        Some(error)
    } else {
        match &error.source {
            Some(s) => find_value_in(&**s, kind, message),
            None => None,
        }
    }
}

/// The first error of the given kind met when walking from `error` down its sources.
pub fn downcast_error_or_source<'a>(error: &'a CapturedError, kind: &String) -> (r: Option<
    &'a CapturedError,
>)
    ensures
        match r {
            Some(e) => find_kind(*error, kind@) == Some(*e),
            None => find_kind(*error, kind@) is None,
        },
    decreases error,
{
    if error.kind == *kind {
        Some(error)
    } else {
        match &error.source {
            Some(s) => downcast_error_or_source(&**s, kind),
            None => None,
        }
    }
}

/// Whether two optional messages are the same.
fn same_message(a: &Option<String>, b: &Option<String>) -> (r: bool)
    ensures
        r == (opt_view(*a) == opt_view(*b)),
{
    match (a, b) {
        (Some(a), Some(b)) => *a == *b,
        (None, None) => true,
        _ => false,
    }
}

/// A cause of a problem, found by a search: its depth in the chain, the error that matched
/// (its own or one down its sources), and its attachments.
pub struct CauseRef<'a> {
    /// Containing problem.
    pub problem: &'a Problem,
    /// Depth in the causation chain.
    pub depth: usize,
    /// The error: the cause's own, or one nested among its sources.
    pub error: &'a CapturedError,
    /// Attachments of the cause.
    pub attachments: &'a Vec<CapturedAttachment>,
}

impl<'a> CauseRef<'a> {
    /// The reference points at a cause of its problem, and holds that cause's attachments.
    pub open spec fn wf(&self) -> bool {
        &&& 0 <= self.depth < self.problem.causes@.len()
        &&& *self.attachments == self.problem.causes@[self.depth as int].attachments
    }
}

impl<'a> CauseRef<'a> {
    /// A reference to the cause at `depth` of `problem`, with the error that matched.
    pub fn new(
        problem: &'a Problem,
        depth: usize,
        error: &'a CapturedError,
        attachments: &'a Vec<CapturedAttachment>,
    ) -> (r: CauseRef<'a>)
        ensures
            r.problem == problem,
            r.depth == depth,
            r.error == error,
            r.attachments == attachments,
    {
        CauseRef { problem, depth, error, attachments }
    }

    /// Whether this is the top cause.
    pub fn is_top(&self) -> (r: bool)
        ensures
            r == (self.depth == 0),
    {
        self.depth == 0
    }

    /// Whether this is the root cause.
    pub fn is_root(&self) -> (r: bool)
        requires
            self.wf(),
        ensures
            r == (self.depth == self.problem.causes@.len() - 1),
    {
        self.depth == self.problem.causes.len() - 1
    }

    /// The causes under this one, from the one just under it down to the root; sources are
    /// not descended into.
    pub fn iter_under(&self) -> (r: CauseRefIterator<'a>)
        requires
            self.wf(),
        ensures
            r.problem == self.problem,
            r.depth == self.depth + 1,
    {
        assert(self.problem.causes.len() == self.problem.causes@.len());
        CauseRefIterator::new(self.problem, self.depth + 1)
    }

    /// The cause just under this one, if this one is not the root; sources are not
    /// descended into.
    pub fn under(&self) -> (r: Option<CauseRef<'a>>)
        requires
            self.wf(),
        ensures
            self.depth + 1 < self.problem.causes@.len() <==> r is Some,
            r is Some ==> {
                &&& r->Some_0.problem == self.problem
                &&& r->Some_0.depth == self.depth + 1
                &&& *r->Some_0.error == self.problem.causes@[self.depth + 1].error
                &&& r->Some_0.wf()
            },
    {
        if self.depth < self.problem.causes.len() - 1 {
            let mut it = self.iter_under();
            it.next()
        } else {
            None
        }
    }
}

impl<'a> Attachments for CauseRef<'a> {
    open spec fn spec_attachments(&self) -> Seq<CapturedAttachment> {
        self.attachments@
    }

    fn attachments_of_type<T: AttachmentType>(&self) -> (r: Vec<T>) {
        restore_all::<T>(self.attachments)
    }
}

/// Walks the causes of a problem from a given depth down to the root, without descending
/// into sources.
pub struct CauseRefIterator<'a> {
    /// Problem.
    pub problem: &'a Problem,
    /// Depth of the next cause.
    pub depth: usize,
}

impl<'a> CauseRefIterator<'a> {
    /// A walk of `problem`'s causes starting at `depth`.
    pub fn new(problem: &'a Problem, depth: usize) -> (r: CauseRefIterator<'a>)
        ensures
            r.problem == problem,
            r.depth == depth,
    {
        CauseRefIterator { problem, depth }
    }

    /// The cause at the current depth, if the chain reaches it; either way the walk then
    /// moves one cause down.
    pub fn next(&mut self) -> (r: Option<CauseRef<'a>>)
        requires
            old(self).depth < usize::MAX,
        ensures
            final(self).problem == old(self).problem,
            final(self).depth == old(self).depth + 1,
            old(self).depth < old(self).problem.causes@.len() <==> r is Some,
            r is Some ==> {
                &&& r->Some_0.problem == old(self).problem
                &&& r->Some_0.depth == old(self).depth
                &&& *r->Some_0.error == old(self).problem.causes@[old(self).depth as int].error
                &&& r->Some_0.wf()
            },
    {
        let depth = self.depth;
        let problem = self.problem;
        self.depth = depth + 1;
        if depth < problem.causes.len() {
            let cause = &problem.causes[depth];
            Some(cause.to_ref(problem, depth))
        } else {
            None
        }
    }
}

/// All attachments of a chain: those of each cause, top to root, each cause's in the order
/// they were made.
pub open spec fn all_attachments(causes: Seq<Cause>) -> Seq<CapturedAttachment>
    decreases causes.len(),
{
    if causes.len() == 0 {
        seq![]
    } else {
        all_attachments(causes.drop_last()) + causes.last().attachments@
    }
}

impl Problem {
    /// All attachments of the chain: those of each cause, top to root, each cause's in the
    /// order they were made.
    pub fn attachments(&self) -> (r: Vec<&CapturedAttachment>)
        ensures
            r@.len() == all_attachments(self.causes@).len(),
            forall|k: int| 0 <= k < r@.len() ==> *#[trigger] r@[k] == all_attachments(self.causes@)[k],
    {
        let mut r: Vec<&CapturedAttachment> = Vec::new();
        let mut i: usize = 0;
        while i < self.causes.len()
            invariant
                i <= self.causes@.len(),
                r@.len() == all_attachments(self.causes@.take(i as int)).len(),
                forall|k: int| 0 <= k < r@.len() ==> *#[trigger] r@[k] == all_attachments(self.causes@.take(i as int))[k],
            decreases self.causes@.len() - i,
        {
            let cause = &self.causes[i];
            let ghost pre = all_attachments(self.causes@.take(i as int));
            let mut j: usize = 0;
            while j < cause.attachments.len()
                invariant
                    i < self.causes@.len(),
                    *cause == self.causes@[i as int],
                    j <= cause.attachments@.len(),
                    r@.len() == pre.len() + j,
                    forall|k: int| 0 <= k < r@.len() ==> *#[trigger] r@[k] == (pre + cause.attachments@)[k],
                decreases cause.attachments@.len() - j,
            {
                r.push(&cause.attachments[j]);
                j += 1;
            }
            assert(self.causes@.take(i as int + 1).drop_last() =~= self.causes@.take(i as int));
            assert(self.causes@.take(i as int + 1).last() == *cause);
            i += 1;
        }
        assert(self.causes@.take(self.causes@.len() as int) =~= self.causes@);
        r
    }
}

impl Attachments for Problem {
    open spec fn spec_attachments(&self) -> Seq<CapturedAttachment> {
        all_attachments(self.causes@)
    }

    fn attachments_of_type<T: AttachmentType>(&self) -> (r: Vec<T>) {
        let mut r: Vec<T> = Vec::new();
        let mut i: usize = 0;
        while i < self.causes.len()
            invariant
                i <= self.causes@.len(),
                r@ == restored::<T>(all_attachments(self.causes@.take(i as int))),
            decreases self.causes@.len() - i,
        {
            let ghost before = r@;
            let mut part = restore_all::<T>(&self.causes[i].attachments);
            r.append(&mut part);
            proof {
                let pre = self.causes@.take(i as int);
                assert(self.causes@.take(i as int + 1).drop_last() =~= pre);
                lemma_restored_concat::<T>(all_attachments(pre), self.causes@[i as int].attachments@);
            }
            i += 1;
        }
        assert(self.causes@.take(self.causes@.len() as int) =~= self.causes@);
        r
    }
}

/// Whether `r` are references into `p` for the matches `m`, one for one and in order.
pub open spec fn refs_for(r: Seq<CauseRef>, m: Seq<(int, CapturedError)>, p: Problem) -> bool {
    &&& r.len() == m.len()
    &&& forall|j: int|
        0 <= j < r.len() ==> {
            &&& (#[trigger] r[j]).problem == p
            &&& r[j].depth == m[j].0
            &&& *r[j].error == m[j].1
            &&& r[j].wf()
        }
}

/// Every match lies in the chain and is what the search finds in its cause.
pub proof fn lemma_matches_in_wf(causes: Seq<Cause>, kind: Seq<char>)
    ensures
        forall|k: int|
            0 <= k < matches_in(causes, kind).len() ==> {
                let (d, e) = #[trigger] matches_in(causes, kind)[k];
                &&& 0 <= d < causes.len()
                &&& find_kind(causes[d].error, kind) == Some(e)
            },
    decreases causes.len(),
{
    if causes.len() > 0 {
        lemma_matches_in_wf(causes.drop_last(), kind);
    }
}

/// Every match by message lies in the chain, is what the search finds in its cause, and
/// carries the message.
pub proof fn lemma_matches_with_message_wf(
    causes: Seq<Cause>,
    kind: Seq<char>,
    message: Option<Seq<char>>,
)
    ensures
        forall|k: int|
            0 <= k < matches_with_message(causes, kind, message).len() ==> {
                let (d, e) = #[trigger] matches_with_message(causes, kind, message)[k];
                &&& 0 <= d < causes.len()
                &&& find_value(causes[d].error, kind, message) == Some(e)
            },
    decreases causes.len(),
{
    if causes.len() > 0 {
        lemma_matches_with_message_wf(causes.drop_last(), kind, message);
    }
}

impl Problem {
    /// The causes whose error, or an error down its sources, has the given kind, top to
    /// root, each with the shallowest such error.
    pub fn causes_of_kind(&self, kind: &String) -> (r: Vec<CauseRef<'_>>)
        ensures
            refs_for(r@, matches_in(self.causes@, kind@), *self),
    {
        let mut r: Vec<CauseRef<'_>> = Vec::new();
        let mut i: usize = 0;
        while i < self.causes.len()
            invariant
                i <= self.causes@.len(),
                refs_for(r@, matches_in(self.causes@.take(i as int), kind@), *self),
            decreases self.causes@.len() - i,
        {
            let ghost before = r@;
            let cause = &self.causes[i];
            assert(self.causes@.take(i as int + 1).drop_last() =~= self.causes@.take(i as int));
            match downcast_error_or_source(&cause.error, kind) {
                Some(error) => {
                    r.push(CauseRef { problem: self, depth: i, error, attachments: &cause.attachments });
                    assert(r@.drop_last() == before);
                },
                None => {},
            }
            i += 1;
        }
        assert(self.causes@.take(self.causes@.len() as int) =~= self.causes@);
        r
    }

    /// Whether the error of some cause, or an error down its sources, has the given kind.
    pub fn has_kind(&self, kind: &String) -> (r: bool)
        ensures
            r == (matches_in(self.causes@, kind@).len() > 0),
    {
        let mut i: usize = 0;
        while i < self.causes.len()
            invariant
                i <= self.causes@.len(),
                matches_in(self.causes@.take(i as int), kind@).len() == 0,
            decreases self.causes@.len() - i,
        {
            assert(self.causes@.take(i as int + 1).drop_last() =~= self.causes@.take(i as int));
            if downcast_error_or_source(&self.causes[i].error, kind).is_some() {
                proof { lemma_matches_in_grow(self.causes@, kind@, i as int + 1); }
                return true;
            }
            i += 1;
        }
        assert(self.causes@.take(self.causes@.len() as int) =~= self.causes@);
        false
    }

    /// Whether the error of some cause, or an error down its sources, is of type `E`.
    pub fn has_type<E: ErrorType>(&self) -> (r: bool)
        ensures
            r == (matches_in(self.causes@, E::spec_kind()).len() > 0),
    {
        self.has_kind(&E::kind())
    }

    /// The causes whose error, or an error down its sources, is of type `E`, top to root,
    /// each with the shallowest such error.
    pub fn causes_of_type<E: ErrorType>(&self) -> (r: Vec<CauseRef<'_>>)
        ensures
            refs_for(r@, matches_in(self.causes@, E::spec_kind()), *self),
    {
        self.causes_of_kind(&E::kind())
    }

    /// The first cause, from the top, whose error or an error down its sources is of type
    /// `E`, with the shallowest such error.
    pub fn cause_of_type<E: ErrorType>(&self) -> (r: Option<CauseRef<'_>>)
        ensures
            r is None <==> matches_in(self.causes@, E::spec_kind()).len() == 0,
            r is Some ==> refs_for(
                seq![r->Some_0],
                seq![matches_in(self.causes@, E::spec_kind())[0]],
                *self,
            ),
    {
        let mut all = self.causes_of_type::<E>();
        if all.len() == 0 {
            None
        } else {
            let c = all.remove(0);
            assert(seq![c][0] == c);
            Some(c)
        }
    }

    /// The causes whose error, or some error down its sources, equals `error` (same type,
    /// same message), top to root, each with the shallowest such error.
    pub fn causes_for<E: ErrorType>(&self, error: &E) -> (r: Vec<CauseRef<'_>>)
        ensures
            refs_for(r@, matches_with_message(self.causes@, E::spec_kind(), error.spec_message()), *self),
    {
        let kind = E::kind();
        let message = error.message();
        let mut r: Vec<CauseRef<'_>> = Vec::new();
        let mut i: usize = 0;
        while i < self.causes.len()
            invariant
                i <= self.causes@.len(),
                kind@ == E::spec_kind(),
                opt_view(message) == error.spec_message(),
                refs_for(
                    r@,
                    matches_with_message(self.causes@.take(i as int), kind@, opt_view(message)),
                    *self,
                ),
            decreases self.causes@.len() - i,
        {
            let ghost before = r@;
            let cause = &self.causes[i];
            assert(self.causes@.take(i as int + 1).drop_last() =~= self.causes@.take(i as int));
            match find_value_in(&cause.error, &kind, &message) {
                Some(found) => {
                    r.push(CauseRef { problem: self, depth: i, error: found, attachments: &cause.attachments });
                    assert(r@.drop_last() == before);
                },
                None => {},
            }
            i += 1;
        }
        assert(self.causes@.take(self.causes@.len() as int) =~= self.causes@);
        r
    }

    /// The first cause, from the top, whose error or some error down its sources equals
    /// `error`.
    pub fn cause_for<E: ErrorType>(&self, error: &E) -> (r: Option<CauseRef<'_>>)
        ensures
            r is None <==> matches_with_message(self.causes@, E::spec_kind(), error.spec_message()).len() == 0,
            r is Some ==> refs_for(
                seq![r->Some_0],
                seq![matches_with_message(self.causes@, E::spec_kind(), error.spec_message())[0]],
                *self,
            ),
    {
        let mut all = self.causes_for(error);
        if all.len() == 0 {
            None
        } else {
            let c = all.remove(0);
            assert(seq![c][0] == c);
            Some(c)
        }
    }

    /// Whether some cause's error, or some error down its sources, equals `error` (same
    /// type, same message).
    pub fn has<E: ErrorType>(&self, error: &E) -> (r: bool)
        ensures
            r == reaches_value(self.causes@, E::spec_kind(), error.spec_message()),
            r == (matches_with_message(self.causes@, E::spec_kind(), error.spec_message()).len() > 0),
    {
        let r = self.causes_for(error).len() > 0;
        proof { lemma_matches_with_message_reaches(self.causes@, E::spec_kind(), error.spec_message()); }
        r
    }
}

/// An error of the kind reachable down the sources of `e` makes the walk from `e` find one.
proof fn lemma_find_kind_reaches(e: CapturedError, kind: Seq<char>, n: nat)
    requires
        source_at(e, n) is Some,
        source_at(e, n)->Some_0.kind@ == kind,
    ensures
        find_kind(e, kind) is Some,
    decreases n,
{
    if n > 0 && e.kind@ != kind {
        lemma_find_kind_reaches(*e.source->Some_0, kind, (n - 1) as nat);
    }
}

/// What the walk from `e` finds is reachable down the sources of `e`, and has the kind.
proof fn lemma_find_kind_reachable(e: CapturedError, kind: Seq<char>)
    requires
        find_kind(e, kind) is Some,
    ensures
        exists|n: nat|
            source_at(e, n) == find_kind(e, kind) && (#[trigger] source_at(e, n))->Some_0.kind@
                == kind,
    decreases e,
{
    if e.kind@ == kind {
        assert(source_at(e, 0) == Some(e));
    } else {
        let s = *e.source->Some_0;
        lemma_find_kind_reachable(s, kind);
        let n = choose|n: nat|
            source_at(s, n) == find_kind(s, kind) && (#[trigger] source_at(s, n))->Some_0.kind@
                == kind;
        assert(source_at(e, n + 1) == source_at(s, n));
    }
}

/// A cause whose walk finds the kind makes the chain's search find a match, at that cause or
/// above it.
proof fn lemma_matches_in_first(causes: Seq<Cause>, kind: Seq<char>, i: int)
    requires
        0 <= i < causes.len(),
        find_kind(causes[i].error, kind) is Some,
    ensures
        matches_in(causes, kind).len() > 0,
        matches_in(causes, kind)[0].0 <= i,
    decreases causes.len(),
{
    let rest = causes.drop_last();
    if i < causes.len() - 1 {
        assert(rest[i] == causes[i]);
        lemma_matches_in_first(rest, kind, i);
    } else if matches_in(rest, kind).len() > 0 {
        lemma_matches_in_wf(rest, kind);
        assert(0 <= matches_in(rest, kind)[0].0 < rest.len());
    }
}

/// A search by type finds an error of that type wherever it stands in the chain: as the
/// error of cause `i`, or `n` levels down that error's sources. The first match it reports
/// is at cause `i` or above it.
pub proof fn lemma_search_finds_reachable<E: ErrorType>(p: Problem, i: int, n: nat)
    requires
        0 <= i < p.causes@.len(),
        source_at(p.causes@[i].error, n) is Some,
        source_at(p.causes@[i].error, n)->Some_0.kind@ == E::spec_kind(),
    ensures
        matches_in(p.causes@, E::spec_kind()).len() > 0,
        matches_in(p.causes@, E::spec_kind())[0].0 <= i,
{
    lemma_find_kind_reaches(p.causes@[i].error, E::spec_kind(), n);
    lemma_matches_in_first(p.causes@, E::spec_kind(), i);
}

/// A search by type finds nothing when no cause's error, nor any error down its sources, is
/// of that type.
pub proof fn lemma_search_finds_nothing<E: ErrorType>(p: Problem)
    requires
        forall|i: int, n: nat|
            0 <= i < p.causes@.len() && (#[trigger] source_at(p.causes@[i].error, n)) is Some
                ==> source_at(p.causes@[i].error, n)->Some_0.kind@ != E::spec_kind(),
    ensures
        matches_in(p.causes@, E::spec_kind()).len() == 0,
{
    let kind = E::spec_kind();
    lemma_matches_in_wf(p.causes@, kind);
    if matches_in(p.causes@, kind).len() > 0 {
        let (d, e) = matches_in(p.causes@, kind)[0];
        lemma_find_kind_reachable(p.causes@[d].error, kind);
        let n = choose|n: nat|
            source_at(p.causes@[d].error, n) == find_kind(p.causes@[d].error, kind) && (
            #[trigger] source_at(p.causes@[d].error, n))->Some_0.kind@ == kind;
        assert(source_at(p.causes@[d].error, n) is Some);
    }
}

/// An error of the kind and message reachable down the sources of `e` makes the walk from
/// `e` find one, and what the walk finds is so reachable.
proof fn lemma_find_value_reaches(e: CapturedError, kind: Seq<char>, message: Option<Seq<char>>, n: nat)
    requires
        source_at(e, n) is Some,
        source_at(e, n)->Some_0.kind@ == kind,
        opt_view(source_at(e, n)->Some_0.message) == message,
    ensures
        find_value(e, kind, message) is Some,
    decreases n,
{
    if n > 0 && !(e.kind@ == kind && opt_view(e.message) == message) {
        lemma_find_value_reaches(*e.source->Some_0, kind, message, (n - 1) as nat);
    }
}

/// What the walk from `e` finds by kind and message is reachable down the sources of `e`.
proof fn lemma_find_value_reachable(e: CapturedError, kind: Seq<char>, message: Option<Seq<char>>)
    requires
        find_value(e, kind, message) is Some,
    ensures
        exists|n: nat|
            (#[trigger] source_at(e, n)) is Some && source_at(e, n)->Some_0.kind@ == kind
                && opt_view(source_at(e, n)->Some_0.message) == message,
    decreases e,
{
    if e.kind@ == kind && opt_view(e.message) == message {
        assert(source_at(e, 0) == Some(e));
    } else {
        let s = *e.source->Some_0;
        lemma_find_value_reachable(s, kind, message);
        let n = choose|n: nat|
            (#[trigger] source_at(s, n)) is Some && source_at(s, n)->Some_0.kind@ == kind
                && opt_view(source_at(s, n)->Some_0.message) == message;
        assert(source_at(e, n + 1) == source_at(s, n));
    }
}

/// The search by value finds a match exactly when some cause reaches an equal error.
proof fn lemma_matches_with_message_reaches(causes: Seq<Cause>, kind: Seq<char>, message: Option<Seq<char>>)
    ensures
        (matches_with_message(causes, kind, message).len() > 0) == reaches_value(causes, kind, message),
    decreases causes.len(),
{
    if causes.len() > 0 {
        let rest = causes.drop_last();
        lemma_matches_with_message_reaches(rest, kind, message);
        let last = causes.len() - 1;
        if reaches_value(rest, kind, message) {
            let (i, n) = choose|i: int, n: nat|
                0 <= i < rest.len() && (#[trigger] source_at(rest[i].error, n)) is Some && source_at(
                    rest[i].error,
                    n,
                )->Some_0.kind@ == kind && opt_view(source_at(rest[i].error, n)->Some_0.message)
                    == message;
            assert(causes[i] == rest[i]);
            assert(source_at(causes[i].error, n) is Some);
        }
        if find_value(causes[last].error, kind, message) is Some {
            lemma_find_value_reachable(causes[last].error, kind, message);
            let n = choose|n: nat|
                (#[trigger] source_at(causes[last].error, n)) is Some && source_at(causes[last].error, n)->Some_0.kind@ == kind
                    && opt_view(source_at(causes[last].error, n)->Some_0.message) == message;
            assert(source_at(causes[last].error, n) is Some);
        }
        if reaches_value(causes, kind, message) {
            let (i, n) = choose|i: int, n: nat|
                0 <= i < causes.len() && (#[trigger] source_at(causes[i].error, n)) is Some && source_at(
                    causes[i].error,
                    n,
                )->Some_0.kind@ == kind && opt_view(source_at(causes[i].error, n)->Some_0.message)
                    == message;
            if i == last {
                lemma_find_value_reaches(causes[last].error, kind, message, n);
            } else {
                assert(rest[i] == causes[i]);
                assert(source_at(rest[i].error, n) is Some);
            }
        }
    }
}

/// A match in a prefix of the chain is a match in the chain.
proof fn lemma_matches_in_grow(causes: Seq<Cause>, kind: Seq<char>, n: int)
    requires
        0 <= n <= causes.len(),
        matches_in(causes.take(n), kind).len() > 0,
    ensures
        matches_in(causes, kind).len() > 0,
    decreases causes.len() - n,
{
    if n < causes.len() {
        assert(causes.take(n + 1).drop_last() =~= causes.take(n));
        lemma_matches_in_grow(causes, kind, n + 1);
    } else {
        assert(causes.take(n) =~= causes);
    }
}

} // verus!
