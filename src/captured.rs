use vstd::prelude::*;
use vstd::string::*;

verus! {

/// The view of an optional string.
pub open spec fn opt_view(s: Option<String>) -> Option<Seq<char>> {
    match s {
        Some(s) => Some(s@),
        None => None,
    }
}

/// How an error renders for humans: `label: message`, or just one of the two when the
/// other is empty; an empty message counts as none. Without either, the error renders as
/// the name of its type.
pub open spec fn rendered(kind: Seq<char>, label: Seq<char>, message: Option<Seq<char>>) -> Seq<
    char,
> {
    if message is Some && message->Some_0.len() > 0 {
        if label.len() == 0 {
            message->Some_0
        } else {
            label + ": "@ + message->Some_0
        }
    } else if label.len() == 0 {
        kind
    } else {
        label
    }
}

/// The text that `str`'s `Debug` rendering gives for `s`: quoted, with special characters
/// escaped.
pub uninterp spec fn debug_quoted(s: Seq<char>) -> Seq<char>;

/// Relies on the `Debug` rendering of `str`, which depends on the characters alone.
#[verifier::external_body]
fn quoted(s: &str) -> (r: String)
    ensures
        r@ == debug_quoted(s@),
{
    format!("{:?}", s)
}

/// How an error renders for developers: the name of its type, followed, for a type that
/// carries an optional message, by `(Some("message"))` or `(None)`.
pub open spec fn debug_rendered(
    kind: Seq<char>,
    carries_message: bool,
    message: Option<Seq<char>>,
) -> Seq<char> {
    if !carries_message {
        kind
    } else {
        match message {
            Some(m) => kind + "(Some("@ + debug_quoted(m) + "))"@,
            None => kind + "(None)"@,
        }
    }
}

/// An error whose concrete type has been erased: it keeps the name of that type (its runtime
/// identity), the message it carried, the label it renders with, and the upstream error it
/// wraps, if any.
pub struct CapturedError {
    /// Name of the concrete error type.
    pub kind: String,
    /// Label that the type prefixes to its message when rendered.
    pub label: String,
    /// Whether the type carries an optional message; a type that does not is a tag.
    pub carries_message: bool,
    /// Message carried by the value, if any.
    pub message: Option<String>,
    /// Upstream error that this one wraps.
    pub source: Option<Box<CapturedError>>,
}

impl CapturedError {
    /// Text that the error renders as.
    pub open spec fn spec_display(&self) -> Seq<char> {
        rendered(self.kind@, self.label@, opt_view(self.message))
    }

    /// Text that the error renders as for developers.
    pub open spec fn spec_debug(&self) -> Seq<char> {
        debug_rendered(self.kind@, self.carries_message, opt_view(self.message))
    }

    /// An error of a type that carries an optional message, without upstream source.
    pub fn new(kind: String, label: String, message: Option<String>) -> (r: CapturedError)
        ensures
            r.kind == kind,
            r.label == label,
            r.carries_message,
            r.message == message,
            r.source is None,
    {
        CapturedError { kind, label, carries_message: true, message, source: None }
    }

    /// An error of a tag type, which carries no message, without upstream source.
    pub fn new_tag(kind: String, label: String) -> (r: CapturedError)
        ensures
            r.kind == kind,
            r.label == label,
            !r.carries_message,
            r.message is None,
            r.source is None,
    {
        CapturedError { kind, label, carries_message: false, message: None, source: None }
    }

    /// Sets the upstream error that this one wraps.
    pub fn with_source(self, source: CapturedError) -> (r: CapturedError)
        ensures
            r.kind == self.kind,
            r.label == self.label,
            r.carries_message == self.carries_message,
            r.message == self.message,
            r.source == Some(Box::new(source)),
    {
        CapturedError { source: Some(Box::new(source)), ..self }
    }

    /// Renders the error: its label and its message, separated by `": "` when both are
    /// present and not empty; the name of its type when neither is.
    pub fn display(&self) -> (r: String)
        ensures
            r@ == self.spec_display(),
    {
        match &self.message {
            Some(m) if !m.as_str().is_empty() => {
                if self.label.as_str().is_empty() {
                    m.clone()
                } else {
                    let mut s = self.label.clone();
                    s.append(": ");
                    s.append(m.as_str());
                    proof { reveal_strlit(": "); }
                    s
                }
            },
            _ => {
                if self.label.as_str().is_empty() {
                    self.kind.clone()
                } else {
                    self.label.clone()
                }
            },
        }
    }

    /// The value of type `E` that this error was captured from, if it is of `E`'s kind.
    pub fn downcast<E: ErrorType>(&self) -> (r: Option<E>)
        ensures
            r is Some <==> self.kind@ == E::spec_kind() && E::spec_accepts(opt_view(self.message)),
            r is Some ==> r->Some_0.spec_message() == opt_view(self.message),
    {
        E::from_captured(self)
    }

    /// Renders the error for developers: the name of its type, followed, for a type that
    /// carries an optional message, by `(Some("message"))` or `(None)`.
    pub fn debug(&self) -> (r: String)
        ensures
            r@ == self.spec_debug(),
    {
        let mut s = self.kind.clone();
        if self.carries_message {
            match &self.message {
                Some(m) => {
                    let q = quoted(m.as_str());
                    s.append("(Some(");
                    s.append(q.as_str());
                    s.append("))");
                    proof {
                        reveal_strlit("(Some(");
                        reveal_strlit("))");
                    }
                },
                None => {
                    s.append("(None)");
                    proof {
                        reveal_strlit("(None)");
                    }
                },
            }
        }
        s
    }
}

/// The value held by an attachment.
pub enum AttachmentValue {
    /// No value: the attachment's type is all it says.
    Empty,
    /// Text.
    Text(String),
    /// A process exit code.
    Code(u8),
}

/// An attachment whose concrete type has been erased: the name of that type and its value.
pub struct CapturedAttachment {
    /// Name of the concrete attachment type.
    pub kind: String,
    /// The value.
    pub value: AttachmentValue,
}

/// An error type whose values can be captured into a [`CapturedError`].
pub trait ErrorType: Sized {
    /// Name that identifies the type among captured errors.
    spec fn spec_kind() -> Seq<char>;

    /// Label that the type prefixes to its message when rendered.
    spec fn spec_label() -> Seq<char>;

    /// Message carried by the value.
    spec fn spec_message(&self) -> Option<Seq<char>>;

    /// Whether the type carries an optional message; a type that does not is a tag.
    spec fn spec_carries_message() -> bool;

    /// Name that identifies the type among captured errors.
    fn kind() -> (r: String)
        ensures
            r@ == Self::spec_kind(),
    ;

    /// Message carried by the value.
    fn message(&self) -> (r: Option<String>)
        ensures
            opt_view(r) == self.spec_message(),
    ;

    /// Erases the concrete type, keeping its name, label and message.
    fn capture(self) -> (r: CapturedError)
        ensures
            r.kind@ == Self::spec_kind(),
            r.label@ == Self::spec_label(),
            r.carries_message == Self::spec_carries_message(),
            opt_view(r.message) == self.spec_message(),
            r.source is None,
    ;

    /// Whether a value of the type can carry the given message.
    spec fn spec_accepts(message: Option<Seq<char>>) -> bool;

    /// Restores a value of this type from a captured error of its kind whose message it can
    /// carry.
    fn from_captured(error: &CapturedError) -> (r: Option<Self>)
        ensures
            r is Some <==> error.kind@ == Self::spec_kind() && Self::spec_accepts(
                opt_view(error.message),
            ),
            r is Some ==> r->Some_0.spec_message() == opt_view(error.message),
    ;

    /// A value's own message is one the type can carry.
    proof fn lemma_accepts_own_message(e: Self)
        ensures
            Self::spec_accepts(e.spec_message()),
    ;
}

/// Whether `c` is what capturing `e` gives.
pub open spec fn is_capture_of<E: ErrorType>(c: CapturedError, e: E) -> bool {
    &&& c.kind@ == E::spec_kind()
    &&& c.label@ == E::spec_label()
    &&& c.carries_message == E::spec_carries_message()
    &&& opt_view(c.message) == e.spec_message()
    &&& c.source is None
}

/// Whether `c` holds a value of type `E` equal to `e`: same type, same message.
pub open spec fn equals_value<E: ErrorType>(c: CapturedError, e: E) -> bool {
    c.kind@ == E::spec_kind() && opt_view(c.message) == e.spec_message()
}

/// An attachment type whose values can be captured into a [`CapturedAttachment`] and
/// restored from it.
pub trait AttachmentType: Sized {
    /// Name that identifies the type among captured attachments.
    spec fn spec_kind() -> Seq<char>;

    /// The value that a captured attachment keeps of `self`.
    spec fn spec_value(&self) -> AttachmentValue;

    /// The value of this type held by `v`, if `v` has the shape this type captures to.
    spec fn spec_restore(v: AttachmentValue) -> Option<Self>;

    /// Name that identifies the type among captured attachments.
    fn kind() -> (r: String)
        ensures
            r@ == Self::spec_kind(),
    ;

    /// Erases the concrete type, keeping its name and value.
    fn capture(self) -> (r: CapturedAttachment)
        ensures
            r.kind@ == Self::spec_kind(),
            r.value == self.spec_value(),
    ;

    /// Restores a value of this type from a captured value.
    fn restore(v: &AttachmentValue) -> (r: Option<Self>)
        ensures
            r == Self::spec_restore(*v),
    ;

    /// Restoring what was captured gives the value back.
    proof fn lemma_restore_capture(a: Self)
        ensures
            Self::spec_restore(a.spec_value()) == Some(a),
    ;
}

impl AttachmentType for String {
    open spec fn spec_kind() -> Seq<char> {
        "String"@
    }

    open spec fn spec_value(&self) -> AttachmentValue {
        AttachmentValue::Text(*self)
    }

    open spec fn spec_restore(v: AttachmentValue) -> Option<Self> {
        match v {
            AttachmentValue::Text(s) => Some(s),
            _ => None,
        }
    }

    fn kind() -> (r: String) {
        String::from_str("String")
    }

    fn capture(self) -> (r: CapturedAttachment) {
        CapturedAttachment { kind: Self::kind(), value: AttachmentValue::Text(self) }
    }

    fn restore(v: &AttachmentValue) -> (r: Option<Self>) {
        match v {
            AttachmentValue::Text(s) => Some(s.clone()),
            _ => None,
        }
    }

    proof fn lemma_restore_capture(a: Self) {
    }
}

/// Whether `c` is what capturing `a` gives.
pub open spec fn is_attachment_of<T: AttachmentType>(c: CapturedAttachment, a: T) -> bool {
    c.kind@ == T::spec_kind() && c.value == a.spec_value()
}

/// The values of type `T` among captured attachments, in order: those of `T`'s kind whose
/// value restores to `T`.
pub open spec fn restored<T: AttachmentType>(s: Seq<CapturedAttachment>) -> Seq<T>
    decreases s.len(),
{
    if s.len() == 0 {
        seq![]
    } else {
        let rest = restored::<T>(s.drop_last());
        if s.last().kind@ == T::spec_kind() {
            match T::spec_restore(s.last().value) {
                Some(v) => rest.push(v),
                None => rest,
            }
        } else {
            rest
        }
    }
}

/// The first element of a sequence, if any.
pub open spec fn first<T>(s: Seq<T>) -> Option<T> {
    if s.len() == 0 {
        None
    } else {
        Some(s[0])
    }
}

/// Restoring distributes over concatenation.
pub proof fn lemma_restored_concat<T: AttachmentType>(a: Seq<CapturedAttachment>, b: Seq<CapturedAttachment>)
    ensures
        restored::<T>(a + b) == restored::<T>(a) + restored::<T>(b),
    decreases b.len(),
{
    if b.len() == 0 {
        assert(a + b =~= a);
        assert(restored::<T>(b) =~= seq![]);
        assert(restored::<T>(a) + restored::<T>(b) =~= restored::<T>(a));
    } else {
        lemma_restored_concat::<T>(a, b.drop_last());
        assert((a + b).drop_last() =~= a + b.drop_last());
        assert((a + b).last() == b.last());
        let ra = restored::<T>(a);
        let rb = restored::<T>(b.drop_last());
        if b.last().kind@ == T::spec_kind() {
            match T::spec_restore(b.last().value) {
                Some(v) => {
                    assert((ra + rb).push(v) =~= ra + rb.push(v));
                },
                None => {},
            }
        }
    }
}

/// The values of type `T` among `s`, in order.
pub fn restore_all<T: AttachmentType>(s: &Vec<CapturedAttachment>) -> (r: Vec<T>)
    ensures
        r@ == restored::<T>(s@),
{
    let kind = T::kind();
    let mut r: Vec<T> = Vec::new();
    let mut i: usize = 0;
    while i < s.len()
        invariant
            i <= s@.len(),
            kind@ == T::spec_kind(),
            r@ == restored::<T>(s@.take(i as int)),
        decreases s@.len() - i,
    {
        let a = &s[i];
        assert(s@.take(i as int + 1).drop_last() =~= s@.take(i as int));
        assert(s@.take(i as int + 1).last() == s@[i as int]);
        if a.kind == kind {
            match T::restore(&a.value) {
                Some(v) => r.push(v),
                None => {},
            }
        }
        i += 1;
    }
    assert(s@.take(s@.len() as int) =~= s@);
    r
}

} // verus!
