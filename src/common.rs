use vstd::prelude::*;
use vstd::string::*;

use crate::captured::{opt_view, CapturedError, ErrorType};

verus! {

/// A low-level failure. A tag: all its values are alike, and it renders as `low-level`.
#[derive(Clone, Copy, Debug, Default, PartialEq, Eq, Structural)]
pub struct LowLevelError;

impl ErrorType for LowLevelError {
    open spec fn spec_kind() -> Seq<char> {
        "LowLevelError"@
    }

    open spec fn spec_label() -> Seq<char> {
        "low-level"@
    }

    open spec fn spec_message(&self) -> Option<Seq<char>> {
        None
    }

    open spec fn spec_carries_message() -> bool {
        false
    }

    fn kind() -> (r: String) {
        String::from_str("LowLevelError")
    }

    fn message(&self) -> (r: Option<String>) {
        None
    }

    open spec fn spec_accepts(message: Option<Seq<char>>) -> bool {
        message is None
    }

    fn from_captured(error: &CapturedError) -> (r: Option<Self>) {
        if error.kind == Self::kind() && error.message.is_none() {
            Some(Self)
        } else {
            None
        }
    }

    proof fn lemma_accepts_own_message(e: Self) {
    }

    fn capture(self) -> (r: CapturedError) {
        CapturedError::new_tag(Self::kind(), String::from_str("low-level"))
    }
}

/// An arithmetic overflow. A tag: all its values are alike, and it renders as `overflow`.
#[derive(Clone, Copy, Debug, Default, PartialEq, Eq, Structural)]
pub struct OverflowError;

impl ErrorType for OverflowError {
    open spec fn spec_kind() -> Seq<char> {
        "OverflowError"@
    }

    open spec fn spec_label() -> Seq<char> {
        "overflow"@
    }

    open spec fn spec_message(&self) -> Option<Seq<char>> {
        None
    }

    open spec fn spec_carries_message() -> bool {
        false
    }

    fn kind() -> (r: String) {
        String::from_str("OverflowError")
    }

    fn message(&self) -> (r: Option<String>) {
        None
    }

    open spec fn spec_accepts(message: Option<Seq<char>>) -> bool {
        message is None
    }

    fn from_captured(error: &CapturedError) -> (r: Option<Self>) {
        if error.kind == Self::kind() && error.message.is_none() {
            Some(Self)
        } else {
            None
        }
    }

    proof fn lemma_accepts_own_message(e: Self) {
    }

    fn capture(self) -> (r: CapturedError) {
        CapturedError::new_tag(Self::kind(), String::from_str("overflow"))
    }
}

/// An error that is just a message. It renders as its message, or as `MessageError` without
/// one.
pub struct MessageError(pub Option<String>);

impl MessageError {
    /// An error with the given message.
    pub fn new(message: &str) -> (r: MessageError)
        ensures
            opt_view(r.0) == Some(message@),
    {
        MessageError(Some(String::from_str(message)))
    }

    /// An error with the given message.
    pub fn from_string(message: String) -> (r: MessageError)
        ensures
            r.0 == Some(message),
    {
        MessageError(Some(message))
    }
}

impl ErrorType for MessageError {
    open spec fn spec_kind() -> Seq<char> {
        "MessageError"@
    }

    open spec fn spec_label() -> Seq<char> {
        ""@
    }

    open spec fn spec_message(&self) -> Option<Seq<char>> {
        opt_view(self.0)
    }

    open spec fn spec_carries_message() -> bool {
        true
    }

    fn kind() -> (r: String) {
        String::from_str("MessageError")
    }

    fn message(&self) -> (r: Option<String>) {
        match &self.0 {
            Some(m) => Some(m.clone()),
            None => None,
        }
    }

    open spec fn spec_accepts(message: Option<Seq<char>>) -> bool {
        true
    }

    fn from_captured(error: &CapturedError) -> (r: Option<Self>) {
        if error.kind == Self::kind() {
            Some(Self(error.message.clone()))
        } else {
            None
        }
    }

    proof fn lemma_accepts_own_message(e: Self) {
    }

    fn capture(self) -> (r: CapturedError) {
        CapturedError::new(Self::kind(), String::from_str(""), self.0)
    }
}

/// A failure of concurrent execution, with a message. It renders as `concurrency: ` followed by its message, or `concurrency` without one.
pub struct ConcurrencyError(pub Option<String>);

impl ConcurrencyError {
    /// An error with the given message.
    pub fn new(message: &str) -> (r: ConcurrencyError)
        ensures
            opt_view(r.0) == Some(message@),
    {
        ConcurrencyError(Some(String::from_str(message)))
    }

    /// An error with the given message.
    pub fn from_string(message: String) -> (r: ConcurrencyError)
        ensures
            r.0 == Some(message),
    {
        ConcurrencyError(Some(message))
    }
}

impl ErrorType for ConcurrencyError {
    open spec fn spec_kind() -> Seq<char> {
        "ConcurrencyError"@
    }

    open spec fn spec_label() -> Seq<char> {
        "concurrency"@
    }

    open spec fn spec_message(&self) -> Option<Seq<char>> {
        opt_view(self.0)
    }

    open spec fn spec_carries_message() -> bool {
        true
    }

    fn kind() -> (r: String) {
        String::from_str("ConcurrencyError")
    }

    fn message(&self) -> (r: Option<String>) {
        match &self.0 {
            Some(m) => Some(m.clone()),
            None => None,
        }
    }

    open spec fn spec_accepts(message: Option<Seq<char>>) -> bool {
        true
    }

    fn from_captured(error: &CapturedError) -> (r: Option<Self>) {
        if error.kind == Self::kind() {
            Some(Self(error.message.clone()))
        } else {
            None
        }
    }

    proof fn lemma_accepts_own_message(e: Self) {
    }

    fn capture(self) -> (r: CapturedError) {
        CapturedError::new(Self::kind(), String::from_str("concurrency"), self.0)
    }
}

/// A failure of a thread, with a message. It renders as `thread: ` followed by its message, or `thread` without one.
pub struct ThreadError(pub Option<String>);

impl ThreadError {
    /// An error with the given message.
    pub fn new(message: &str) -> (r: ThreadError)
        ensures
            opt_view(r.0) == Some(message@),
    {
        ThreadError(Some(String::from_str(message)))
    }

    /// An error with the given message.
    pub fn from_string(message: String) -> (r: ThreadError)
        ensures
            r.0 == Some(message),
    {
        ThreadError(Some(message))
    }
}

impl ErrorType for ThreadError {
    open spec fn spec_kind() -> Seq<char> {
        "ThreadError"@
    }

    open spec fn spec_label() -> Seq<char> {
        "thread"@
    }

    open spec fn spec_message(&self) -> Option<Seq<char>> {
        opt_view(self.0)
    }

    open spec fn spec_carries_message() -> bool {
        true
    }

    fn kind() -> (r: String) {
        String::from_str("ThreadError")
    }

    fn message(&self) -> (r: Option<String>) {
        match &self.0 {
            Some(m) => Some(m.clone()),
            None => None,
        }
    }

    open spec fn spec_accepts(message: Option<Seq<char>>) -> bool {
        true
    }

    fn from_captured(error: &CapturedError) -> (r: Option<Self>) {
        if error.kind == Self::kind() {
            Some(Self(error.message.clone()))
        } else {
            None
        }
    }

    proof fn lemma_accepts_own_message(e: Self) {
    }

    fn capture(self) -> (r: CapturedError) {
        CapturedError::new(Self::kind(), String::from_str("thread"), self.0)
    }
}

/// A failure to serialize, with a message. It renders as `serialize: ` followed by its message, or `serialize` without one.
pub struct SerializeError(pub Option<String>);

impl SerializeError {
    /// An error with the given message.
    pub fn new(message: &str) -> (r: SerializeError)
        ensures
            opt_view(r.0) == Some(message@),
    {
        SerializeError(Some(String::from_str(message)))
    }

    /// An error with the given message.
    pub fn from_string(message: String) -> (r: SerializeError)
        ensures
            r.0 == Some(message),
    {
        SerializeError(Some(message))
    }
}

impl ErrorType for SerializeError {
    open spec fn spec_kind() -> Seq<char> {
        "SerializeError"@
    }

    open spec fn spec_label() -> Seq<char> {
        "serialize"@
    }

    open spec fn spec_message(&self) -> Option<Seq<char>> {
        opt_view(self.0)
    }

    open spec fn spec_carries_message() -> bool {
        true
    }

    fn kind() -> (r: String) {
        String::from_str("SerializeError")
    }

    fn message(&self) -> (r: Option<String>) {
        match &self.0 {
            Some(m) => Some(m.clone()),
            None => None,
        }
    }

    open spec fn spec_accepts(message: Option<Seq<char>>) -> bool {
        true
    }

    fn from_captured(error: &CapturedError) -> (r: Option<Self>) {
        if error.kind == Self::kind() {
            Some(Self(error.message.clone()))
        } else {
            None
        }
    }

    proof fn lemma_accepts_own_message(e: Self) {
    }

    fn capture(self) -> (r: CapturedError) {
        CapturedError::new(Self::kind(), String::from_str("serialize"), self.0)
    }
}

/// A failure to deserialize, with a message. It renders as `deserialize: ` followed by its message, or `deserialize` without one.
pub struct DeserializeError(pub Option<String>);

impl DeserializeError {
    /// An error with the given message.
    pub fn new(message: &str) -> (r: DeserializeError)
        ensures
            opt_view(r.0) == Some(message@),
    {
        DeserializeError(Some(String::from_str(message)))
    }

    /// An error with the given message.
    pub fn from_string(message: String) -> (r: DeserializeError)
        ensures
            r.0 == Some(message),
    {
        DeserializeError(Some(message))
    }
}

impl ErrorType for DeserializeError {
    open spec fn spec_kind() -> Seq<char> {
        "DeserializeError"@
    }

    open spec fn spec_label() -> Seq<char> {
        "deserialize"@
    }

    open spec fn spec_message(&self) -> Option<Seq<char>> {
        opt_view(self.0)
    }

    open spec fn spec_carries_message() -> bool {
        true
    }

    fn kind() -> (r: String) {
        String::from_str("DeserializeError")
    }

    fn message(&self) -> (r: Option<String>) {
        match &self.0 {
            Some(m) => Some(m.clone()),
            None => None,
        }
    }

    open spec fn spec_accepts(message: Option<Seq<char>>) -> bool {
        true
    }

    fn from_captured(error: &CapturedError) -> (r: Option<Self>) {
        if error.kind == Self::kind() {
            Some(Self(error.message.clone()))
        } else {
            None
        }
    }

    proof fn lemma_accepts_own_message(e: Self) {
    }

    fn capture(self) -> (r: CapturedError) {
        CapturedError::new(Self::kind(), String::from_str("deserialize"), self.0)
    }
}

} // verus!
