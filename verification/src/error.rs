//! Failures that the bridge reports.
use crate::text::{push_text, texts};
use vstd::prelude::*;

verus! {

/// A failure of a bridge operation, by kind, with its message.
#[derive(Debug)]
pub enum BridgeError {
    Io(String),
    Path(String),
    Security(String),
    Precondition(String),
    Command(String),
    Serialization(String),
}

/// The kinds of failures.
#[derive(Clone, Copy, Debug, PartialEq, Eq, Structural)]
pub enum ErrorKind {
    Io,
    Path,
    Security,
    Precondition,
    Command,
    Serialization,
}

/// The mathematical value of a [`BridgeError`].
pub struct Fault {
    pub kind: ErrorKind,
    pub detail: Seq<char>,
}

impl Fault {
    /// The full text of the failure.
    pub open spec fn text(self) -> Seq<char> {
        (match self.kind {
            ErrorKind::Io => "I/O error: "@,
            ErrorKind::Path => "Path error: "@,
            ErrorKind::Security => "Security violation: "@,
            ErrorKind::Precondition => "Precondition failed: "@,
            ErrorKind::Command => "Command execution error: "@,
            ErrorKind::Serialization => "Serialization error: "@,
        }) + self.detail
    }
}

impl View for BridgeError {
    type V = Fault;

    open spec fn view(&self) -> Fault {
        Fault {
            kind: match *self {
                BridgeError::Io(_) => ErrorKind::Io,
                BridgeError::Path(_) => ErrorKind::Path,
                BridgeError::Security(_) => ErrorKind::Security,
                BridgeError::Precondition(_) => ErrorKind::Precondition,
                BridgeError::Command(_) => ErrorKind::Command,
                BridgeError::Serialization(_) => ErrorKind::Serialization,
            },
            detail: self.detail(),
        }
    }
}

impl BridgeError {
    /// The message without the words that name the kind.
    pub open spec fn detail(self) -> Seq<char> {
        match self {
            BridgeError::Io(s) => s@,
            BridgeError::Path(s) => s@,
            BridgeError::Security(s) => s@,
            BridgeError::Precondition(s) => s@,
            BridgeError::Command(s) => s@,
            BridgeError::Serialization(s) => s@,
        }
    }

    /// The words in front of the message that name the kind.
    pub open spec fn prefix(self) -> Seq<char> {
        match self {
            BridgeError::Io(_) => "I/O error: "@,
            BridgeError::Path(_) => "Path error: "@,
            BridgeError::Security(_) => "Security violation: "@,
            BridgeError::Precondition(_) => "Precondition failed: "@,
            BridgeError::Command(_) => "Command execution error: "@,
            BridgeError::Serialization(_) => "Serialization error: "@,
        }
    }

    /// The full text of the failure.
    pub fn message(&self) -> (r: String)
        ensures
            r@ == self.prefix() + self.detail(),
            r@ == self@.text(),
    {
        match self {
            BridgeError::Io(s) => "I/O error: ".to_owned().concat(s.as_str()),
            BridgeError::Path(s) => "Path error: ".to_owned().concat(s.as_str()),
            BridgeError::Security(s) => "Security violation: ".to_owned().concat(s.as_str()),
            BridgeError::Precondition(s) => "Precondition failed: ".to_owned().concat(s.as_str()),
            BridgeError::Command(s) => "Command execution error: ".to_owned().concat(s.as_str()),
            BridgeError::Serialization(s) => "Serialization error: ".to_owned().concat(s.as_str()),
        }
    }

    /// The status and the text with which the HTTP server answers: a security failure
    /// is 401 with the bare message, any other failure is 400 with the full text.
    pub fn http_reply(&self) -> (r: (u16, String))
        ensures
            *self is Security ==> r.0 == 401 && r.1@ == self.detail(),
            !(*self is Security) ==> r.0 == 400 && r.1@ == self.prefix() + self.detail(),
    {
        match self {
            BridgeError::Security(s) => (401, s.clone()),
            _ => (400, self.message()),
        }
    }
}

/// A failure of a command by its words: what failed, and behind it what that came from, each
/// in a text of its own.
#[derive(Debug)]
pub struct Failure {
    pub words: Vec<String>,
}

impl View for Failure {
    type V = Seq<Seq<char>>;

    open spec fn view(&self) -> Seq<Seq<char>> {
        texts(self.words@)
    }
}

impl Failure {
    /// A failure that comes from no other.
    pub fn new(message: String) -> (r: Self)
        ensures
            r@ == seq![message@],
    {
        let mut words: Vec<String> = Vec::new();
        words.push(message);
        let r = Failure { words };
        assert(r@ =~= seq![message@]);
        r
    }

    /// A failure that comes from another, of which only the words are known.
    pub fn caused(message: String, cause: &str) -> (r: Self)
        ensures
            r@ == seq![message@, cause@],
    {
        let mut r = Failure::new(message);
        push_text(&mut r.words, cause);
        assert(r@ =~= seq![message@, cause@]);
        r
    }

    /// A failure that comes from this one.
    pub fn under(self, message: String) -> (r: Self)
        ensures
            r@ == seq![message@] + self@,
    {
        let ghost before = self@;
        let mut words = self.words;
        words.insert(0, message);
        let r = Failure { words };
        assert(r@ =~= seq![message@] + before);
        r
    }

    /// A failure with the same words.
    pub fn copy(&self) -> (r: Self)
        ensures
            r@ == self@,
    {
        let mut words = crate::text::no_texts();
        let mut i: usize = 0;
        assert(self@.subrange(0, 0) =~= Seq::<Seq<char>>::empty());
        while i < self.words.len()
            invariant
                i <= self.words@.len(),
                texts(words@) == self@.subrange(0, i as int),
            decreases self.words@.len() - i,
        {
            push_text(&mut words, self.words[i].as_str());
            assert(self@.subrange(0, i + 1) =~= self@.subrange(0, i as int).push(self@[i as int]));
            i += 1;
        }
        assert(self@.subrange(0, self@.len() as int) =~= self@);
        Failure { words }
    }

    /// The words of what failed, without what it came from.
    pub fn message(&self) -> (r: &str)
        ensures
            r@ == (if self@.len() > 0 {
                self@[0]
            } else {
                ""@
            }),
    {
        if self.words.len() > 0 {
            self.words[0].as_str()
        } else {
            ""
        }
    }
}

} // verus!
