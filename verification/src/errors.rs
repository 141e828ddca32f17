//! An error with a message and, where another error caused it, the text of
//! that error.

use vstd::prelude::*;
use vstd::string::*;

verus! {

/// An error: what went wrong, and what caused it.
#[derive(Debug)]
pub struct Error {
    src: Option<String>,
    message: String,
}

/// An error, as plain values.
pub struct ErrorView {
    /// The text of the error that caused this one.
    pub src: Option<Seq<char>>,
    /// What went wrong.
    pub message: Seq<char>,
}

/// The text that may be there, as characters.
pub open spec fn text_view(text: Option<String>) -> Option<Seq<char>> {
    match text {
        Some(text) => Some(text@),
        None => None,
    }
}

impl View for Error {
    type V = ErrorView;

    closed spec fn view(&self) -> ErrorView {
        ErrorView { src: text_view(self.src), message: self.message@ }
    }
}

/// The text of an error: its message, and behind a colon and a blank the text
/// of its cause, where it has one.
pub open spec fn rendered(error: ErrorView) -> Seq<char> {
    match error.src {
        Some(src) => error.message + seq![':', ' '] + src,
        None => error.message,
    }
}

impl Error {
    /// An error without a cause.
    pub fn new(message: &str) -> (res: Self)
        ensures
            res@ == (ErrorView { src: None, message: message@ }),
    {
        Error { src: None, message: String::from_str(message) }
    }

    /// An error that another error caused; `err` is the text of that error.
    pub fn wrap(message: &str, err: &str) -> (res: Self)
        ensures
            res@ == (ErrorView { src: Some(err@), message: message@ }),
    {
        Error { src: Some(String::from_str(err)), message: String::from_str(message) }
    }

    /// What went wrong.
    pub fn message(&self) -> (res: &str)
        ensures
            res@ == self@.message,
    {
        self.message.as_str()
    }

    /// The text of the cause, where there is one.
    pub fn source(&self) -> (res: Option<&String>)
        ensures
            res is Some <==> self@.src is Some,
            res matches Some(text) ==> Some(text@) == self@.src,
    {
        self.src.as_ref()
    }

    /// The text of the error.
    pub fn to_string(&self) -> (res: String)
        ensures
            res@ == rendered(self@),
    {
        let mut res = self.message.clone();
        match &self.src {
            Some(src) => {
                res.push(':');
                res.push(' ');
                res.append(src.as_str());
                assert(res@ =~= rendered(self@));
            },
            None => {},
        }
        res
    }
}

} // verus!
