//! The error type shared by the whole library.
use vstd::prelude::*;

verus! {

/// Everything that can go wrong while loading, building or initializing a
/// site.
#[derive(Debug, Clone, PartialEq, Eq)]
pub enum Error {
    /// A rule of the library was broken; the text says which.
    Message(String),
    /// Reading or writing a file failed.
    Io(String),
    /// A configuration or front matter document could not be read as TOML.
    Parse(String),
    /// A template could not be compiled or rendered.
    Template(String),
}

/// An error as plain values: its kind and its text.
pub enum ErrorView {
    Message(Seq<char>),
    Io(Seq<char>),
    Parse(Seq<char>),
    Template(Seq<char>),
}

impl View for Error {
    type V = ErrorView;

    open spec fn view(&self) -> ErrorView {
        match self {
            Error::Message(m) => ErrorView::Message(m@),
            Error::Io(m) => ErrorView::Io(m@),
            Error::Parse(m) => ErrorView::Parse(m@),
            Error::Template(m) => ErrorView::Template(m@),
        }
    }
}

impl Error {
    /// The text that describes an error.
    pub open spec fn text(self) -> Seq<char> {
        match self {
            Error::Message(m) => m@,
            Error::Io(m) => m@,
            Error::Parse(m) => m@,
            Error::Template(m) => m@,
        }
    }

    /// An error that carries a message of the library's own.
    pub fn message(msg: String) -> (e: Error)
        ensures
            e == Error::Message(msg),
    {
        Error::Message(msg)
    }

    /// A copy of this error.
    pub fn duplicate(&self) -> (r: Error)
        ensures
            r@ == self@,
    {
        match self {
            Error::Message(m) => Error::Message(m.clone()),
            Error::Io(m) => Error::Io(m.clone()),
            Error::Parse(m) => Error::Parse(m.clone()),
            Error::Template(m) => Error::Template(m.clone()),
        }
    }

    /// The text that describes this error.
    pub fn to_string(&self) -> (r: String)
        ensures
            r@ == self.text(),
    {
        match self {
            Error::Message(m) => m.clone(),
            Error::Io(m) => m.clone(),
            Error::Parse(m) => m.clone(),
            Error::Template(m) => m.clone(),
        }
    }
}

} // verus!
