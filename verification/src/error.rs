//! The library's error type and the text it renders to.
use vstd::prelude::*;

use crate::text::{owned, push_str};

verus! {

/// Which part of the application an error comes from.
#[derive(Debug, Clone, Copy, PartialEq, Eq, Structural)]
pub enum ErrorKind {
    Ocr,
    Translate,
    Screenshot,
    Selection,
    History,
    Config,
    Image,
    Io,
}

/// An error of one of the application's parts, with its detail text.
#[derive(Debug)]
pub enum Error {
    Ocr(String),
    Translate(String),
    Screenshot(String),
    Selection(String),
    History(String),
    Config(String),
    Image(String),
    Io(String),
}

/// Outcome of a fallible operation of the library.
pub type Result<T> = core::result::Result<T, Error>;

impl View for Error {
    type V = (ErrorKind, Seq<char>);

    open spec fn view(&self) -> (ErrorKind, Seq<char>) {
        match self {
            Error::Ocr(m) => (ErrorKind::Ocr, m@),
            Error::Translate(m) => (ErrorKind::Translate, m@),
            Error::Screenshot(m) => (ErrorKind::Screenshot, m@),
            Error::Selection(m) => (ErrorKind::Selection, m@),
            Error::History(m) => (ErrorKind::History, m@),
            Error::Config(m) => (ErrorKind::Config, m@),
            Error::Image(m) => (ErrorKind::Image, m@),
            Error::Io(m) => (ErrorKind::Io, m@),
        }
    }
}

/// The prefix that names the failing part in an error's rendering.
pub open spec fn kind_prefix(kind: ErrorKind) -> Seq<char> {
    match kind {
        ErrorKind::Ocr => "OCR failed: "@,
        ErrorKind::Translate => "translation failed: "@,
        ErrorKind::Screenshot => "screenshot failed: "@,
        ErrorKind::Selection => "selection failed: "@,
        ErrorKind::History => "history failed: "@,
        ErrorKind::Config => "config failed: "@,
        ErrorKind::Image => "image failed: "@,
        ErrorKind::Io => "io failed: "@,
    }
}

impl Error {
    /// Builds an error of `kind` with detail `message`.
    pub fn new(kind: ErrorKind, message: String) -> (e: Error)
        ensures
            e@ == (kind, message@),
    {
        match kind {
            ErrorKind::Ocr => Error::Ocr(message),
            ErrorKind::Translate => Error::Translate(message),
            ErrorKind::Screenshot => Error::Screenshot(message),
            ErrorKind::Selection => Error::Selection(message),
            ErrorKind::History => Error::History(message),
            ErrorKind::Config => Error::Config(message),
            ErrorKind::Image => Error::Image(message),
            ErrorKind::Io => Error::Io(message),
        }
    }

    /// Builds an error of `kind` whose detail is the text `message`.
    pub fn from_str(kind: ErrorKind, message: &str) -> (e: Error)
        ensures
            e@ == (kind, message@),
    {
        Error::new(kind, owned(message))
    }

    /// A copy of the error.
    pub fn duplicate(&self) -> (e: Error)
        ensures
            e@ == self@,
    {
        Error::new(self.kind(), owned(self.detail()))
    }

    /// The part of the application the error comes from.
    pub fn kind(&self) -> (k: ErrorKind)
        ensures
            k == self@.0,
    {
        match self {
            Error::Ocr(_) => ErrorKind::Ocr,
            Error::Translate(_) => ErrorKind::Translate,
            Error::Screenshot(_) => ErrorKind::Screenshot,
            Error::Selection(_) => ErrorKind::Selection,
            Error::History(_) => ErrorKind::History,
            Error::Config(_) => ErrorKind::Config,
            Error::Image(_) => ErrorKind::Image,
            Error::Io(_) => ErrorKind::Io,
        }
    }

    /// The detail text, without the prefix that names the part.
    pub fn detail(&self) -> (s: &str)
        ensures
            s@ == self@.1,
    {
        match self {
            Error::Ocr(m) => m.as_str(),
            Error::Translate(m) => m.as_str(),
            Error::Screenshot(m) => m.as_str(),
            Error::Selection(m) => m.as_str(),
            Error::History(m) => m.as_str(),
            Error::Config(m) => m.as_str(),
            Error::Image(m) => m.as_str(),
            Error::Io(m) => m.as_str(),
        }
    }

    /// The full rendering of the error, such as `config failed: <detail>`.
    pub fn message(&self) -> (s: String)
        ensures
            s@ == kind_prefix(self@.0) + self@.1,
    {
        let mut s = match self.kind() {
            ErrorKind::Ocr => owned("OCR failed: "),
            ErrorKind::Translate => owned("translation failed: "),
            ErrorKind::Screenshot => owned("screenshot failed: "),
            ErrorKind::Selection => owned("selection failed: "),
            ErrorKind::History => owned("history failed: "),
            ErrorKind::Config => owned("config failed: "),
            ErrorKind::Image => owned("image failed: "),
            ErrorKind::Io => owned("io failed: "),
        };
        push_str(&mut s, self.detail());
        s
    }
}

} // verus!
