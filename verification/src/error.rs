//! What can go wrong in a search, and how it is reported.

use vstd::prelude::*;
use vstd::string::StringExecFns;

verus! {

/// The stage at which a search failed.
#[derive(Clone, Copy, Debug, PartialEq, Eq, Structural)]
pub enum ErrorKind {
    /// An image file could not be decoded.
    ImageLoad,
    /// The haystack is smaller than the needle in some dimension.
    ImageSize,
    /// The correlation of needle and haystack failed.
    Match,
    /// Rescaling or inverting the correlation result failed.
    Normalization,
    /// Drawing an outline onto the haystack failed.
    Annotation,
    /// The haystack could not be encoded or written.
    ImageWrite,
}

impl ErrorKind {
    /// Whether the report of this kind names a file.
    pub open spec fn names_file(self) -> bool {
        self is ImageLoad || self is ImageWrite
    }

    /// Whether the report of this kind quotes a diagnostic text.
    pub open spec fn quotes_message(self) -> bool {
        self is Match || self is Normalization || self is Annotation
    }
}

/// A step of the imaging backend on the way to the scores. Each can fail
/// with a diagnostic text.
#[derive(Clone, Copy, Debug, PartialEq, Eq, Structural)]
pub enum Step {
    /// Computing the distance between the needle and every haystack window.
    Correlation,
    /// Rescaling the distances into the range from 0 to 1.
    Rescaling,
    /// Turning each rescaled distance `d` into the similarity `1 - d`.
    Inversion,
}

impl Step {
    /// The kind of error that a failure of this step is reported as.
    pub open spec fn kind(self) -> ErrorKind {
        match self {
            Step::Correlation => ErrorKind::Match,
            Step::Rescaling => ErrorKind::Normalization,
            Step::Inversion => ErrorKind::Normalization,
        }
    }

    /// The kind of error that a failure of this step is reported as.
    pub fn error_kind(&self) -> (kind: ErrorKind)
        ensures
            kind == self.kind(),
            kind.quotes_message(),
    {
        match self {
            Step::Correlation => ErrorKind::Match,
            Step::Rescaling => ErrorKind::Normalization,
            Step::Inversion => ErrorKind::Normalization,
        }
    }
}

/// A failed step of the imaging backend, with the backend's diagnostic text.
#[derive(Debug)]
pub struct Failure {
    pub step: Step,
    pub message: String,
}

/// An error of a search: its kind, and the file or the diagnostic text that
/// its report shows.
#[derive(Debug)]
pub struct Error {
    kind: ErrorKind,
    path: Option<String>,
    message: Option<String>,
}

/// What an [`Error`] holds, with texts as character sequences.
pub ghost struct ErrorView {
    pub kind: ErrorKind,
    pub path: Option<Seq<char>>,
    pub message: Option<Seq<char>>,
}

impl ErrorView {
    /// An error has whatever the report of its kind shows.
    pub open spec fn wf(self) -> bool {
        &&& self.kind.names_file() ==> self.path is Some
        &&& self.kind.quotes_message() ==> self.message is Some
    }

    /// The context message of the error.
    pub open spec fn text(self) -> Seq<char> {
        match self.kind {
            ErrorKind::ImageSize => "validating image size"@,
            ErrorKind::ImageLoad => "loading into matrix ("@ + self.path.unwrap() + ")"@,
            ErrorKind::Match => "matching template because "@ + self.message.unwrap(),
            ErrorKind::Normalization => "normalizing because "@ + self.message.unwrap(),
            ErrorKind::Annotation => "marking the haystack because "@ + self.message.unwrap(),
            ErrorKind::ImageWrite => "writing ("@ + self.path.unwrap() + ")"@,
        }
    }

    /// The line that reports the error: the word `Error`, a space and the
    /// context message.
    pub open spec fn report(self) -> Seq<char> {
        "Error "@ + self.text()
    }
}

impl View for Error {
    type V = ErrorView;

    closed spec fn view(&self) -> ErrorView {
        ErrorView {
            kind: self.kind,
            path: match self.path {
                Some(p) => Some(p@),
                None => None,
            },
            message: match self.message {
                Some(m) => Some(m@),
                None => None,
            },
        }
    }
}

impl Clone for Error {
    fn clone(&self) -> (copy: Error)
        ensures
            copy@ == self@,
    {
        proof {
            use_type_invariant(self);
        }
        Error {
            kind: self.kind,
            path: match &self.path {
                Some(p) => Some(p.clone()),
                None => None,
            },
            message: match &self.message {
                Some(m) => Some(m.clone()),
                None => None,
            },
        }
    }
}

impl Error {
    #[verifier::type_invariant]
    closed spec fn inv(self) -> bool {
        self@.wf()
    }

    /// An error about a file. The kind is one whose report quotes no
    /// diagnostic text.
    pub fn new_file(path: String, kind: ErrorKind) -> (e: Error)
        requires
            !kind.quotes_message(),
        ensures
            e@ == (ErrorView { kind, path: Some(path@), message: None }),
            e@.wf(),
    {
        Error { path: Some(path), kind, message: None }
    }

    /// An error without context. The kind is the one whose report shows none.
    pub fn new_generic(kind: ErrorKind) -> (e: Error)
        requires
            kind is ImageSize,
        ensures
            e@ == (ErrorView { kind, path: None, message: None }),
            e@.wf(),
    {
        Error { path: None, kind, message: None }
    }

    /// An error with a diagnostic text. The kind is one whose report names no
    /// file.
    pub fn new_messaged(message: String, kind: ErrorKind) -> (e: Error)
        requires
            !kind.names_file(),
        ensures
            e@ == (ErrorView { kind, path: None, message: Some(message@) }),
            e@.wf(),
    {
        Error { path: None, kind, message: Some(message) }
    }

    /// The error that reports a failed step of the imaging backend.
    pub fn from_failure(failure: Failure) -> (e: Error)
        ensures
            e@ == (ErrorView {
                kind: failure.step.kind(),
                path: None,
                message: Some(failure.message@),
            }),
            e@.wf(),
    {
        let kind = failure.step.error_kind();
        Error::new_messaged(failure.message, kind)
    }

    /// The kind of the error.
    pub fn kind(&self) -> (kind: ErrorKind)
        ensures
            kind == self@.kind,
    {
        self.kind
    }

    /// The file that the error is about, if it is about one.
    pub fn path(&self) -> (path: Option<&String>)
        ensures
            path is Some <==> self@.path is Some,
            path matches Some(p) ==> self@.path == Some(p@),
    {
        self.path.as_ref()
    }

    /// The diagnostic text of the error, if it has one.
    pub fn message(&self) -> (message: Option<&String>)
        ensures
            message is Some <==> self@.message is Some,
            message matches Some(m) ==> self@.message == Some(m@),
    {
        self.message.as_ref()
    }

    /// The context message: what was being done when the search failed, with
    /// the file or the diagnostic text.
    pub fn to_string(&self) -> (s: String)
        ensures
            s@ == self@.text(),
    {
        proof {
            use_type_invariant(self);
        }
        match self.kind {
            ErrorKind::ImageSize => String::from_str("validating image size"),
            ErrorKind::ImageLoad => {
                let mut s = String::from_str("loading into matrix (");
                s.append(text_of(&self.path));
                s.append(")");
                s
            },
            ErrorKind::Match => {
                let mut s = String::from_str("matching template because ");
                s.append(text_of(&self.message));
                s
            },
            ErrorKind::Normalization => {
                let mut s = String::from_str("normalizing because ");
                s.append(text_of(&self.message));
                s
            },
            ErrorKind::Annotation => {
                let mut s = String::from_str("marking the haystack because ");
                s.append(text_of(&self.message));
                s
            },
            ErrorKind::ImageWrite => {
                let mut s = String::from_str("writing (");
                s.append(text_of(&self.path));
                s.append(")");
                s
            },
        }
    }

    /// The line that reports the error: the word `Error`, a space and the
    /// context message.
    pub fn report(&self) -> (line: String)
        ensures
            line@ == self@.report(),
    {
        let mut line = String::from_str("Error ");
        let text = self.to_string();
        line.append(text.as_str());
        line
    }
}

/// The text that an error holds.
fn text_of(held: &Option<String>) -> (text: &str)
    requires
        held is Some,
    ensures
        text@ == held->0@,
{
    match held {
        Some(s) => s.as_str(),
        None => "",
    }
}

} // verus!
