//! The error that the operations of this crate return.

use vstd::prelude::*;
use vstd::std_specs::convert::FromSpecImpl;

use crate::model::Model;
use crate::text::starts_with;

verus! {

/// Declares `std::io::Error`. Nothing is known of what a value of it
/// holds.
#[verifier::external_type_specification]
#[verifier::external_body]
pub struct ExIoError(std::io::Error);

/// Declares `std::str::Utf8Error`. Nothing is known of what a value of it
/// holds.
#[verifier::external_type_specification]
#[verifier::external_body]
pub struct ExUtf8Error(std::str::Utf8Error);

/// Declares `glob::PatternError`. Nothing is known of what a value of it
/// holds.
#[verifier::external_type_specification]
#[verifier::external_body]
pub struct ExPatternError(glob::PatternError);

/// What went wrong, in broad terms.
#[derive(Clone, Copy, Debug, PartialEq, Eq, Structural)]
pub enum ErrorKind {
    /// Nothing is there: no installation, no file, no executable.
    NotFound,
    /// Something is there but could not be run or understood.
    ProbeFailed,
    /// Captured output or a path is not valid text.
    Encoding,
    /// A wildcard pattern is malformed.
    Pattern,
    /// An error built from a bare description.
    Other,
}

/// What an error says: its kind and its description.
pub struct Fault {
    pub kind: ErrorKind,
    pub description: Seq<char>,
}

/// Result type of the operations of this crate.
pub type Result<T> = std::result::Result<T, JavaLocatorError>;

/// What a result of this crate stands for: a value or a fault.
pub type Verdict<V> = std::result::Result<V, Fault>;

/// An error with a kind and a description for people.
#[derive(Debug, PartialEq, Eq)]
pub struct JavaLocatorError {
    kind: ErrorKind,
    description: String,
}

impl View for JavaLocatorError {
    type V = Fault;

    closed spec fn view(&self) -> Fault {
        Fault { kind: self.kind, description: self.description@ }
    }
}

impl Model for JavaLocatorError {
    type M = Fault;

    open spec fn model(&self) -> Fault {
        self@
    }
}

/// Calls `to_string` on a `std::io::Error`, which shows it by its
/// `Display`. Nothing is claimed of the text.
#[verifier::external_body]
fn io_error_text(err: &std::io::Error) -> (out: String) {
    err.to_string()
}

/// Calls `to_string` on a `std::str::Utf8Error`, which shows it by its
/// `Display`. Nothing is claimed of the text.
#[verifier::external_body]
fn utf8_error_text(err: &std::str::Utf8Error) -> (out: String) {
    err.to_string()
}

/// Calls `to_string` on a `glob::PatternError`, which shows it by its
/// `Display`. Nothing is claimed of the text.
#[verifier::external_body]
fn pattern_error_text(err: &glob::PatternError) -> (out: String) {
    err.to_string()
}

impl JavaLocatorError {
    /// An error of kind `Other` with the given description.
    pub fn new(description: String) -> (err: JavaLocatorError)
        ensures
            err@ == (Fault { kind: ErrorKind::Other, description: description@ }),
    {
        JavaLocatorError { kind: ErrorKind::Other, description }
    }

    /// An error of the given kind with the given description.
    pub fn with_kind(kind: ErrorKind, description: String) -> (err: JavaLocatorError)
        ensures
            err@ == (Fault { kind, description: description@ }),
    {
        JavaLocatorError { kind, description }
    }

    /// The description of this error.
    pub fn description(&self) -> (text: &str)
        ensures
            text@ == self@.description,
    {
        self.description.as_str()
    }

    /// The kind of this error.
    pub fn kind(&self) -> (kind: ErrorKind)
        ensures
            kind == self@.kind,
    {
        self.kind
    }

    /// The error of a host on which no Java can be found.
    pub fn java_not_found() -> (err: JavaLocatorError)
        ensures
            err@ == (Fault {
                kind: ErrorKind::NotFound,
                description: "Java is not installed or not in the system PATH"@,
            }),
    {
        JavaLocatorError::with_kind(
            ErrorKind::NotFound,
            String::from_str("Java is not installed or not in the system PATH"),
        )
    }

    /// The error of a file that is nowhere under an installation.
    pub fn file_not_found(file_name: &str, java_home: &str) -> (err: JavaLocatorError)
        ensures
            err@ == (Fault {
                kind: ErrorKind::NotFound,
                description: "Could not find '"@ + file_name@ + "' in any subdirectory of "@
                    + java_home@,
            }),
    {
        let mut text = String::from_str("Could not find '");
        text.append(file_name);
        text.append("' in any subdirectory of ");
        text.append(java_home);
        JavaLocatorError::with_kind(ErrorKind::NotFound, text)
    }

    /// The error of a command that could not be run.
    pub fn command_failed(command: &str, error: &str) -> (err: JavaLocatorError)
        ensures
            err@ == (Fault {
                kind: ErrorKind::ProbeFailed,
                description: "Failed to execute command '"@ + command@ + "': "@ + error@,
            }),
    {
        let mut text = String::from_str("Failed to execute command '");
        text.append(command);
        text.append("': ");
        text.append(error);
        JavaLocatorError::with_kind(ErrorKind::ProbeFailed, text)
    }

    /// The error of an installation that is there but cannot be used.
    pub fn invalid_installation(path: &str, reason: &str) -> (err: JavaLocatorError)
        ensures
            err@ == (Fault {
                kind: ErrorKind::ProbeFailed,
                description: "Invalid Java installation at '"@ + path@ + "': "@ + reason@,
            }),
    {
        let mut text = String::from_str("Invalid Java installation at '");
        text.append(path);
        text.append("': ");
        text.append(reason);
        JavaLocatorError::with_kind(ErrorKind::ProbeFailed, text)
    }

    /// The error of a path that is not valid text.
    pub fn invalid_utf8_path(path: &str) -> (err: JavaLocatorError)
        ensures
            err@ == (Fault {
                kind: ErrorKind::Encoding,
                description: "Path contains invalid UTF-8: "@ + path@,
            }),
    {
        let mut text = String::from_str("Path contains invalid UTF-8: ");
        text.append(path);
        JavaLocatorError::with_kind(ErrorKind::Encoding, text)
    }

    /// The line that shows this error to people.
    pub fn to_string(&self) -> (text: String)
        ensures
            text@ == "JavaLocatorError: "@ + self@.description,
    {
        let mut text = String::from_str("JavaLocatorError: ");
        text.append(self.description.as_str());
        text
    }

    /// The error behind this one: there never is one.
    pub fn source(&self) -> (inner: Option<&JavaLocatorError>)
        ensures
            inner is None,
    {
        None
    }

    /// The error behind this one: there never is one.
    pub fn cause(&self) -> (inner: Option<&JavaLocatorError>)
        ensures
            inner is None,
    {
        None
    }
}

impl Clone for JavaLocatorError {
    fn clone(&self) -> (copy: JavaLocatorError)
        ensures
            copy@ == self@,
    {
        JavaLocatorError { kind: self.kind, description: self.description.clone() }
    }
}

impl From<std::io::Error> for JavaLocatorError {
    /// The description is `IO error: ` followed by what the error shows of
    /// itself.
    fn from(err: std::io::Error) -> (out: JavaLocatorError)
        ensures
            out@.kind == ErrorKind::ProbeFailed,
            starts_with(out@.description, "IO error: "@),
    {
        let mut text = String::from_str("IO error: ");
        let shown = io_error_text(&err);
        text.append(shown.as_str());
        proof {
            assert(text@.take("IO error: "@.len() as int) =~= "IO error: "@);
        }
        JavaLocatorError::with_kind(ErrorKind::ProbeFailed, text)
    }
}

/// What the error shows of itself is not known here, so the conversion is
/// not stated as a function of the error: `from` says what holds of its
/// result.
impl FromSpecImpl<std::io::Error> for JavaLocatorError {
    open spec fn obeys_from_spec() -> bool {
        false
    }

    open spec fn from_spec(err: std::io::Error) -> JavaLocatorError {
        arbitrary()
    }
}

impl From<std::str::Utf8Error> for JavaLocatorError {
    /// The description is `UTF-8 error: ` followed by what the error shows of
    /// itself.
    fn from(err: std::str::Utf8Error) -> (out: JavaLocatorError)
        ensures
            out@.kind == ErrorKind::Encoding,
            starts_with(out@.description, "UTF-8 error: "@),
    {
        let mut text = String::from_str("UTF-8 error: ");
        let shown = utf8_error_text(&err);
        text.append(shown.as_str());
        proof {
            assert(text@.take("UTF-8 error: "@.len() as int) =~= "UTF-8 error: "@);
        }
        JavaLocatorError::with_kind(ErrorKind::Encoding, text)
    }
}

/// What the error shows of itself is not known here, so the conversion is
/// not stated as a function of the error: `from` says what holds of its
/// result.
impl FromSpecImpl<std::str::Utf8Error> for JavaLocatorError {
    open spec fn obeys_from_spec() -> bool {
        false
    }

    open spec fn from_spec(err: std::str::Utf8Error) -> JavaLocatorError {
        arbitrary()
    }
}

impl From<glob::PatternError> for JavaLocatorError {
    /// The description is `Glob pattern error: ` followed by what the error
    /// shows of itself.
    fn from(err: glob::PatternError) -> (out: JavaLocatorError)
        ensures
            out@.kind == ErrorKind::Pattern,
            starts_with(out@.description, "Glob pattern error: "@),
    {
        let mut text = String::from_str("Glob pattern error: ");
        let shown = pattern_error_text(&err);
        text.append(shown.as_str());
        proof {
            assert(text@.take("Glob pattern error: "@.len() as int) =~= "Glob pattern error: "@);
        }
        JavaLocatorError::with_kind(ErrorKind::Pattern, text)
    }
}

/// What the error shows of itself is not known here, so the conversion is
/// not stated as a function of the error: `from` says what holds of its
/// result.
impl FromSpecImpl<glob::PatternError> for JavaLocatorError {
    open spec fn obeys_from_spec() -> bool {
        false
    }

    open spec fn from_spec(err: glob::PatternError) -> JavaLocatorError {
        arbitrary()
    }
}

} // verus!
