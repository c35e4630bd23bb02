//! What the library needs from the machine it runs on.
//!
//! The library never touches the machine. An operation that needs the
//! environment, the file system or another program is a function of the
//! replies received so far: it either asks for the next thing it needs or
//! is done. The caller performs each request, appends the reply and calls
//! again with all replies so far.
//!
//! Each request has its kind of reply. A reply of another kind counts as
//! the answer that gives least: the variable is not set, the program was
//! not run, the path is no link, nothing exists, nothing is listed,
//! nothing matches.
//!
//! The specification of an operation is a function from the replies to an
//! [`Outcome`]; the operation itself returns a [`Step`] that [`agrees`]
//! with it.

use vstd::prelude::*;
use vstd::utf8::{decode_utf8, valid_utf8};

use crate::errors::JavaLocatorError;
use crate::model::Model;

verus! {

/// The families of operating systems that are told apart.
#[derive(Clone, Copy, Debug, PartialEq, Eq, Structural)]
pub enum Platform {
    Windows,
    MacOs,
    Unix,
}

/// What a program left behind when it ended.
#[derive(Debug, PartialEq, Eq)]
pub struct CommandOutput {
    /// Whether it ended with exit status zero.
    pub success: bool,
    pub stdout: Vec<u8>,
    pub stderr: Vec<u8>,
}

/// Something for the caller to do.
#[derive(Debug, PartialEq, Eq)]
pub enum Request {
    /// Read the environment variable of this name.
    Variable(String),
    /// Run this program with these arguments and capture what it prints.
    Run(String, Vec<String>),
    /// Read the symbolic link at this path.
    Link(String),
    /// Tell whether anything exists at this path.
    Exists(String),
    /// List the directories directly under this path.
    Directories(String),
    /// Find the first path that matches this wildcard pattern.
    Glob(String),
}

/// What the caller found.
#[derive(Debug)]
pub enum Reply {
    /// The value of the variable, if it is set.
    Variable(Option<String>),
    /// The program ran and ended.
    Output(CommandOutput),
    /// The program could not be started, and why.
    Failed(String),
    /// The target written in the link, if the path is a link.
    Link(Option<String>),
    Exists(bool),
    /// The paths of the directories; none where the path cannot be listed.
    Directories(Vec<String>),
    /// The first match, if there is one.
    Found(Option<String>),
    /// The path that answers the request is not valid text; the reply
    /// holds a rendering of it for messages.
    InvalidText(String),
    /// The request itself was refused, and why.
    Rejected(JavaLocatorError),
}

/// How far an operation got on the replies it was given.
#[derive(Debug, PartialEq, Eq)]
pub enum Step<T> {
    /// The replies ran out: this is needed next.
    Ask(Request),
    /// The result, and how many replies it took.
    Done(T, usize),
}

/// The texts that a sequence of strings holds.
pub open spec fn texts(v: Seq<String>) -> Seq<Seq<char>> {
    v.map_values(|s: String| s@)
}

/// What a request asks for, as plain values.
pub enum RequestView {
    Variable(Seq<char>),
    Run(Seq<char>, Seq<Seq<char>>),
    Link(Seq<char>),
    Exists(Seq<char>),
    Directories(Seq<char>),
    Glob(Seq<char>),
}

impl View for Request {
    type V = RequestView;

    open spec fn view(&self) -> RequestView {
        match self {
            Request::Variable(name) => RequestView::Variable(name@),
            Request::Run(program, arguments) => RequestView::Run(program@, texts(arguments@)),
            Request::Link(path) => RequestView::Link(path@),
            Request::Exists(path) => RequestView::Exists(path@),
            Request::Directories(path) => RequestView::Directories(path@),
            Request::Glob(pattern) => RequestView::Glob(pattern@),
        }
    }
}

/// How far an operation gets on given replies: the request it makes when
/// they run out, or its result and the replies it leaves unread.
pub enum Outcome<V> {
    Ask(RequestView),
    Done(V, Seq<Reply>),
}

/// Whether `step` is what `outcome` describes, for an operation that was
/// given `replies`.
pub open spec fn agrees<T: Model>(
    step: Step<T>,
    replies: Seq<Reply>,
    outcome: Outcome<T::M>,
) -> bool {
    match outcome {
        Outcome::Ask(request) => step matches Step::Ask(r) && r@ == request,
        Outcome::Done(value, rest) => {
            &&& step matches Step::Done(x, used)
            &&& x.model() == value
            &&& used <= replies.len()
            &&& rest == replies.skip(used as int)
        },
    }
}

/// The text that `bytes` encode, where they are valid UTF-8.
pub open spec fn decoded(bytes: Seq<u8>) -> Option<Seq<char>> {
    if valid_utf8(bytes) {
        Some(decode_utf8(bytes))
    } else {
        None
    }
}

/// What `std::str::Utf8Error` shows of itself for bytes that are not valid
/// UTF-8.
pub uninterp spec fn utf8_complaint(bytes: Seq<u8>) -> Seq<char>;

/// What `String::from_utf8_lossy` makes of bytes.
pub uninterp spec fn lossy(bytes: Seq<u8>) -> Seq<char>;

/// Calls `std::str::from_utf8` and, where it fails, shows its error as
/// text. Taken on trust: it succeeds exactly on valid UTF-8, with the text
/// that the bytes encode; where it fails, what the error shows depends on
/// the bytes alone. That message is not spelled out in this crate, only
/// named.
#[verifier::external_body]
pub(crate) fn decode(bytes: &[u8]) -> (out: std::result::Result<&str, String>)
    ensures
        match out {
            Ok(s) => valid_utf8(bytes@) && s@ == decode_utf8(bytes@),
            Err(e) => !valid_utf8(bytes@) && e@ == utf8_complaint(bytes@),
        },
{
    match std::str::from_utf8(bytes) {
        Ok(text) => Ok(text),
        Err(e) => Err(e.to_string()),
    }
}

/// Calls `String::from_utf8_lossy`. Taken on trust: the result depends on
/// the bytes alone, and valid UTF-8 comes out as the text it encodes. What
/// becomes of other bytes is not spelled out in this crate, only named.
#[verifier::external_body]
pub(crate) fn decode_lossy(bytes: &[u8]) -> (out: String)
    ensures
        out@ == lossy(bytes@),
        valid_utf8(bytes@) ==> out@ == decode_utf8(bytes@),
{
    String::from_utf8_lossy(bytes).into_owned()
}

/// What a reply says of a program that was to be run: its output, or why
/// there is none.
pub open spec fn execution(reply: Reply) -> std::result::Result<CommandOutput, Seq<char>> {
    match reply {
        Reply::Output(output) => Ok(output),
        Reply::Failed(cause) => Err(cause@),
        _ => Err("no program was run"@),
    }
}

/// What a command output holds, as plain values.
pub struct CommandView {
    pub success: bool,
    pub stdout: Seq<u8>,
    pub stderr: Seq<u8>,
}

impl Model for CommandOutput {
    type M = CommandView;

    open spec fn model(&self) -> CommandView {
        CommandView { success: self.success, stdout: self.stdout@, stderr: self.stderr@ }
    }
}

impl Clone for CommandOutput {
    fn clone(&self) -> (out: CommandOutput)
        ensures
            out.model() == self.model(),
    {
        CommandOutput {
            success: self.success,
            stdout: self.stdout.clone(),
            stderr: self.stderr.clone(),
        }
    }
}

/// The texts that a sequence of string slices holds.
pub open spec fn slices(v: Seq<&str>) -> Seq<Seq<char>> {
    v.map_values(|s: &str| s@)
}

/// Owned copies of the given arguments.
pub fn owned(arguments: &[&str]) -> (out: Vec<String>)
    ensures
        texts(out@) == slices(arguments@),
{
    let mut out: Vec<String> = Vec::new();
    let mut i: usize = 0;
    while i < arguments.len()
        invariant
            i <= arguments@.len(),
            texts(out@) == slices(arguments@).take(i as int),
        decreases arguments@.len() - i,
    {
        let ghost before = out@;
        out.push(String::from_str(arguments[i]));
        proof {
            assert(texts(out@) =~= texts(before).push(arguments@[i as int]@));
            assert(slices(arguments@).take(i + 1) =~= slices(arguments@).take(i as int).push(
                arguments@[i as int]@,
            ));
        }
        i += 1;
    }
    proof {
        assert(slices(arguments@).take(arguments@.len() as int) =~= slices(arguments@));
    }
    out
}

/// The request to run `program` with `arguments`.
pub fn run_request(program: &str, arguments: &[&str]) -> (request: Request)
    ensures
        request@ == RequestView::Run(program@, slices(arguments@)),
{
    Request::Run(String::from_str(program), owned(arguments))
}

} // verus!
