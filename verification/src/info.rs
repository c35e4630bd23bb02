//! The record of one Java installation.

use vstd::prelude::*;
use vstd::std_specs::cmp::PartialEqSpecImpl;

use crate::errors::{ErrorKind, Fault, JavaLocatorError, Result, Verdict};
use crate::host::{
    agrees, decode_lossy, execution, lossy, run_request, slices, CommandOutput, CommandView,
    Outcome, Reply, Request, RequestView, Step,
};
use crate::model::Model;
use crate::paths::{home_directory, home_directory_of};
use crate::text::{
    chars_of, parse_number, parse_u32, rows, same, split, split_on, string_of, CharClass,
};

verus! {

/// One Java installation: the executable and what probing it told.
#[derive(Debug)]
pub struct JavaInfo {
    /// Name of the executable, such as `java`.
    pub name: String,
    /// Path of the executable; this is what identifies the installation.
    pub path: String,
    /// Version as the executable reports it, such as `11.0.12` or `1.8.0_312`.
    pub version: String,
    /// `64-bit`, `32-bit` or `Unknown`.
    pub architecture: String,
    /// Who built the distribution.
    pub suppliers: String,
}

/// What a record holds, as plain values.
pub struct Installation {
    pub name: Seq<char>,
    pub path: Seq<char>,
    pub version: Seq<char>,
    pub architecture: Seq<char>,
    pub suppliers: Seq<char>,
}

impl View for JavaInfo {
    type V = Installation;

    open spec fn view(&self) -> Installation {
        Installation {
            name: self.name@,
            path: self.path@,
            version: self.version@,
            architecture: self.architecture@,
            suppliers: self.suppliers@,
        }
    }
}

impl Model for JavaInfo {
    type M = Installation;

    open spec fn model(&self) -> Installation {
        self@
    }
}

/// The major version that a version string states: the first of its
/// dot-separated parts, or the second where the first is `1` (so that `1.8`
/// is 8). `None` where that part is no number.
pub open spec fn major_version(version: Seq<char>) -> Option<u32> {
    let parts = split(version, CharClass::Exactly('.'));
    if parts.len() > 1 && parts[0] == seq!['1'] {
        parse_u32(parts[1])
    } else {
        parse_u32(parts[0])
    }
}

/// The major version by which installations are ranked: 0 where the version
/// states none.
pub open spec fn rank(version: Seq<char>) -> u32 {
    match major_version(version) {
        Some(major) => major,
        None => 0,
    }
}

/// Whether an installation at `path` is among `found`.
pub open spec fn knows(found: Seq<Installation>, path: Seq<char>) -> bool {
    exists|i: int| 0 <= i < found.len() && #[trigger] found[i].path == path
}

/// Whether no two of `found` have the same path.
pub open spec fn distinct_paths(found: Seq<Installation>) -> bool {
    forall|i: int, j: int|
        0 <= i < j < found.len() ==> #[trigger] found[i].path != #[trigger] found[j].path
}

/// What running the executable came to, as text: standard output of a run
/// that succeeded, standard error of one that did not.
pub open spec fn shown_output(output: CommandOutput) -> Seq<char> {
    if output.success {
        lossy(output.stdout@)
    } else {
        lossy(output.stderr@)
    }
}

/// The error of a program that could not be started.
pub open spec fn io_fault(cause: Seq<char>) -> Fault {
    Fault { kind: ErrorKind::ProbeFailed, description: "IO error: "@ + cause }
}

/// The error of a program that could not be started.
pub fn io_error(cause: &str) -> (err: JavaLocatorError)
    ensures
        err@ == io_fault(cause@),
{
    let mut text = String::from_str("IO error: ");
    text.append(cause);
    JavaLocatorError::with_kind(ErrorKind::ProbeFailed, text)
}

impl Installation {
    /// Running the executable with `arguments` and waiting for it.
    pub open spec fn run(
        self,
        arguments: Seq<Seq<char>>,
        replies: Seq<Reply>,
    ) -> Outcome<Verdict<CommandView>> {
        if replies.len() == 0 {
            Outcome::Ask(RequestView::Run(self.path, arguments))
        } else {
            Outcome::Done(
                match execution(replies[0]) {
                    Ok(output) => Ok(output.model()),
                    Err(cause) => Err(io_fault(cause)),
                },
                replies.skip(1),
            )
        }
    }

    /// Running the executable with `arguments` for the text it prints.
    pub open spec fn run_for_text(
        self,
        arguments: Seq<Seq<char>>,
        replies: Seq<Reply>,
    ) -> Outcome<Verdict<Seq<char>>> {
        if replies.len() == 0 {
            Outcome::Ask(RequestView::Run(self.path, arguments))
        } else {
            Outcome::Done(
                match execution(replies[0]) {
                    Ok(output) => Ok(shown_output(output)),
                    Err(cause) => Err(io_fault(cause)),
                },
                replies.skip(1),
            )
        }
    }

    /// Running the executable with `arguments` for both texts it prints,
    /// standard output first.
    pub open spec fn run_for_texts(
        self,
        arguments: Seq<Seq<char>>,
        replies: Seq<Reply>,
    ) -> Outcome<Verdict<(Seq<char>, Seq<char>)>> {
        if replies.len() == 0 {
            Outcome::Ask(RequestView::Run(self.path, arguments))
        } else {
            Outcome::Done(
                match execution(replies[0]) {
                    Ok(output) => Ok((lossy(output.stdout@), lossy(output.stderr@))),
                    Err(cause) => Err(io_fault(cause)),
                },
                replies.skip(1),
            )
        }
    }
}

impl JavaInfo {
    /// The record with the given fields.
    pub fn new(
        name: &str,
        path: &str,
        version: &str,
        architecture: &str,
        suppliers: &str,
    ) -> (info: JavaInfo)
        ensures
            info@ == (Installation {
                name: name@,
                path: path@,
                version: version@,
                architecture: architecture@,
                suppliers: suppliers@,
            }),
    {
        JavaInfo {
            name: String::from_str(name),
            path: String::from_str(path),
            version: String::from_str(version),
            architecture: String::from_str(architecture),
            suppliers: String::from_str(suppliers),
        }
    }

    /// The major version that the version string states.
    pub fn get_major_version(&self) -> (major: Option<u32>)
        ensures
            major == major_version(self@.version),
    {
        let chars = chars_of(self.version.as_str());
        let parts = split_on(chars.as_slice(), CharClass::Exactly('.'));
        let mut one: Vec<char> = Vec::new();
        one.push('1');
        proof {
            assert(one@ =~= seq!['1']);
            assert(rows(parts@)[0] == parts@[0]@);
        }
        if parts.len() > 1 && same(parts[0].as_slice(), one.as_slice()) {
            proof {
                assert(rows(parts@)[1] == parts@[1]@);
            }
            parse_number(parts[1].as_slice())
        } else {
            parse_number(parts[0].as_slice())
        }
    }

    /// Whether the version states a major version of at least `min_version`.
    pub fn is_at_least_version(&self, min_version: u32) -> (enough: bool)
        ensures
            enough == (major_version(self@.version) matches Some(major) && major >= min_version),
    {
        match self.get_major_version() {
            Some(version) => version >= min_version,
            None => false,
        }
    }

    /// The home directory of the installation, from the path of the
    /// executable.
    pub fn get_java_home(&self) -> (home: String)
        ensures
            home@ == home_directory(self@.path),
    {
        let chars = chars_of(self.path.as_str());
        string_of(home_directory_of(chars.as_slice()))
    }

    /// One line that names supplier, version, architecture, name and path.
    pub fn to_display_string(&self) -> (line: String)
        ensures
            line@ == self@.suppliers + " "@ + self@.version + " ("@ + self@.architecture + ", "@
                + self@.name + ") at "@ + self@.path,
    {
        let mut line = self.suppliers.clone();
        line.append(" ");
        line.append(self.version.as_str());
        line.append(" (");
        line.append(self.architecture.as_str());
        line.append(", ");
        line.append(self.name.as_str());
        line.append(") at ");
        line.append(self.path.as_str());
        line
    }

    /// One line that names every field.
    pub fn to_string(&self) -> (line: String)
        ensures
            line@ == "JavaInfo { name: "@ + self@.name + ", version: "@ + self@.version
                + ", architecture: "@ + self@.architecture + ", supplier: "@ + self@.suppliers
                + ", path: "@ + self@.path + " }"@,
    {
        let mut line = String::from_str("JavaInfo { name: ");
        line.append(self.name.as_str());
        line.append(", version: ");
        line.append(self.version.as_str());
        line.append(", architecture: ");
        line.append(self.architecture.as_str());
        line.append(", supplier: ");
        line.append(self.suppliers.as_str());
        line.append(", path: ");
        line.append(self.path.as_str());
        line.append(" }");
        line
    }

    /// Runs the executable with `arguments` and waits for it to end.
    pub fn execute_and_wait(
        &self,
        arguments: &[&str],
        replies: &[Reply],
    ) -> (step: Step<Result<CommandOutput>>)
        ensures
            agrees(step, replies@, self@.run(slices(arguments@), replies@)),
    {
        if replies.len() == 0 {
            return Step::Ask(run_request(self.path.as_str(), arguments));
        }
        match &replies[0] {
            Reply::Output(output) => Step::Done(Ok(output.clone()), 1),
            Reply::Failed(cause) => Step::Done(Err(io_error(cause.as_str())), 1),
            _ => Step::Done(Err(io_error("no program was run")), 1),
        }
    }

    /// Runs the executable with `arguments` and gives what it printed:
    /// standard output if it succeeded, standard error if it did not.
    pub fn execute_with_output(
        &self,
        arguments: &[&str],
        replies: &[Reply],
    ) -> (step: Step<Result<String>>)
        ensures
            agrees(step, replies@, self@.run_for_text(slices(arguments@), replies@)),
    {
        if replies.len() == 0 {
            return Step::Ask(run_request(self.path.as_str(), arguments));
        }
        match &replies[0] {
            Reply::Output(output) => {
                let text = if output.success {
                    decode_lossy(output.stdout.as_slice())
                } else {
                    decode_lossy(output.stderr.as_slice())
                };
                Step::Done(Ok(text), 1)
            },
            Reply::Failed(cause) => Step::Done(Err(io_error(cause.as_str())), 1),
            _ => Step::Done(Err(io_error("no program was run")), 1),
        }
    }

    /// Runs the executable with `arguments` and gives what it printed on
    /// standard output and on standard error.
    pub fn execute_with_separate_output(
        &self,
        arguments: &[&str],
        replies: &[Reply],
    ) -> (step: Step<Result<(String, String)>>)
        ensures
            agrees(step, replies@, self@.run_for_texts(slices(arguments@), replies@)),
    {
        if replies.len() == 0 {
            return Step::Ask(run_request(self.path.as_str(), arguments));
        }
        match &replies[0] {
            Reply::Output(output) => {
                let stdout = decode_lossy(output.stdout.as_slice());
                let stderr = decode_lossy(output.stderr.as_slice());
                Step::Done(Ok((stdout, stderr)), 1)
            },
            Reply::Failed(cause) => Step::Done(Err(io_error(cause.as_str())), 1),
            _ => Step::Done(Err(io_error("no program was run")), 1),
        }
    }

    /// Whether the executable is there.
    pub fn is_valid(&self, replies: &[Reply]) -> (step: Step<bool>)
        ensures
            agrees(
                step,
                replies@,
                if replies@.len() == 0 {
                    Outcome::Ask(RequestView::Exists(self@.path))
                } else {
                    Outcome::Done(replies@[0] matches Reply::Exists(true), replies@.skip(1))
                },
            ),
    {
        if replies.len() == 0 {
            return Step::Ask(Request::Exists(self.path.clone()));
        }
        match &replies[0] {
            Reply::Exists(b) => Step::Done(*b, 1),
            _ => Step::Done(false, 1),
        }
    }
}

impl Clone for JavaInfo {
    fn clone(&self) -> (copy: JavaInfo)
        ensures
            copy@ == self@,
    {
        JavaInfo {
            name: self.name.clone(),
            path: self.path.clone(),
            version: self.version.clone(),
            architecture: self.architecture.clone(),
            suppliers: self.suppliers.clone(),
        }
    }
}

impl PartialEq for JavaInfo {
    /// Two records are the same installation when version and path agree.
    fn eq(&self, other: &JavaInfo) -> (r: bool) {
        self.version == other.version && self.path == other.path
    }
}

impl PartialEqSpecImpl for JavaInfo {
    open spec fn obeys_eq_spec() -> bool {
        true
    }

    open spec fn eq_spec(&self, other: &JavaInfo) -> bool {
        self@.version == other@.version && self@.path == other@.path
    }
}

impl Eq for JavaInfo {

}

} // verus!
