//! Finding the Java home of the host and files under it.

use vstd::prelude::*;
use vstd::slice::slice_subrange;

use crate::errors::{ErrorKind, Fault, JavaLocatorError, Result, Verdict};
use crate::host::{
    agrees, decode, decoded, execution, texts, Outcome, Platform, Reply, Request, RequestView,
    Step,
};
use crate::model::Model;
use crate::paths::{folder, folder_of, link_target, link_target_of};
use crate::text::{
    chars_of, copy_of, lines, lines_of, rows, string_of, stripped, trim, CharClass,
};
use crate::utils::{encoding_fault, execution_of, fault, shows};

verus! {

/// The file name of the JVM's dynamic library on a platform.
pub open spec fn jvm_library_name(platform: Platform) -> Seq<char> {
    match platform {
        Platform::Windows => "jvm.dll"@,
        Platform::MacOs => "libjvm.dylib"@,
        Platform::Unix => "libjvm.so"@,
    }
}

/// The file name of the JVM's dynamic library on a platform.
pub fn get_jvm_dyn_lib_file_name(platform: Platform) -> (name: &'static str)
    ensures
        name@ == jvm_library_name(platform),
{
    match platform {
        Platform::Windows => "jvm.dll",
        Platform::MacOs => "libjvm.dylib",
        Platform::Unix => "libjvm.so",
    }
}

/// The pattern by which the JVM's dynamic library is searched for.
pub open spec fn jvm_library_pattern(platform: Platform) -> Seq<char> {
    match platform {
        Platform::Windows => "jvm.dll"@,
        _ => "libjvm.*"@,
    }
}

/// The program that tells where Java is, and its arguments.
pub open spec fn locator(platform: Platform) -> (Seq<char>, Seq<Seq<char>>) {
    match platform {
        Platform::Windows => ("where"@, seq!["java"@]),
        Platform::MacOs => ("/usr/libexec/java_home"@, Seq::empty()),
        Platform::Unix => ("which"@, seq!["java"@]),
    }
}

/// The first of the given lines that is more than white space, trimmed.
pub open spec fn first_filled(all: Seq<Seq<char>>) -> Option<Seq<char>>
    decreases all.len(),
{
    if all.len() == 0 {
        None
    } else if trim(all[0]).len() > 0 {
        Some(trim(all[0]))
    } else {
        first_filled(all.skip(1))
    }
}

/// The path that the locator printed: on Windows, where it may print
/// several, the first line that is more than white space; elsewhere all of
/// the output. Either is trimmed. The empty path stands for no path.
pub open spec fn located(platform: Platform, output: Seq<char>) -> Seq<char> {
    match platform {
        Platform::Windows => match first_filled(lines(output)) {
            Some(line) => line,
            None => Seq::empty(),
        },
        _ => trim(output),
    }
}

/// The error of a path that is not valid text: what was looked for cannot
/// be named, so it counts as not found.
pub open spec fn path_fault(shown: Seq<char>) -> Fault {
    Fault {
        kind: ErrorKind::NotFound,
        description: "Java path "@ + shown + " is invalid utf8"@,
    }
}

/// The error of a host on which no Java can be found.
pub open spec fn absent_fault() -> Fault {
    Fault {
        kind: ErrorKind::NotFound,
        description: "Java is not installed or not in the system PATH"@,
    }
}

/// The error of a locator that could not be started: nothing tells where
/// Java is, so it counts as not found.
pub open spec fn locator_fault(platform: Platform, cause: Seq<char>) -> Fault {
    Fault {
        kind: ErrorKind::NotFound,
        description: "Failed to run command `"@ + locator(platform).0 + "` ("@ + cause + ")"@,
    }
}

/// Following symbolic links from `path` until something is reached that is
/// no link: each reply gives the target written in the link at hand.
pub open spec fn links_followed(
    platform: Platform,
    path: Seq<char>,
    replies: Seq<Reply>,
) -> Outcome<Verdict<Seq<char>>>
    decreases replies.len(),
{
    if replies.len() == 0 {
        Outcome::Ask(RequestView::Link(path))
    } else {
        match replies[0] {
            Reply::Link(Some(target)) => links_followed(
                platform,
                link_target(platform, path, target@),
                replies.skip(1),
            ),
            Reply::InvalidText(shown) => Outcome::Done(Err(path_fault(shown@)), replies.skip(1)),
            _ => Outcome::Done(Ok(path), replies.skip(1)),
        }
    }
}

/// The home of the installation whose executable is at `path`. The macOS
/// locator prints the home itself; elsewhere the home is two segments up.
pub open spec fn installation_root(platform: Platform, path: Seq<char>) -> Seq<char> {
    match platform {
        Platform::MacOs => path,
        _ => folder(folder(path)),
    }
}

/// Asking the host where Java is: the locator is run, what it printed is
/// followed through symbolic links, and the home is taken from the result.
pub open spec fn host_search(
    platform: Platform,
    replies: Seq<Reply>,
) -> Outcome<Verdict<Seq<char>>> {
    if replies.len() == 0 {
        Outcome::Ask(RequestView::Run(locator(platform).0, locator(platform).1))
    } else {
        match execution(replies[0]) {
            Err(cause) => Outcome::Done(Err(locator_fault(platform, cause)), replies.skip(1)),
            Ok(output) => match decoded(output.stdout@) {
                None => Outcome::Done(Err(encoding_fault(output.stdout@)), replies.skip(1)),
                Some(text) => if located(platform, text).len() == 0 {
                    Outcome::Done(Err(absent_fault()), replies.skip(1))
                } else {
                    match links_followed(platform, located(platform, text), replies.skip(1)) {
                        Outcome::Ask(request) => Outcome::Ask(request),
                        Outcome::Done(Ok(resolved), rest) => Outcome::Done(
                            Ok(installation_root(platform, resolved)),
                            rest,
                        ),
                        Outcome::Done(Err(fault), rest) => Outcome::Done(Err(fault), rest),
                    }
                },
            },
        }
    }
}

/// Finding the Java home: `JAVA_HOME` where it is set to something, as it
/// is; otherwise what the host says.
#[verifier::opaque]
pub open spec fn home_search(
    platform: Platform,
    replies: Seq<Reply>,
) -> Outcome<Verdict<Seq<char>>> {
    if replies.len() == 0 {
        Outcome::Ask(RequestView::Variable("JAVA_HOME"@))
    } else {
        match replies[0] {
            Reply::Variable(Some(home)) => if home@.len() > 0 {
                Outcome::Done(Ok(home@), replies.skip(1))
            } else {
                host_search(platform, replies.skip(1))
            },
            _ => host_search(platform, replies.skip(1)),
        }
    }
}

/// Refuses the empty path.
pub fn java_exec_path_validation(path: &str) -> (out: Result<()>)
    ensures
        match out {
            Ok(_) => path@.len() > 0,
            Err(e) => path@.len() == 0 && e@ == absent_fault(),
        },
{
    if path.is_empty() {
        return Err(JavaLocatorError::java_not_found());
    }
    Ok(())
}

/// Follows symbolic links from `path` to what is no link.
pub fn follow_symlinks(
    platform: Platform,
    path: &str,
    replies: &[Reply],
) -> (step: Step<Result<String>>)
    ensures
        agrees(step, replies@, links_followed(platform, path@, replies@)),
{
    let mut current: Vec<char> = chars_of(path);
    let mut i: usize = 0;
    proof {
        assert(replies@.skip(0) =~= replies@);
    }
    while i < replies.len()
        invariant
            i <= replies@.len(),
            links_followed(platform, path@, replies@) == links_followed(
                platform,
                current@,
                replies@.skip(i as int),
            ),
        decreases replies@.len() - i,
    {
        proof {
            assert(replies@.skip(i as int)[0] == replies@[i as int]);
            assert(replies@.skip(i as int).skip(1) =~= replies@.skip(i + 1));
        }
        match &replies[i] {
            Reply::Link(Some(target)) => {
                let written = chars_of(target.as_str());
                current = link_target_of(platform, current.as_slice(), written.as_slice());
            },
            Reply::InvalidText(shown) => {
                let mut text = String::from_str("Java path ");
                text.append(shown.as_str());
                text.append(" is invalid utf8");
                return Step::Done(
                    Err(JavaLocatorError::with_kind(ErrorKind::NotFound, text)),
                    i + 1,
                );
            },
            _ => {
                return Step::Done(Ok(string_of(current.as_slice())), i + 1);
            },
        }
        i += 1;
    }
    Step::Ask(Request::Link(string_of(current.as_slice())))
}

/// The first of the given lines that is more than white space, trimmed.
pub fn find_first_filled(all: &Vec<Vec<char>>) -> (out: Option<Vec<char>>)
    ensures
        shows(out, first_filled(rows(all@))),
{
    let mut i: usize = 0;
    proof {
        assert(rows(all@).skip(0) =~= rows(all@));
    }
    while i < all.len()
        invariant
            i <= all@.len(),
            first_filled(rows(all@)) == first_filled(rows(all@).skip(i as int)),
        decreases all@.len() - i,
    {
        proof {
            assert(rows(all@).skip(i as int)[0] == all@[i as int]@);
            assert(rows(all@).skip(i as int).skip(1) =~= rows(all@).skip(i + 1));
        }
        let inner = stripped(all[i].as_slice(), CharClass::Whitespace);
        if inner.len() > 0 {
            return Some(copy_of(inner));
        }
        i += 1;
    }
    None
}

/// The path that the locator printed.
pub fn find_located(platform: Platform, output: &[char]) -> (out: Vec<char>)
    ensures
        out@ == located(platform, output@),
{
    match platform {
        Platform::Windows => {
            let all = lines_of(output);
            match find_first_filled(&all) {
                Some(line) => line,
                None => Vec::new(),
            }
        },
        _ => copy_of(stripped(output, CharClass::Whitespace)),
    }
}

/// The request to run the program that tells where Java is.
pub fn locator_request(platform: Platform) -> (request: Request)
    ensures
        request@ == RequestView::Run(locator(platform).0, locator(platform).1),
{
    let mut arguments: Vec<String> = Vec::new();
    match platform {
        Platform::Windows => {
            arguments.push(String::from_str("java"));
            proof {
                assert(texts(arguments@) =~= seq!["java"@]);
            }
            Request::Run(String::from_str("where"), arguments)
        },
        Platform::MacOs => {
            proof {
                assert(texts(arguments@) =~= Seq::<Seq<char>>::empty());
            }
            Request::Run(String::from_str("/usr/libexec/java_home"), arguments)
        },
        Platform::Unix => {
            arguments.push(String::from_str("java"));
            proof {
                assert(texts(arguments@) =~= seq!["java"@]);
            }
            Request::Run(String::from_str("which"), arguments)
        },
    }
}

fn locator_error(platform: Platform, cause: &str) -> (err: JavaLocatorError)
    ensures
        err@ == locator_fault(platform, cause@),
{
    let mut text = String::from_str("Failed to run command `");
    match platform {
        Platform::Windows => {
            text.append("where");
        },
        Platform::MacOs => {
            text.append("/usr/libexec/java_home");
        },
        Platform::Unix => {
            text.append("which");
        },
    }
    text.append("` (");
    text.append(cause);
    text.append(")");
    JavaLocatorError::with_kind(ErrorKind::NotFound, text)
}

fn installation_root_of(platform: Platform, path: &str) -> (out: String)
    ensures
        out@ == installation_root(platform, path@),
{
    match platform {
        Platform::MacOs => String::from_str(path),
        _ => {
            let chars = chars_of(path);
            string_of(folder_of(folder_of(chars.as_slice())))
        },
    }
}

/// Asks the host where Java is.
pub fn do_locate_java_home(platform: Platform, replies: &[Reply]) -> (step: Step<Result<String>>)
    ensures
        agrees(step, replies@, host_search(platform, replies@)),
{
    if replies.len() == 0 {
        return Step::Ask(locator_request(platform));
    }
    let output = match execution_of(&replies[0]) {
        Err(cause) => {
            return Step::Done(Err(locator_error(platform, cause.as_str())), 1);
        },
        Ok(output) => output,
    };
    let text = match decode(output.stdout.as_slice()) {
        Err(complaint) => {
            return Step::Done(
                Err(fault(ErrorKind::Encoding, "UTF-8 error: ", complaint.as_str())),
                1,
            );
        },
        Ok(text) => chars_of(text),
    };
    let path = string_of(find_located(platform, text.as_slice()).as_slice());
    match java_exec_path_validation(path.as_str()) {
        Err(e) => {
            return Step::Done(Err(e), 1);
        },
        Ok(_) => {},
    }
    let rest = slice_subrange(replies, 1, replies.len());
    match follow_symlinks(platform, path.as_str(), rest) {
        Step::Ask(request) => Step::Ask(request),
        Step::Done(found, used) => {
            proof {
                assert(rest@.skip(used as int) =~= replies@.skip(used + 1));
            }
            match found {
                Ok(resolved) => {
                    let home = installation_root_of(platform, resolved.as_str());
                    Step::Done(Ok(home), used + 1)
                },
                Err(e) => Step::Done(Err(e), used + 1),
            }
        },
    }
}

/// Finds the Java home of the host.
pub fn locate_java_home(platform: Platform, replies: &[Reply]) -> (step: Step<Result<String>>)
    ensures
        agrees(step, replies@, home_search(platform, replies@)),
{
    reveal(home_search);
    if replies.len() == 0 {
        return Step::Ask(Request::Variable(String::from_str("JAVA_HOME")));
    }
    match &replies[0] {
        Reply::Variable(Some(home)) => {
            if !home.as_str().is_empty() {
                return Step::Done(Ok(home.clone()), 1);
            }
        },
        _ => {},
    }
    let rest = slice_subrange(replies, 1, replies.len());
    match do_locate_java_home(platform, rest) {
        Step::Ask(request) => Step::Ask(request),
        Step::Done(found, used) => {
            proof {
                assert(rest@.skip(used as int) =~= replies@.skip(used + 1));
            }
            Step::Done(found, used + 1)
        },
    }
}

/// What `glob::Pattern::escape` makes of one character: `?`, `*`, `[` and
/// `]` are put in brackets, any other character stays as it is.
pub open spec fn escaped_char(c: char) -> Seq<char> {
    if c == '?' || c == '*' || c == '[' || c == ']' {
        seq!['[', c, ']']
    } else {
        seq![c]
    }
}

/// A pattern that matches the text `s` and nothing else.
pub open spec fn escaped(s: Seq<char>) -> Seq<char>
    decreases s.len(),
{
    if s.len() == 0 {
        Seq::empty()
    } else {
        escaped(s.drop_last()) + escaped_char(s.last())
    }
}

/// Calls `glob::Pattern::escape`. Taken on trust: it goes through `s`
/// character by character and writes each of `?`, `*`, `[` and `]` between
/// brackets and every other character as it is.
#[verifier::external_body]
fn escape(s: &str) -> (out: String)
    ensures
        out@ == escaped(s@),
{
    glob::Pattern::escape(s)
}

/// The pattern that finds `file_name` anywhere under `java_home`.
pub open spec fn file_pattern(java_home: Seq<char>, file_name: Seq<char>) -> Seq<char> {
    escaped(java_home) + "/**/"@ + file_name
}

/// The error of a file that is nowhere under the Java home.
pub open spec fn missing_fault(file_name: Seq<char>, java_home: Seq<char>) -> Fault {
    Fault {
        kind: ErrorKind::NotFound,
        description: "Could not find the "@ + file_name + " library in any subdirectory of "@
            + java_home,
    }
}

/// What a reply to a pattern says of the directory of the first match. A
/// match that lies in no directory stands for its own directory.
pub open spec fn match_directory(
    reply: Reply,
    file_name: Seq<char>,
    java_home: Seq<char>,
) -> Verdict<Seq<char>> {
    match reply {
        Reply::Found(Some(path)) => Ok(folder(path@)),
        Reply::Rejected(error) => Err(error@),
        Reply::InvalidText(shown) => Err(path_fault(shown@)),
        _ => Err(missing_fault(file_name, java_home)),
    }
}

/// Finding where a file lies under the Java home: the home is found first,
/// then the first match of the file's pattern under it; the result is the
/// directory of that match.
pub open spec fn file_search(
    platform: Platform,
    file_name: Seq<char>,
    replies: Seq<Reply>,
) -> Outcome<Verdict<Seq<char>>> {
    match home_search(platform, replies) {
        Outcome::Ask(request) => Outcome::Ask(request),
        Outcome::Done(Err(fault), rest) => Outcome::Done(Err(fault), rest),
        Outcome::Done(Ok(home), rest) => if rest.len() == 0 {
            Outcome::Ask(RequestView::Glob(file_pattern(home, file_name)))
        } else {
            Outcome::Done(match_directory(rest[0], file_name, home), rest.skip(1))
        },
    }
}

fn directory_of_match(reply: &Reply, file_name: &str, java_home: &str) -> (out: Result<String>)
    ensures
        out.model() == match_directory(*reply, file_name@, java_home@),
{
    match reply {
        Reply::Found(Some(path)) => {
            let chars = chars_of(path.as_str());
            Ok(string_of(folder_of(chars.as_slice())))
        },
        Reply::Rejected(error) => Err(error.clone()),
        Reply::InvalidText(shown) => {
            let mut text = String::from_str("Java path ");
            text.append(shown.as_str());
            text.append(" is invalid utf8");
            Err(JavaLocatorError::with_kind(ErrorKind::NotFound, text))
        },
        _ => {
            let mut text = String::from_str("Could not find the ");
            text.append(file_name);
            text.append(" library in any subdirectory of ");
            text.append(java_home);
            Err(JavaLocatorError::with_kind(ErrorKind::NotFound, text))
        },
    }
}

/// Finds the directory under the Java home in which a file lies.
/// `file_name` may hold wildcards.
pub fn locate_file(
    platform: Platform,
    file_name: &str,
    replies: &[Reply],
) -> (step: Step<Result<String>>)
    ensures
        agrees(step, replies@, file_search(platform, file_name@, replies@)),
{
    let (home, used) = match locate_java_home(platform, replies) {
        Step::Ask(request) => {
            return Step::Ask(request);
        },
        Step::Done(Err(e), used) => {
            return Step::Done(Err(e), used);
        },
        Step::Done(Ok(home), used) => (home, used),
    };
    if used == replies.len() {
        let mut query = escape(home.as_str());
        query.append("/**/");
        query.append(file_name);
        return Step::Ask(Request::Glob(query));
    }
    proof {
        assert(replies@.skip(used as int)[0] == replies@[used as int]);
        assert(replies@.skip(used as int).skip(1) =~= replies@.skip(used + 1));
    }
    Step::Done(directory_of_match(&replies[used], file_name, home.as_str()), used + 1)
}

/// Finds the directory in which the JVM's dynamic library lies.
pub fn locate_jvm_dyn_library(platform: Platform, replies: &[Reply]) -> (step: Step<Result<String>>)
    ensures
        agrees(step, replies@, file_search(platform, jvm_library_pattern(platform), replies@)),
{
    match platform {
        Platform::Windows => locate_file(platform, "jvm.dll", replies),
        _ => locate_file(platform, "libjvm.*", replies),
    }
}

} // verus!
