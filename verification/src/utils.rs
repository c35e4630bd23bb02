//! Probing one Java executable: what to run, and what its output tells.

use vstd::prelude::*;
use vstd::slice::slice_subrange;

use crate::errors::{ErrorKind, Fault, JavaLocatorError, Result, Verdict};
use crate::host::{
    agrees, decode, decoded, execution, texts, utf8_complaint, CommandOutput, Outcome, Reply,
    Request, RequestView, Step,
};
use crate::info::{Installation, JavaInfo};
use crate::model::Model;
use crate::paths::{file_stem, file_stem_of};
use crate::text::{
    begins_with, chars_of, contains, copy_of, find_first, first_index, includes, lines, lines_of,
    lowercase, rows, split, split_on, starts_with, string_of, strip, stripped, to_lowercase, trim,
    words, words_of, CharClass,
};

verus! {

/// Whether `out` is the text `value`, or none where `value` is none.
pub open spec fn shows(out: Option<Vec<char>>, value: Option<Seq<char>>) -> bool {
    match value {
        Some(v) => out matches Some(x) && x@ == v,
        None => out is None,
    }
}

/// The text between the first double quote of `line` and the next one.
pub open spec fn quoted(line: Seq<char>) -> Option<Seq<char>> {
    let a = first_index(line, CharClass::Exactly('"'), true);
    if 0 <= a < line.len() {
        let rest = line.skip(a + 1);
        let b = first_index(rest, CharClass::Exactly('"'), true);
        if 0 <= b < rest.len() {
            Some(rest.take(b))
        } else {
            None
        }
    } else {
        None
    }
}

/// The word that follows the first word with `version` in it, without
/// double quotes at its ends. The last word is followed by none.
pub open spec fn after_version_word(parts: Seq<Seq<char>>) -> Option<Seq<char>>
    decreases parts.len(),
{
    if parts.len() < 2 {
        None
    } else if contains(parts[0], "version"@) {
        Some(strip(parts[1], CharClass::Exactly('"')))
    } else {
        after_version_word(parts.skip(1))
    }
}

/// Whether a line of output is one that states the version.
pub open spec fn is_version_line(line: Seq<char>) -> bool {
    ||| starts_with(line, "java version"@)
    ||| starts_with(line, "openjdk version"@)
    ||| contains(line, "version \""@)
}

/// The version that a line states: of a line that is a version line, what
/// stands between its first pair of double quotes; failing that, the word
/// after the first word with `version` in it; failing that, the third word.
pub open spec fn version_of_line(line: Seq<char>) -> Option<Seq<char>> {
    if !is_version_line(line) {
        None
    } else {
        let inner = trim(line);
        match quoted(inner) {
            Some(version) => Some(version),
            None => {
                let parts = words(inner);
                match after_version_word(parts) {
                    Some(version) => Some(version),
                    None => if parts.len() >= 3 {
                        Some(strip(parts[2], CharClass::Exactly('"')))
                    } else {
                        None
                    },
                }
            },
        }
    }
}

/// The version that the first line states that states one.
pub open spec fn first_version(all: Seq<Seq<char>>) -> Option<Seq<char>>
    decreases all.len(),
{
    if all.len() == 0 {
        None
    } else {
        match version_of_line(all[0]) {
            Some(version) => Some(version),
            None => first_version(all.skip(1)),
        }
    }
}

/// The version that the output of `-version` states.
pub open spec fn version_in(output: Seq<char>) -> Option<Seq<char>> {
    first_version(lines(output))
}

/// The value of a property in a line of the form `key = value`: of a line
/// that holds `key` and exactly one `=`, what follows the `=`, trimmed.
pub open spec fn property_of_line(line: Seq<char>, key: Seq<char>) -> Option<Seq<char>> {
    let parts = split(line, CharClass::Exactly('='));
    if contains(line, key) && parts.len() == 2 {
        Some(trim(parts[1]))
    } else {
        None
    }
}

/// The value of a property in the first line that gives it.
pub open spec fn first_property(all: Seq<Seq<char>>, key: Seq<char>) -> Option<Seq<char>>
    decreases all.len(),
{
    if all.len() == 0 {
        None
    } else {
        match property_of_line(all[0], key) {
            Some(value) => Some(value),
            None => first_property(all.skip(1), key),
        }
    }
}

/// The architecture that the listing of properties states: by `os.arch`,
/// `64-bit` where the value has `64` in it and `32-bit` otherwise.
pub open spec fn architecture_in(output: Seq<char>) -> Option<Seq<char>> {
    match first_property(lines(output), "os.arch"@) {
        Some(value) => Some(
            if contains(value, "64"@) {
                "64-bit"@
            } else {
                "32-bit"@
            },
        ),
        None => None,
    }
}

/// The supplier that a line of the output of `-version` gives away. The
/// markers are looked for in the lower-case form of the line, in this
/// order; `openjdk` counts only without `adopt`.
pub open spec fn supplier_of_line(line: Seq<char>) -> Option<Seq<char>> {
    let low = lowercase(line);
    if contains(low, "openjdk"@) && !contains(low, "adopt"@) {
        Some("OpenJDK"@)
    } else if contains(low, "oracle"@) {
        Some("Oracle"@)
    } else if contains(low, "ibm"@) {
        Some("IBM"@)
    } else if contains(low, "azul"@) {
        Some("Azul"@)
    } else if contains(low, "adoptopenjdk"@) || contains(low, "adoptium"@) {
        Some("AdoptOpenJDK/Adoptium"@)
    } else if contains(low, "amazon"@) || contains(low, "corretto"@) {
        Some("Amazon Corretto"@)
    } else if contains(low, "microsoft"@) {
        Some("Microsoft"@)
    } else if contains(low, "sap"@) {
        Some("SAP"@)
    } else if contains(low, "graalvm"@) {
        Some("GraalVM"@)
    } else if contains(low, "bellsoft"@) {
        Some("BellSoft Liberica"@)
    } else {
        None
    }
}

/// The supplier that the first line gives away that gives one away.
pub open spec fn first_supplier(all: Seq<Seq<char>>) -> Option<Seq<char>>
    decreases all.len(),
{
    if all.len() == 0 {
        None
    } else {
        match supplier_of_line(all[0]) {
            Some(supplier) => Some(supplier),
            None => first_supplier(all.skip(1)),
        }
    }
}

/// The supplier that the output of `-version` gives away.
pub open spec fn supplier_in(output: Seq<char>) -> Option<Seq<char>> {
    first_supplier(lines(output))
}

/// The supplier that the listing of properties states, by `java.vendor`.
pub open spec fn vendor_in(output: Seq<char>) -> Option<Seq<char>> {
    first_property(lines(output), "java.vendor"@)
}

/// The text between the first double quote of `line` and the next one.
pub fn find_quoted(line: &[char]) -> (out: Option<Vec<char>>)
    ensures
        shows(out, quoted(line@)),
{
    let a = find_first(line, CharClass::Exactly('"'), true);
    if a < line.len() {
        let rest = slice_subrange(line, a + 1, line.len());
        let b = find_first(rest, CharClass::Exactly('"'), true);
        if b < rest.len() {
            Some(copy_of(slice_subrange(rest, 0, b)))
        } else {
            None
        }
    } else {
        None
    }
}

/// The word that follows the first word with `version` in it, without
/// double quotes at its ends.
pub fn find_after_version_word(parts: &Vec<Vec<char>>) -> (out: Option<Vec<char>>)
    ensures
        shows(out, after_version_word(rows(parts@))),
{
    let marker = chars_of("version");
    if parts.len() < 2 {
        return None;
    }
    let last: usize = parts.len() - 1;
    let mut i: usize = 0;
    proof {
        assert(rows(parts@).skip(0) =~= rows(parts@));
    }
    while i < last
        invariant
            i <= last == parts@.len() - 1,
            marker@ == "version"@,
            after_version_word(rows(parts@)) == after_version_word(rows(parts@).skip(i as int)),
        decreases parts@.len() - i,
    {
        let ghost rest = rows(parts@).skip(i as int);
        proof {
            assert(rest[0] == parts@[i as int]@);
            assert(rest[1] == parts@[i + 1]@);
            assert(rest.skip(1) =~= rows(parts@).skip(i + 1));
        }
        if includes(parts[i].as_slice(), marker.as_slice()) {
            let word = stripped(parts[i + 1].as_slice(), CharClass::Exactly('"'));
            return Some(copy_of(word));
        }
        i += 1;
    }
    None
}

/// The version that a line states.
pub fn find_version_of_line(line: &[char]) -> (out: Option<Vec<char>>)
    ensures
        shows(out, version_of_line(line@)),
{
    let java = chars_of("java version");
    let openjdk = chars_of("openjdk version");
    let opening = chars_of("version \"");
    if !(begins_with(line, java.as_slice()) || begins_with(line, openjdk.as_slice()) || includes(
        line,
        opening.as_slice(),
    )) {
        return None;
    }
    let inner = stripped(line, CharClass::Whitespace);
    match find_quoted(inner) {
        Some(version) => Some(version),
        None => {
            let parts = words_of(inner);
            match find_after_version_word(&parts) {
                Some(version) => Some(version),
                None => if parts.len() >= 3 {
                    proof {
                        assert(rows(parts@)[2] == parts@[2]@);
                    }
                    Some(
                        copy_of(
                            stripped(parts[2].as_slice(), CharClass::Exactly('"')),
                        ),
                    )
                } else {
                    None
                },
            }
        },
    }
}

/// The version that the output of `-version` states.
pub fn find_version(output: &[char]) -> (out: Option<Vec<char>>)
    ensures
        shows(out, version_in(output@)),
{
    let all = lines_of(output);
    let mut i: usize = 0;
    proof {
        assert(rows(all@).skip(0) =~= rows(all@));
    }
    while i < all.len()
        invariant
            i <= all@.len(),
            rows(all@) == lines(output@),
            version_in(output@) == first_version(rows(all@).skip(i as int)),
        decreases all@.len() - i,
    {
        proof {
            assert(rows(all@).skip(i as int)[0] == all@[i as int]@);
            assert(rows(all@).skip(i as int).skip(1) =~= rows(all@).skip(i + 1));
        }
        match find_version_of_line(all[i].as_slice()) {
            Some(version) => {
                return Some(version);
            },
            None => {},
        }
        i += 1;
    }
    None
}

/// The value of a property in a line of the form `key = value`.
pub fn find_property_of_line(line: &[char], key: &[char]) -> (out: Option<Vec<char>>)
    ensures
        shows(out, property_of_line(line@, key@)),
{
    if !includes(line, key) {
        return None;
    }
    let parts = split_on(line, CharClass::Exactly('='));
    if parts.len() == 2 {
        proof {
            assert(rows(parts@)[1] == parts@[1]@);
        }
        Some(copy_of(stripped(parts[1].as_slice(), CharClass::Whitespace)))
    } else {
        None
    }
}

/// The value of a property in the first line of a listing that gives it.
pub fn find_property(output: &[char], key: &[char]) -> (out: Option<Vec<char>>)
    ensures
        shows(out, first_property(lines(output@), key@)),
{
    let all = lines_of(output);
    let mut i: usize = 0;
    proof {
        assert(rows(all@).skip(0) =~= rows(all@));
    }
    while i < all.len()
        invariant
            i <= all@.len(),
            rows(all@) == lines(output@),
            first_property(lines(output@), key@) == first_property(
                rows(all@).skip(i as int),
                key@,
            ),
        decreases all@.len() - i,
    {
        proof {
            assert(rows(all@).skip(i as int)[0] == all@[i as int]@);
            assert(rows(all@).skip(i as int).skip(1) =~= rows(all@).skip(i + 1));
        }
        match find_property_of_line(all[i].as_slice(), key) {
            Some(value) => {
                return Some(value);
            },
            None => {},
        }
        i += 1;
    }
    None
}

/// The architecture that the listing of properties states.
pub fn find_architecture(output: &[char]) -> (out: Option<Vec<char>>)
    ensures
        shows(out, architecture_in(output@)),
{
    let key = chars_of("os.arch");
    match find_property(output, key.as_slice()) {
        Some(value) => {
            let wide = chars_of("64");
            if includes(value.as_slice(), wide.as_slice()) {
                Some(chars_of("64-bit"))
            } else {
                Some(chars_of("32-bit"))
            }
        },
        None => None,
    }
}

fn marked(low: &[char], marker: &str) -> (b: bool)
    ensures
        b == contains(low@, marker@),
{
    let chars = chars_of(marker);
    includes(low, chars.as_slice())
}

/// The supplier that a line of the output of `-version` gives away.
pub fn find_supplier_of_line(line: &[char]) -> (out: Option<Vec<char>>)
    ensures
        shows(out, supplier_of_line(line@)),
{
    let text = string_of(line);
    let lowered = to_lowercase(text.as_str());
    let chars = chars_of(lowered.as_str());
    let low = chars.as_slice();
    if marked(low, "openjdk") && !marked(low, "adopt") {
        Some(chars_of("OpenJDK"))
    } else if marked(low, "oracle") {
        Some(chars_of("Oracle"))
    } else if marked(low, "ibm") {
        Some(chars_of("IBM"))
    } else if marked(low, "azul") {
        Some(chars_of("Azul"))
    } else if marked(low, "adoptopenjdk") || marked(low, "adoptium") {
        Some(chars_of("AdoptOpenJDK/Adoptium"))
    } else if marked(low, "amazon") || marked(low, "corretto") {
        Some(chars_of("Amazon Corretto"))
    } else if marked(low, "microsoft") {
        Some(chars_of("Microsoft"))
    } else if marked(low, "sap") {
        Some(chars_of("SAP"))
    } else if marked(low, "graalvm") {
        Some(chars_of("GraalVM"))
    } else if marked(low, "bellsoft") {
        Some(chars_of("BellSoft Liberica"))
    } else {
        None
    }
}

/// The supplier that the output of `-version` gives away.
pub fn find_supplier(output: &[char]) -> (out: Option<Vec<char>>)
    ensures
        shows(out, supplier_in(output@)),
{
    let all = lines_of(output);
    let mut i: usize = 0;
    proof {
        assert(rows(all@).skip(0) =~= rows(all@));
    }
    while i < all.len()
        invariant
            i <= all@.len(),
            rows(all@) == lines(output@),
            supplier_in(output@) == first_supplier(rows(all@).skip(i as int)),
        decreases all@.len() - i,
    {
        proof {
            assert(rows(all@).skip(i as int)[0] == all@[i as int]@);
            assert(rows(all@).skip(i as int).skip(1) =~= rows(all@).skip(i + 1));
        }
        match find_supplier_of_line(all[i].as_slice()) {
            Some(supplier) => {
                return Some(supplier);
            },
            None => {},
        }
        i += 1;
    }
    None
}

/// The error of a Java executable that could not be started.
pub open spec fn run_fault(cause: Seq<char>) -> Fault {
    Fault { kind: ErrorKind::ProbeFailed, description: "Failed to run Java command: "@ + cause }
}

/// The error of output that is not valid UTF-8.
pub open spec fn encoding_fault(bytes: Seq<u8>) -> Fault {
    Fault { kind: ErrorKind::Encoding, description: "UTF-8 error: "@ + utf8_complaint(bytes) }
}

/// The error of output that states no version.
pub open spec fn version_fault() -> Fault {
    Fault { kind: ErrorKind::ProbeFailed, description: "Could not determine Java version"@ }
}

/// What a run printed on standard error, as text.
pub open spec fn diagnostics(reply: Reply) -> Verdict<Seq<char>> {
    match execution(reply) {
        Err(cause) => Err(run_fault(cause)),
        Ok(output) => match decoded(output.stderr@) {
            Some(text) => Ok(text),
            None => Err(encoding_fault(output.stderr@)),
        },
    }
}

/// The arguments of a diagnostic run: `-version`, after `flag` if one is
/// given.
pub open spec fn flags(flag: Option<Seq<char>>) -> Seq<Seq<char>> {
    match flag {
        Some(f) => seq![f, "-version"@],
        None => seq!["-version"@],
    }
}

/// The flag that asks for a 64-bit machine.
pub open spec fn wide() -> Option<Seq<char>> {
    Some("-d64"@)
}

/// The flag that asks for a 32-bit machine.
pub open spec fn narrow() -> Option<Seq<char>> {
    Some("-d32"@)
}

/// The flag that lists the properties of the machine.
pub open spec fn properties() -> Option<Seq<char>> {
    Some("-XshowSettings:properties"@)
}

/// Finding the version: one run of `-version`, whose standard error must
/// state it.
#[verifier::opaque]
pub open spec fn version_probe(
    path: Seq<char>,
    replies: Seq<Reply>,
) -> Outcome<Verdict<Seq<char>>> {
    if replies.len() == 0 {
        Outcome::Ask(RequestView::Run(path, flags(None)))
    } else {
        Outcome::Done(
            match diagnostics(replies[0]) {
                Err(fault) => Err(fault),
                Ok(text) => match version_in(text) {
                    Some(version) => Ok(version),
                    None => Err(version_fault()),
                },
            },
            replies.skip(1),
        )
    }
}

/// What the listing of properties says of the architecture.
pub open spec fn architecture_listed(reply: Reply) -> Verdict<Seq<char>> {
    match diagnostics(reply) {
        Err(fault) => Err(fault),
        Ok(text) => match architecture_in(text) {
            Some(architecture) => Ok(architecture),
            None => Ok("Unknown"@),
        },
    }
}

/// Finding the architecture: a run that forces 64 bits, then one that
/// forces 32 bits, and the first that succeeds decides; failing both, the
/// listing of properties. A run that cannot be started ends the search.
#[verifier::opaque]
pub open spec fn architecture_probe(
    path: Seq<char>,
    replies: Seq<Reply>,
) -> Outcome<Verdict<Seq<char>>> {
    if replies.len() == 0 {
        Outcome::Ask(RequestView::Run(path, flags(wide())))
    } else {
        match execution(replies[0]) {
            Err(cause) => Outcome::Done(Err(run_fault(cause)), replies.skip(1)),
            Ok(first) => if first.success {
                Outcome::Done(Ok("64-bit"@), replies.skip(1))
            } else if replies.len() == 1 {
                Outcome::Ask(RequestView::Run(path, flags(narrow())))
            } else {
                match execution(replies[1]) {
                    Err(cause) => Outcome::Done(Err(run_fault(cause)), replies.skip(2)),
                    Ok(second) => if second.success {
                        Outcome::Done(Ok("32-bit"@), replies.skip(2))
                    } else if replies.len() == 2 {
                        Outcome::Ask(RequestView::Run(path, flags(properties())))
                    } else {
                        Outcome::Done(architecture_listed(replies[2]), replies.skip(3))
                    },
                }
            },
        }
    }
}

/// An architecture that was found is one of three texts.
pub proof fn lemma_architecture_is_known(path: Seq<char>, replies: Seq<Reply>)
    ensures
        architecture_probe(path, replies) matches Outcome::Done(Ok(architecture), _) ==> {
            ||| architecture == "64-bit"@
            ||| architecture == "32-bit"@
            ||| architecture == "Unknown"@
        },
{
    reveal(architecture_probe);
}

/// What the listing of properties says of the supplier.
pub open spec fn supplier_listed(reply: Reply) -> Verdict<Seq<char>> {
    match diagnostics(reply) {
        Err(fault) => Err(fault),
        Ok(text) => match vendor_in(text) {
            Some(vendor) => Ok(vendor),
            None => Ok("Unknown"@),
        },
    }
}

/// Finding the supplier: the output of `-version` is searched for the known
/// markers; where it has none, the listing of properties is asked.
#[verifier::opaque]
pub open spec fn suppliers_probe(
    path: Seq<char>,
    replies: Seq<Reply>,
) -> Outcome<Verdict<Seq<char>>> {
    if replies.len() == 0 {
        Outcome::Ask(RequestView::Run(path, flags(None)))
    } else {
        match diagnostics(replies[0]) {
            Err(fault) => Outcome::Done(Err(fault), replies.skip(1)),
            Ok(text) => match supplier_in(text) {
                Some(supplier) => Outcome::Done(Ok(supplier), replies.skip(1)),
                None => if replies.len() == 1 {
                    Outcome::Ask(RequestView::Run(path, flags(properties())))
                } else {
                    Outcome::Done(supplier_listed(replies[1]), replies.skip(2))
                },
            },
        }
    }
}

/// The name of the executable at `path`: the stem of its file name, or
/// `java` where it has none.
pub open spec fn executable_name(path: Seq<char>) -> Seq<char> {
    match file_stem(path) {
        Some(stem) => stem,
        None => "java"@,
    }
}

/// What was found, or `Unknown` where the search failed.
pub open spec fn or_unknown(found: Verdict<Seq<char>>) -> Seq<char> {
    match found {
        Ok(value) => value,
        Err(_) => "Unknown"@,
    }
}

/// The record that the three searches make. Only a failed search for the
/// version fails the record; the other two degrade to `Unknown`.
pub open spec fn assembled(
    path: Seq<char>,
    version: Verdict<Seq<char>>,
    architecture: Verdict<Seq<char>>,
    suppliers: Verdict<Seq<char>>,
) -> Verdict<Installation> {
    match version {
        Err(fault) => Err(fault),
        Ok(v) => Ok(
            Installation {
                name: executable_name(path),
                path,
                version: v,
                architecture: or_unknown(architecture),
                suppliers: or_unknown(suppliers),
            },
        ),
    }
}

/// Probing an executable: version, architecture and supplier are searched
/// one after the other, each whatever became of the one before.
#[verifier::opaque]
pub open spec fn info_probe(
    path: Seq<char>,
    replies: Seq<Reply>,
) -> Outcome<Verdict<Installation>> {
    match version_probe(path, replies) {
        Outcome::Ask(request) => Outcome::Ask(request),
        Outcome::Done(version, after_version) => match architecture_probe(path, after_version) {
            Outcome::Ask(request) => Outcome::Ask(request),
            Outcome::Done(architecture, after_architecture) => match suppliers_probe(
                path,
                after_architecture,
            ) {
                Outcome::Ask(request) => Outcome::Ask(request),
                Outcome::Done(suppliers, rest) => Outcome::Done(
                    assembled(path, version, architecture, suppliers),
                    rest,
                ),
            },
        },
    }
}

/// Checking that an executable is there and runs: it must exist, start,
/// and end `-version` with success.
pub open spec fn validation(path: Seq<char>, replies: Seq<Reply>) -> Outcome<Verdict<()>> {
    if replies.len() == 0 {
        Outcome::Ask(RequestView::Exists(path))
    } else if !(replies[0] matches Reply::Exists(true)) {
        Outcome::Done(
            Err(
                Fault {
                    kind: ErrorKind::NotFound,
                    description: "Java executable not found: "@ + path,
                },
            ),
            replies.skip(1),
        )
    } else if replies.len() == 1 {
        Outcome::Ask(RequestView::Run(path, flags(None)))
    } else {
        Outcome::Done(
            match execution(replies[1]) {
                Err(cause) => Err(
                    Fault {
                        kind: ErrorKind::ProbeFailed,
                        description: "Failed to execute Java: "@ + cause,
                    },
                ),
                Ok(output) => if output.success {
                    Ok(())
                } else {
                    Err(
                        Fault {
                            kind: ErrorKind::ProbeFailed,
                            description: "Java executable failed to run: "@ + path,
                        },
                    )
                },
            },
            replies.skip(2),
        )
    }
}

/// An error of the given kind whose description is `prefix` and `rest`.
pub fn fault(kind: ErrorKind, prefix: &str, rest: &str) -> (err: JavaLocatorError)
    ensures
        err@ == (Fault { kind, description: prefix@ + rest@ }),
{
    let mut text = String::from_str(prefix);
    text.append(rest);
    JavaLocatorError::with_kind(kind, text)
}

/// The request to run the executable with `-version`, after `flag` if one
/// is given.
pub fn diagnostic_request(java_path: &str, flag: Option<&str>) -> (request: Request)
    ensures
        request@ == RequestView::Run(
            java_path@,
            flags(
                match flag {
                    Some(f) => Some(f@),
                    None => None,
                },
            ),
        ),
{
    let mut arguments: Vec<String> = Vec::new();
    match flag {
        Some(f) => {
            arguments.push(String::from_str(f));
        },
        None => {},
    }
    arguments.push(String::from_str("-version"));
    let request = Request::Run(String::from_str(java_path), arguments);
    proof {
        match flag {
            Some(f) => {
                assert(texts(arguments@) =~= seq![f@, "-version"@]);
            },
            None => {
                assert(texts(arguments@) =~= seq!["-version"@]);
            },
        }
    }
    request
}

/// What a reply says of a program that was to be run.
pub fn execution_of(reply: &Reply) -> (out: std::result::Result<&CommandOutput, String>)
    ensures
        match execution(*reply) {
            Ok(output) => out matches Ok(o) && *o == output,
            Err(cause) => out matches Err(c) && c@ == cause,
        },
{
    match reply {
        Reply::Output(output) => Ok(output),
        Reply::Failed(cause) => Err(cause.clone()),
        _ => Err(String::from_str("no program was run")),
    }
}

/// What a run printed on standard error, as text.
pub fn diagnostics_of(reply: &Reply) -> (out: Result<Vec<char>>)
    ensures
        match diagnostics(*reply) {
            Ok(text) => out matches Ok(t) && t@ == text,
            Err(fault) => out matches Err(e) && e@ == fault,
        },
{
    match execution_of(reply) {
        Err(cause) => Err(
            fault(ErrorKind::ProbeFailed, "Failed to run Java command: ", cause.as_str()),
        ),
        Ok(output) => match decode(output.stderr.as_slice()) {
            Ok(text) => Ok(chars_of(text)),
            Err(complaint) => Err(fault(ErrorKind::Encoding, "UTF-8 error: ", complaint.as_str())),
        },
    }
}

/// Finds the version that a Java executable reports of itself.
pub fn get_java_version(java_path: &str, replies: &[Reply]) -> (step: Step<Result<String>>)
    ensures
        agrees(step, replies@, version_probe(java_path@, replies@)),
{
    reveal(version_probe);
    if replies.len() == 0 {
        return Step::Ask(diagnostic_request(java_path, None));
    }
    match diagnostics_of(&replies[0]) {
        Err(e) => Step::Done(Err(e), 1),
        Ok(text) => match find_version(text.as_slice()) {
            Some(version) => Step::Done(Ok(string_of(version.as_slice())), 1),
            None => Step::Done(
                Err(
                    JavaLocatorError::with_kind(
                        ErrorKind::ProbeFailed,
                        String::from_str("Could not determine Java version"),
                    ),
                ),
                1,
            ),
        },
    }
}

fn listed_architecture(reply: &Reply) -> (out: Result<String>)
    ensures
        out.model() == architecture_listed(*reply),
{
    match diagnostics_of(reply) {
        Err(e) => Err(e),
        Ok(text) => match find_architecture(text.as_slice()) {
            Some(architecture) => Ok(string_of(architecture.as_slice())),
            None => Ok(String::from_str("Unknown")),
        },
    }
}

/// Finds whether a Java executable is a 64-bit or a 32-bit one.
pub fn get_java_architecture(java_path: &str, replies: &[Reply]) -> (step: Step<Result<String>>)
    ensures
        agrees(step, replies@, architecture_probe(java_path@, replies@)),
{
    reveal(architecture_probe);
    if replies.len() == 0 {
        return Step::Ask(diagnostic_request(java_path, Some("-d64")));
    }
    match execution_of(&replies[0]) {
        Err(cause) => {
            return Step::Done(
                Err(fault(ErrorKind::ProbeFailed, "Failed to run Java command: ", cause.as_str())),
                1,
            );
        },
        Ok(first) => {
            if first.success {
                return Step::Done(Ok(String::from_str("64-bit")), 1);
            }
        },
    }
    if replies.len() == 1 {
        return Step::Ask(diagnostic_request(java_path, Some("-d32")));
    }
    match execution_of(&replies[1]) {
        Err(cause) => {
            return Step::Done(
                Err(fault(ErrorKind::ProbeFailed, "Failed to run Java command: ", cause.as_str())),
                2,
            );
        },
        Ok(second) => {
            if second.success {
                return Step::Done(Ok(String::from_str("32-bit")), 2);
            }
        },
    }
    if replies.len() == 2 {
        return Step::Ask(diagnostic_request(java_path, Some("-XshowSettings:properties")));
    }
    Step::Done(listed_architecture(&replies[2]), 3)
}

fn listed_supplier(reply: &Reply) -> (out: Result<String>)
    ensures
        out.model() == supplier_listed(*reply),
{
    match diagnostics_of(reply) {
        Err(e) => Err(e),
        Ok(text) => {
            let key = chars_of("java.vendor");
            match find_property(text.as_slice(), key.as_slice()) {
                Some(vendor) => Ok(string_of(vendor.as_slice())),
                None => Ok(String::from_str("Unknown")),
            }
        },
    }
}

/// Finds who built the distribution that a Java executable belongs to.
pub fn get_java_suppliers(java_path: &str, replies: &[Reply]) -> (step: Step<Result<String>>)
    ensures
        agrees(step, replies@, suppliers_probe(java_path@, replies@)),
{
    reveal(suppliers_probe);
    if replies.len() == 0 {
        return Step::Ask(diagnostic_request(java_path, None));
    }
    match diagnostics_of(&replies[0]) {
        Err(e) => {
            return Step::Done(Err(e), 1);
        },
        Ok(text) => match find_supplier(text.as_slice()) {
            Some(supplier) => {
                return Step::Done(Ok(string_of(supplier.as_slice())), 1);
            },
            None => {},
        },
    }
    if replies.len() == 1 {
        return Step::Ask(diagnostic_request(java_path, Some("-XshowSettings:properties")));
    }
    Step::Done(listed_supplier(&replies[1]), 2)
}

fn known_or_unknown(found: Result<String>) -> (out: String)
    ensures
        out@ == or_unknown(found.model()),
{
    match found {
        Ok(value) => value,
        Err(_) => String::from_str("Unknown"),
    }
}

/// Makes the record of an executable from what the three searches found.
pub fn assemble(
    java_exec_path: &str,
    version: Result<String>,
    architecture: Result<String>,
    suppliers: Result<String>,
) -> (out: Result<JavaInfo>)
    ensures
        out.model() == assembled(
            java_exec_path@,
            version.model(),
            architecture.model(),
            suppliers.model(),
        ),
{
    match version {
        Err(e) => Err(e),
        Ok(v) => {
            let chars = chars_of(java_exec_path);
            let name = match file_stem_of(chars.as_slice()) {
                Some(stem) => string_of(stem),
                None => String::from_str("java"),
            };
            Ok(
                JavaInfo {
                    name,
                    path: String::from_str(java_exec_path),
                    version: v,
                    architecture: known_or_unknown(architecture),
                    suppliers: known_or_unknown(suppliers),
                },
            )
        },
    }
}

/// Probes a Java executable and makes its record.
pub fn get_java_info(java_exec_path: &str, replies: &[Reply]) -> (step: Step<Result<JavaInfo>>)
    ensures
        agrees(step, replies@, info_probe(java_exec_path@, replies@)),
{
    reveal(info_probe);
    let (version, used_version) = match get_java_version(java_exec_path, replies) {
        Step::Ask(request) => {
            return Step::Ask(request);
        },
        Step::Done(found, used) => (found, used),
    };
    let after_version = slice_subrange(replies, used_version, replies.len());
    let (architecture, used_architecture) = match get_java_architecture(
        java_exec_path,
        after_version,
    ) {
        Step::Ask(request) => {
            return Step::Ask(request);
        },
        Step::Done(found, used) => (found, used),
    };
    let after_architecture = slice_subrange(
        after_version,
        used_architecture,
        after_version.len(),
    );
    let (suppliers, used_suppliers) = match get_java_suppliers(java_exec_path, after_architecture) {
        Step::Ask(request) => {
            return Step::Ask(request);
        },
        Step::Done(found, used) => (found, used),
    };
    proof {
        assert(after_architecture@.skip(used_suppliers as int) =~= replies@.skip(
            used_version + used_architecture + used_suppliers,
        ));
    }
    Step::Done(
        assemble(java_exec_path, version, architecture, suppliers),
        used_version + used_architecture + used_suppliers,
    )
}

/// Checks that a Java executable is there and runs.
pub fn validate_java_executable(java_path: &str, replies: &[Reply]) -> (step: Step<Result<()>>)
    ensures
        agrees(step, replies@, validation(java_path@, replies@)),
{
    if replies.len() == 0 {
        return Step::Ask(Request::Exists(String::from_str(java_path)));
    }
    let exists = match &replies[0] {
        Reply::Exists(b) => *b,
        _ => false,
    };
    if !exists {
        return Step::Done(
            Err(fault(ErrorKind::NotFound, "Java executable not found: ", java_path)),
            1,
        );
    }
    if replies.len() == 1 {
        return Step::Ask(diagnostic_request(java_path, None));
    }
    match execution_of(&replies[1]) {
        Err(cause) => Step::Done(
            Err(fault(ErrorKind::ProbeFailed, "Failed to execute Java: ", cause.as_str())),
            2,
        ),
        Ok(output) => if output.success {
            Step::Done(Ok(()), 2)
        } else {
            Step::Done(
                Err(fault(ErrorKind::ProbeFailed, "Java executable failed to run: ", java_path)),
                2,
            )
        },
    }
}

} // verus!
