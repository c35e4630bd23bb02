//! Discovery of the installations on the host.

use vstd::prelude::*;
use vstd::slice::slice_subrange;

use crate::errors::{ErrorKind, Fault, JavaLocatorError, Result, Verdict};
use crate::host::{agrees, slices, texts, Outcome, Platform, Reply, Request, RequestView, Step};
use crate::info::{distinct_paths, knows, major_version, Installation, JavaInfo};
use crate::locate::{
    file_search, home_search, jvm_library_pattern, locate_java_home, locate_jvm_dyn_library,
};
use crate::model::Model;
use crate::paths::{home_directory, join, joined, lemma_home_directory_of_executable};
use crate::rank::{
    is_ranked, lemma_ranked_distinct, lemma_ranked_is_ranked, rank_installations, ranked,
};
use crate::text::{chars_of, decimal, decimal_of, rows, split, split_on, string_of, CharClass};
use crate::utils::{get_java_info, info_probe};

verus! {

/// The directories under which installations are commonly found.
pub open spec fn common_roots(platform: Platform) -> Seq<Seq<char>> {
    match platform {
        Platform::Windows => seq![
            "C:\\Program Files\\Java"@,
            "C:\\Program Files (x86)\\Java"@,
            "C:\\java"@,
            "C:\\jdk"@,
            "C:\\jre"@,
        ],
        Platform::MacOs => seq![
            "/Library/Java/JavaVirtualMachines"@,
            "/System/Library/Java/JavaVirtualMachines"@,
            "/usr/local/opt"@,
            "/opt"@,
        ],
        Platform::Unix => seq![
            "/usr/lib/jvm"@,
            "/usr/java"@,
            "/opt/java"@,
            "/usr/local/java"@,
            "/opt"@,
            "/usr/lib"@,
        ],
    }
}

/// The directories under which installations are commonly found.
pub fn get_platform_specific_java_paths(platform: Platform) -> (roots: Vec<&'static str>)
    ensures
        slices(roots@) == common_roots(platform),
{
    let mut roots: Vec<&'static str> = Vec::new();
    match platform {
        Platform::Windows => {
            roots.push("C:\\Program Files\\Java");
            roots.push("C:\\Program Files (x86)\\Java");
            roots.push("C:\\java");
            roots.push("C:\\jdk");
            roots.push("C:\\jre");
        },
        Platform::MacOs => {
            roots.push("/Library/Java/JavaVirtualMachines");
            roots.push("/System/Library/Java/JavaVirtualMachines");
            roots.push("/usr/local/opt");
            roots.push("/opt");
        },
        Platform::Unix => {
            roots.push("/usr/lib/jvm");
            roots.push("/usr/java");
            roots.push("/opt/java");
            roots.push("/usr/local/java");
            roots.push("/opt");
            roots.push("/usr/lib");
        },
    }
    proof {
        assert(slices(roots@) =~= common_roots(platform));
    }
    roots
}

/// The file name of the Java executable.
pub open spec fn executable_file(platform: Platform) -> Seq<char> {
    match platform {
        Platform::Windows => "java.exe"@,
        _ => "java"@,
    }
}

/// The executable of the installation whose home is `home`.
pub open spec fn home_executable(platform: Platform, home: Seq<char>) -> Seq<char> {
    match platform {
        Platform::Windows => home + "\\bin\\java.exe"@,
        _ => home + "/bin/java"@,
    }
}

/// The home directory of the executable of a home is that home, unless
/// the home is the empty path.
pub proof fn lemma_home_round_trip(platform: Platform, home: Seq<char>)
    requires
        home.len() > 0,
    ensures
        home_directory(home_executable(platform, home)) == home,
{
    reveal_strlit("\\bin\\java.exe");
    reveal_strlit("/bin/java");
    reveal_strlit("bin");
    reveal_strlit("java");
    reveal_strlit("java.exe");
    match platform {
        Platform::Windows => {
            lemma_home_directory_of_executable(home, '\\', "java.exe"@);
            assert(home + "\\bin\\java.exe"@ =~= home.push('\\') + "bin"@ + seq!['\\']
                + "java.exe"@);
        },
        _ => {
            lemma_home_directory_of_executable(home, '/', "java"@);
            assert(home + "/bin/java"@ =~= home.push('/') + "bin"@ + seq!['/'] + "java"@);
        },
    }
}

/// Where the executable of an installation in `dir` may lie, in the order
/// in which the places are tried: under `bin`, under `jre` and `bin`, and
/// last as `javaw.exe` under `bin` on Windows and under `Contents`, `Home`
/// and `bin` elsewhere.
pub open spec fn candidates(platform: Platform, dir: Seq<char>) -> Seq<Seq<char>> {
    let bin = join(platform, dir, "bin"@);
    let jre_bin = join(platform, join(platform, dir, "jre"@), "bin"@);
    let home_bin = join(
        platform,
        join(platform, join(platform, dir, "Contents"@), "Home"@),
        "bin"@,
    );
    match platform {
        Platform::Windows => seq![
            join(platform, bin, "java.exe"@),
            join(platform, jre_bin, "java.exe"@),
            join(platform, bin, "javaw.exe"@),
        ],
        _ => seq![
            join(platform, bin, "java"@),
            join(platform, jre_bin, "java"@),
            join(platform, home_bin, "java"@),
        ],
    }
}

/// How the executables of a directory are looked for.
#[derive(Clone, Copy, Debug, PartialEq, Eq, Structural)]
pub enum Layout {
    /// The directory may be the home of an installation.
    Home,
    /// The directory is on the search path and may hold the executable
    /// itself.
    SearchPath,
}

/// Where the executable may lie in a directory that is read by a layout.
pub open spec fn places(platform: Platform, layout: Layout, dir: Seq<char>) -> Seq<Seq<char>> {
    match layout {
        Layout::Home => candidates(platform, dir),
        Layout::SearchPath => seq![join(platform, dir, executable_file(platform))],
    }
}

/// The character that separates the directories of the search path.
pub open spec fn list_separator(platform: Platform) -> char {
    match platform {
        Platform::Windows => ';',
        _ => ':',
    }
}

/// `found` with `hit` after it, unless there is no hit or its path is
/// known already.
pub open spec fn offered(found: Seq<Installation>, hit: Option<Installation>) -> Seq<Installation> {
    match hit {
        Some(info) => if knows(found, info.path) {
            found
        } else {
            found.push(info)
        },
        None => found,
    }
}

/// Trying places one after the other: the first that exists and whose
/// probe succeeds is the hit. A probe that fails is passed over.
pub open spec fn candidate_probe(
    places: Seq<Seq<char>>,
    replies: Seq<Reply>,
) -> Outcome<Option<Installation>>
    decreases places.len(),
{
    if places.len() == 0 {
        Outcome::Done(None, replies)
    } else if replies.len() == 0 {
        Outcome::Ask(RequestView::Exists(places[0]))
    } else if !(replies[0] matches Reply::Exists(true)) {
        candidate_probe(places.skip(1), replies.skip(1))
    } else {
        match info_probe(places[0], replies.skip(1)) {
            Outcome::Ask(request) => Outcome::Ask(request),
            Outcome::Done(Ok(info), rest) => Outcome::Done(Some(info), rest),
            Outcome::Done(Err(_), rest) => candidate_probe(places.skip(1), rest),
        }
    }
}

/// Going through directories: each gives at most one hit, which is kept
/// unless its path is known already.
pub open spec fn directories_probe(
    platform: Platform,
    layout: Layout,
    dirs: Seq<Seq<char>>,
    found: Seq<Installation>,
    replies: Seq<Reply>,
) -> Outcome<Seq<Installation>>
    decreases dirs.len(),
{
    if dirs.len() == 0 {
        Outcome::Done(found, replies)
    } else {
        match candidate_probe(places(platform, layout, dirs[0]), replies) {
            Outcome::Ask(request) => Outcome::Ask(request),
            Outcome::Done(hit, rest) => directories_probe(
                platform,
                layout,
                dirs.skip(1),
                offered(found, hit),
                rest,
            ),
        }
    }
}

/// The directories that a reply lists.
pub open spec fn listed(reply: Reply) -> Seq<Seq<char>> {
    match reply {
        Reply::Directories(dirs) => texts(dirs@),
        _ => Seq::empty(),
    }
}

/// Going through roots: the directories directly under each are gone
/// through as possible homes.
pub open spec fn roots_probe(
    platform: Platform,
    roots: Seq<Seq<char>>,
    found: Seq<Installation>,
    replies: Seq<Reply>,
) -> Outcome<Seq<Installation>>
    decreases roots.len(),
{
    if roots.len() == 0 {
        Outcome::Done(found, replies)
    } else if replies.len() == 0 {
        Outcome::Ask(RequestView::Directories(roots[0]))
    } else {
        match directories_probe(
            platform,
            Layout::Home,
            listed(replies[0]),
            found,
            replies.skip(1),
        ) {
            Outcome::Ask(request) => Outcome::Ask(request),
            Outcome::Done(more, rest) => roots_probe(platform, roots.skip(1), more, rest),
        }
    }
}

/// The installation that `JAVA_HOME` names, where it names one.
#[verifier::opaque]
pub open spec fn override_probe(
    platform: Platform,
    replies: Seq<Reply>,
) -> Outcome<Seq<Installation>> {
    if replies.len() == 0 {
        Outcome::Ask(RequestView::Variable("JAVA_HOME"@))
    } else {
        match replies[0] {
            Reply::Variable(Some(home)) => if home@.len() > 0 {
                match candidate_probe(seq![home_executable(platform, home@)], replies.skip(1)) {
                    Outcome::Ask(request) => Outcome::Ask(request),
                    Outcome::Done(hit, rest) => Outcome::Done(offered(Seq::empty(), hit), rest),
                }
            } else {
                Outcome::Done(Seq::empty(), replies.skip(1))
            },
            _ => Outcome::Done(Seq::empty(), replies.skip(1)),
        }
    }
}

/// Going through the directories of the search path.
#[verifier::opaque]
pub open spec fn path_probe(
    platform: Platform,
    found: Seq<Installation>,
    replies: Seq<Reply>,
) -> Outcome<Seq<Installation>> {
    if replies.len() == 0 {
        Outcome::Ask(RequestView::Variable("PATH"@))
    } else {
        match replies[0] {
            Reply::Variable(Some(path)) => directories_probe(
                platform,
                Layout::SearchPath,
                split(path@, CharClass::Exactly(list_separator(platform))),
                found,
                replies.skip(1),
            ),
            _ => Outcome::Done(found, replies.skip(1)),
        }
    }
}

/// The installations that are found where installations are put: the one
/// that `JAVA_HOME` names and those under the common roots.
pub open spec fn installed_probe(
    platform: Platform,
    replies: Seq<Reply>,
) -> Outcome<Seq<Installation>> {
    match override_probe(platform, replies) {
        Outcome::Ask(request) => Outcome::Ask(request),
        Outcome::Done(first, rest) => roots_probe(platform, common_roots(platform), first, rest),
    }
}

/// Discovery: the installation that `JAVA_HOME` names, those under the
/// common roots, those on the search path; each path once, the first time
/// it is met; all of them ranked.
#[verifier::opaque]
pub open spec fn discovery(platform: Platform, replies: Seq<Reply>) -> Outcome<Seq<Installation>> {
    match installed_probe(platform, replies) {
        Outcome::Ask(request) => Outcome::Ask(request),
        Outcome::Done(installed, after_roots) => match path_probe(
            platform,
            installed,
            after_roots,
        ) {
            Outcome::Ask(request) => Outcome::Ask(request),
            Outcome::Done(all, rest) => Outcome::Done(ranked(all), rest),
        },
    }
}

/// Offering a hit to records with distinct paths leaves their paths
/// distinct.
pub proof fn lemma_offered_distinct(found: Seq<Installation>, hit: Option<Installation>)
    requires
        distinct_paths(found),
    ensures
        distinct_paths(offered(found, hit)),
{
    match hit {
        Some(info) => {
            if !knows(found, info.path) {
                let more = found.push(info);
                assert forall|i: int, j: int| 0 <= i < j < more.len() implies
                    #[trigger] more[i].path != #[trigger] more[j].path by {
                    if j == found.len() {
                        assert(found[i].path != info.path);
                    } else {
                        assert(found[i].path != found[j].path);
                    }
                }
            }
        },
        None => {},
    }
}

/// Going through directories leaves distinct paths distinct.
pub proof fn lemma_directories_distinct(
    platform: Platform,
    layout: Layout,
    dirs: Seq<Seq<char>>,
    found: Seq<Installation>,
    replies: Seq<Reply>,
)
    requires
        distinct_paths(found),
    ensures
        directories_probe(platform, layout, dirs, found, replies) matches Outcome::Done(more, _)
            ==> distinct_paths(more),
    decreases dirs.len(),
{
    if dirs.len() > 0 {
        match candidate_probe(places(platform, layout, dirs[0]), replies) {
            Outcome::Ask(_) => {},
            Outcome::Done(hit, rest) => {
                lemma_offered_distinct(found, hit);
                lemma_directories_distinct(
                    platform,
                    layout,
                    dirs.skip(1),
                    offered(found, hit),
                    rest,
                );
            },
        }
    }
}

/// Going through roots leaves distinct paths distinct.
pub proof fn lemma_roots_distinct(
    platform: Platform,
    roots: Seq<Seq<char>>,
    found: Seq<Installation>,
    replies: Seq<Reply>,
)
    requires
        distinct_paths(found),
    ensures
        roots_probe(platform, roots, found, replies) matches Outcome::Done(more, _)
            ==> distinct_paths(more),
    decreases roots.len(),
{
    if roots.len() > 0 && replies.len() > 0 {
        let dirs = listed(replies[0]);
        lemma_directories_distinct(platform, Layout::Home, dirs, found, replies.skip(1));
        match directories_probe(platform, Layout::Home, dirs, found, replies.skip(1)) {
            Outcome::Ask(_) => {},
            Outcome::Done(more, rest) => {
                lemma_roots_distinct(platform, roots.skip(1), more, rest);
            },
        }
    }
}

/// What `JAVA_HOME` gives has no path twice.
pub proof fn lemma_override_distinct(platform: Platform, replies: Seq<Reply>)
    ensures
        override_probe(platform, replies) matches Outcome::Done(found, _) ==> distinct_paths(
            found,
        ),
{
    reveal(override_probe);
    if replies.len() > 0 {
        match replies[0] {
            Reply::Variable(Some(home)) => {
                if home@.len() > 0 {
                    match candidate_probe(seq![home_executable(platform, home@)], replies.skip(1)) {
                        Outcome::Ask(_) => {},
                        Outcome::Done(hit, _) => {
                            lemma_offered_distinct(Seq::empty(), hit);
                        },
                    }
                }
            },
            _ => {},
        }
    }
}

/// Going through the search path leaves distinct paths distinct.
pub proof fn lemma_path_distinct(platform: Platform, found: Seq<Installation>, replies: Seq<Reply>)
    requires
        distinct_paths(found),
    ensures
        path_probe(platform, found, replies) matches Outcome::Done(more, _) ==> distinct_paths(
            more,
        ),
{
    reveal(path_probe);
    if replies.len() > 0 {
        match replies[0] {
            Reply::Variable(Some(path)) => {
                lemma_directories_distinct(
                    platform,
                    Layout::SearchPath,
                    split(path@, CharClass::Exactly(list_separator(platform))),
                    found,
                    replies.skip(1),
                );
            },
            _ => {},
        }
    }
}

/// What a discovery gives is ranked, and no path is in it twice.
pub proof fn lemma_discovery(platform: Platform, replies: Seq<Reply>)
    ensures
        discovery(platform, replies) matches Outcome::Done(list, _) ==> is_ranked(list)
            && distinct_paths(list),
{
    reveal(discovery);
    lemma_override_distinct(platform, replies);
    match override_probe(platform, replies) {
        Outcome::Ask(_) => {},
        Outcome::Done(first, after_override) => {
            lemma_roots_distinct(platform, common_roots(platform), first, after_override);
        },
    }
    match installed_probe(platform, replies) {
        Outcome::Ask(_) => {},
        Outcome::Done(installed, after_roots) => {
            lemma_path_distinct(platform, installed, after_roots);
            match path_probe(platform, installed, after_roots) {
                Outcome::Ask(_) => {},
                Outcome::Done(all, _) => {
                    lemma_ranked_is_ranked(all);
                    lemma_ranked_distinct(all);
                },
            }
        },
    }
}

/// `dir` with `segment` under it.
fn beneath(platform: Platform, dir: &Vec<char>, segment: &str) -> (out: Vec<char>)
    ensures
        out@ == join(platform, dir@, segment@),
{
    let chars = chars_of(segment);
    joined(platform, dir.as_slice(), chars.as_slice())
}

/// Where the executable of an installation in `dir` may lie.
pub fn candidates_of(platform: Platform, dir: &str) -> (out: Vec<String>)
    ensures
        texts(out@) == candidates(platform, dir@),
{
    let base = chars_of(dir);
    let bin = beneath(platform, &base, "bin");
    let jre = beneath(platform, &base, "jre");
    let jre_bin = beneath(platform, &jre, "bin");
    let mut out: Vec<String> = Vec::new();
    match platform {
        Platform::Windows => {
            out.push(string_of(beneath(platform, &bin, "java.exe").as_slice()));
            out.push(string_of(beneath(platform, &jre_bin, "java.exe").as_slice()));
            out.push(string_of(beneath(platform, &bin, "javaw.exe").as_slice()));
        },
        _ => {
            let contents = beneath(platform, &base, "Contents");
            let home = beneath(platform, &contents, "Home");
            let home_bin = beneath(platform, &home, "bin");
            out.push(string_of(beneath(platform, &bin, "java").as_slice()));
            out.push(string_of(beneath(platform, &jre_bin, "java").as_slice()));
            out.push(string_of(beneath(platform, &home_bin, "java").as_slice()));
        },
    }
    proof {
        assert(texts(out@) =~= candidates(platform, dir@));
    }
    out
}

/// Where the executable may lie in a directory that is read by a layout.
pub fn places_of(platform: Platform, layout: Layout, dir: &str) -> (out: Vec<String>)
    ensures
        texts(out@) == places(platform, layout, dir@),
{
    match layout {
        Layout::Home => candidates_of(platform, dir),
        Layout::SearchPath => {
            let base = chars_of(dir);
            let place = match platform {
                Platform::Windows => beneath(platform, &base, "java.exe"),
                _ => beneath(platform, &base, "java"),
            };
            let mut out: Vec<String> = Vec::new();
            out.push(string_of(place.as_slice()));
            proof {
                assert(texts(out@) =~= places(platform, layout, dir@));
            }
            out
        },
    }
}

/// Tries places one after the other for an installation.
pub fn try_candidates(places: &Vec<String>, replies: &[Reply]) -> (step: Step<Option<JavaInfo>>)
    ensures
        agrees(step, replies@, candidate_probe(texts(places@), replies@)),
{
    let mut i: usize = 0;
    let mut used: usize = 0;
    proof {
        assert(texts(places@).skip(0) =~= texts(places@));
        assert(replies@.skip(0) =~= replies@);
    }
    while i < places.len()
        invariant
            i <= places@.len(),
            used <= replies@.len(),
            candidate_probe(texts(places@), replies@) == candidate_probe(
                texts(places@).skip(i as int),
                replies@.skip(used as int),
            ),
        decreases places@.len() - i,
    {
        let ghost remaining = texts(places@).skip(i as int);
        let ghost unread = replies@.skip(used as int);
        proof {
            assert(remaining[0] == places@[i as int]@);
            assert(remaining.skip(1) =~= texts(places@).skip(i + 1));
        }
        if used == replies.len() {
            return Step::Ask(Request::Exists(places[i].clone()));
        }
        proof {
            assert(unread[0] == replies@[used as int]);
            assert(unread.skip(1) =~= replies@.skip(used + 1));
        }
        let exists = match &replies[used] {
            Reply::Exists(b) => *b,
            _ => false,
        };
        if exists {
            let rest = slice_subrange(replies, used + 1, replies.len());
            match get_java_info(places[i].as_str(), rest) {
                Step::Ask(request) => {
                    return Step::Ask(request);
                },
                Step::Done(Ok(info), taken) => {
                    proof {
                        assert(rest@.skip(taken as int) =~= replies@.skip(used + 1 + taken));
                    }
                    return Step::Done(Some(info), used + 1 + taken);
                },
                Step::Done(Err(_), taken) => {
                    proof {
                        assert(rest@.skip(taken as int) =~= replies@.skip(used + 1 + taken));
                    }
                    used = used + 1 + taken;
                },
            }
        } else {
            used += 1;
        }
        i += 1;
    }
    Step::Done(None, used)
}

/// Looks for an installation whose home is `dir_path`.
pub fn try_get_java_info_from_dir(
    platform: Platform,
    dir_path: &str,
    replies: &[Reply],
) -> (step: Step<Option<JavaInfo>>)
    ensures
        agrees(step, replies@, candidate_probe(candidates(platform, dir_path@), replies@)),
{
    let places = candidates_of(platform, dir_path);
    try_candidates(&places, replies)
}

/// Whether an installation at `path` is among `found`.
pub fn is_known(found: &Vec<JavaInfo>, path: &String) -> (known: bool)
    ensures
        known == knows(found.model(), path@),
{
    let mut i: usize = 0;
    while i < found.len()
        invariant
            i <= found@.len(),
            forall|j: int| 0 <= j < i ==> (#[trigger] found.model()[j]).path != path@,
        decreases found@.len() - i,
    {
        if found[i].path == *path {
            proof {
                assert(found.model()[i as int].path == path@);
            }
            return true;
        }
        i += 1;
    }
    false
}

/// Keeps a hit unless its path is known already.
pub fn offer(found: &mut Vec<JavaInfo>, hit: Option<JavaInfo>)
    ensures
        final(found).model() == offered(old(found).model(), hit.model()),
{
    match hit {
        Some(info) => {
            if !is_known(found, &info.path) {
                let ghost before = found.model();
                found.push(info);
                proof {
                    assert(found.model() =~= before.push(info@));
                }
            }
        },
        None => {},
    }
}

/// Goes through directories for installations.
#[verifier::loop_isolation(false)]
pub fn scan_directories(
    platform: Platform,
    layout: Layout,
    dirs: &Vec<String>,
    found: Vec<JavaInfo>,
    replies: &[Reply],
) -> (step: Step<Vec<JavaInfo>>)
    ensures
        agrees(
            step,
            replies@,
            directories_probe(platform, layout, texts(dirs@), found.model(), replies@),
        ),
{
    let ghost start = found.model();
    let mut kept = found;
    let mut i: usize = 0;
    let mut used: usize = 0;
    proof {
        assert(texts(dirs@).skip(0) =~= texts(dirs@));
        assert(replies@.skip(0) =~= replies@);
    }
    while i < dirs.len()
        invariant
            i <= dirs@.len(),
            used <= replies@.len(),
            directories_probe(platform, layout, texts(dirs@), start, replies@)
                == directories_probe(
                platform,
                layout,
                texts(dirs@).skip(i as int),
                kept.model(),
                replies@.skip(used as int),
            ),
        decreases dirs@.len() - i,
    {
        proof {
            assert(texts(dirs@).skip(i as int)[0] == dirs@[i as int]@);
            assert(texts(dirs@).skip(i as int).skip(1) =~= texts(dirs@).skip(i + 1));
        }
        let places = places_of(platform, layout, dirs[i].as_str());
        let rest = slice_subrange(replies, used, replies.len());
        match try_candidates(&places, rest) {
            Step::Ask(request) => {
                return Step::Ask(request);
            },
            Step::Done(hit, taken) => {
                proof {
                    assert(rest@.skip(taken as int) =~= replies@.skip(used + taken));
                }
                offer(&mut kept, hit);
                used = used + taken;
            },
        }
        i += 1;
    }
    Step::Done(kept, used)
}

/// Goes through roots for installations in the directories under them.
#[verifier::loop_isolation(false)]
pub fn scan_roots(
    platform: Platform,
    roots: &Vec<&'static str>,
    found: Vec<JavaInfo>,
    replies: &[Reply],
) -> (step: Step<Vec<JavaInfo>>)
    ensures
        agrees(step, replies@, roots_probe(platform, slices(roots@), found.model(), replies@)),
{
    let ghost start = found.model();
    let mut kept = found;
    let mut i: usize = 0;
    let mut used: usize = 0;
    let nothing: Vec<String> = Vec::new();
    proof {
        assert(slices(roots@).skip(0) =~= slices(roots@));
        assert(replies@.skip(0) =~= replies@);
        assert(texts(nothing@) =~= Seq::<Seq<char>>::empty());
    }
    while i < roots.len()
        invariant
            i <= roots@.len(),
            used <= replies@.len(),
            texts(nothing@) == Seq::<Seq<char>>::empty(),
            roots_probe(platform, slices(roots@), start, replies@) == roots_probe(
                platform,
                slices(roots@).skip(i as int),
                kept.model(),
                replies@.skip(used as int),
            ),
        decreases roots@.len() - i,
    {
        proof {
            assert(slices(roots@).skip(i as int)[0] == roots@[i as int]@);
            assert(slices(roots@).skip(i as int).skip(1) =~= slices(roots@).skip(i + 1));
        }
        if used == replies.len() {
            return Step::Ask(Request::Directories(String::from_str(roots[i])));
        }
        proof {
            assert(replies@.skip(used as int)[0] == replies@[used as int]);
            assert(replies@.skip(used as int).skip(1) =~= replies@.skip(used + 1));
        }
        let dirs: &Vec<String> = match &replies[used] {
            Reply::Directories(dirs) => dirs,
            _ => &nothing,
        };
        let rest = slice_subrange(replies, used + 1, replies.len());
        match scan_directories(platform, Layout::Home, dirs, kept, rest) {
            Step::Ask(request) => {
                return Step::Ask(request);
            },
            Step::Done(more, taken) => {
                proof {
                    assert(rest@.skip(taken as int) =~= replies@.skip(used + 1 + taken));
                }
                kept = more;
                used = used + 1 + taken;
            },
        }
        i += 1;
    }
    Step::Done(kept, used)
}

/// The executable of the installation whose home is `home`.
pub fn home_executable_of(platform: Platform, home: &str) -> (out: String)
    ensures
        out@ == home_executable(platform, home@),
{
    let mut out = String::from_str(home);
    match platform {
        Platform::Windows => {
            out.append("\\bin\\java.exe");
        },
        _ => {
            out.append("/bin/java");
        },
    }
    out
}

/// Looks for the installation that `JAVA_HOME` names.
pub fn probe_override(platform: Platform, replies: &[Reply]) -> (step: Step<Vec<JavaInfo>>)
    ensures
        agrees(step, replies@, override_probe(platform, replies@)),
{
    reveal(override_probe);
    if replies.len() == 0 {
        return Step::Ask(Request::Variable(String::from_str("JAVA_HOME")));
    }
    let mut found: Vec<JavaInfo> = Vec::new();
    proof {
        assert(found.model() =~= Seq::<Installation>::empty());
    }
    match &replies[0] {
        Reply::Variable(Some(home)) => {
            if !home.as_str().is_empty() {
                let mut places: Vec<String> = Vec::new();
                places.push(home_executable_of(platform, home.as_str()));
                proof {
                    assert(texts(places@) =~= seq![home_executable(platform, home@)]);
                }
                let rest = slice_subrange(replies, 1, replies.len());
                match try_candidates(&places, rest) {
                    Step::Ask(request) => Step::Ask(request),
                    Step::Done(hit, taken) => {
                        proof {
                            assert(rest@.skip(taken as int) =~= replies@.skip(1 + taken));
                        }
                        offer(&mut found, hit);
                        Step::Done(found, 1 + taken)
                    },
                }
            } else {
                Step::Done(found, 1)
            }
        },
        _ => Step::Done(found, 1),
    }
}

/// Looks for installations in the directories of the search path.
pub fn find_java_in_path(
    platform: Platform,
    java_installations: Vec<JavaInfo>,
    replies: &[Reply],
) -> (step: Step<Vec<JavaInfo>>)
    ensures
        agrees(step, replies@, path_probe(platform, java_installations.model(), replies@)),
{
    reveal(path_probe);
    if replies.len() == 0 {
        return Step::Ask(Request::Variable(String::from_str("PATH")));
    }
    match &replies[0] {
        Reply::Variable(Some(path)) => {
            let chars = chars_of(path.as_str());
            let separator = match platform {
                Platform::Windows => ';',
                _ => ':',
            };
            let pieces = split_on(chars.as_slice(), CharClass::Exactly(separator));
            let mut dirs: Vec<String> = Vec::new();
            let mut k: usize = 0;
            while k < pieces.len()
                invariant
                    k <= pieces@.len(),
                    texts(dirs@) == rows(pieces@).take(k as int),
                decreases pieces@.len() - k,
            {
                let ghost before = dirs@;
                dirs.push(string_of(pieces[k].as_slice()));
                proof {
                    assert(texts(dirs@) =~= texts(before).push(pieces@[k as int]@));
                    assert(rows(pieces@).take(k + 1) =~= rows(pieces@).take(k as int).push(
                        pieces@[k as int]@,
                    ));
                }
                k += 1;
            }
            proof {
                assert(rows(pieces@).take(k as int) =~= rows(pieces@));
            }
            let rest = slice_subrange(replies, 1, replies.len());
            match scan_directories(platform, Layout::SearchPath, &dirs, java_installations, rest) {
                Step::Ask(request) => Step::Ask(request),
                Step::Done(more, taken) => {
                    proof {
                        assert(rest@.skip(taken as int) =~= replies@.skip(1 + taken));
                    }
                    Step::Done(more, 1 + taken)
                },
            }
        },
        _ => Step::Done(java_installations, 1),
    }
}

/// Looks where installations are put.
pub fn find_installed(platform: Platform, replies: &[Reply]) -> (step: Step<Vec<JavaInfo>>)
    ensures
        agrees(step, replies@, installed_probe(platform, replies@)),
{
    match probe_override(platform, replies) {
        Step::Ask(request) => Step::Ask(request),
        Step::Done(first, used) => {
            let rest = slice_subrange(replies, used, replies.len());
            let roots = get_platform_specific_java_paths(platform);
            match scan_roots(platform, &roots, first, rest) {
                Step::Ask(request) => Step::Ask(request),
                Step::Done(found, taken) => {
                    proof {
                        assert(rest@.skip(taken as int) =~= replies@.skip(used + taken));
                    }
                    Step::Done(found, used + taken)
                },
            }
        },
    }
}

/// Finds the installations on the host. The result is ranked, and no path
/// is in it twice.
pub fn find_all_java_installations(
    platform: Platform,
    replies: &[Reply],
) -> (step: Step<Vec<JavaInfo>>)
    ensures
        agrees(step, replies@, discovery(platform, replies@)),
        step matches Step::Done(list, _) ==> is_ranked(list.model()) && distinct_paths(
            list.model(),
        ),
{
    proof {
        reveal(discovery);
        lemma_discovery(platform, replies@);
    }
    match find_installed(platform, replies) {
        Step::Ask(request) => Step::Ask(request),
        Step::Done(installed, used) => {
            let rest = slice_subrange(replies, used, replies.len());
            match find_java_in_path(platform, installed, rest) {
                Step::Ask(request) => Step::Ask(request),
                Step::Done(all, taken) => {
                    proof {
                        assert(rest@.skip(taken as int) =~= replies@.skip(used + taken));
                    }
                    Step::Done(rank_installations(&all), used + taken)
                },
            }
        },
    }
}

/// The first record of `list` that states the major version `major`.
pub open spec fn first_of_version(list: Seq<Installation>, major: u32) -> Option<Installation>
    decreases list.len(),
{
    if list.len() == 0 {
        None
    } else if major_version(list[0].version) == Some(major) {
        Some(list[0])
    } else {
        first_of_version(list.skip(1), major)
    }
}

/// The error of a host without installation of a major version.
pub open spec fn version_absent_fault(major: u32) -> Fault {
    Fault {
        kind: ErrorKind::NotFound,
        description: "No Java installation found for version "@ + decimal(major as nat),
    }
}

/// The error of a host without installation.
pub open spec fn none_found_fault() -> Fault {
    Fault { kind: ErrorKind::NotFound, description: "No Java installations found"@ }
}

/// Finding an installation of a major version: of those that discovery
/// gives, the first in ranking order.
pub open spec fn version_search(
    platform: Platform,
    major: u32,
    replies: Seq<Reply>,
) -> Outcome<Verdict<Installation>> {
    match discovery(platform, replies) {
        Outcome::Ask(request) => Outcome::Ask(request),
        Outcome::Done(list, rest) => Outcome::Done(
            match first_of_version(list, major) {
                Some(record) => Ok(record),
                None => Err(version_absent_fault(major)),
            },
            rest,
        ),
    }
}

/// Finding the latest installation: of those that discovery gives, the
/// first in ranking order.
pub open spec fn latest_search(
    platform: Platform,
    replies: Seq<Reply>,
) -> Outcome<Verdict<Installation>> {
    match discovery(platform, replies) {
        Outcome::Ask(request) => Outcome::Ask(request),
        Outcome::Done(list, rest) => Outcome::Done(
            if list.len() > 0 {
                Ok(list[0])
            } else {
                Err(none_found_fault())
            },
            rest,
        ),
    }
}

fn pick_version(list: &Vec<JavaInfo>, major: u32) -> (out: Option<JavaInfo>)
    ensures
        out.model() == first_of_version(list.model(), major),
{
    let mut i: usize = 0;
    proof {
        assert(list.model().skip(0) =~= list.model());
    }
    while i < list.len()
        invariant
            i <= list@.len(),
            first_of_version(list.model(), major) == first_of_version(
                list.model().skip(i as int),
                major,
            ),
        decreases list@.len() - i,
    {
        proof {
            assert(list.model().skip(i as int)[0] == list@[i as int]@);
            assert(list.model().skip(i as int).skip(1) =~= list.model().skip(i + 1));
        }
        match list[i].get_major_version() {
            Some(version) => {
                if version == major {
                    return Some(list[i].clone());
                }
            },
            None => {},
        }
        i += 1;
    }
    None
}

/// Finds an installation of a major version on the host.
pub fn get_java_by_version(
    platform: Platform,
    major_version: u32,
    replies: &[Reply],
) -> (step: Step<Result<JavaInfo>>)
    ensures
        agrees(step, replies@, version_search(platform, major_version, replies@)),
{
    match find_all_java_installations(platform, replies) {
        Step::Ask(request) => Step::Ask(request),
        Step::Done(installations, used) => match pick_version(&installations, major_version) {
            Some(info) => Step::Done(Ok(info), used),
            None => {
                let digits = decimal_of(major_version);
                let number = string_of(digits.as_slice());
                let mut text = String::from_str("No Java installation found for version ");
                text.append(number.as_str());
                Step::Done(Err(JavaLocatorError::with_kind(ErrorKind::NotFound, text)), used)
            },
        },
    }
}

/// Finds the installation of the highest version on the host.
pub fn get_latest_java(platform: Platform, replies: &[Reply]) -> (step: Step<Result<JavaInfo>>)
    ensures
        agrees(step, replies@, latest_search(platform, replies@)),
{
    match find_all_java_installations(platform, replies) {
        Step::Ask(request) => Step::Ask(request),
        Step::Done(installations, used) => {
            if installations.len() == 0 {
                Step::Done(
                    Err(
                        JavaLocatorError::with_kind(
                            ErrorKind::NotFound,
                            String::from_str("No Java installations found"),
                        ),
                    ),
                    used,
                )
            } else {
                proof {
                    assert(installations.model()[0] == installations@[0]@);
                }
                Step::Done(Ok(installations[0].clone()), used)
            }
        },
    }
}

/// The error of a home without executable.
pub open spec fn executable_absent_fault(path: Seq<char>) -> Fault {
    Fault { kind: ErrorKind::NotFound, description: "Java executable not found at: "@ + path }
}

/// Probing the installation at the Java home of the host: the home is
/// found, its executable must exist, and is probed.
pub open spec fn home_probe(
    platform: Platform,
    replies: Seq<Reply>,
) -> Outcome<Verdict<Installation>> {
    match home_search(platform, replies) {
        Outcome::Ask(request) => Outcome::Ask(request),
        Outcome::Done(Err(fault), rest) => Outcome::Done(Err(fault), rest),
        Outcome::Done(Ok(home), rest) => {
            let executable = home_executable(platform, home);
            if rest.len() == 0 {
                Outcome::Ask(RequestView::Exists(executable))
            } else if !(rest[0] matches Reply::Exists(true)) {
                Outcome::Done(Err(executable_absent_fault(executable)), rest.skip(1))
            } else {
                info_probe(executable, rest.skip(1))
            }
        },
    }
}

/// Probes the installation at the Java home of the host.
pub fn get_java_home(platform: Platform, replies: &[Reply]) -> (step: Step<Result<JavaInfo>>)
    ensures
        agrees(step, replies@, home_probe(platform, replies@)),
{
    let (home, used) = match locate_java_home(platform, replies) {
        Step::Ask(request) => {
            return Step::Ask(request);
        },
        Step::Done(Err(e), used) => {
            return Step::Done(Err(e), used);
        },
        Step::Done(Ok(home), used) => (home, used),
    };
    let executable = home_executable_of(platform, home.as_str());
    if used == replies.len() {
        return Step::Ask(Request::Exists(executable));
    }
    proof {
        assert(replies@.skip(used as int)[0] == replies@[used as int]);
        assert(replies@.skip(used as int).skip(1) =~= replies@.skip(used + 1));
    }
    let exists = match &replies[used] {
        Reply::Exists(b) => *b,
        _ => false,
    };
    if !exists {
        let mut text = String::from_str("Java executable not found at: ");
        text.append(executable.as_str());
        return Step::Done(Err(JavaLocatorError::with_kind(ErrorKind::NotFound, text)), used + 1);
    }
    let rest = slice_subrange(replies, used + 1, replies.len());
    match get_java_info(executable.as_str(), rest) {
        Step::Ask(request) => Step::Ask(request),
        Step::Done(found, taken) => {
            proof {
                assert(rest@.skip(taken as int) =~= replies@.skip(used + 1 + taken));
            }
            Step::Done(found, used + 1 + taken)
        },
    }
}

/// Finds the directory in which the JVM's dynamic library lies.
pub fn get_java_dyn_lib(platform: Platform, replies: &[Reply]) -> (step: Step<Result<String>>)
    ensures
        agrees(step, replies@, file_search(platform, jvm_library_pattern(platform), replies@)),
{
    locate_jvm_dyn_library(platform, replies)
}

/// Where the documentation of the installation at `home` may lie, in the
/// order in which the places are tried.
pub open spec fn document_places(home: Seq<char>) -> Seq<Seq<char>> {
    seq![
        home + "/docs"@,
        home + "/doc"@,
        home + "/legal"@,
        home + "/man"@,
        home + "/man/man1"@,
        home + "/../docs"@,
        home + "/../legal"@,
    ]
}

/// The first of the places that exists, or the fallback where none does.
pub open spec fn first_existing(
    places: Seq<Seq<char>>,
    fallback: Seq<char>,
    replies: Seq<Reply>,
) -> Outcome<Seq<char>>
    decreases places.len(),
{
    if places.len() == 0 {
        Outcome::Done(fallback, replies)
    } else if replies.len() == 0 {
        Outcome::Ask(RequestView::Exists(places[0]))
    } else if replies[0] matches Reply::Exists(true) {
        Outcome::Done(places[0], replies.skip(1))
    } else {
        first_existing(places.skip(1), fallback, replies.skip(1))
    }
}

/// Finding the documentation: the first of its places under the Java home
/// that exists, or the home itself.
pub open spec fn document_search(
    platform: Platform,
    replies: Seq<Reply>,
) -> Outcome<Verdict<Seq<char>>> {
    match home_search(platform, replies) {
        Outcome::Ask(request) => Outcome::Ask(request),
        Outcome::Done(Err(fault), rest) => Outcome::Done(Err(fault), rest),
        Outcome::Done(Ok(home), rest) => match first_existing(document_places(home), home, rest) {
            Outcome::Ask(request) => Outcome::Ask(request),
            Outcome::Done(path, unread) => Outcome::Done(Ok(path), unread),
        },
    }
}

fn place_under(home: &str, tail: &str) -> (out: String)
    ensures
        out@ == home@ + tail@,
{
    let mut out = String::from_str(home);
    out.append(tail);
    out
}

/// Finds the directory of the documentation of the host's Java.
#[verifier::loop_isolation(false)]
pub fn get_java_document(platform: Platform, replies: &[Reply]) -> (step: Step<Result<String>>)
    ensures
        agrees(step, replies@, document_search(platform, replies@)),
{
    let (java_home, used_home) = match locate_java_home(platform, replies) {
        Step::Ask(request) => {
            return Step::Ask(request);
        },
        Step::Done(Err(e), used) => {
            return Step::Done(Err(e), used);
        },
        Step::Done(Ok(home), used) => (home, used),
    };
    let home = java_home.as_str();
    let mut possible_doc_paths: Vec<String> = Vec::new();
    possible_doc_paths.push(place_under(home, "/docs"));
    possible_doc_paths.push(place_under(home, "/doc"));
    possible_doc_paths.push(place_under(home, "/legal"));
    possible_doc_paths.push(place_under(home, "/man"));
    possible_doc_paths.push(place_under(home, "/man/man1"));
    possible_doc_paths.push(place_under(home, "/../docs"));
    possible_doc_paths.push(place_under(home, "/../legal"));
    let ghost places = document_places(java_home@);
    let ghost rest = replies@.skip(used_home as int);
    proof {
        assert(texts(possible_doc_paths@) =~= places);
        assert(places.skip(0) =~= places);
    }
    let mut i: usize = 0;
    let mut used: usize = used_home;
    while i < possible_doc_paths.len()
        invariant
            i <= possible_doc_paths@.len(),
            used_home <= used <= replies@.len(),
            texts(possible_doc_paths@) == places,
            rest == replies@.skip(used_home as int),
            first_existing(places, java_home@, rest) == first_existing(
                places.skip(i as int),
                java_home@,
                replies@.skip(used as int),
            ),
        decreases possible_doc_paths@.len() - i,
    {
        proof {
            assert(places.skip(i as int)[0] == possible_doc_paths@[i as int]@);
            assert(places.skip(i as int).skip(1) =~= places.skip(i + 1));
        }
        if used == replies.len() {
            return Step::Ask(Request::Exists(possible_doc_paths[i].clone()));
        }
        proof {
            assert(replies@.skip(used as int)[0] == replies@[used as int]);
            assert(replies@.skip(used as int).skip(1) =~= replies@.skip(used + 1));
        }
        let exists = match &replies[used] {
            Reply::Exists(b) => *b,
            _ => false,
        };
        if exists {
            return Step::Done(Ok(possible_doc_paths[i].clone()), used + 1);
        }
        used += 1;
        i += 1;
    }
    Step::Done(Ok(java_home), used)
}

} // verus!
