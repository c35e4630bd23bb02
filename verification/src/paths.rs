//! Paths as plain text.
//!
//! A path is read as segments between separators, and both `/` and `\` are
//! separators whatever the platform. Nothing is normalised: repeated or
//! trailing separators and the segments `.` and `..` are taken as written.

use vstd::prelude::*;
use vstd::slice::slice_subrange;

use crate::host::Platform;
use crate::text::{
    chars_of, copy_of, find_last_end, last_end, lemma_last_end_is, same, CharClass,
};

verus! {

/// What follows the last separator of `p`; all of `p` when it has none.
pub open spec fn last_segment(p: Seq<char>) -> Seq<char> {
    let e = last_end(p, CharClass::Separator, true);
    if 0 <= e <= p.len() {
        p.skip(e)
    } else {
        p
    }
}

/// The path of the directory that holds `p`: `p` up to its last separator.
/// A path without separator lies in the empty path, a path directly under
/// the root lies in the root, and the empty path and the root lie nowhere.
pub open spec fn parent(p: Seq<char>) -> Option<Seq<char>> {
    let e = last_end(p, CharClass::Separator, true);
    if e <= 0 {
        if p.len() == 0 {
            None
        } else {
            Some(Seq::empty())
        }
    } else if e == 1 {
        if p.len() == 1 {
            None
        } else {
            Some(p.take(1))
        }
    } else if e <= p.len() {
        Some(p.take(e - 1))
    } else {
        None
    }
}

/// `p` with its last segment taken off, or `p` itself where it has no parent.
pub open spec fn folder(p: Seq<char>) -> Seq<char> {
    match parent(p) {
        Some(dir) => dir,
        None => p,
    }
}

/// The installation that the executable at `p` belongs to: where `p` lies in
/// a directory named `bin`, the directory that holds that `bin`; otherwise
/// `p` itself.
pub open spec fn home_directory(p: Seq<char>) -> Seq<char> {
    match parent(p) {
        Some(dir) => if last_segment(dir) == "bin"@ {
            match parent(dir) {
                Some(home) => home,
                None => p,
            }
        } else {
            p
        },
        None => p,
    }
}

/// The name of the file at `p` without its extension: the last segment up to
/// its last dot, unless that dot is its first character. `None` where the
/// last segment is empty or is `..`.
pub open spec fn file_stem(p: Seq<char>) -> Option<Seq<char>> {
    let name = last_segment(p);
    let dot = last_end(name, CharClass::Exactly('.'), true);
    if name.len() == 0 || name == ".."@ {
        None
    } else if 1 < dot <= name.len() {
        Some(name.take(dot - 1))
    } else {
        Some(name)
    }
}

/// Whether `p` names a place without regard to a current directory. On
/// Windows that takes a drive letter, a colon and a separator, or two
/// separators at the start; elsewhere a `/` at the start.
pub open spec fn is_absolute(platform: Platform, p: Seq<char>) -> bool {
    match platform {
        Platform::Windows => {
            ||| p.len() >= 3 && p[1] == ':' && CharClass::Separator.holds(p[2])
            ||| p.len() >= 2 && CharClass::Separator.holds(p[0]) && CharClass::Separator.holds(
                p[1],
            )
        },
        _ => p.len() >= 1 && p[0] == '/',
    }
}

/// The separator that the platform writes between segments.
pub open spec fn separator(platform: Platform) -> char {
    match platform {
        Platform::Windows => '\\',
        _ => '/',
    }
}

/// `dir` with `rest` under it: one separator is put between the two unless
/// `dir` is empty or ends with one.
pub open spec fn join(platform: Platform, dir: Seq<char>, rest: Seq<char>) -> Seq<char> {
    if dir.len() == 0 || CharClass::Separator.holds(dir.last()) {
        dir + rest
    } else {
        dir.push(separator(platform)) + rest
    }
}

/// Where the symbolic link at `link` points, given the target written in it:
/// an absolute target as it is, any other under the directory of the link.
pub open spec fn link_target(platform: Platform, link: Seq<char>, target: Seq<char>) -> Seq<char> {
    if is_absolute(platform, target) {
        target
    } else {
        join(platform, folder(link), target)
    }
}

/// What follows the last separator of `p`.
pub fn last_segment_of(p: &[char]) -> (out: &[char])
    ensures
        out@ == last_segment(p@),
{
    let e = find_last_end(p, CharClass::Separator, true);
    slice_subrange(p, e, p.len())
}

/// The path of the directory that holds `p`.
pub fn parent_of(p: &[char]) -> (out: Option<&[char]>)
    ensures
        match parent(p@) {
            Some(dir) => out matches Some(d) && d@ == dir,
            None => out is None,
        },
{
    let e = find_last_end(p, CharClass::Separator, true);
    if e == 0 {
        if p.len() == 0 {
            None
        } else {
            Some(slice_subrange(p, 0, 0))
        }
    } else if e == 1 {
        if p.len() == 1 {
            None
        } else {
            Some(slice_subrange(p, 0, 1))
        }
    } else {
        Some(slice_subrange(p, 0, e - 1))
    }
}

/// `p` with its last segment taken off, or `p` itself where it has no parent.
pub fn folder_of(p: &[char]) -> (out: &[char])
    ensures
        out@ == folder(p@),
{
    match parent_of(p) {
        Some(dir) => dir,
        None => p,
    }
}

/// The installation that the executable at `p` belongs to.
pub fn home_directory_of(p: &[char]) -> (out: &[char])
    ensures
        out@ == home_directory(p@),
{
    match parent_of(p) {
        Some(dir) => {
            let bin = chars_of("bin");
            if same(last_segment_of(dir), bin.as_slice()) {
                match parent_of(dir) {
                    Some(home) => home,
                    None => p,
                }
            } else {
                p
            }
        },
        None => p,
    }
}

/// The name of the file at `p` without its extension.
pub fn file_stem_of(p: &[char]) -> (out: Option<&[char]>)
    ensures
        match file_stem(p@) {
            Some(stem) => out matches Some(s) && s@ == stem,
            None => out is None,
        },
{
    let name = last_segment_of(p);
    let dots = chars_of("..");
    if name.len() == 0 || same(name, dots.as_slice()) {
        return None;
    }
    let dot = find_last_end(name, CharClass::Exactly('.'), true);
    if dot > 1 {
        Some(slice_subrange(name, 0, dot - 1))
    } else {
        Some(name)
    }
}

/// Whether `p` names a place without regard to a current directory.
pub fn absolute(platform: Platform, p: &[char]) -> (b: bool)
    ensures
        b == is_absolute(platform, p@),
{
    match platform {
        Platform::Windows => {
            (p.len() >= 3 && p[1] == ':' && CharClass::Separator.test(p[2])) || (p.len() >= 2
                && CharClass::Separator.test(p[0]) && CharClass::Separator.test(p[1]))
        },
        _ => p.len() >= 1 && p[0] == '/',
    }
}

/// The separator that the platform writes between segments.
pub fn separator_of(platform: Platform) -> (c: char)
    ensures
        c == separator(platform),
{
    match platform {
        Platform::Windows => '\\',
        _ => '/',
    }
}

/// Appends the characters of `rest` to `out`.
pub fn extend(out: &mut Vec<char>, rest: &[char])
    ensures
        final(out)@ == old(out)@ + rest@,
{
    let mut i: usize = 0;
    while i < rest.len()
        invariant
            i <= rest@.len(),
            out@ == old(out)@ + rest@.take(i as int),
        decreases rest@.len() - i,
    {
        out.push(rest[i]);
        proof {
            assert(old(out)@ + rest@.take(i as int + 1) =~= (old(out)@ + rest@.take(
                i as int,
            )).push(rest@[i as int]));
        }
        i += 1;
    }
    proof {
        assert(rest@.take(rest@.len() as int) =~= rest@);
    }
}

/// `dir` with `rest` under it.
pub fn joined(platform: Platform, dir: &[char], rest: &[char]) -> (out: Vec<char>)
    ensures
        out@ == join(platform, dir@, rest@),
{
    let mut out = copy_of(dir);
    if !(dir.len() == 0 || CharClass::Separator.test(dir[dir.len() - 1])) {
        out.push(separator_of(platform));
    }
    extend(&mut out, rest);
    out
}

/// Where the symbolic link at `link` points, given the target written in it.
pub fn link_target_of(platform: Platform, link: &[char], target: &[char]) -> (out: Vec<char>)
    ensures
        out@ == link_target(platform, link@, target@),
{
    if absolute(platform, target) {
        copy_of(target)
    } else {
        joined(platform, folder_of(link), target)
    }
}

/// An executable laid down as `bin/<name>` under a root has that root as its
/// home directory, whichever separator the path is written with.
pub proof fn lemma_home_directory_of_executable(root: Seq<char>, sep: char, name: Seq<char>)
    requires
        root.len() > 0,
        CharClass::Separator.holds(sep),
        forall|i: int| 0 <= i < name.len() ==> !CharClass::Separator.holds(name[i]),
    ensures
        home_directory(root.push(sep) + "bin"@ + seq![sep] + name) == root,
{
    reveal_strlit("bin");
    let bin = "bin"@;
    let dir = root.push(sep) + bin;
    let p = dir + seq![sep] + name;
    let n = root.len() as int;
    assert(p.len() == n + 5 + name.len());
    assert(p[n + 4] == sep);
    assert forall|j: int| n + 5 <= j < p.len() implies !CharClass::Separator.holds(p[j]) by {
        assert(p[j] == name[j - n - 5]);
    }
    lemma_last_end_is(p, CharClass::Separator, true, n + 5);
    assert(p.take(n + 4) =~= dir);
    assert(dir[n] == sep);
    assert forall|j: int| n + 1 <= j < dir.len() implies !CharClass::Separator.holds(dir[j]) by {
        assert(dir[j] == bin[j - n - 1]);
    }
    lemma_last_end_is(dir, CharClass::Separator, true, n + 1);
    assert(dir.skip(n + 1) =~= bin);
    if n == 1 {
        assert(dir.take(1) =~= root);
    } else {
        assert(dir.take(n) =~= root);
    }
}

} // verus!
