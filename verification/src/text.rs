//! Character-level text operations.
//!
//! Every operation is stated over `Seq<char>` and implemented over `&[char]`.
//! Nothing here depends on the platform.

use vstd::prelude::*;
use vstd::slice::slice_subrange;

verus! {

/// Whether `c` has the Unicode `White_Space` property.
pub uninterp spec fn whitespace(c: char) -> bool;

/// The lower-case form of a text, as Unicode defines it for whole strings.
pub uninterp spec fn lowercase(s: Seq<char>) -> Seq<char>;

/// Calls `char::is_whitespace`. Taken on trust: the answer is the
/// `White_Space` property of `c`. Which characters have it is not spelled
/// out in this crate, only named.
#[verifier::external_body]
pub(crate) fn is_whitespace(c: char) -> (b: bool)
    ensures
        b == whitespace(c),
{
    c.is_whitespace()
}

/// Calls `str::to_lowercase`. Taken on trust: the result depends on the
/// characters of `s` alone. The mapping is Unicode's; it is not spelled out
/// in this crate, only named.
#[verifier::external_body]
pub(crate) fn to_lowercase(s: &str) -> (out: String)
    ensures
        out@ == lowercase(s@),
{
    s.to_lowercase()
}

/// Collects characters into a string with `String::from_iter`. Taken on
/// trust: the string holds exactly the characters of `chars`, in order.
#[verifier::external_body]
pub(crate) fn string_of(chars: &[char]) -> (out: String)
    ensures
        out@ == chars@,
{
    chars.iter().collect()
}

/// The characters of `s`, in order.
pub fn chars_of(s: &str) -> (out: Vec<char>)
    ensures
        out@ == s@,
{
    let mut out: Vec<char> = Vec::new();
    for c in it: s.chars()
        invariant
            it.seq() == s@,
            out@ == it.seq().take(it.index() as int),
    {
        out.push(c);
    }
    out
}

/// A copy of `s`.
pub fn copy_of(s: &[char]) -> (out: Vec<char>)
    ensures
        out@ == s@,
{
    let mut out: Vec<char> = Vec::new();
    let mut i: usize = 0;
    while i < s.len()
        invariant
            i <= s.len(),
            out@ == s@.take(i as int),
        decreases s.len() - i,
    {
        out.push(s[i]);
        i += 1;
    }
    out
}

/// A set of characters that the scanning operations can look for.
#[derive(Clone, Copy, Debug)]
pub enum CharClass {
    /// The one character given.
    Exactly(char),
    /// The characters with the `White_Space` property.
    Whitespace,
    /// The two characters that separate path segments, `/` and `\`.
    Separator,
}

impl CharClass {
    /// Whether `c` belongs to the class.
    pub open spec fn holds(self, c: char) -> bool {
        match self {
            CharClass::Exactly(x) => c == x,
            CharClass::Whitespace => whitespace(c),
            CharClass::Separator => c == '/' || c == '\\',
        }
    }

    /// Whether `c` belongs to the class.
    pub fn test(&self, c: char) -> (b: bool)
        ensures
            b == self.holds(c),
    {
        match self {
            CharClass::Exactly(x) => c == *x,
            CharClass::Whitespace => is_whitespace(c),
            CharClass::Separator => c == '/' || c == '\\',
        }
    }
}

/// The index of the first character of `s` whose membership in `class` is
/// `member`, or `s.len()` when there is none.
pub open spec fn first_index(s: Seq<char>, class: CharClass, member: bool) -> int
    decreases s.len(),
{
    if s.len() == 0 || class.holds(s[0]) == member {
        0
    } else {
        1 + first_index(s.skip(1), class, member)
    }
}

/// One past the index of the last character of `s` whose membership in
/// `class` is `member`, or 0 when there is none.
pub open spec fn last_end(s: Seq<char>, class: CharClass, member: bool) -> int
    decreases s.len(),
{
    if s.len() == 0 {
        0
    } else if class.holds(s.last()) == member {
        s.len() as int
    } else {
        last_end(s.drop_last(), class, member)
    }
}

/// What `first_index` holds: nothing of the wanted kind before it, and
/// something of the wanted kind at it unless it is the length.
pub proof fn lemma_first_index(s: Seq<char>, class: CharClass, member: bool)
    ensures
        0 <= first_index(s, class, member) <= s.len(),
        forall|j: int| 0 <= j < first_index(s, class, member) ==> class.holds(s[j]) != member,
        first_index(s, class, member) < s.len() ==> class.holds(
            s[first_index(s, class, member)],
        ) == member,
    decreases s.len(),
{
    if s.len() == 0 || class.holds(s[0]) == member {
    } else {
        let t = s.skip(1);
        lemma_first_index(t, class, member);
        assert forall|j: int| 0 <= j < first_index(s, class, member) implies class.holds(s[j])
            != member by {
            if j > 0 {
                assert(s[j] == t[j - 1]);
            }
        }
        if first_index(t, class, member) < t.len() {
            assert(s[first_index(s, class, member)] == t[first_index(t, class, member)]);
        }
    }
}

/// `first_index` is the only index with nothing of the wanted kind before it
/// and something of the wanted kind at it.
pub proof fn lemma_first_index_is(s: Seq<char>, class: CharClass, member: bool, i: int)
    requires
        0 <= i <= s.len(),
        forall|j: int| 0 <= j < i ==> class.holds(s[j]) != member,
        i < s.len() ==> class.holds(s[i]) == member,
    ensures
        first_index(s, class, member) == i,
    decreases s.len(),
{
    if s.len() == 0 || class.holds(s[0]) == member {
    } else {
        let t = s.skip(1);
        assert forall|j: int| 0 <= j < i - 1 implies class.holds(t[j]) != member by {
            assert(t[j] == s[j + 1]);
        }
        if i < s.len() {
            assert(t[i - 1] == s[i]);
        }
        lemma_first_index_is(t, class, member, i - 1);
    }
}

/// What `last_end` holds: nothing of the wanted kind from it on, and
/// something of the wanted kind just before it unless it is 0.
pub proof fn lemma_last_end(s: Seq<char>, class: CharClass, member: bool)
    ensures
        0 <= last_end(s, class, member) <= s.len(),
        forall|j: int|
            last_end(s, class, member) <= j < s.len() ==> class.holds(s[j]) != member,
        last_end(s, class, member) > 0 ==> class.holds(s[last_end(s, class, member) - 1])
            == member,
    decreases s.len(),
{
    if s.len() == 0 || class.holds(s.last()) == member {
    } else {
        let t = s.drop_last();
        lemma_last_end(t, class, member);
        assert forall|j: int| last_end(s, class, member) <= j < s.len() implies class.holds(s[j])
            != member by {
            if j < s.len() - 1 {
                assert(s[j] == t[j]);
            }
        }
    }
}

/// `last_end` is the only end with nothing of the wanted kind from it on and
/// something of the wanted kind just before it.
pub proof fn lemma_last_end_is(s: Seq<char>, class: CharClass, member: bool, e: int)
    requires
        0 <= e <= s.len(),
        forall|j: int| e <= j < s.len() ==> class.holds(s[j]) != member,
        e > 0 ==> class.holds(s[e - 1]) == member,
    ensures
        last_end(s, class, member) == e,
    decreases s.len(),
{
    if s.len() == 0 || class.holds(s.last()) == member {
    } else {
        let t = s.drop_last();
        assert forall|j: int| e <= j < t.len() implies class.holds(t[j]) != member by {
            assert(t[j] == s[j]);
        }
        if e > 0 {
            assert(t[e - 1] == s[e - 1]);
        }
        lemma_last_end_is(t, class, member, e);
    }
}

/// Scans `s` from the front for the first character whose membership in
/// `class` is `member`.
pub fn find_first(s: &[char], class: CharClass, member: bool) -> (i: usize)
    ensures
        i == first_index(s@, class, member),
        i <= s@.len(),
{
    let mut i: usize = 0;
    while i < s.len() && class.test(s[i]) != member
        invariant
            i <= s@.len(),
            forall|j: int| 0 <= j < i ==> class.holds(s@[j]) != member,
        decreases s@.len() - i,
    {
        i += 1;
    }
    proof {
        lemma_first_index_is(s@, class, member, i as int);
    }
    i
}

/// Scans `s` from the back for the last character whose membership in
/// `class` is `member`.
pub fn find_last_end(s: &[char], class: CharClass, member: bool) -> (e: usize)
    ensures
        e == last_end(s@, class, member),
        e <= s@.len(),
{
    let mut e: usize = s.len();
    while e > 0 && class.test(s[e - 1]) != member
        invariant
            e <= s@.len(),
            forall|j: int| e <= j < s@.len() ==> class.holds(s@[j]) != member,
        decreases e,
    {
        e -= 1;
    }
    proof {
        lemma_last_end_is(s@, class, member, e as int);
    }
    e
}

/// `s` without the characters of `class` at its two ends.
pub open spec fn strip(s: Seq<char>, class: CharClass) -> Seq<char> {
    let a = first_index(s, class, false);
    let b = last_end(s, class, false);
    if 0 <= a < b <= s.len() {
        s.subrange(a, b)
    } else {
        Seq::empty()
    }
}

/// `s` without surrounding white space, as `str::trim` gives it.
pub open spec fn trim(s: Seq<char>) -> Seq<char> {
    strip(s, CharClass::Whitespace)
}

/// `s` without the characters of `class` at its two ends.
pub fn stripped(s: &[char], class: CharClass) -> (out: &[char])
    ensures
        out@ == strip(s@, class),
{
    let a = find_first(s, class, false);
    let b = find_last_end(s, class, false);
    if a < b {
        slice_subrange(s, a, b)
    } else {
        slice_subrange(s, 0, 0)
    }
}

/// Whether `s` begins with `prefix`.
pub open spec fn starts_with(s: Seq<char>, prefix: Seq<char>) -> bool {
    prefix.len() <= s.len() && s.take(prefix.len() as int) =~= prefix
}

/// Whether `needle` stands in `s` at index `i`.
pub open spec fn occurs_at(s: Seq<char>, needle: Seq<char>, i: int) -> bool {
    0 <= i && i + needle.len() <= s.len() && s.subrange(i, i + needle.len()) =~= needle
}

/// Whether `needle` stands somewhere in `s`. The empty text stands everywhere.
pub open spec fn contains(s: Seq<char>, needle: Seq<char>) -> bool {
    exists|i: int| occurs_at(s, needle, i)
}

/// Whether `needle` stands in `s` at index `i`.
pub fn stands_at(s: &[char], needle: &[char], i: usize) -> (b: bool)
    ensures
        b == occurs_at(s@, needle@, i as int),
{
    if needle.len() > s.len() || i > s.len() - needle.len() {
        return false;
    }
    let mut k: usize = 0;
    while k < needle.len()
        invariant
            k <= needle@.len(),
            i + needle@.len() <= s@.len() <= usize::MAX,
            forall|j: int| 0 <= j < k ==> s@[i + j] == needle@[j],
        decreases needle@.len() - k,
    {
        if s[i + k] != needle[k] {
            proof {
                assert(s@.subrange(i as int, i + needle@.len())[k as int] == s@[i + k]);
            }
            return false;
        }
        k += 1;
    }
    proof {
        assert(s@.subrange(i as int, i + needle@.len()) =~= needle@);
    }
    true
}

/// Whether `s` begins with `prefix`.
pub fn begins_with(s: &[char], prefix: &[char]) -> (b: bool)
    ensures
        b == starts_with(s@, prefix@),
{
    proof {
        if prefix@.len() <= s@.len() {
            assert(s@.take(prefix@.len() as int) =~= s@.subrange(0, 0int + prefix@.len()));
        }
    }
    stands_at(s, prefix, 0)
}

/// Whether `needle` stands somewhere in `s`.
pub fn includes(s: &[char], needle: &[char]) -> (b: bool)
    ensures
        b == contains(s@, needle@),
{
    if needle.len() > s.len() {
        return false;
    }
    let last: usize = s.len() - needle.len();
    let mut i: usize = 0;
    while i < last
        invariant
            last == s@.len() - needle@.len(),
            i <= last,
            forall|j: int| 0 <= j < i ==> !occurs_at(s@, needle@, j),
        decreases last - i,
    {
        if stands_at(s, needle, i) {
            return true;
        }
        i += 1;
    }
    stands_at(s, needle, last)
}

/// The texts that a vector of character vectors holds.
pub open spec fn rows(v: Seq<Vec<char>>) -> Seq<Seq<char>> {
    v.map_values(|r: Vec<char>| r@)
}

/// The pieces of `s` between the characters of `class`; there is always at
/// least one piece, and pieces may be empty.
pub open spec fn split(s: Seq<char>, class: CharClass) -> Seq<Seq<char>>
    decreases s.len(),
{
    let i = first_index(s, class, true);
    if 0 <= i < s.len() {
        seq![s.take(i)] + split(s.skip(i + 1), class)
    } else {
        seq![s]
    }
}

/// The pieces of `s` between the characters of `class`.
pub fn split_on(s: &[char], class: CharClass) -> (out: Vec<Vec<char>>)
    ensures
        rows(out@) == split(s@, class),
        out@.len() >= 1,
{
    let mut out: Vec<Vec<char>> = Vec::new();
    let mut rest: &[char] = s;
    loop
        invariant
            split(s@, class) == rows(out@) + split(rest@, class),
        decreases rest@.len(),
    {
        let i = find_first(rest, class, true);
        let ghost before = out@;
        if i < rest.len() {
            out.push(copy_of(slice_subrange(rest, 0, i)));
            let next = slice_subrange(rest, i + 1, rest.len());
            proof {
                assert(rows(out@) =~= rows(before).push(rest@.take(i as int)));
                assert(rows(before) + (seq![rest@.take(i as int)] + split(next@, class))
                    =~= rows(out@) + split(next@, class));
            }
            rest = next;
        } else {
            out.push(copy_of(rest));
            proof {
                assert(rows(out@) =~= rows(before).push(rest@));
                assert(rows(before) + seq![rest@] =~= rows(out@));
            }
            return out;
        }
    }
}

/// `s` without one carriage return at its end.
pub open spec fn without_cr(s: Seq<char>) -> Seq<char> {
    if s.len() > 0 && s.last() == '\r' {
        s.drop_last()
    } else {
        s
    }
}

/// The lines of `s`, as `str::lines` gives them: each ends at a line feed,
/// which is left out together with a carriage return right before it; what
/// follows the last line feed is a line of its own unless it is empty.
pub open spec fn lines(s: Seq<char>) -> Seq<Seq<char>>
    decreases s.len(),
{
    if s.len() == 0 {
        Seq::empty()
    } else {
        let i = first_index(s, CharClass::Exactly('\n'), true);
        if 0 <= i < s.len() {
            seq![without_cr(s.take(i))] + lines(s.skip(i + 1))
        } else {
            seq![s]
        }
    }
}

/// The lines of `s`.
pub fn lines_of(s: &[char]) -> (out: Vec<Vec<char>>)
    ensures
        rows(out@) == lines(s@),
{
    let mut out: Vec<Vec<char>> = Vec::new();
    let mut rest: &[char] = s;
    while rest.len() > 0
        invariant
            lines(s@) == rows(out@) + lines(rest@),
        decreases rest@.len(),
    {
        let i = find_first(rest, CharClass::Exactly('\n'), true);
        let ghost before = out@;
        if i < rest.len() {
            let line = slice_subrange(rest, 0, i);
            let kept = if i > 0 && line[i - 1] == '\r' {
                slice_subrange(line, 0, i - 1)
            } else {
                line
            };
            out.push(copy_of(kept));
            let next = slice_subrange(rest, i + 1, rest.len());
            proof {
                assert(kept@ =~= without_cr(rest@.take(i as int)));
                assert(rows(out@) =~= rows(before).push(kept@));
                assert(rows(before) + (seq![kept@] + lines(next@)) =~= rows(out@) + lines(
                    next@,
                ));
            }
            rest = next;
        } else {
            out.push(copy_of(rest));
            proof {
                assert(rows(out@) =~= rows(before).push(rest@));
                assert(rows(before) + seq![rest@] =~= rows(out@));
            }
            return out;
        }
    }
    proof {
        assert(rows(out@) + lines(rest@) =~= rows(out@));
    }
    out
}

/// The maximal runs of `s` without white space, in order, as
/// `str::split_whitespace` gives them.
pub open spec fn words(s: Seq<char>) -> Seq<Seq<char>>
    decreases s.len(),
{
    let a = first_index(s, CharClass::Whitespace, false);
    if 0 <= a < s.len() {
        let t = s.skip(a);
        let n = first_index(t, CharClass::Whitespace, true);
        if 0 < n <= t.len() {
            seq![t.take(n)] + words(t.skip(n))
        } else {
            Seq::empty()
        }
    } else {
        Seq::empty()
    }
}

/// The maximal runs of `s` without white space, in order.
pub fn words_of(s: &[char]) -> (out: Vec<Vec<char>>)
    ensures
        rows(out@) == words(s@),
{
    let mut out: Vec<Vec<char>> = Vec::new();
    let mut rest: &[char] = s;
    loop
        invariant
            words(s@) == rows(out@) + words(rest@),
        decreases rest@.len(),
    {
        let a = find_first(rest, CharClass::Whitespace, false);
        if a >= rest.len() {
            proof {
                assert(rows(out@) + words(rest@) =~= rows(out@));
            }
            return out;
        }
        let t = slice_subrange(rest, a, rest.len());
        let n = find_first(t, CharClass::Whitespace, true);
        proof {
            lemma_first_index(rest@, CharClass::Whitespace, false);
            assert(t@[0] == rest@[a as int]);
            lemma_first_index(t@.skip(1), CharClass::Whitespace, true);
        }
        let ghost before = out@;
        out.push(copy_of(slice_subrange(t, 0, n)));
        let next = slice_subrange(t, n, t.len());
        proof {
            assert(rows(out@) =~= rows(before).push(t@.take(n as int)));
            assert(rows(before) + (seq![t@.take(n as int)] + words(next@)) =~= rows(out@)
                + words(next@));
        }
        rest = next;
    }
}

/// Whether `c` is one of the ten decimal digits.
pub open spec fn is_digit(c: char) -> bool {
    '0' <= c <= '9'
}

/// The number that the digit `c` stands for.
pub open spec fn digit_value(c: char) -> nat {
    (c as u32 - '0' as u32) as nat
}

/// Whether `s` holds decimal digits only.
pub open spec fn all_digits(s: Seq<char>) -> bool {
    forall|i: int| 0 <= i < s.len() ==> is_digit(#[trigger] s[i])
}

/// The number that the decimal digits `s` write, most significant first.
pub open spec fn digits_value(s: Seq<char>) -> nat
    decreases s.len(),
{
    if s.len() == 0 {
        0
    } else {
        digits_value(s.drop_last()) * 10 + digit_value(s.last())
    }
}

/// What `str::parse::<u32>` makes of `s`: an optional `+`, then one decimal
/// digit or more, writing a number that fits.
pub open spec fn parse_u32(s: Seq<char>) -> Option<u32> {
    let d = if s.len() > 0 && s[0] == '+' {
        s.skip(1)
    } else {
        s
    };
    if d.len() > 0 && all_digits(d) && digits_value(d) <= u32::MAX {
        Some(digits_value(d) as u32)
    } else {
        None
    }
}

/// A number written with more digits is no smaller than the number that its
/// first digits write.
pub proof fn lemma_digits_value_grows(s: Seq<char>, k: int)
    requires
        0 <= k <= s.len(),
    ensures
        digits_value(s.take(k)) <= digits_value(s),
    decreases s.len() - k,
{
    if k == s.len() {
        assert(s.take(k) =~= s);
    } else {
        lemma_digits_value_grows(s, k + 1);
        assert(s.take(k + 1).drop_last() =~= s.take(k));
    }
}

/// The number that `s` writes, if it writes one that fits.
pub fn parse_number(s: &[char]) -> (out: Option<u32>)
    ensures
        out == parse_u32(s@),
{
    let d: &[char] = if s.len() > 0 && s[0] == '+' {
        slice_subrange(s, 1, s.len())
    } else {
        s
    };
    if d.len() == 0 {
        return None;
    }
    let mut value: u64 = 0;
    let mut i: usize = 0;
    while i < d.len()
        invariant
            d@.len() > 0,
            d@ == if s@.len() > 0 && s@[0] == '+' {
                s@.skip(1)
            } else {
                s@
            },
            i <= d@.len(),
            all_digits(d@.take(i as int)),
            value == digits_value(d@.take(i as int)),
            value <= u32::MAX,
        decreases d@.len() - i,
    {
        let c = d[i];
        if c < '0' || c > '9' {
            proof {
                assert(!is_digit(d@[i as int]));
            }
            return None;
        }
        let digit: u64 = (c as u32 - '0' as u32) as u64;
        let next: u64 = value * 10 + digit;
        proof {
            assert(d@.take(i + 1).drop_last() =~= d@.take(i as int));
            assert(d@.take(i + 1).last() == c);
            assert(next == digits_value(d@.take(i + 1)));
        }
        if next > 0xFFFF_FFFF {
            proof {
                lemma_digits_value_grows(d@, i + 1);
            }
            return None;
        }
        value = next;
        i += 1;
    }
    proof {
        assert(d@.take(i as int) =~= d@);
    }
    Some(value as u32)
}

/// The character that writes the digit `d`.
pub open spec fn digit_char(d: nat) -> char {
    if d == 0 {
        '0'
    } else if d == 1 {
        '1'
    } else if d == 2 {
        '2'
    } else if d == 3 {
        '3'
    } else if d == 4 {
        '4'
    } else if d == 5 {
        '5'
    } else if d == 6 {
        '6'
    } else if d == 7 {
        '7'
    } else if d == 8 {
        '8'
    } else {
        '9'
    }
}

/// `n` in decimal digits, without leading zeros.
pub open spec fn decimal(n: nat) -> Seq<char>
    decreases n,
{
    if n < 10 {
        seq![digit_char(n)]
    } else {
        decimal(n / 10).push(digit_char(n % 10))
    }
}

fn digit_of(d: u32) -> (c: char)
    requires
        d < 10,
    ensures
        c == digit_char(d as nat),
{
    if d == 0 {
        '0'
    } else if d == 1 {
        '1'
    } else if d == 2 {
        '2'
    } else if d == 3 {
        '3'
    } else if d == 4 {
        '4'
    } else if d == 5 {
        '5'
    } else if d == 6 {
        '6'
    } else if d == 7 {
        '7'
    } else if d == 8 {
        '8'
    } else {
        '9'
    }
}

/// `n` in decimal digits, without leading zeros.
pub fn decimal_of(n: u32) -> (out: Vec<char>)
    ensures
        out@ == decimal(n as nat),
    decreases n,
{
    if n < 10 {
        let mut out: Vec<char> = Vec::new();
        out.push(digit_of(n));
        out
    } else {
        let mut out = decimal_of(n / 10);
        out.push(digit_of(n % 10));
        out
    }
}

/// Whether `a` comes before `b`, or is `b`, in the order of a dictionary
/// whose alphabet is the code points.
pub open spec fn lex_le(a: Seq<char>, b: Seq<char>) -> bool
    decreases a.len(),
{
    if a.len() == 0 {
        true
    } else if b.len() == 0 {
        false
    } else if a[0] != b[0] {
        a[0] < b[0]
    } else {
        lex_le(a.skip(1), b.skip(1))
    }
}

/// Of two texts one comes first.
pub proof fn lemma_lex_le_total(a: Seq<char>, b: Seq<char>)
    ensures
        lex_le(a, b) || lex_le(b, a),
    decreases a.len(),
{
    if a.len() > 0 && b.len() > 0 && a[0] == b[0] {
        lemma_lex_le_total(a.skip(1), b.skip(1));
    }
}

/// Two texts that each come before the other are one text.
pub proof fn lemma_lex_le_antisymmetric(a: Seq<char>, b: Seq<char>)
    requires
        lex_le(a, b),
        lex_le(b, a),
    ensures
        a == b,
    decreases a.len(),
{
    if a.len() == 0 || b.len() == 0 {
        assert(a =~= b);
    } else {
        lemma_lex_le_antisymmetric(a.skip(1), b.skip(1));
        assert(a =~= seq![a[0]] + a.skip(1));
        assert(b =~= seq![b[0]] + b.skip(1));
    }
}

/// What comes before a text comes before all that the text comes before.
pub proof fn lemma_lex_le_transitive(a: Seq<char>, b: Seq<char>, c: Seq<char>)
    requires
        lex_le(a, b),
        lex_le(b, c),
    ensures
        lex_le(a, c),
    decreases a.len(),
{
    if a.len() > 0 && b.len() > 0 && c.len() > 0 && a[0] == b[0] && b[0] == c[0] {
        lemma_lex_le_transitive(a.skip(1), b.skip(1), c.skip(1));
    }
}

/// Whether `a` comes before `b`, or is `b`, in the order of code points.
pub fn precedes(a: &[char], b: &[char]) -> (r: bool)
    ensures
        r == lex_le(a@, b@),
{
    let mut i: usize = 0;
    proof {
        assert(a@.skip(0) =~= a@);
        assert(b@.skip(0) =~= b@);
    }
    while i < a.len() && i < b.len() && a[i] == b[i]
        invariant
            i <= a@.len(),
            i <= b@.len(),
            lex_le(a@, b@) == lex_le(a@.skip(i as int), b@.skip(i as int)),
        decreases a@.len() - i,
    {
        proof {
            assert(a@.skip(i as int).skip(1) =~= a@.skip(i + 1));
            assert(b@.skip(i as int).skip(1) =~= b@.skip(i + 1));
        }
        i += 1;
    }
    if i >= a.len() {
        true
    } else if i >= b.len() {
        false
    } else {
        a[i] < b[i]
    }
}

/// Whether two texts are the same.
pub fn same(a: &[char], b: &[char]) -> (r: bool)
    ensures
        r == (a@ == b@),
{
    if a.len() != b.len() {
        return false;
    }
    let r = stands_at(a, b, 0);
    proof {
        assert(a@.subrange(0, 0int + b@.len()) =~= a@);
    }
    r
}

} // verus!
