//! Character-level utilities shared by the alias store, the parser and the
//! formatter: Unicode lowercasing behind a trusted name, a verified Latin
//! case fold for the markdown scanner, whitespace trimming, digit tests,
//! and conversions between `&str`, `String` and `Vec<char>`.

use vstd::prelude::*;

verus! {

/// Latin lowercase fold, used by the markdown scanner's case-insensitive
/// word matching: ASCII `A`..`Z` and the Latin-1 uppercase letters
/// `0xC0`..`0xDE` (except the multiplication sign `0xD7`) move down by 32;
/// every other character is unchanged.
pub open spec fn spec_fold_char(c: char) -> char {
    if 'A' as u32 <= c as u32 && c as u32 <= 'Z' as u32 {
        ((c as u32) + 32) as char
    } else if 0xC0 <= c as u32 && c as u32 <= 0xDE && c as u32 != 0xD7 {
        ((c as u32) + 32) as char
    } else {
        c
    }
}

/// The fold applied to every character of a sequence.
pub open spec fn fold_seq(s: Seq<char>) -> Seq<char> {
    s.map_values(|c: char| spec_fold_char(c))
}

/// A decimal digit `0`..`9`.
pub open spec fn is_digit(c: char) -> bool {
    '0' as u32 <= c as u32 && c as u32 <= '9' as u32
}

/// The whitespace characters the trimming functions remove.
pub open spec fn is_space(c: char) -> bool {
    c == ' ' || c == '\t' || c == '\r' || c == '\n'
}

/// A combining diacritical mark (the Unicode block `0x0300`..`0x036F`).
pub open spec fn is_combining_mark(c: char) -> bool {
    0x0300 <= c as u32 && c as u32 <= 0x036F
}

/// A sequence with the combining diacritical marks removed.
pub open spec fn strip_marks(s: Seq<char>) -> Seq<char> {
    s.filter(|c: char| !is_combining_mark(c))
}

/// The sequence with leading whitespace removed.
pub open spec fn trim_start_seq(s: Seq<char>) -> Seq<char>
    decreases s.len(),
{
    if s.len() > 0 && is_space(s[0]) {
        trim_start_seq(s.drop_first())
    } else {
        s
    }
}

/// The sequence with trailing whitespace removed.
pub open spec fn trim_end_seq(s: Seq<char>) -> Seq<char>
    decreases s.len(),
{
    if s.len() > 0 && is_space(s.last()) {
        trim_end_seq(s.drop_last())
    } else {
        s
    }
}

/// The sequence with whitespace removed at both ends.
pub open spec fn trim_seq(s: Seq<char>) -> Seq<char> {
    trim_end_seq(trim_start_seq(s))
}

/// Whether `p` is a prefix of `s`.
pub open spec fn has_prefix(s: Seq<char>, p: Seq<char>) -> bool {
    p.len() <= s.len() && s.take(p.len() as int) == p
}

/// The views of a sequence of strings.
pub open spec fn seq_views(ss: Seq<String>) -> Seq<Seq<char>> {
    ss.map_values(|s: String| s@)
}

/// The name that `str::to_lowercase` gives to a character sequence: its
/// Unicode lowercase form. The result depends on the characters alone.
pub uninterp spec fn lower_of(s: Seq<char>) -> Seq<char>;

/// Relies on `str::to_lowercase`: the Unicode lowercase of the characters,
/// a function of the characters alone; on ASCII text it maps exactly
/// `A`..`Z` down by 32, which is [`fold_seq`] restricted to ASCII.
#[verifier::external_body]
pub fn lower_chars(v: &Vec<char>) -> (r: Vec<char>)
    ensures
        r@ == lower_of(v@),
        (forall|i: int| 0 <= i < v@.len() ==> (v@[i] as u32) < 128) ==> r@ == fold_seq(v@),
{
    v.iter().collect::<String>().to_lowercase().chars().collect()
}

pub fn fold_char(c: char) -> (r: char)
    ensures
        r == spec_fold_char(c),
{
    let u = c as u32;
    if 'A' as u32 <= u && u <= 'Z' as u32 {
        ((u + 32) as u8) as char
    } else if 0xC0 <= u && u <= 0xDE && u != 0xD7 {
        ((u + 32) as u8) as char
    } else {
        c
    }
}

/// The characters of a string, in order.
pub fn chars_vec(s: &str) -> (r: Vec<char>)
    ensures
        r@ == s@,
{
    let n = s.unicode_len();
    let mut r: Vec<char> = Vec::new();
    let mut i: usize = 0;
    while i < n
        invariant
            n == s@.len(),
            i <= n,
            r@ == s@.take(i as int),
        decreases n - i,
    {
        r.push(s.get_char(i));
        proof {
            assert(r@ =~= s@.take(i + 1 as int));
        }
        i = i + 1;
    }
    proof {
        assert(s@.take(n as int) =~= s@);
    }
    r
}

/// Relies on `String: FromIterator<char>` of std: collecting characters
/// yields the string with exactly those characters in order.
#[verifier::external_body]
pub fn string_of_chars(v: &Vec<char>) -> (r: String)
    ensures
        r@ == v@,
{
    v.iter().collect()
}

/// The fold applied to every character.
pub fn fold_vec(v: &Vec<char>) -> (r: Vec<char>)
    ensures
        r@ == fold_seq(v@),
{
    let mut r: Vec<char> = Vec::new();
    let mut i: usize = 0;
    while i < v.len()
        invariant
            i <= v@.len(),
            r@ == fold_seq(v@.take(i as int)),
        decreases v@.len() - i,
    {
        r.push(fold_char(v[i]));
        proof {
            assert(r@ =~= fold_seq(v@.take(i + 1 as int)));
        }
        i = i + 1;
    }
    proof {
        assert(v@.take(v@.len() as int) =~= v@);
    }
    r
}

/// The characters with combining diacritical marks removed.
pub fn strip_marks_vec(v: &Vec<char>) -> (r: Vec<char>)
    ensures
        r@ == strip_marks(v@),
{
    let mut r: Vec<char> = Vec::new();
    let mut i: usize = 0;
    while i < v.len()
        invariant
            i <= v@.len(),
            r@ == v@.take(i as int).filter(|c: char| !is_combining_mark(c)),
        decreases v@.len() - i,
    {
        let c = v[i];
        let u = c as u32;
        if !(0x0300 <= u && u <= 0x036F) {
            r.push(c);
        }
        proof {
            reveal(Seq::filter);
            assert(v@.take(i + 1 as int).drop_last() =~= v@.take(i as int));
            assert(v@.take(i + 1 as int).last() == c);
        }
        i = i + 1;
    }
    proof {
        assert(v@.take(v@.len() as int) =~= v@);
    }
    r
}

/// Whether two character vectors hold the same characters.
pub fn chars_eq(a: &Vec<char>, b: &Vec<char>) -> (r: bool)
    ensures
        r == (a@ == b@),
{
    if a.len() != b.len() {
        proof {
            assert(a@.len() != b@.len());
        }
        return false;
    }
    let mut i: usize = 0;
    while i < a.len()
        invariant
            a@.len() == b@.len(),
            i <= a@.len(),
            forall|j: int| 0 <= j < i ==> a@[j] == b@[j],
        decreases a@.len() - i,
    {
        if a[i] != b[i] {
            return false;
        }
        i = i + 1;
    }
    proof {
        assert(a@ =~= b@);
    }
    true
}

/// Whether `p` is a prefix of `s`.
pub fn chars_has_prefix(s: &Vec<char>, p: &Vec<char>) -> (r: bool)
    ensures
        r == has_prefix(s@, p@),
{
    if p.len() > s.len() {
        return false;
    }
    let mut i: usize = 0;
    while i < p.len()
        invariant
            p@.len() <= s@.len(),
            i <= p@.len(),
            forall|j: int| 0 <= j < i ==> s@[j] == p@[j],
        decreases p@.len() - i,
    {
        if s[i] != p[i] {
            proof {
                assert(s@.take(p@.len() as int)[i as int] != p@[i as int]);
            }
            return false;
        }
        i = i + 1;
    }
    proof {
        assert(s@.take(p@.len() as int) =~= p@);
    }
    true
}

/// The characters with leading and trailing whitespace removed.
pub fn trim_vec(v: &Vec<char>) -> (r: Vec<char>)
    ensures
        r@ == trim_seq(v@),
{
    let mut start: usize = 0;
    proof {
        assert(v@.skip(0) =~= v@);
    }
    while start < v.len() && is_space_char(v[start])
        invariant
            start <= v@.len(),
            trim_start_seq(v@) == trim_start_seq(v@.skip(start as int)),
            forall|j: int| 0 <= j < start ==> is_space(v@[j]),
        decreases v@.len() - start,
    {
        proof {
            assert(v@.skip(start as int).drop_first() =~= v@.skip(start + 1 as int));
        }
        start = start + 1;
    }
    proof {
        assert(trim_start_seq(v@.skip(start as int)) == v@.skip(start as int));
    }
    let mut end: usize = v.len();
    proof {
        assert(v@.skip(start as int).take(end - start as int) =~= v@.skip(start as int));
    }
    while end > start && is_space_char(v[end - 1])
        invariant
            start <= end <= v@.len(),
            trim_start_seq(v@) == v@.skip(start as int),
            trim_end_seq(v@.skip(start as int)) == trim_end_seq(
                v@.skip(start as int).take(end - start as int),
            ),
        decreases end,
    {
        proof {
            assert(v@.skip(start as int).take(end - start as int).drop_last() =~= v@.skip(
                start as int,
            ).take(end - 1 - start as int));
            assert(v@.skip(start as int).take(end - start as int).last() == v@[end - 1]);
        }
        end = end - 1;
    }
    let mut r: Vec<char> = Vec::new();
    let mut i: usize = start;
    while i < end
        invariant
            start <= end <= v@.len(),
            start <= i <= end,
            r@ == v@.skip(start as int).take(i - start as int).take(i - start as int),
            r@ == v@.subrange(start as int, i as int),
        decreases end - i,
    {
        r.push(v[i]);
        proof {
            assert(r@ =~= v@.subrange(start as int, i + 1 as int));
            assert(r@ =~= v@.skip(start as int).take(i + 1 - start as int).take(
                i + 1 - start as int,
            ));
        }
        i = i + 1;
    }
    proof {
        let tail = v@.skip(start as int).take(end - start as int);
        assert(end == start || !is_space(tail.last()));
        assert(trim_end_seq(tail) == tail);
        assert(r@ =~= tail);
    }
    r
}

/// Whether two strings hold the same characters.
pub fn str_eq(a: &str, b: &str) -> (r: bool)
    ensures
        r == (a@ == b@),
{
    let av = chars_vec(a);
    let bv = chars_vec(b);
    chars_eq(&av, &bv)
}

/// Whether the character is whitespace in the sense of [`is_space`].
pub fn is_space_char(c: char) -> (r: bool)
    ensures
        r == is_space(c),
{
    c == ' ' || c == '\t' || c == '\r' || c == '\n'
}

} // verus!
