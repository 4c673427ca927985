//! Extraction of yCard blocks from markdown text: fenced ```ycard code
//! blocks, and YAML-like runs under contact headings. A pure text-scanning
//! helper around the core; offsets are in characters.

use vstd::prelude::*;
use crate::chars::{
    chars_eq, chars_has_prefix, chars_vec, fold_seq, fold_vec, is_space, is_space_char,
    string_of_chars, trim_seq, trim_start_seq, trim_vec,
};

verus! {

/// How a span was found.
#[derive(Debug, Clone, PartialEq, Eq, Structural)]
pub enum ExtractionType {
    FencedCodeBlock,
    ContextualBlock,
}

/// One extracted yCard block: its character range in the source, its text,
/// and an optional locale inferred from context.
#[derive(Debug, Clone, PartialEq)]
pub struct Span {
    pub start: usize,
    pub end: usize,
    pub content: String,
    pub inferred_locale: Option<String>,
    pub extraction_type: ExtractionType,
}

/// The abstract value of a [`Span`].
#[verifier::ext_equal]
pub struct SpanView {
    pub start: int,
    pub end: int,
    pub content: Seq<char>,
    pub inferred_locale: Option<Seq<char>>,
    pub extraction_type: ExtractionType,
}

impl View for Span {
    type V = SpanView;

    open spec fn view(&self) -> SpanView {
        SpanView {
            start: self.start as int,
            end: self.end as int,
            content: self.content@,
            inferred_locale: crate::schema::opt_view(self.inferred_locale),
            extraction_type: self.extraction_type,
        }
    }
}

/// The views of a span list.
pub open spec fn span_views(ss: Seq<Span>) -> Seq<SpanView> {
    ss.map_values(|s: Span| s@)
}

/// Whether a span list is ordered by start position.
pub open spec fn spans_sorted(ss: Seq<Span>) -> bool {
    forall|i: int, j: int| 0 <= i < j < ss.len() ==> (#[trigger] ss[i]).start <= (#[trigger] ss[j]).start
}

/// The index of the first newline in a sequence, or its length.
pub open spec fn nl_split(s: Seq<char>) -> int
    decreases s.len(),
{
    if s.len() == 0 {
        0
    } else if s[0] == '\n' {
        0
    } else {
        1 + nl_split(s.drop_first())
    }
}

/// The first newline index is within the text and points at a newline.
proof fn lemma_nl_split_bounds(s: Seq<char>)
    ensures
        0 <= nl_split(s) <= s.len(),
        nl_split(s) < s.len() ==> s[nl_split(s)] == '\n',
        forall|k: int| 0 <= k < nl_split(s) ==> s[k] != '\n',
    decreases s.len(),
{
    if s.len() > 0 && s[0] != '\n' {
        lemma_nl_split_bounds(s.drop_first());
        assert(forall|k: int| 0 <= k < nl_split(s.drop_first()) ==> s.drop_first()[k] != '\n');
        assert forall|k: int| 0 <= k < nl_split(s) implies s[k] != '\n' by {
            if k > 0 {
                assert(s.drop_first()[k - 1] != '\n');
            }
        }
    }
}

/// The text split into lines at newlines; a final line without a newline is
/// kept only when non-empty.
pub open spec fn spec_lines(s: Seq<char>) -> Seq<Seq<char>>
    decreases s.len(),
    via spec_lines_dec
{
    if s.len() == 0 {
        Seq::empty()
    } else {
        let n = nl_split(s);
        if n == s.len() {
            seq![s]
        } else {
            seq![s.take(n)] + spec_lines(s.skip(n + 1))
        }
    }
}

#[via_fn]
proof fn spec_lines_dec(s: Seq<char>) {
    if s.len() > 0 {
        lemma_nl_split_bounds(s);
    }
}

/// The starting offset of each line, counting from `base`.
pub open spec fn spec_line_starts(s: Seq<char>, base: int) -> Seq<int>
    decreases s.len(),
    via spec_line_starts_dec
{
    if s.len() == 0 {
        Seq::empty()
    } else {
        let n = nl_split(s);
        if n == s.len() {
            seq![base]
        } else {
            seq![base] + spec_line_starts(s.skip(n + 1), base + n + 1)
        }
    }
}

#[via_fn]
proof fn spec_line_starts_dec(s: Seq<char>, base: int) {
    if s.len() > 0 {
        lemma_nl_split_bounds(s);
    }
}

/// The views of a list of lines.
pub open spec fn line_views(ls: Seq<Vec<char>>) -> Seq<Seq<char>> {
    ls.map_values(|l: Vec<char>| l@)
}

/// The offsets of a list of line starts, as integers.
pub open spec fn starts_ints(ss: Seq<usize>) -> Seq<int> {
    ss.map_values(|x: usize| x as int)
}

/// Whether a line is a markdown heading: its first non-blank character is
/// `#`.
pub open spec fn spec_is_heading(line: Seq<char>) -> bool {
    trim_start_seq(line).len() > 0 && trim_start_seq(line)[0] == '#'
}

/// The number of leading `#` characters.
pub open spec fn count_hashes(s: Seq<char>) -> int
    decreases s.len(),
{
    if s.len() > 0 && s[0] == '#' {
        1 + count_hashes(s.drop_first())
    } else {
        0
    }
}

/// The heading level of a line: its leading `#` count after leading blanks.
pub open spec fn spec_heading_level(line: Seq<char>) -> int {
    count_hashes(trim_start_seq(line))
}

/// The index of the first `:` in a sequence, or its length.
pub open spec fn colon_split(s: Seq<char>) -> int
    decreases s.len(),
{
    if s.len() == 0 {
        0
    } else if s[0] == ':' {
        0
    } else {
        1 + colon_split(s.drop_first())
    }
}

/// Whether a line looks like YAML content: a `key: value` pair whose key is
/// non-blank and holds no space, a `- ` list item, or indented continuation
/// text.
pub open spec fn spec_is_yaml_like(line: Seq<char>) -> bool {
    let trimmed = trim_seq(line);
    let cp = colon_split(trimmed);
    ||| (cp < trimmed.len() && trim_seq(trimmed.take(cp)).len() > 0 && (forall|i: int|
        0 <= i < trim_seq(trimmed.take(cp)).len() ==> trim_seq(trimmed.take(cp))[i] != ' '))
    ||| crate::chars::has_prefix(trimmed, "- "@)
    ||| (crate::chars::has_prefix(line, "  "@) && trimmed.len() > 0)
}

/// Whether a line opens a fenced yCard block: three backticks, then the
/// `ycard` tag alone (case-insensitively), up to surrounding blanks.
pub open spec fn spec_is_fence_open(line: Seq<char>) -> bool {
    crate::chars::has_prefix(line, "```"@) && fold_seq(trim_seq(line.skip(3))) == "ycard"@
}

/// Whether a line closes a fenced block: three backticks and blanks alone.
pub open spec fn spec_is_fence_close(line: Seq<char>) -> bool {
    crate::chars::has_prefix(line, "```"@) && trim_seq(line.skip(3)).len() == 0
}

/// The recognized contact-heading words, in folded form.
pub open spec fn contact_word(f: Seq<char>) -> bool {
    ||| f == "contact"@
    ||| f == "contacts"@
    ||| f == "kontakt"@
    ||| f == "contacto"@
    ||| f == "contactos"@
    ||| f == "\u{8fde}\u{7edc}"@
    ||| f == "\u{9023}\u{7d61}\u{5148}"@
}

/// Whether a line is a contact heading: one to six `#`, blank space, then a
/// recognized contact word alone.
pub open spec fn spec_is_contact_heading(line: Seq<char>) -> bool {
    let h = count_hashes(line);
    &&& 1 <= h <= 6
    &&& h < line.len() && is_space(line[h])
    &&& contact_word(fold_seq(trim_seq(line.skip(h))))
}

/// Whether a line is a markdown heading.
pub fn is_heading(line: &Vec<char>) -> (r: bool)
    ensures
        r == spec_is_heading(line@),
{
    let mut i: usize = 0;
    proof {
        assert(line@.skip(0) =~= line@);
    }
    while i < line.len() && is_space_char(line[i])
        invariant
            i <= line@.len(),
            trim_start_seq(line@) == trim_start_seq(line@.skip(i as int)),
            forall|j: int| 0 <= j < i ==> is_space(line@[j]),
        decreases line@.len() - i,
    {
        proof {
            assert(line@.skip(i as int).drop_first() =~= line@.skip(i + 1 as int));
        }
        i = i + 1;
    }
    proof {
        assert(trim_start_seq(line@.skip(i as int)) == line@.skip(i as int));
    }
    if i < line.len() {
        line[i] == '#'
    } else {
        false
    }
}

/// The heading level of a line.
pub fn get_heading_level(line: &Vec<char>) -> (r: usize)
    ensures
        r == spec_heading_level(line@),
{
    let trimmed = leading_trimmed(line);
    let mut i: usize = 0;
    proof {
        assert(trimmed@.skip(0) =~= trimmed@);
    }
    while i < trimmed.len() && trimmed[i] == '#'
        invariant
            i <= trimmed@.len(),
            count_hashes(trimmed@) == i + count_hashes(trimmed@.skip(i as int)),
            forall|j: int| 0 <= j < i ==> trimmed@[j] == '#',
        decreases trimmed@.len() - i,
    {
        proof {
            assert(trimmed@.skip(i as int).drop_first() =~= trimmed@.skip(i + 1 as int));
        }
        i = i + 1;
    }
    proof {
        assert(count_hashes(trimmed@.skip(i as int)) == 0);
    }
    i
}

/// The line with leading blanks removed.
fn leading_trimmed(line: &Vec<char>) -> (r: Vec<char>)
    ensures
        r@ == trim_start_seq(line@),
{
    let mut i: usize = 0;
    proof {
        assert(line@.skip(0) =~= line@);
    }
    while i < line.len() && is_space_char(line[i])
        invariant
            i <= line@.len(),
            trim_start_seq(line@) == trim_start_seq(line@.skip(i as int)),
            forall|j: int| 0 <= j < i ==> is_space(line@[j]),
        decreases line@.len() - i,
    {
        proof {
            assert(line@.skip(i as int).drop_first() =~= line@.skip(i + 1 as int));
        }
        i = i + 1;
    }
    proof {
        assert(trim_start_seq(line@.skip(i as int)) == line@.skip(i as int));
    }
    let mut r: Vec<char> = Vec::new();
    let mut j: usize = i;
    while j < line.len()
        invariant
            i <= j <= line@.len(),
            r@ == line@.subrange(i as int, j as int),
        decreases line@.len() - j,
    {
        r.push(line[j]);
        proof {
            assert(r@ =~= line@.subrange(i as int, j + 1 as int));
        }
        j = j + 1;
    }
    proof {
        assert(line@.subrange(i as int, line@.len() as int) =~= line@.skip(i as int));
    }
    r
}

/// Whether a line looks like YAML content.
pub fn is_yaml_like_line(line: &Vec<char>) -> (r: bool)
    ensures
        r == spec_is_yaml_like(line@),
{
    let trimmed = trim_vec(line);
    let mut cp: usize = 0;
    proof {
        assert(trimmed@.skip(0) =~= trimmed@);
    }
    while cp < trimmed.len() && trimmed[cp] != ':'
        invariant
            cp <= trimmed@.len(),
            colon_split(trimmed@) == cp + colon_split(trimmed@.skip(cp as int)),
            forall|j: int| 0 <= j < cp ==> trimmed@[j] != ':',
        decreases trimmed@.len() - cp,
    {
        proof {
            assert(trimmed@.skip(cp as int).drop_first() =~= trimmed@.skip(cp + 1 as int));
        }
        cp = cp + 1;
    }
    proof {
        assert(colon_split(trimmed@) == cp as int);
    }
    if cp < trimmed.len() {
        let mut key_raw: Vec<char> = Vec::new();
        let mut j: usize = 0;
        while j < cp
            invariant
                j <= cp,
                cp <= trimmed@.len(),
                key_raw@ == trimmed@.take(cp as int).take(j as int),
            decreases cp - j,
        {
            key_raw.push(trimmed[j]);
            proof {
                assert(key_raw@ =~= trimmed@.take(cp as int).take(j + 1 as int));
            }
            j = j + 1;
        }
        proof {
            assert(trimmed@.take(cp as int).take(cp as int) =~= trimmed@.take(cp as int));
        }
        let key = trim_vec(&key_raw);
        if key.len() > 0 {
            let mut no_space = true;
            let mut x: usize = 0;
            while x < key.len()
                invariant
                    x <= key@.len(),
                    no_space == (forall|i: int| 0 <= i < x ==> key@[i] != ' '),
                decreases key@.len() - x,
            {
                if key[x] == ' ' {
                    no_space = false;
                    proof {
                        assert(key@[x as int] == ' ');
                    }
                    x = key.len();
                } else {
                    x = x + 1;
                }
            }
            if no_space {
                return true;
            }
        }
    }
    let dash = chars_vec("- ");
    if chars_has_prefix(&trimmed, &dash) {
        return true;
    }
    let indent = chars_vec("  ");
    let r = chars_has_prefix(line, &indent) && trimmed.len() > 0;
    r
}

/// The suffix of a line from an index.
fn tail_from(v: &Vec<char>, k: usize) -> (r: Vec<char>)
    requires
        k <= v@.len(),
    ensures
        r@ == v@.skip(k as int),
{
    let mut r: Vec<char> = Vec::new();
    let mut j: usize = k;
    while j < v.len()
        invariant
            k <= j <= v@.len(),
            r@ == v@.subrange(k as int, j as int),
        decreases v@.len() - j,
    {
        r.push(v[j]);
        proof {
            assert(r@ =~= v@.subrange(k as int, j + 1 as int));
        }
        j = j + 1;
    }
    proof {
        assert(v@.subrange(k as int, v@.len() as int) =~= v@.skip(k as int));
    }
    r
}

/// Whether a line opens a fenced yCard block.
fn is_fence_open_line(line: &Vec<char>) -> (r: bool)
    ensures
        r == spec_is_fence_open(line@),
{
    let ticks = chars_vec("```");
    if !chars_has_prefix(line, &ticks) {
        return false;
    }
    proof {
        reveal_strlit("```");
    }
    let rest = tail_from(line, 3);
    let t = trim_vec(&rest);
    let f = fold_vec(&t);
    let tag = chars_vec("ycard");
    chars_eq(&f, &tag)
}

/// Whether a line closes a fenced block.
fn is_fence_close_line(line: &Vec<char>) -> (r: bool)
    ensures
        r == spec_is_fence_close(line@),
{
    let ticks = chars_vec("```");
    if !chars_has_prefix(line, &ticks) {
        return false;
    }
    proof {
        reveal_strlit("```");
    }
    let rest = tail_from(line, 3);
    let t = trim_vec(&rest);
    t.len() == 0
}

/// Whether a line is a contact heading.
fn is_contact_heading_line(line: &Vec<char>) -> (r: bool)
    ensures
        r == spec_is_contact_heading(line@),
{
    let mut h: usize = 0;
    proof {
        assert(line@.skip(0) =~= line@);
    }
    while h < line.len() && line[h] == '#'
        invariant
            h <= line@.len(),
            count_hashes(line@) == h + count_hashes(line@.skip(h as int)),
            forall|j: int| 0 <= j < h ==> line@[j] == '#',
        decreases line@.len() - h,
    {
        proof {
            assert(line@.skip(h as int).drop_first() =~= line@.skip(h + 1 as int));
        }
        h = h + 1;
    }
    proof {
        assert(count_hashes(line@) == h as int);
    }
    if h < 1 || h > 6 {
        return false;
    }
    if h >= line.len() || !is_space_char(line[h]) {
        return false;
    }
    let rest = tail_from(line, h);
    let t = trim_vec(&rest);
    let f = fold_vec(&t);
    if chars_eq(&f, &chars_vec("contact")) {
        return true;
    }
    if chars_eq(&f, &chars_vec("contacts")) {
        return true;
    }
    if chars_eq(&f, &chars_vec("kontakt")) {
        return true;
    }
    if chars_eq(&f, &chars_vec("contacto")) {
        return true;
    }
    if chars_eq(&f, &chars_vec("contactos")) {
        return true;
    }
    if chars_eq(&f, &chars_vec("\u{8fde}\u{7edc}")) {
        return true;
    }
    if chars_eq(&f, &chars_vec("\u{9023}\u{7d61}\u{5148}")) {
        return true;
    }
    false
}

/// Line starts run from the base, strictly increase, stay within the text,
/// and pair up with the lines.
proof fn lemma_line_starts_bounds(s: Seq<char>, base: int)
    ensures
        spec_line_starts(s, base).len() == spec_lines(s).len(),
        forall|k: int|
            0 <= k < spec_line_starts(s, base).len() ==> base <= #[trigger] spec_line_starts(
                s,
                base,
            )[k] <= base + s.len(),
        forall|k1: int, k2: int|
            0 <= k1 < k2 < spec_line_starts(s, base).len() ==> #[trigger] spec_line_starts(
                s,
                base,
            )[k1] < #[trigger] spec_line_starts(s, base)[k2],
    decreases s.len(),
{
    if s.len() > 0 {
        lemma_nl_split_bounds(s);
        let n = nl_split(s);
        if n < s.len() {
            lemma_line_starts_bounds(s.skip(n + 1), base + n + 1);
            assert(forall|k: int|
                0 <= k < spec_line_starts(s.skip(n + 1), base + n + 1).len()
                    ==> spec_line_starts(s, base)[k + 1] == #[trigger] spec_line_starts(
                    s.skip(n + 1),
                    base + n + 1,
                )[k]);
        }
    }
}

/// Split text into lines at newlines, with each line's starting offset.
fn split_lines(cs: &Vec<char>) -> (r: (Vec<Vec<char>>, Vec<usize>))
    ensures
        line_views(r.0@) == spec_lines(cs@),
        starts_ints(r.1@) == spec_line_starts(cs@, 0),
        r.0@.len() == r.1@.len(),
        forall|k: int| 0 <= k < r.1@.len() ==> #[trigger] r.1@[k] <= cs@.len(),
        forall|k1: int, k2: int|
            0 <= k1 < k2 < r.1@.len() ==> #[trigger] r.1@[k1] < #[trigger] r.1@[k2],
{
    let mut lines: Vec<Vec<char>> = Vec::new();
    let mut starts: Vec<usize> = Vec::new();
    let mut cur: Vec<char> = Vec::new();
    let mut cur_start: usize = 0;
    let mut i: usize = 0;
    proof {
        assert(cur@ + cs@.skip(0) =~= cs@);
        assert(line_views(lines@) + spec_lines(cur@ + cs@.skip(0)) =~= spec_lines(cs@));
        assert(starts_ints(starts@) + spec_line_starts(cur@ + cs@.skip(0), 0) =~= spec_line_starts(
            cs@,
            0,
        ));
    }
    #[verifier::loop_isolation(true)]
    while i < cs.len()
        invariant
            i <= cs@.len(),
            cur_start + cur@.len() == i,
            forall|k: int| 0 <= k < cur@.len() ==> cur@[k] != '\n',
            spec_lines(cs@) == line_views(lines@) + spec_lines(cur@ + cs@.skip(i as int)),
            spec_line_starts(cs@, 0) == starts_ints(starts@) + spec_line_starts(
                cur@ + cs@.skip(i as int),
                cur_start as int,
            ),
        decreases cs@.len() - i,
    {
        let ghost t = cur@ + cs@.skip(i as int);
        proof {
            assert(cs@.skip(i as int)[0] == cs@[i as int]);
            assert(t.len() == cur@.len() + (cs@.len() - i));
        }
        if cs[i] == '\n' {
            proof {
                assert(t[cur@.len() as int] == '\n');
                assert(forall|k: int| 0 <= k < cur@.len() ==> t[k] == cur@[k]);
                lemma_nl_split_at(t, cur@.len() as int);
                assert(t.take(cur@.len() as int) =~= cur@);
                assert(t.skip(cur@.len() as int + 1) =~= cs@.skip(i + 1 as int));
            }
            let ghost old_lines = lines@;
            let ghost old_starts = starts@;
            lines.push(cur);
            starts.push(cur_start);
            proof {
                assert(line_views(lines@) =~= line_views(old_lines) + seq![cur@]);
                assert(starts_ints(starts@) =~= starts_ints(old_starts) + seq![
                    cur_start as int,
                ]);
                assert(spec_lines(t) == seq![cur@] + spec_lines(cs@.skip(i + 1 as int)));
                assert(line_views(old_lines) + (seq![cur@] + spec_lines(cs@.skip(i + 1 as int)))
                    =~= line_views(lines@) + spec_lines(cs@.skip(i + 1 as int)));
                assert(spec_line_starts(t, cur_start as int) == seq![cur_start as int]
                    + spec_line_starts(
                    cs@.skip(i + 1 as int),
                    cur_start as int + cur@.len() as int + 1,
                ));
                assert(starts_ints(old_starts) + (seq![cur_start as int] + spec_line_starts(
                    cs@.skip(i + 1 as int),
                    i + 1 as int,
                )) =~= starts_ints(starts@) + spec_line_starts(
                    cs@.skip(i + 1 as int),
                    i + 1 as int,
                ));
            }
            cur = Vec::new();
            cur_start = i + 1;
            proof {
                assert(cur@ + cs@.skip(i + 1 as int) =~= cs@.skip(i + 1 as int));
            }
        } else {
            let c = cs[i];
            cur.push(c);
            proof {
                assert(cur@ + cs@.skip(i + 1 as int) =~= t);
            }
        }
        i = i + 1;
    }
    proof {
        assert(cur@ + cs@.skip(cs@.len() as int) =~= cur@);
    }
    if cur.len() > 0 {
        let ghost cv = cur@;
        proof {
            lemma_nl_split_none(cv);
            assert(spec_lines(cv) == seq![cv]);
            assert(spec_line_starts(cv, cur_start as int) == seq![cur_start as int]);
        }
        let ghost old_lines = lines@;
        let ghost old_starts = starts@;
        lines.push(cur);
        starts.push(cur_start);
        proof {
            assert(line_views(lines@) =~= line_views(old_lines) + seq![cv]);
            assert(starts_ints(starts@) =~= starts_ints(old_starts) + seq![cur_start as int]);
        }
    } else {
        proof {
            assert(spec_lines(cur@) =~= Seq::<Seq<char>>::empty());
            assert(line_views(lines@) + Seq::<Seq<char>>::empty() =~= line_views(lines@));
            assert(spec_line_starts(cur@, cur_start as int) =~= Seq::<int>::empty());
            assert(starts_ints(starts@) + Seq::<int>::empty() =~= starts_ints(starts@));
        }
    }
    proof {
        lemma_line_starts_bounds(cs@, 0);
        assert(starts_ints(starts@) == spec_line_starts(cs@, 0));
        assert forall|k: int| 0 <= k < starts@.len() implies #[trigger] starts@[k]
            <= cs@.len() by {
            assert(starts_ints(starts@)[k] == starts@[k] as int);
            assert(spec_line_starts(cs@, 0)[k] <= cs@.len());
        }
        assert forall|k1: int, k2: int|
            0 <= k1 < k2 < starts@.len() implies #[trigger] starts@[k1]
            < #[trigger] starts@[k2] by {
            assert(starts_ints(starts@)[k1] == starts@[k1] as int);
            assert(starts_ints(starts@)[k2] == starts@[k2] as int);
            assert(spec_line_starts(cs@, 0)[k1] < spec_line_starts(cs@, 0)[k2]);
        }
    }
    (lines, starts)
}

/// Where the first newline provably sits.
proof fn lemma_nl_split_at(t: Seq<char>, m: int)
    requires
        0 <= m < t.len(),
        forall|k: int| 0 <= k < m ==> t[k] != '\n',
        t[m] == '\n',
    ensures
        nl_split(t) == m,
    decreases m,
{
    if m == 0 {
    } else {
        assert(t[0] != '\n');
        assert(forall|k: int| 0 <= k < m - 1 ==> t.drop_first()[k] != '\n');
        assert(t.drop_first()[m - 1] == '\n');
        lemma_nl_split_at(t.drop_first(), m - 1);
    }
}

/// A text without newlines splits nowhere.
proof fn lemma_nl_split_none(t: Seq<char>)
    requires
        forall|k: int| 0 <= k < t.len() ==> t[k] != '\n',
    ensures
        nl_split(t) == t.len(),
    decreases t.len(),
{
    if t.len() > 0 {
        assert(forall|k: int| 0 <= k < t.drop_first().len() ==> t.drop_first()[k] != '\n');
        lemma_nl_split_none(t.drop_first());
    }
}

/// The lines of a contiguous range joined with newlines.
pub open spec fn join_lines(lines: Seq<Seq<char>>, a: int, b: int) -> Seq<char>
    decreases b - a,
{
    if b <= a {
        Seq::empty()
    } else if a + 1 == b {
        lines[a]
    } else {
        lines[a] + seq!['\n'] + join_lines(lines, a + 1, b)
    }
}

/// The chosen lines joined with newlines.
pub open spec fn join_chosen_spec(lines: Seq<Seq<char>>, chosen: Seq<int>) -> Seq<char>
    decreases chosen.len(),
{
    if chosen.len() == 0 {
        Seq::empty()
    } else if chosen.len() == 1 {
        lines[chosen[0]]
    } else {
        lines[chosen[0]] + seq!['\n'] + join_chosen_spec(lines, chosen.drop_first())
    }
}

/// Extending a joined range by one line appends a newline and that line.
proof fn lemma_join_lines_snoc(lines: Seq<Seq<char>>, a: int, k: int)
    requires
        a < k,
    ensures
        join_lines(lines, a, k + 1) == join_lines(lines, a, k) + seq!['\n'] + lines[k],
    decreases k - a,
{
    if a + 1 == k {
        reveal_with_fuel(join_lines, 3);
        assert(join_lines(lines, a, k + 1) == lines[a] + seq!['\n'] + lines[k]);
    } else {
        lemma_join_lines_snoc(lines, a + 1, k);
        assert(lines[a] + seq!['\n'] + (join_lines(lines, a + 1, k) + seq!['\n'] + lines[k])
            =~= (lines[a] + seq!['\n'] + join_lines(lines, a + 1, k)) + seq!['\n'] + lines[k]);
    }
}

/// Appending one chosen line appends a newline and that line.
proof fn lemma_join_chosen_snoc(lines: Seq<Seq<char>>, chosen: Seq<int>, x: int)
    requires
        chosen.len() > 0,
    ensures
        join_chosen_spec(lines, chosen.push(x)) == join_chosen_spec(lines, chosen) + seq!['\n']
            + lines[x],
    decreases chosen.len(),
{
    assert(chosen.push(x)[0] == chosen[0]);
    if chosen.len() == 1 {
        reveal_with_fuel(join_chosen_spec, 3);
        assert(chosen.push(x).drop_first() =~= seq![x]);
        assert(join_chosen_spec(lines, chosen.push(x)) == lines[chosen[0]] + seq!['\n']
            + lines[x]);
    } else {
        assert(chosen.push(x).drop_first() =~= chosen.drop_first().push(x));
        lemma_join_chosen_snoc(lines, chosen.drop_first(), x);
        assert(lines[chosen[0]] + seq!['\n'] + (join_chosen_spec(lines, chosen.drop_first())
            + seq!['\n'] + lines[x]) =~= (lines[chosen[0]] + seq!['\n'] + join_chosen_spec(
            lines,
            chosen.drop_first(),
        )) + seq!['\n'] + lines[x]);
    }
}

/// The indices of chosen lines, as integers.
pub open spec fn chosen_ints(ss: Seq<usize>) -> Seq<int> {
    ss.map_values(|x: usize| x as int)
}

/// Join the chosen lines with newlines.
fn join_chosen(lines: &Vec<Vec<char>>, chosen: &Vec<usize>) -> (r: Vec<char>)
    requires
        forall|k: int| 0 <= k < chosen@.len() ==> #[trigger] chosen@[k] < lines@.len(),
    ensures
        r@ == join_chosen_spec(line_views(lines@), chosen_ints(chosen@)),
{
    let ghost lv = line_views(lines@);
    let ghost ci = chosen_ints(chosen@);
    let mut r: Vec<char> = Vec::new();
    let mut k: usize = 0;
    proof {
        assert(ci.take(0) =~= Seq::<int>::empty());
    }
    while k < chosen.len()
        invariant
            k <= chosen@.len(),
            lv == line_views(lines@),
            ci == chosen_ints(chosen@),
            forall|x: int| 0 <= x < chosen@.len() ==> #[trigger] chosen@[x] < lines@.len(),
            r@ == join_chosen_spec(lv, ci.take(k as int)),
        decreases chosen@.len() - k,
    {
        let ghost before = r@;
        if k > 0 {
            r.push('\n');
        }
        let li = chosen[k];
        let line = &lines[li];
        let mut j: usize = 0;
        let ghost mark = r@;
        while j < line.len()
            invariant
                j <= line@.len(),
                r@ == mark + line@.take(j as int),
            decreases line@.len() - j,
        {
            r.push(line[j]);
            proof {
                assert(mark + line@.take(j as int) + seq![line@[j as int]] =~= mark + line@.take(
                    j + 1 as int,
                ));
            }
            j = j + 1;
        }
        proof {
            assert(mark + line@.take(line@.len() as int) =~= mark + lv[ci[k as int]]);
            assert(ci.take(k as int).push(ci[k as int]) =~= ci.take(k + 1 as int));
            if k == 0 {
                assert(join_chosen_spec(lv, ci.take(1)) == lv[ci.take(1)[0]]);
                assert(r@ =~= lv[ci[0]]);
            } else {
                lemma_join_chosen_snoc(lv, ci.take(k as int), ci[k as int]);
                assert(r@ =~= before + seq!['\n'] + lv[ci[k as int]]);
            }
        }
        k = k + 1;
    }
    proof {
        assert(ci.take(ci.len() as int) =~= ci);
    }
    r
}

/// Join a contiguous line range with newlines.
fn join_range(lines: &Vec<Vec<char>>, a: usize, b: usize) -> (r: Vec<char>)
    requires
        a <= b <= lines@.len(),
    ensures
        r@ == join_lines(line_views(lines@), a as int, b as int),
{
    let ghost lv = line_views(lines@);
    let mut r: Vec<char> = Vec::new();
    let mut k: usize = a;
    while k < b
        invariant
            a <= k <= b <= lines@.len(),
            lv == line_views(lines@),
            r@ == join_lines(lv, a as int, k as int),
        decreases b - k,
    {
        let ghost before = r@;
        if k > a {
            r.push('\n');
        }
        let line = &lines[k];
        let mut j: usize = 0;
        let ghost mark = r@;
        while j < line.len()
            invariant
                j <= line@.len(),
                r@ == mark + line@.take(j as int),
            decreases line@.len() - j,
        {
            r.push(line[j]);
            proof {
                assert(mark + line@.take(j as int) + seq![line@[j as int]] =~= mark + line@.take(
                    j + 1 as int,
                ));
            }
            j = j + 1;
        }
        proof {
            assert(mark + line@.take(line@.len() as int) =~= mark + lv[k as int]);
            if k == a {
                assert(join_lines(lv, a as int, a + 1 as int) == lv[a as int]);
                assert(r@ =~= lv[a as int]);
            } else {
                lemma_join_lines_snoc(lv, a as int, k as int);
                assert(r@ =~= before + seq!['\n'] + lv[k as int]);
            }
        }
        k = k + 1;
    }
    r
}

/// Extract yCard blocks from fenced ```ycard code blocks.
/// The first closing fence at or after a line.
pub open spec fn close_from(lines: Seq<Seq<char>>, j: int) -> Option<int>
    decreases lines.len() - j,
{
    if j < 0 || j >= lines.len() {
        None
    } else if spec_is_fence_close(lines[j]) {
        Some(j)
    } else {
        close_from(lines, j + 1)
    }
}

/// The first closing fence lies in range and closes.
proof fn lemma_close_from_bounds(lines: Seq<Seq<char>>, j: int)
    ensures
        close_from(lines, j) matches Some(c) ==> j <= c < lines.len() && spec_is_fence_close(
            lines[c],
        ),
    decreases lines.len() - j,
{
    if 0 <= j < lines.len() && !spec_is_fence_close(lines[j]) {
        lemma_close_from_bounds(lines, j + 1);
    }
}

/// The fenced spans found from a line onward: each opening fence with a
/// closing fence after it yields one span — its offsets delimit the block
/// including the fences, its content is the inner lines joined and trimmed —
/// and scanning resumes after the close.
pub open spec fn fenced_spans(
    lines: Seq<Seq<char>>,
    starts: Seq<int>,
    total: int,
    i: int,
) -> Seq<SpanView>
    decreases lines.len() - i,
    via fenced_spans_dec
{
    if i < 0 || i >= lines.len() {
        Seq::empty()
    } else if spec_is_fence_open(lines[i]) {
        match close_from(lines, i + 1) {
            Some(c) => {
                let e0 = starts[c] + lines[c].len();
                seq![
                    SpanView {
                        start: starts[i],
                        end: if e0 <= total {
                            e0
                        } else {
                            total
                        },
                        content: trim_seq(join_lines(lines, i + 1, c)),
                        inferred_locale: None,
                        extraction_type: ExtractionType::FencedCodeBlock,
                    },
                ] + fenced_spans(lines, starts, total, c + 1)
            },
            None => fenced_spans(lines, starts, total, i + 1),
        }
    } else {
        fenced_spans(lines, starts, total, i + 1)
    }
}

#[via_fn]
proof fn fenced_spans_dec(lines: Seq<Seq<char>>, starts: Seq<int>, total: int, i: int) {
    lemma_close_from_bounds(lines, i + 1);
}

/// Extract yCard blocks from fenced ```ycard code blocks: one span per
/// opened-and-closed block, in source order, as [`fenced_spans`] lays them
/// out over the text's lines.
pub fn extract_ycard_fenced(md: &str) -> (r: Vec<Span>)
    ensures
        span_views(r@) == fenced_spans(
            spec_lines(md@),
            spec_line_starts(md@, 0),
            md@.len() as int,
            0,
        ),
        spans_sorted(r@),
        forall|k: int|
            0 <= k < r@.len() ==> (#[trigger] r@[k]).extraction_type
                == ExtractionType::FencedCodeBlock && r@[k].inferred_locale is None,
{
    let cs = chars_vec(md);
    let pair = split_lines(&cs);
    let lines = pair.0;
    let starts = pair.1;
    let ghost lv = line_views(lines@);
    let ghost sv = starts_ints(starts@);
    let ghost total = cs@.len() as int;
    let mut spans: Vec<Span> = Vec::new();
    let mut i: usize = 0;
    proof {
        assert(span_views(spans@) + fenced_spans(lv, sv, total, 0) =~= fenced_spans(
            lv,
            sv,
            total,
            0,
        ));
    }
    while i < lines.len()
        invariant
            lines@.len() == starts@.len(),
            i <= lines@.len(),
            lv == line_views(lines@),
            sv == starts_ints(starts@),
            total == cs@.len() as int,
            fenced_spans(lv, sv, total, 0) == span_views(spans@) + fenced_spans(
                lv,
                sv,
                total,
                i as int,
            ),
            forall|k: int| 0 <= k < starts@.len() ==> #[trigger] starts@[k] <= cs@.len(),
            forall|k1: int, k2: int|
                0 <= k1 < k2 < starts@.len() ==> #[trigger] starts@[k1] < #[trigger] starts@[k2],
            spans_sorted(spans@),
            forall|k: int|
                0 <= k < spans@.len() ==> (#[trigger] spans@[k]).extraction_type
                    == ExtractionType::FencedCodeBlock && spans@[k].inferred_locale is None,
            spans@.len() > 0 && i < starts@.len() ==> spans@.last().start <= starts@[i as int],
        decreases lines@.len() - i,
    {
        if is_fence_open_line(&lines[i]) {
            let mut j: usize = i + 1;
            let mut close: usize = 0;
            let mut found = false;
            while j < lines.len() && !found
                invariant
                    i + 1 <= j <= lines@.len(),
                    lv == line_views(lines@),
                    found ==> i < close < lines@.len() && j == close,
                    close_from(lv, i + 1 as int) == (if found {
                        Some(close as int)
                    } else {
                        close_from(lv, j as int)
                    }),
                decreases lines@.len() + 1 - j - (if found { 1int } else { 0int }),
            {
                if is_fence_close_line(&lines[j]) {
                    close = j;
                    found = true;
                } else {
                    j = j + 1;
                }
            }
            proof {
                if !found {
                    assert(close_from(lv, lines@.len() as int) is None);
                }
            }
            if found {
                let body = join_range(&lines, i + 1, close);
                let content = trim_vec(&body);
                let close_len = lines[close].len();
                let end_off = if close_len <= cs.len() && starts[close] <= cs.len() - close_len {
                    starts[close] + close_len
                } else {
                    cs.len()
                };
                let ghost old_spans = spans@;
                spans.push(
                    Span {
                        start: starts[i],
                        end: end_off,
                        content: string_of_chars(&content),
                        inferred_locale: None,
                        extraction_type: ExtractionType::FencedCodeBlock,
                    },
                );
                proof {
                    let model = SpanView {
                        start: sv[i as int],
                        end: if sv[close as int] + lv[close as int].len() <= total {
                            sv[close as int] + lv[close as int].len()
                        } else {
                            total
                        },
                        content: trim_seq(join_lines(lv, i + 1 as int, close as int)),
                        inferred_locale: None,
                        extraction_type: ExtractionType::FencedCodeBlock,
                    };
                    assert(spans@.last()@ =~~= model);
                    assert(span_views(spans@) =~= span_views(old_spans) + seq![model]);
                    assert(fenced_spans(lv, sv, total, i as int) == seq![model] + fenced_spans(
                        lv,
                        sv,
                        total,
                        close + 1 as int,
                    ));
                    assert(span_views(old_spans) + (seq![model] + fenced_spans(
                        lv,
                        sv,
                        total,
                        close + 1 as int,
                    )) =~= span_views(spans@) + fenced_spans(lv, sv, total, close + 1 as int));
                    assert forall|k1: int, k2: int|
                        0 <= k1 < k2 < spans@.len() implies (#[trigger] spans@[k1]).start <= (
                    #[trigger] spans@[k2]).start by {
                        if k2 == spans@.len() - 1 && old_spans.len() > 0 {
                            assert(old_spans[k1].start <= old_spans[old_spans.len() - 1].start);
                        }
                    }
                }
                i = close + 1;
            } else {
                i = i + 1;
            }
        } else {
            i = i + 1;
        }
    }
    proof {
        assert(fenced_spans(lv, sv, total, lines@.len() as int) =~= Seq::<SpanView>::empty());
        assert(span_views(spans@) + Seq::<SpanView>::empty() =~= span_views(spans@));
        assert(cs@ == md@);
    }
    spans
}


/// The indices of the YAML-like lines collected under a heading of the given
/// level: the walk stops at a heading of the same or higher level, skips
/// blank lines, and stops at other text once something was collected.
pub open spec fn collect_yaml(lines: Seq<Seq<char>>, own: int, j: int, started: bool) -> Seq<int>
    decreases lines.len() - j,
{
    if j < 0 || j >= lines.len() {
        Seq::empty()
    } else if spec_is_heading(lines[j]) && spec_heading_level(lines[j]) <= own {
        Seq::empty()
    } else if spec_is_yaml_like(lines[j]) {
        seq![j] + collect_yaml(lines, own, j + 1, true)
    } else if trim_seq(lines[j]).len() == 0 {
        collect_yaml(lines, own, j + 1, started)
    } else if started {
        Seq::empty()
    } else {
        collect_yaml(lines, own, j + 1, started)
    }
}

/// The view of an optional locale hint.
pub open spec fn hint_view(locale_hint: Option<&str>) -> Option<Seq<char>> {
    match locale_hint {
        Some(l) => Some(l@),
        None => None,
    }
}

/// The contextual spans found from a line onward: each contact heading with
/// at least one collected YAML-like line yields one span starting at the
/// following line's offset, whose content joins the collected lines.
pub open spec fn context_spans(
    lines: Seq<Seq<char>>,
    starts: Seq<int>,
    total: int,
    hint: Option<Seq<char>>,
    i: int,
) -> Seq<SpanView>
    decreases lines.len() - i,
{
    if i < 0 || i >= lines.len() {
        Seq::empty()
    } else if spec_is_contact_heading(lines[i]) {
        let chosen = collect_yaml(lines, spec_heading_level(lines[i]), i + 1, false);
        if chosen.len() > 0 && i + 1 < starts.len() {
            let content = join_chosen_spec(lines, chosen);
            let e0 = starts[i + 1] + content.len();
            seq![
                SpanView {
                    start: starts[i + 1],
                    end: if e0 <= total {
                        e0
                    } else {
                        total
                    },
                    content: content,
                    inferred_locale: hint,
                    extraction_type: ExtractionType::ContextualBlock,
                },
            ] + context_spans(lines, starts, total, hint, i + 1)
        } else {
            context_spans(lines, starts, total, hint, i + 1)
        }
    } else {
        context_spans(lines, starts, total, hint, i + 1)
    }
}

/// Extract yCard blocks that follow contact headings: runs of YAML-like
/// lines up to the next heading of the same or higher level, laid out over
/// the text's lines as [`context_spans`] states.
pub fn extract_ycard_context(md: &str, locale_hint: Option<&str>) -> (r: Vec<Span>)
    ensures
        span_views(r@) == context_spans(
            spec_lines(md@),
            spec_line_starts(md@, 0),
            md@.len() as int,
            hint_view(locale_hint),
            0,
        ),
        spans_sorted(r@),
        forall|k: int|
            0 <= k < r@.len() ==> (#[trigger] r@[k]).extraction_type
                == ExtractionType::ContextualBlock && crate::schema::opt_view(
                r@[k].inferred_locale,
            ) == hint_view(locale_hint),
{
    let cs = chars_vec(md);
    let pair = split_lines(&cs);
    let lines = pair.0;
    let starts = pair.1;
    let ghost lv = line_views(lines@);
    let ghost sv = starts_ints(starts@);
    let ghost total = cs@.len() as int;
    let ghost hv = hint_view(locale_hint);
    let mut spans: Vec<Span> = Vec::new();
    let mut i: usize = 0;
    proof {
        assert(span_views(spans@) + context_spans(lv, sv, total, hv, 0) =~= context_spans(
            lv,
            sv,
            total,
            hv,
            0,
        ));
    }
    while i < lines.len()
        invariant
            lines@.len() == starts@.len(),
            i <= lines@.len(),
            lv == line_views(lines@),
            sv == starts_ints(starts@),
            total == cs@.len() as int,
            hv == hint_view(locale_hint),
            context_spans(lv, sv, total, hv, 0) == span_views(spans@) + context_spans(
                lv,
                sv,
                total,
                hv,
                i as int,
            ),
            forall|k: int| 0 <= k < starts@.len() ==> #[trigger] starts@[k] <= cs@.len(),
            forall|k1: int, k2: int|
                0 <= k1 < k2 < starts@.len() ==> #[trigger] starts@[k1] < #[trigger] starts@[k2],
            spans_sorted(spans@),
            forall|k: int|
                0 <= k < spans@.len() ==> (#[trigger] spans@[k]).extraction_type
                    == ExtractionType::ContextualBlock && crate::schema::opt_view(
                    spans@[k].inferred_locale,
                ) == hint_view(locale_hint),
            spans@.len() > 0 && i < starts@.len() ==> spans@.last().start <= starts@[i as int],
        decreases lines@.len() - i,
    {
        if is_contact_heading_line(&lines[i]) {
            let own_level = get_heading_level(&lines[i]);
            let mut chosen: Vec<usize> = Vec::new();
            let mut j: usize = i + 1;
            let mut stop = false;
            proof {
                assert(chosen_ints(chosen@) + collect_yaml(lv, own_level as int, i + 1 as int, false)
                    =~= collect_yaml(lv, own_level as int, i + 1 as int, false));
            }
            while j < lines.len() && !stop
                invariant
                    i + 1 <= j <= lines@.len(),
                    lv == line_views(lines@),
                    own_level as int == spec_heading_level(lv[i as int]),
                    i < lines@.len(),
                    forall|k: int| 0 <= k < chosen@.len() ==> #[trigger] chosen@[k] < lines@.len(),
                    collect_yaml(lv, own_level as int, i + 1 as int, false) == chosen_ints(chosen@)
                        + (if stop {
                        Seq::<int>::empty()
                    } else {
                        collect_yaml(lv, own_level as int, j as int, chosen@.len() > 0)
                    }),
                decreases lines@.len() + 1 - j - (if stop { 1int } else { 0int }),
            {
                let line = &lines[j];
                let ghost old_chosen = chosen@;
                let ends_section = is_heading(line) && get_heading_level(line) <= own_level;
                if ends_section {
                    stop = true;
                } else if is_yaml_like_line(line) {
                    chosen.push(j);
                    proof {
                        assert(chosen_ints(chosen@) =~= chosen_ints(old_chosen) + seq![j as int]);
                        assert(chosen_ints(old_chosen) + (seq![j as int] + collect_yaml(
                            lv,
                            own_level as int,
                            j + 1 as int,
                            true,
                        )) =~= chosen_ints(chosen@) + collect_yaml(
                            lv,
                            own_level as int,
                            j + 1 as int,
                            true,
                        ));
                    }
                    j = j + 1;
                } else {
                    let t = trim_vec(line);
                    if t.len() == 0 {
                        j = j + 1;
                    } else if chosen.len() > 0 {
                        stop = true;
                    } else {
                        j = j + 1;
                    }
                }
            }
            proof {
                if !stop {
                    assert(collect_yaml(lv, own_level as int, lines@.len() as int, chosen@.len()
                        > 0) =~= Seq::<int>::empty());
                }
                assert(collect_yaml(lv, own_level as int, i + 1 as int, false) =~= chosen_ints(
                    chosen@,
                ));
            }
            if chosen.len() > 0 && i + 1 < starts.len() {
                let content = join_chosen(&lines, &chosen);
                let start_off = starts[i + 1];
                let clen = content.len();
                let end_off = if clen <= cs.len() && start_off <= cs.len() - clen {
                    start_off + clen
                } else {
                    cs.len()
                };
                let locale_owned = match locale_hint {
                    Some(l) => Some(l.to_owned()),
                    None => None,
                };
                let ghost old_spans = spans@;
                spans.push(
                    Span {
                        start: start_off,
                        end: end_off,
                        content: string_of_chars(&content),
                        inferred_locale: locale_owned,
                        extraction_type: ExtractionType::ContextualBlock,
                    },
                );
                proof {
                    let gchosen = collect_yaml(lv, own_level as int, i + 1 as int, false);
                    let gcontent = join_chosen_spec(lv, gchosen);
                    let model = SpanView {
                        start: sv[i + 1 as int],
                        end: if sv[i + 1 as int] + gcontent.len() <= total {
                            sv[i + 1 as int] + gcontent.len()
                        } else {
                            total
                        },
                        content: gcontent,
                        inferred_locale: hv,
                        extraction_type: ExtractionType::ContextualBlock,
                    };
                    assert(spans@.last()@ =~~= model);
                    assert(span_views(spans@) =~= span_views(old_spans) + seq![model]);
                    assert(context_spans(lv, sv, total, hv, i as int) == seq![model]
                        + context_spans(lv, sv, total, hv, i + 1 as int));
                    assert(span_views(old_spans) + (seq![model] + context_spans(
                        lv,
                        sv,
                        total,
                        hv,
                        i + 1 as int,
                    )) =~= span_views(spans@) + context_spans(lv, sv, total, hv, i + 1 as int));
                    assert forall|k1: int, k2: int|
                        0 <= k1 < k2 < spans@.len() implies (#[trigger] spans@[k1]).start <= (
                    #[trigger] spans@[k2]).start by {
                        if k2 == spans@.len() - 1 && old_spans.len() > 0 {
                            assert(old_spans[k1].start <= old_spans[old_spans.len() - 1].start);
                        }
                    }
                }
            }
            i = i + 1;
        } else {
            i = i + 1;
        }
    }
    proof {
        assert(context_spans(lv, sv, total, hv, lines@.len() as int) =~= Seq::<SpanView>::empty());
        assert(span_views(spans@) + Seq::<SpanView>::empty() =~= span_views(spans@));
        assert(cs@ == md@);
    }
    spans
}


/// The stable merge of two span lists by start position: on equal starts the
/// first list's span comes first.
pub open spec fn merge_spans_spec(a: Seq<SpanView>, b: Seq<SpanView>) -> Seq<SpanView>
    decreases a.len() + b.len(),
{
    if a.len() == 0 {
        b
    } else if b.len() == 0 {
        a
    } else if a[0].start <= b[0].start {
        seq![a[0]] + merge_spans_spec(a.drop_first(), b)
    } else {
        seq![b[0]] + merge_spans_spec(a, b.drop_first())
    }
}

/// Extract all yCard blocks, fenced and contextual: the stable merge, by
/// position, of the fenced and the contextual extraction.
pub fn extract_all_ycard(md: &str, locale_hint: Option<&str>) -> (r: Vec<Span>)
    ensures
        span_views(r@) == merge_spans_spec(
            fenced_spans(spec_lines(md@), spec_line_starts(md@, 0), md@.len() as int, 0),
            context_spans(
                spec_lines(md@),
                spec_line_starts(md@, 0),
                md@.len() as int,
                hint_view(locale_hint),
                0,
            ),
        ),
        spans_sorted(r@),
        forall|k: int|
            0 <= k < r@.len() ==> (#[trigger] r@[k]).extraction_type
                == ExtractionType::FencedCodeBlock || r@[k].extraction_type
                == ExtractionType::ContextualBlock,
{
    let mut a = extract_ycard_fenced(md);
    let mut b = extract_ycard_context(md, locale_hint);
    let ghost fa = span_views(a@);
    let ghost fb = span_views(b@);
    let mut r: Vec<Span> = Vec::new();
    proof {
        assert(span_views(r@) + merge_spans_spec(fa, fb) =~= merge_spans_spec(fa, fb));
    }
    while a.len() > 0 || b.len() > 0
        invariant
            spans_sorted(a@),
            spans_sorted(b@),
            spans_sorted(r@),
            merge_spans_spec(fa, fb) == span_views(r@) + merge_spans_spec(
                span_views(a@),
                span_views(b@),
            ),
            forall|k: int|
                0 <= k < a@.len() ==> (#[trigger] a@[k]).extraction_type
                    == ExtractionType::FencedCodeBlock,
            forall|k: int|
                0 <= k < b@.len() ==> (#[trigger] b@[k]).extraction_type
                    == ExtractionType::ContextualBlock,
            forall|k: int|
                0 <= k < r@.len() ==> (#[trigger] r@[k]).extraction_type
                    == ExtractionType::FencedCodeBlock || r@[k].extraction_type
                    == ExtractionType::ContextualBlock,
            r@.len() > 0 && a@.len() > 0 ==> r@.last().start <= a@[0].start,
            r@.len() > 0 && b@.len() > 0 ==> r@.last().start <= b@[0].start,
        decreases a@.len() + b@.len(),
    {
        let take_a = if a.len() == 0 {
            false
        } else if b.len() == 0 {
            true
        } else {
            a[0].start <= b[0].start
        };
        let ghost old_r = r@;
        let ghost old_a = a@;
        let ghost old_b = b@;
        if take_a {
            let x = a.remove(0);
            r.push(x);
            proof {
                assert(a@ =~= old_a.drop_first());
                assert(span_views(a@) =~= span_views(old_a).drop_first());
                assert(span_views(r@) =~= span_views(old_r) + seq![span_views(old_a)[0]]);
                assert(merge_spans_spec(span_views(old_a), span_views(old_b)) == seq![
                    span_views(old_a)[0],
                ] + merge_spans_spec(span_views(a@), span_views(old_b)));
                assert(span_views(old_r) + (seq![span_views(old_a)[0]] + merge_spans_spec(
                    span_views(a@),
                    span_views(old_b),
                )) =~= span_views(r@) + merge_spans_spec(span_views(a@), span_views(old_b)));
            }
        } else {
            let x = b.remove(0);
            r.push(x);
            proof {
                assert(b@ =~= old_b.drop_first());
                assert(span_views(b@) =~= span_views(old_b).drop_first());
                assert(span_views(r@) =~= span_views(old_r) + seq![span_views(old_b)[0]]);
                assert(merge_spans_spec(span_views(old_a), span_views(old_b)) == seq![
                    span_views(old_b)[0],
                ] + merge_spans_spec(span_views(old_a), span_views(b@)));
                assert(span_views(old_r) + (seq![span_views(old_b)[0]] + merge_spans_spec(
                    span_views(old_a),
                    span_views(b@),
                )) =~= span_views(r@) + merge_spans_spec(span_views(old_a), span_views(b@)));
            }
        }
        proof {
            assert forall|k1: int, k2: int|
                0 <= k1 < k2 < r@.len() implies (#[trigger] r@[k1]).start <= (
            #[trigger] r@[k2]).start by {
                if k2 == r@.len() - 1 && old_r.len() > 0 {
                    assert(old_r[k1].start <= old_r[old_r.len() - 1].start);
                }
            }
        }
    }
    proof {
        assert(span_views(a@) =~= Seq::<SpanView>::empty());
        assert(span_views(b@) =~= Seq::<SpanView>::empty());
        assert(merge_spans_spec(span_views(a@), span_views(b@)) =~= Seq::<SpanView>::empty());
        assert(span_views(r@) + Seq::<SpanView>::empty() =~= span_views(r@));
    }
    r
}

} // verus!
