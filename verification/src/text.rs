//! Character-level primitives: case folding, substring and whole-word
//! search, and splitting a body of text into lines.

use vstd::prelude::*;
use vstd::string::StringExecFns;

verus! {

/// ASCII case folding of one character; everything outside `A..=Z` is left
/// alone.
pub open spec fn lower_char(c: char) -> char {
    if 'A' <= c && c <= 'Z' {
        ((c as u8) + 32) as char
    } else {
        c
    }
}

/// ASCII case folding of a whole text.
pub open spec fn lower(s: Seq<char>) -> Seq<char> {
    s.map_values(|c: char| lower_char(c))
}

/// `needle` occurs in `hay` starting at index `i`.
pub open spec fn occurs_at(hay: Seq<char>, needle: Seq<char>, i: int) -> bool {
    &&& 0 <= i
    &&& i + needle.len() <= hay.len()
    &&& hay.subrange(i, i + needle.len()) == needle
}

/// `needle` occurs somewhere in `hay`.
pub open spec fn contains(hay: Seq<char>, needle: Seq<char>) -> bool {
    exists|i: int| occurs_at(hay, needle, i)
}

/// Characters that make up a word: ASCII letters, digits and `_`.
pub open spec fn is_word_char(c: char) -> bool {
    ('a' <= c && c <= 'z') || ('A' <= c && c <= 'Z') || ('0' <= c && c <= '9') || c == '_'
}

/// `needle` occurs at `i` and is not glued to a word character on either
/// side.
pub open spec fn word_at(hay: Seq<char>, needle: Seq<char>, i: int) -> bool {
    &&& occurs_at(hay, needle, i)
    &&& (i == 0 || !is_word_char(hay[i - 1]))
    &&& (i + needle.len() == hay.len() || !is_word_char(hay[i + needle.len()]))
}

/// `needle` occurs in `hay` as a word of its own.
pub open spec fn contains_word(hay: Seq<char>, needle: Seq<char>) -> bool {
    exists|i: int| word_at(hay, needle, i)
}

/// The texts held by a vector of character vectors.
pub open spec fn texts_of(v: Seq<Vec<char>>) -> Seq<Seq<char>> {
    v.map_values(|l: Vec<char>| l@)
}

/// The texts held by a vector of strings.
pub open spec fn strings_of(v: Seq<String>) -> Seq<Seq<char>> {
    v.map_values(|l: String| l@)
}

/// Length of the part of `s` before its first line feed (all of `s` when it
/// has none).
pub open spec fn first_line_len(s: Seq<char>) -> nat
    decreases s.len(),
{
    if s.len() == 0 || s[0] == '\n' {
        0
    } else {
        1 + first_line_len(s.skip(1))
    }
}

/// The lines of `s`: the pieces between line feeds, in order. A text
/// without a line feed is one line; a trailing line feed yields a last,
/// empty line.
pub open spec fn split_lines(s: Seq<char>) -> Seq<Seq<char>>
    decreases s.len(),
{
    let k = first_line_len(s) as int;
    if k >= s.len() {
        seq![s]
    } else {
        seq![s.take(k)] + split_lines(s.skip(k + 1))
    }
}

/// The first line ends before the first line feed, or at the end of a
/// text without one.
pub proof fn lemma_first_line_len(s: Seq<char>)
    ensures
        first_line_len(s) <= s.len(),
        forall|j: int| 0 <= j < first_line_len(s) ==> s[j] != '\n',
        first_line_len(s) < s.len() ==> s[first_line_len(s) as int] == '\n',
    decreases s.len(),
{
    if s.len() > 0 && s[0] != '\n' {
        let t = s.skip(1);
        lemma_first_line_len(t);
        assert forall|j: int| 0 <= j < first_line_len(s) implies s[j] != '\n' by {
            if j > 0 {
                assert(t[j - 1] == s[j]);
            }
        }
        if first_line_len(s) < s.len() {
            assert(t[first_line_len(t) as int] == s[first_line_len(s) as int]);
        }
    }
}

/// The first line ends at `k` when no line feed comes before `k` and `k` is
/// a line feed or the end of the text.
pub proof fn lemma_first_line_len_is(s: Seq<char>, k: int)
    requires
        0 <= k <= s.len(),
        forall|j: int| 0 <= j < k ==> s[j] != '\n',
        k == s.len() || s[k] == '\n',
    ensures
        first_line_len(s) == k,
{
    lemma_first_line_len(s);
    let f = first_line_len(s) as int;
    if f < k {
        assert(s[f] == '\n');
    } else if f > k {
        assert(s[k] != '\n');
    }
}

/// Case folding maps a substring to a substring.
pub proof fn lemma_lower_occurs(hay: Seq<char>, needle: Seq<char>, i: int)
    requires
        occurs_at(hay, needle, i),
    ensures
        occurs_at(lower(hay), lower(needle), i),
{
    assert(lower(hay).subrange(i, i + needle.len()) =~= lower(needle)) by {
        assert forall|j: int| 0 <= j < needle.len() implies lower(hay).subrange(
            i,
            i + needle.len(),
        )[j] == lower(needle)[j] by {
            assert(hay.subrange(i, i + needle.len())[j] == needle[j]);
        }
    }
}

/// A text that holds a pattern verbatim also holds it after case folding.
pub proof fn lemma_lower_contains(hay: Seq<char>, needle: Seq<char>)
    requires
        contains(hay, needle),
    ensures
        contains(lower(hay), lower(needle)),
{
    let i = choose|i: int| occurs_at(hay, needle, i);
    lemma_lower_occurs(hay, needle, i);
}

/// An occurrence of a needle without line feeds lies inside one line.
pub proof fn lemma_contains_in_some_line(s: Seq<char>, needle: Seq<char>)
    requires
        contains(s, needle),
        forall|j: int| 0 <= j < needle.len() ==> needle[j] != '\n',
    ensures
        exists|n: int| 0 <= n < split_lines(s).len() && contains(#[trigger] split_lines(s)[n], needle),
    decreases s.len(),
{
    lemma_first_line_len(s);
    let k = first_line_len(s) as int;
    let i = choose|i: int| occurs_at(s, needle, i);
    let m = needle.len() as int;
    if k >= s.len() {
        assert(split_lines(s)[0] == s);
    } else if i + m <= k {
        assert(s.take(k).subrange(i, i + m) =~= s.subrange(i, i + m));
        assert(occurs_at(s.take(k), needle, i));
        assert(split_lines(s)[0] == s.take(k));
    } else {
        // The occurrence cannot straddle the line feed at `k`.
        if i <= k {
            assert(s.subrange(i, i + m)[k - i] == s[k]);
            assert(needle[k - i] == '\n');
        }
        let rest = s.skip(k + 1);
        assert(rest.subrange(i - k - 1, i - k - 1 + m) =~= s.subrange(i, i + m));
        assert(occurs_at(rest, needle, i - k - 1));
        lemma_contains_in_some_line(rest, needle);
        let n = choose|n: int|
            0 <= n < split_lines(rest).len() && contains(#[trigger] split_lines(rest)[n], needle);
        assert(split_lines(s)[n + 1] == split_lines(rest)[n]);
    }
}

/// Folds one character.
pub fn to_lower_char(c: char) -> (r: char)
    ensures
        r == lower_char(c),
{
    if 'A' <= c && c <= 'Z' {
        ((c as u8) + 32) as char
    } else {
        c
    }
}

/// Whether a character makes up words.
pub fn word_char(c: char) -> (r: bool)
    ensures
        r == is_word_char(c),
{
    ('a' <= c && c <= 'z') || ('A' <= c && c <= 'Z') || ('0' <= c && c <= '9') || c == '_'
}

/// The characters of a string slice, in order.
pub fn chars_of(s: &str) -> (v: Vec<char>)
    ensures
        v@ == s@,
{
    let mut v: Vec<char> = Vec::new();
    for c in it: s.chars()
        invariant
            v@ == it.seq().take(it.index() as int),
            it.seq() == s@,
    {
        v.push(c);
    }
    v
}

/// The case-folded characters of a string slice.
pub fn lower_chars_of(s: &str) -> (v: Vec<char>)
    ensures
        v@ == lower(s@),
{
    let mut v: Vec<char> = Vec::new();
    for c in it: s.chars()
        invariant
            v@ == lower(it.seq().take(it.index() as int)),
            it.seq() == s@,
    {
        v.push(to_lower_char(c));
        assert(v@ =~= lower(it.seq().take(it.index() + 1)));
    }
    assert(s@.take(s@.len() as int) =~= s@);
    v
}

/// Case-folds a vector of characters.
pub fn lower_vec(s: &Vec<char>) -> (v: Vec<char>)
    ensures
        v@ == lower(s@),
{
    let mut v: Vec<char> = Vec::new();
    let mut i: usize = 0;
    while i < s.len()
        invariant
            i <= s.len(),
            v@ == lower(s@.take(i as int)),
        decreases s.len() - i,
    {
        v.push(to_lower_char(s[i]));
        i += 1;
        assert(v@ =~= lower(s@.take(i as int)));
    }
    assert(s@.take(s@.len() as int) =~= s@);
    v
}

/// Whether `needle` occurs in `hay` at index `i`.
pub fn matches_at(hay: &Vec<char>, needle: &Vec<char>, i: usize) -> (r: bool)
    ensures
        r == occurs_at(hay@, needle@, i as int),
{
    if needle.len() > hay.len() || i > hay.len() - needle.len() {
        return false;
    }
    let mut j: usize = 0;
    while j < needle.len()
        invariant
            j <= needle.len(),
            i + needle.len() <= hay.len(),
            forall|k: int| 0 <= k < j ==> hay@[i + k] == needle@[k],
        decreases needle.len() - j,
    {
        if hay[i + j] != needle[j] {
            assert(hay@.subrange(i as int, i + needle.len())[j as int] != needle@[j as int]);
            return false;
        }
        j += 1;
    }
    assert(hay@.subrange(i as int, i + needle.len()) =~= needle@);
    true
}

/// Whether `needle` occurs in `hay` at index `i` as a word of its own.
pub fn matches_word_at(hay: &Vec<char>, needle: &Vec<char>, i: usize) -> (r: bool)
    ensures
        r == word_at(hay@, needle@, i as int),
{
    if !matches_at(hay, needle, i) {
        return false;
    }
    if i > 0 && word_char(hay[i - 1]) {
        return false;
    }
    assert(i + needle.len() <= hay.len());
    let end = i + needle.len();
    if end < hay.len() && word_char(hay[end]) {
        return false;
    }
    true
}

/// Substring search.
pub fn find(hay: &Vec<char>, needle: &Vec<char>) -> (r: bool)
    ensures
        r == contains(hay@, needle@),
{
    if needle.len() > hay.len() {
        return false;
    }
    let last = hay.len() - needle.len();
    let mut i: usize = 0;
    while i < last
        invariant
            i <= last,
            last == hay.len() - needle.len(),
            needle.len() <= hay.len(),
            forall|k: int| 0 <= k < i ==> !occurs_at(hay@, needle@, k),
        decreases last - i,
    {
        if matches_at(hay, needle, i) {
            return true;
        }
        i += 1;
    }
    matches_at(hay, needle, last)
}

/// Whole-word search.
pub fn find_word(hay: &Vec<char>, needle: &Vec<char>) -> (r: bool)
    ensures
        r == contains_word(hay@, needle@),
{
    if needle.len() > hay.len() {
        return false;
    }
    let last = hay.len() - needle.len();
    let mut i: usize = 0;
    while i < last
        invariant
            i <= last,
            last == hay.len() - needle.len(),
            needle.len() <= hay.len(),
            forall|k: int| 0 <= k < i ==> !word_at(hay@, needle@, k),
        decreases last - i,
    {
        if matches_word_at(hay, needle, i) {
            return true;
        }
        i += 1;
    }
    matches_word_at(hay, needle, last)
}

/// Splits a text at its line feeds.
pub fn lines_of(s: &Vec<char>) -> (lines: Vec<Vec<char>>)
    ensures
        texts_of(lines@) == split_lines(s@),
        lines.len() >= 1,
{
    let mut lines: Vec<Vec<char>> = Vec::new();
    let mut current: Vec<char> = Vec::new();
    let mut start: usize = 0;
    let mut i: usize = 0;
    assert(s@.skip(0) =~= s@);
    assert(texts_of(lines@) + split_lines(s@) =~= split_lines(s@));
    while i < s.len()
        invariant
            start <= i <= s.len(),
            current@ == s@.subrange(start as int, i as int),
            forall|j: int| start <= j < i ==> s@[j] != '\n',
            texts_of(lines@) + split_lines(s@.skip(start as int)) == split_lines(s@),
        decreases s.len() - i,
    {
        let c = s[i];
        if c == '\n' {
            proof {
                let rest = s@.skip(start as int);
                lemma_first_line_len_is(rest, i - start);
                assert(rest.take(i - start) =~= current@);
                assert(rest.skip(i - start + 1) =~= s@.skip(i + 1));
                assert(split_lines(rest) == seq![current@] + split_lines(s@.skip(i + 1)));
                assert(texts_of(lines@).push(current@) + split_lines(s@.skip(i + 1))
                    =~= texts_of(lines@) + split_lines(rest));
            }
            let ghost before = texts_of(lines@);
            lines.push(current);
            assert(texts_of(lines@) =~= before.push(current@));
            current = Vec::new();
            start = i + 1;
            i += 1;
            assert(current@ =~= s@.subrange(start as int, i as int));
        } else {
            current.push(c);
            i += 1;
            assert(current@ =~= s@.subrange(start as int, i as int));
        }
    }
    proof {
        let rest = s@.skip(start as int);
        lemma_first_line_len_is(rest, rest.len() as int);
        assert(rest =~= current@);
        assert(split_lines(rest) == seq![current@]);
        assert(texts_of(lines@).push(current@) =~= texts_of(lines@) + split_lines(rest));
    }
    let ghost before = texts_of(lines@);
    lines.push(current);
    assert(texts_of(lines@) =~= before.push(current@));
    lines
}

/// White space: blank, tab, carriage return and line feed.
pub open spec fn is_space(c: char) -> bool {
    c == ' ' || c == '\t' || c == '\r' || c == '\n'
}

/// Number of white-space characters that `s` starts with.
pub open spec fn leading_spaces(s: Seq<char>) -> nat
    decreases s.len(),
{
    if s.len() == 0 || !is_space(s[0]) {
        0
    } else {
        1 + leading_spaces(s.skip(1))
    }
}

/// Number of white-space characters that `s` ends with.
pub open spec fn trailing_spaces(s: Seq<char>) -> nat
    decreases s.len(),
{
    if s.len() == 0 || !is_space(s.last()) {
        0
    } else {
        1 + trailing_spaces(s.drop_last())
    }
}

/// `s` without the white space at its ends.
pub open spec fn trim(s: Seq<char>) -> Seq<char> {
    let rest = s.skip(leading_spaces(s) as int);
    rest.take(rest.len() - trailing_spaces(rest))
}

/// The parts joined, with `sep` between neighbours.
pub open spec fn join(parts: Seq<Seq<char>>, sep: Seq<char>) -> Seq<char>
    decreases parts.len(),
{
    if parts.len() == 0 {
        Seq::<char>::empty()
    } else if parts.len() == 1 {
        parts[0]
    } else {
        join(parts.drop_last(), sep) + sep + parts.last()
    }
}

/// The pieces of `s` that the spans cut out, in order.
pub open spec fn pieces(s: Seq<char>, spans: Seq<(usize, usize)>) -> Seq<Seq<char>> {
    spans.map_values(|span: (usize, usize)| s.subrange(span.0 as int, span.1 as int))
}

/// Every span lies inside a text of length `len`.
pub open spec fn spans_fit(spans: Seq<(usize, usize)>, len: nat) -> bool {
    forall|i: int| 0 <= i < spans.len() ==> (#[trigger] spans[i]).0 <= spans[i].1 <= len
}

/// `leading_spaces` is `k` when the first `k` characters are white space
/// and the next one, if any, is not.
pub proof fn lemma_leading_spaces_is(s: Seq<char>, k: int)
    requires
        0 <= k <= s.len(),
        forall|j: int| 0 <= j < k ==> is_space(s[j]),
        k == s.len() || !is_space(s[k]),
    ensures
        leading_spaces(s) == k,
    decreases s.len(),
{
    if k > 0 {
        let t = s.skip(1);
        assert forall|j: int| 0 <= j < k - 1 implies is_space(t[j]) by {
            assert(t[j] == s[j + 1]);
        }
        lemma_leading_spaces_is(t, k - 1);
    }
}

/// `trailing_spaces` is `k` when the last `k` characters are white space
/// and the one before, if any, is not.
pub proof fn lemma_trailing_spaces_is(s: Seq<char>, k: int)
    requires
        0 <= k <= s.len(),
        forall|j: int| s.len() - k <= j < s.len() ==> is_space(s[j]),
        k == s.len() || !is_space(s[s.len() - k - 1]),
    ensures
        trailing_spaces(s) == k,
    decreases s.len(),
{
    if k > 0 {
        let t = s.drop_last();
        assert forall|j: int| t.len() - (k - 1) <= j < t.len() implies is_space(t[j]) by {
            assert(t[j] == s[j]);
        }
        lemma_trailing_spaces_is(t, k - 1);
    }
}

/// The leading white space is white space, and what follows it is not.
pub proof fn lemma_leading_spaces_bounds(s: Seq<char>)
    ensures
        leading_spaces(s) <= s.len(),
        forall|j: int| 0 <= j < leading_spaces(s) ==> is_space(s[j]),
        leading_spaces(s) < s.len() ==> !is_space(s[leading_spaces(s) as int]),
    decreases s.len(),
{
    if s.len() > 0 && is_space(s[0]) {
        let t = s.skip(1);
        lemma_leading_spaces_bounds(t);
        assert forall|j: int| 0 <= j < leading_spaces(s) implies is_space(s[j]) by {
            if j > 0 {
                assert(t[j - 1] == s[j]);
            }
        }
        if leading_spaces(s) < s.len() {
            assert(t[leading_spaces(t) as int] == s[leading_spaces(s) as int]);
        }
    }
}

/// The trailing white space is white space, and what precedes it is not.
pub proof fn lemma_trailing_spaces_bounds(s: Seq<char>)
    ensures
        trailing_spaces(s) <= s.len(),
        forall|j: int| s.len() - trailing_spaces(s) <= j < s.len() ==> is_space(s[j]),
        trailing_spaces(s) < s.len() ==> !is_space(s[s.len() - trailing_spaces(s) - 1]),
    decreases s.len(),
{
    if s.len() > 0 && is_space(s.last()) {
        let t = s.drop_last();
        lemma_trailing_spaces_bounds(t);
        assert forall|j: int| s.len() - trailing_spaces(s) <= j < s.len() implies is_space(s[j]) by {
            if j < s.len() - 1 {
                assert(t[j] == s[j]);
            }
        }
        if trailing_spaces(s) < s.len() {
            assert(t[t.len() - trailing_spaces(t) - 1] == s[s.len() - trailing_spaces(s) - 1]);
        }
    }
}

/// Whether a character is white space.
pub fn space(c: char) -> (r: bool)
    ensures
        r == is_space(c),
{
    c == ' ' || c == '\t' || c == '\r' || c == '\n'
}

/// The span of `s[from..to]` that is left when the white space at its
/// ends is cut off.
pub fn trim_span(s: &Vec<char>, from: usize, to: usize) -> (span: (usize, usize))
    requires
        from <= to <= s.len(),
    ensures
        from <= span.0 <= span.1 <= to,
        s@.subrange(span.0 as int, span.1 as int) == trim(s@.subrange(from as int, to as int)),
{
    let ghost part = s@.subrange(from as int, to as int);
    let mut a = from;
    while a < to && space(s[a])
        invariant
            from <= a <= to <= s.len(),
            forall|j: int| from <= j < a ==> is_space(s@[j]),
        decreases to - a,
    {
        a += 1;
    }
    let mut b = to;
    while b > a && space(s[b - 1])
        invariant
            a <= b <= to <= s.len(),
            forall|j: int| b <= j < to ==> is_space(s@[j]),
        decreases b,
    {
        b -= 1;
    }
    proof {
        lemma_leading_spaces_is(part, a - from);
        let rest = part.skip(a - from);
        assert(rest =~= s@.subrange(a as int, to as int));
        lemma_trailing_spaces_is(rest, to - b);
        assert(rest.take(rest.len() - (to - b)) =~= s@.subrange(a as int, b as int));
    }
    (a, b)
}

/// The spans of the lines of a text.
pub fn line_spans(s: &Vec<char>) -> (spans: Vec<(usize, usize)>)
    ensures
        spans_fit(spans@, s@.len()),
        pieces(s@, spans@) == split_lines(s@),
{
    let mut spans: Vec<(usize, usize)> = Vec::new();
    let mut start: usize = 0;
    let mut i: usize = 0;
    assert(s@.skip(0) =~= s@);
    assert(pieces(s@, spans@) + split_lines(s@) =~= split_lines(s@));
    while i < s.len()
        invariant
            start <= i <= s.len(),
            spans_fit(spans@, s@.len()),
            forall|j: int| start <= j < i ==> s@[j] != '\n',
            pieces(s@, spans@) + split_lines(s@.skip(start as int)) == split_lines(s@),
        decreases s.len() - i,
    {
        if s[i] == '\n' {
            let ghost line = s@.subrange(start as int, i as int);
            proof {
                let rest = s@.skip(start as int);
                lemma_first_line_len_is(rest, i - start);
                assert(rest.take(i - start) =~= line);
                assert(rest.skip(i - start + 1) =~= s@.skip(i + 1));
                assert(split_lines(rest) == seq![line] + split_lines(s@.skip(i + 1)));
                assert(pieces(s@, spans@).push(line) + split_lines(s@.skip(i + 1)) =~= pieces(s@, spans@)
                    + split_lines(rest));
            }
            let ghost before = spans@;
            spans.push((start, i));
            assert(pieces(s@, spans@) =~= pieces(s@, before).push(line));
            start = i + 1;
        }
        i += 1;
    }
    proof {
        let rest = s@.skip(start as int);
        lemma_first_line_len_is(rest, rest.len() as int);
        assert(rest =~= s@.subrange(start as int, s@.len() as int));
        assert(split_lines(rest) == seq![rest]);
        assert(pieces(s@, spans@).push(rest) =~= pieces(s@, spans@) + split_lines(rest));
    }
    let ghost before = spans@;
    spans.push((start, s.len()));
    assert(pieces(s@, spans@) =~= pieces(s@, before).push(s@.subrange(start as int, s@.len() as int)));
    spans
}

/// Joins strings, with `sep` between neighbours.
pub fn join_strings(parts: &Vec<String>, sep: &str) -> (joined: String)
    ensures
        joined@ == join(strings_of(parts@), sep@),
{
    let mut joined = String::new();
    let ghost all = strings_of(parts@);
    let mut i: usize = 0;
    while i < parts.len()
        invariant
            i <= parts.len(),
            all == strings_of(parts@),
            joined@ == join(all.take(i as int), sep@),
        decreases parts.len() - i,
    {
        proof {
            assert(all.take(i + 1).drop_last() =~= all.take(i as int));
            assert(all.take(i + 1).last() == parts@[i as int]@);
        }
        if i > 0 {
            joined.append(sep);
        }
        joined.append(parts[i].as_str());
        proof {
            if i == 0 {
                assert(joined@ =~= all.take(1)[0]);
            }
        }
        i += 1;
    }
    assert(all.take(parts.len() as int) =~= all);
    joined
}

/// What a text holds, it still holds with other text before and after it.
pub proof fn lemma_contains_in_middle(
    before: Seq<char>,
    text: Seq<char>,
    after: Seq<char>,
    needle: Seq<char>,
)
    requires
        contains(text, needle),
    ensures
        contains(before + text + after, needle),
{
    let i = choose|i: int| occurs_at(text, needle, i);
    let all = before + text + after;
    let at = before.len() + i;
    assert(all.subrange(at, at + needle.len()) =~= text.subrange(i, i + needle.len()));
    assert(occurs_at(all, needle, at));
}

/// Every text holds itself.
pub proof fn lemma_contains_itself(text: Seq<char>)
    ensures
        contains(text, text),
{
    assert(text.subrange(0, text.len() as int) =~= text);
    assert(occurs_at(text, text, 0));
}

/// Joined parts hold each part.
pub proof fn lemma_join_holds_part(parts: Seq<Seq<char>>, sep: Seq<char>, i: int)
    requires
        0 <= i < parts.len(),
    ensures
        contains(join(parts, sep), parts[i]),
    decreases parts.len(),
{
    let none = Seq::<char>::empty();
    if parts.len() == 1 {
        lemma_contains_itself(parts[0]);
    } else if i == parts.len() - 1 {
        lemma_contains_itself(parts[i]);
        lemma_contains_in_middle(join(parts.drop_last(), sep) + sep, parts[i], none, parts[i]);
        assert(join(parts.drop_last(), sep) + sep + parts[i] + none =~= join(parts, sep));
    } else {
        let init = parts.drop_last();
        assert(init[i] == parts[i]);
        lemma_join_holds_part(init, sep, i);
        lemma_contains_in_middle(none, join(init, sep), sep + parts.last(), parts[i]);
        assert(none + join(init, sep) + (sep + parts.last()) =~= join(parts, sep));
    }
}

} // verus!
