//! Text scanning over sequences of characters: searching, trimming and
//! splitting, each with a mathematical definition and an executable twin.

use vstd::prelude::*;
use vstd::string::StringSliceAdditionalSpecFns;

verus! {

/// Whether `c` has the Unicode `White_Space` property.
pub open spec fn is_whitespace(c: char) -> bool {
    let u = c as u32;
    ||| 0x09 <= u <= 0x0D
    ||| u == 0x20
    ||| u == 0x85
    ||| u == 0xA0
    ||| u == 0x1680
    ||| 0x2000 <= u <= 0x200A
    ||| u == 0x2028
    ||| u == 0x2029
    ||| u == 0x202F
    ||| u == 0x205F
    ||| u == 0x3000
}

/// Whether `pat` occurs in `s` starting at index `i`.
pub open spec fn matches_at(s: Seq<char>, pat: Seq<char>, i: int) -> bool {
    0 <= i && i + pat.len() <= s.len() && s.subrange(i, i + pat.len()) == pat
}

/// Index of the first occurrence of `pat` in `s` that starts at or after
/// `from`, if there is one.
pub open spec fn find_from(s: Seq<char>, pat: Seq<char>, from: int) -> Option<int>
    decreases s.len() - from,
{
    if matches_at(s, pat, from) {
        Some(from)
    } else if from < 0 || from >= s.len() {
        None
    } else {
        find_from(s, pat, from + 1)
    }
}

/// Index of the first occurrence of `pat` in `s`, if there is one.
pub open spec fn find(s: Seq<char>, pat: Seq<char>) -> Option<int> {
    find_from(s, pat, 0)
}

/// Whether `pat` occurs anywhere in `s`.
pub open spec fn contains(s: Seq<char>, pat: Seq<char>) -> bool {
    find(s, pat) is Some
}

/// Whether `s` begins with `pat`.
pub open spec fn starts_with(s: Seq<char>, pat: Seq<char>) -> bool {
    matches_at(s, pat, 0)
}

/// Whether `s` ends with `pat`.
pub open spec fn ends_with(s: Seq<char>, pat: Seq<char>) -> bool {
    matches_at(s, pat, s.len() - pat.len())
}

/// First index at or after `from` that holds no whitespace; `s.len()` when
/// only whitespace follows.
pub open spec fn skip_whitespace(s: Seq<char>, from: int) -> int
    decreases s.len() - from,
{
    if 0 <= from < s.len() && is_whitespace(s[from]) {
        skip_whitespace(s, from + 1)
    } else {
        from
    }
}

/// First index at or after `from` that holds whitespace; `s.len()` when none
/// follows.
pub open spec fn skip_word(s: Seq<char>, from: int) -> int
    decreases s.len() - from,
{
    if 0 <= from < s.len() && !is_whitespace(s[from]) {
        skip_word(s, from + 1)
    } else {
        from
    }
}

/// Least index `i <= to` such that everything in `i..to` is whitespace.
pub open spec fn skip_whitespace_back(s: Seq<char>, to: int) -> int
    decreases to,
{
    if 0 < to <= s.len() && is_whitespace(s[to - 1]) {
        skip_whitespace_back(s, to - 1)
    } else {
        to
    }
}

/// `s` without its leading whitespace.
pub open spec fn trim_start(s: Seq<char>) -> Seq<char> {
    s.skip(skip_whitespace(s, 0))
}

/// `s` without its trailing whitespace.
pub open spec fn trim_end(s: Seq<char>) -> Seq<char> {
    s.take(skip_whitespace_back(s, s.len() as int))
}

/// `s` without its leading and trailing whitespace.
pub open spec fn trim(s: Seq<char>) -> Seq<char> {
    trim_end(trim_start(s))
}

/// The pieces of `s` from index `from` on that lie between occurrences of the
/// non-empty separator `pat`. There is always at least one piece.
pub open spec fn split_from(s: Seq<char>, pat: Seq<char>, from: int) -> Seq<Seq<char>>
    decreases s.len() - from,
    when 0 <= from && pat.len() > 0
{
    match find_from(s, pat, from) {
        Some(i) => {
            proof {
                lemma_find_from(s, pat, from);
            }
            seq![s.subrange(from, i)] + split_from(s, pat, i + pat.len())
        },
        None => seq![s.subrange(from, s.len() as int)],
    }
}

/// The pieces of `s` that lie between occurrences of the separator `pat`.
pub open spec fn split(s: Seq<char>, pat: Seq<char>) -> Seq<Seq<char>> {
    split_from(s, pat, 0)
}

/// As `split`, but an empty last piece is left out, so that `pat` ends a
/// piece rather than starting an empty one.
pub open spec fn split_terminator(s: Seq<char>, pat: Seq<char>) -> Seq<Seq<char>> {
    let pieces = split(s, pat);
    if pieces.len() > 0 && pieces.last().len() == 0 {
        pieces.drop_last()
    } else {
        pieces
    }
}

/// The maximal runs of non-whitespace in `s` from index `from` on.
pub open spec fn words_from(s: Seq<char>, from: int) -> Seq<Seq<char>>
    decreases s.len() - from,
    when 0 <= from <= s.len()
{
    let start = skip_whitespace(s, from);
    if start >= s.len() {
        Seq::empty()
    } else {
        proof {
            lemma_skip_whitespace(s, from);
            lemma_skip_word(s, start);
        }
        seq![s.subrange(start, skip_word(s, start))] + words_from(s, skip_word(s, start))
    }
}

/// The maximal runs of non-whitespace in `s`, in order.
pub open spec fn words(s: Seq<char>) -> Seq<Seq<char>> {
    words_from(s, 0)
}

/// A half-open range of indices into a text.
pub type Span = (usize, usize);

/// Whether `span` lies within `s`.
pub open spec fn valid_span(s: Seq<char>, span: Span) -> bool {
    span.0 <= span.1 <= s.len()
}

/// The text that `span` cuts out of `s`.
pub open spec fn span_text(s: Seq<char>, span: Span) -> Seq<char> {
    s.subrange(span.0 as int, span.1 as int)
}

/// Whether each of `spans` lies within `s`.
pub open spec fn valid_spans(s: Seq<char>, spans: Seq<Span>) -> bool {
    forall|k: int| 0 <= k < spans.len() ==> valid_span(s, #[trigger] spans[k])
}

/// The texts that `spans` cut out of `s`.
pub open spec fn spans_text(s: Seq<char>, spans: Seq<Span>) -> Seq<Seq<char>> {
    Seq::new(spans.len(), |k: int| span_text(s, spans[k]))
}

/// What `find_from` finds is a match at or after `from` with no match
/// before it; where it finds nothing there is no match from `from` on.
pub proof fn lemma_find_from(s: Seq<char>, pat: Seq<char>, from: int)
    requires
        0 <= from,
    ensures
        match find_from(s, pat, from) {
            Some(i) => from <= i && matches_at(s, pat, i) && forall|j: int|
                from <= j < i ==> !matches_at(s, pat, j),
            None => forall|j: int| from <= j ==> !matches_at(s, pat, j),
        },
    decreases s.len() - from,
{
    if !matches_at(s, pat, from) && from < s.len() {
        lemma_find_from(s, pat, from + 1);
    }
}

/// `skip_whitespace` passes over whitespace only, and stops at the end or
/// at a character that is none.
pub proof fn lemma_skip_whitespace(s: Seq<char>, from: int)
    requires
        0 <= from <= s.len(),
    ensures
        from <= skip_whitespace(s, from) <= s.len(),
        forall|j: int| from <= j < skip_whitespace(s, from) ==> is_whitespace(s[j]),
        skip_whitespace(s, from) < s.len() ==> !is_whitespace(s[skip_whitespace(s, from)]),
    decreases s.len() - from,
{
    if from < s.len() && is_whitespace(s[from]) {
        lemma_skip_whitespace(s, from + 1);
    }
}

/// `skip_word` passes over no whitespace, and stops at the end or at
/// whitespace.
pub proof fn lemma_skip_word(s: Seq<char>, from: int)
    requires
        0 <= from <= s.len(),
    ensures
        from <= skip_word(s, from) <= s.len(),
        forall|j: int| from <= j < skip_word(s, from) ==> !is_whitespace(s[j]),
        skip_word(s, from) < s.len() ==> is_whitespace(s[skip_word(s, from)]),
    decreases s.len() - from,
{
    if from < s.len() && !is_whitespace(s[from]) {
        lemma_skip_word(s, from + 1);
    }
}

/// The characters of `s`, one element each.
pub fn chars_of(s: &str) -> (v: Vec<char>)
    ensures
        v@ == s@,
{
    let mut v: Vec<char> = Vec::new();
    for c in it: s.chars()
        invariant
            v@ == it.seq().take(it.index() as int),
            it.seq() == s@,
    {
        v.push(c);
    }
    v
}

/// Whether `c` has the Unicode `White_Space` property.
pub fn char_is_whitespace(c: char) -> (b: bool)
    ensures
        b == is_whitespace(c),
{
    let u: u32 = c as u32;
    (0x09 <= u && u <= 0x0D) || u == 0x20 || u == 0x85 || u == 0xA0 || u == 0x1680 || (0x2000 <= u
        && u <= 0x200A) || u == 0x2028 || u == 0x2029 || u == 0x202F || u == 0x205F || u == 0x3000
}

/// Whether `pat` occurs in `s` at index `i`.
pub fn has_match_at(s: &[char], pat: &[char], i: usize) -> (b: bool)
    ensures
        b == matches_at(s@, pat@, i as int),
{
    if pat.len() > s.len() || i > s.len() - pat.len() {
        return false;
    }
    let mut k: usize = 0;
    while k < pat.len()
        invariant
            k <= pat.len(),
            i + pat.len() <= s.len(),
            forall|j: int| 0 <= j < k ==> s@[i + j] == pat@[j],
        decreases pat.len() - k,
    {
        if s[i + k] != pat[k] {
            return false;
        }
        k = k + 1;
    }
    assert(s@.subrange(i as int, i + pat.len()) =~= pat@);
    true
}

/// Index of the first occurrence of `pat` in `s` at or after `from`.
pub fn find_in(s: &[char], pat: &[char], from: usize) -> (r: Option<usize>)
    ensures
        match r {
            Some(i) => find_from(s@, pat@, from as int) == Some(i as int),
            None => find_from(s@, pat@, from as int) is None,
        },
{
    let mut i: usize = from;
    while i < s.len()
        invariant
            from <= i,
            find_from(s@, pat@, from as int) == find_from(s@, pat@, i as int),
        decreases s.len() - i,
    {
        if has_match_at(s, pat, i) {
            return Some(i);
        }
        i = i + 1;
    }
    if has_match_at(s, pat, i) {
        Some(i)
    } else {
        None
    }
}

/// First index at or after `from` that holds no whitespace.
pub fn skip_whitespace_in(s: &[char], from: usize) -> (r: usize)
    requires
        from <= s.len(),
    ensures
        r == skip_whitespace(s@, from as int),
        from <= r <= s.len(),
{
    let mut i: usize = from;
    while i < s.len() && char_is_whitespace(s[i])
        invariant
            from <= i <= s.len(),
            skip_whitespace(s@, from as int) == skip_whitespace(s@, i as int),
        decreases s.len() - i,
    {
        i = i + 1;
    }
    i
}

/// First index at or after `from` that holds whitespace.
pub fn skip_word_in(s: &[char], from: usize) -> (r: usize)
    requires
        from <= s.len(),
    ensures
        r == skip_word(s@, from as int),
        from <= r <= s.len(),
{
    let mut i: usize = from;
    while i < s.len() && !char_is_whitespace(s[i])
        invariant
            from <= i <= s.len(),
            skip_word(s@, from as int) == skip_word(s@, i as int),
        decreases s.len() - i,
    {
        i = i + 1;
    }
    i
}

/// Least index `r <= to` such that everything in `r..to` is whitespace.
pub fn skip_whitespace_back_in(s: &[char], to: usize) -> (r: usize)
    requires
        to <= s.len(),
    ensures
        r == skip_whitespace_back(s@, to as int),
        r <= to,
{
    let mut i: usize = to;
    while i > 0 && char_is_whitespace(s[i - 1])
        invariant
            i <= to <= s.len(),
            skip_whitespace_back(s@, to as int) == skip_whitespace_back(s@, i as int),
        decreases i,
    {
        i = i - 1;
    }
    i
}

/// The span of `s` that is left when leading and trailing whitespace goes.
pub fn trim_span(s: &[char]) -> (r: Span)
    ensures
        valid_span(s@, r),
        span_text(s@, r) == trim(s@),
{
    let a = skip_whitespace_in(s, 0);
    let rest = vstd::slice::slice_subrange(s, a, s.len());
    let b = skip_whitespace_back_in(rest, rest.len());
    (a, a + b)
}

/// The spans of the pieces of `s` that lie between occurrences of `pat`.
pub fn split_spans(s: &[char], pat: &[char]) -> (r: Vec<Span>)
    requires
        pat.len() > 0,
    ensures
        valid_spans(s@, r@),
        spans_text(s@, r@) == split(s@, pat@),
        r.len() > 0,
{
    let mut out: Vec<Span> = Vec::new();
    let mut from: usize = 0;
    loop
        invariant_except_break
            from <= s.len(),
            pat.len() > 0,
            valid_spans(s@, out@),
            split(s@, pat@) == spans_text(s@, out@) + split_from(s@, pat@, from as int),
        ensures
            valid_spans(s@, out@),
            spans_text(s@, out@) == split(s@, pat@),
            out.len() > 0,
        decreases s.len() - from,
    {
        proof {
            lemma_find_from(s@, pat@, from as int);
        }
        let ghost before = out@;
        match find_in(s, pat, from) {
            Some(i) => {
                out.push((from, i));
                proof {
                    assert(spans_text(s@, out@) =~= spans_text(s@, before) + seq![
                        s@.subrange(from as int, i as int),
                    ]);
                }
                from = i + pat.len();
            },
            None => {
                out.push((from, s.len()));
                proof {
                    assert(spans_text(s@, out@) =~= spans_text(s@, before) + seq![
                        s@.subrange(from as int, s@.len() as int),
                    ]);
                }
                break ;
            },
        }
    }
    out
}

/// As `split_spans`, without an empty last piece.
pub fn split_terminator_spans(s: &[char], pat: &[char]) -> (r: Vec<Span>)
    requires
        pat.len() > 0,
    ensures
        valid_spans(s@, r@),
        spans_text(s@, r@) == split_terminator(s@, pat@),
{
    let mut out = split_spans(s, pat);
    let last = out[out.len() - 1];
    if last.0 == last.1 {
        out.pop();
    } else {
    }
    out
}

/// The spans of the maximal runs of non-whitespace in `s`.
pub fn word_spans(s: &[char]) -> (r: Vec<Span>)
    ensures
        valid_spans(s@, r@),
        spans_text(s@, r@) == words(s@),
{
    let mut out: Vec<Span> = Vec::new();
    let mut from: usize = 0;
    loop
        invariant_except_break
            from <= s.len(),
            valid_spans(s@, out@),
            words(s@) == spans_text(s@, out@) + words_from(s@, from as int),
        ensures
            valid_spans(s@, out@),
            spans_text(s@, out@) == words(s@),
        decreases s.len() - from,
    {
        let start = skip_whitespace_in(s, from);
        if start >= s.len() {
            break ;
        }
        let end = skip_word_in(s, start);
        let ghost before = out@;
        out.push((start, end));
        proof {
            assert(spans_text(s@, out@) =~= spans_text(s@, before) + seq![
                s@.subrange(start as int, end as int),
            ]);
        }
        from = end;
    }
    out
}

/// Whether two texts hold the same characters.
pub fn same_chars(a: &[char], b: &[char]) -> (r: bool)
    ensures
        r == (a@ == b@),
{
    if a.len() != b.len() {
        return false;
    }
    let mut i: usize = 0;
    while i < a.len()
        invariant
            i <= a.len(),
            a.len() == b.len(),
            forall|j: int| 0 <= j < i ==> a@[j] == b@[j],
        decreases a.len() - i,
    {
        if a[i] != b[i] {
            return false;
        }
        i = i + 1;
    }
    assert(a@ =~= b@);
    true
}

/// Whether two strings hold the same characters. They do exactly if their
/// encodings hold the same bytes.
pub fn same_text(a: &str, b: &str) -> (r: bool)
    ensures
        r == (a@ == b@),
{
    let x = a.as_bytes();
    let y = b.as_bytes();
    proof {
        vstd::utf8::encode_utf8_decode_utf8(a@);
        vstd::utf8::encode_utf8_decode_utf8(b@);
    }
    if x.len() != y.len() {
        return false;
    }
    let mut i: usize = 0;
    while i < x.len()
        invariant
            i <= x.len(),
            x.len() == y.len(),
            x@ == a.spec_bytes(),
            y@ == b.spec_bytes(),
            forall|j: int| 0 <= j < i ==> x@[j] == y@[j],
        decreases x.len() - i,
    {
        if x[i] != y[i] {
            return false;
        }
        i = i + 1;
    }
    assert(x@ =~= y@);
    true
}

/// Whether `inner` lies within `outer`.
pub open spec fn span_within(inner: Span, outer: Span) -> bool {
    outer.0 <= inner.0 <= inner.1 <= outer.1
}

/// The part of `span` that is left when leading whitespace goes.
pub fn trim_start_within(all: &[char], span: Span) -> (r: Span)
    requires
        valid_span(all@, span),
    ensures
        span_within(r, span),
        r.1 == span.1,
        span_text(all@, r) == trim_start(span_text(all@, span)),
{
    let part = vstd::slice::slice_subrange(all, span.0, span.1);
    let a = skip_whitespace_in(part, 0);
    (span.0 + a, span.1)
}

/// The part of `span` that is left when trailing whitespace goes.
pub fn trim_end_within(all: &[char], span: Span) -> (r: Span)
    requires
        valid_span(all@, span),
    ensures
        span_within(r, span),
        r.0 == span.0,
        span_text(all@, r) == trim_end(span_text(all@, span)),
{
    let part = vstd::slice::slice_subrange(all, span.0, span.1);
    let b = skip_whitespace_back_in(part, part.len());
    (span.0, span.0 + b)
}

/// The part of `span` that is left when leading and trailing whitespace
/// goes.
pub fn trim_within(all: &[char], span: Span) -> (r: Span)
    requires
        valid_span(all@, span),
    ensures
        span_within(r, span),
        span_text(all@, r) == trim(span_text(all@, span)),
{
    let part = vstd::slice::slice_subrange(all, span.0, span.1);
    let t = trim_span(part);
    (span.0 + t.0, span.0 + t.1)
}

/// Index in `all` of the first occurrence of `pat` within `span`.
pub fn find_within(all: &[char], span: Span, pat: &[char]) -> (r: Option<usize>)
    requires
        valid_span(all@, span),
    ensures
        match r {
            Some(i) => span.0 <= i && i + pat.len() <= span.1 && find(
                span_text(all@, span),
                pat@,
            ) == Some(i - span.0),
            None => find(span_text(all@, span), pat@) is None,
        },
{
    let part = vstd::slice::slice_subrange(all, span.0, span.1);
    proof {
        lemma_find_from(part@, pat@, 0);
    }
    match find_in(part, pat, 0) {
        Some(i) => Some(span.0 + i),
        None => None,
    }
}

/// The text that `span` cuts out of `data`.
pub fn cut<'a>(data: &'a str, span: Span) -> (s: &'a str)
    requires
        valid_span(data@, span),
    ensures
        s@ == span_text(data@, span),
{
    data.substring_char(span.0, span.1)
}

/// Whether `s` begins with `pat`.
pub fn text_starts_with(s: &str, pat: &str) -> (b: bool)
    ensures
        b == starts_with(s@, pat@),
{
    let x = chars_of(s);
    let y = chars_of(pat);
    has_match_at(x.as_slice(), y.as_slice(), 0)
}

/// Whether `s` ends with `pat`.
pub fn text_ends_with(s: &str, pat: &str) -> (b: bool)
    ensures
        b == ends_with(s@, pat@),
{
    let x = chars_of(s);
    let y = chars_of(pat);
    if y.len() > x.len() {
        return false;
    }
    has_match_at(x.as_slice(), y.as_slice(), x.len() - y.len())
}

/// Whether `pat` occurs anywhere in `s`.
pub fn text_contains(s: &str, pat: &str) -> (b: bool)
    ensures
        b == contains(s@, pat@),
{
    let x = chars_of(s);
    let y = chars_of(pat);
    find_in(x.as_slice(), y.as_slice(), 0).is_some()
}

} // verus!
