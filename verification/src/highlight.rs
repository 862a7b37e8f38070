//! Syntax highlighting of one REPL line: where each token starts and ends, and
//! how it is shown.
use vstd::prelude::*;
use vstd::string::StrSliceExecFns;
use vstd::string::StringSliceAdditionalSpecFns;

verus! {

/// How a stretch of the line is shown.
#[derive(Clone, Copy, Debug, PartialEq, Eq, Structural)]
pub enum SpanStyle {
    /// Shown as typed.
    Plain,
    /// A `---` comment to the end of the line.
    Comment,
    /// A double-quoted string literal.
    Text,
    /// A type annotation such as `i:` or `array:`.
    TypeName,
    /// A keyword such as `if` or `while`.
    Keyword,
    /// `true`, `false` or `null`.
    Constant,
    /// A number literal.
    Number,
    /// A whole line that holds a REPL command (`!help`, `!exit`, ...).
    Command,
}

/// A stretch `start .. end` of the line's bytes and its style.
#[derive(Clone, Copy, Debug, PartialEq, Eq, Structural)]
pub struct Span {
    pub start: usize,
    pub end: usize,
    pub style: SpanStyle,
}

/// A byte that may start an identifier or keyword.
pub open spec fn is_word_start(b: u8) -> bool {
    (65 <= b <= 90) || (97 <= b <= 122) || b == 95
}

/// A byte that may continue a word: a letter, a digit, `_` or `:`.
pub open spec fn is_word_byte(b: u8) -> bool {
    (65 <= b <= 90) || (97 <= b <= 122) || (48 <= b <= 57) || b == 95 || b == 58
}

/// An ASCII digit.
pub open spec fn is_digit(b: u8) -> bool {
    48 <= b <= 57
}

/// Where a string literal whose body starts at `i` ends: after its closing
/// quote, or at the end of the line; a backslash skips the byte after it.
pub open spec fn string_end(b: Seq<u8>, i: int) -> int
    decreases b.len() - i,
{
    if i >= b.len() {
        b.len() as int
    } else if b[i] == 34 {
        i + 1
    } else if b[i] == 92 && i + 1 < b.len() {
        string_end(b, i + 2)
    } else {
        string_end(b, i + 1)
    }
}

/// Where the run of word bytes from `i` ends.
pub open spec fn word_end(b: Seq<u8>, i: int) -> int
    decreases b.len() - i,
{
    if i >= b.len() || !is_word_byte(b[i]) {
        i
    } else {
        word_end(b, i + 1)
    }
}

/// Where the run of digits and dots from `i` ends.
pub open spec fn number_end(b: Seq<u8>, i: int) -> int
    decreases b.len() - i,
{
    if i >= b.len() || !(is_digit(b[i]) || b[i] == 46) {
        i
    } else {
        number_end(b, i + 1)
    }
}

/// The part of a word before its first `:` (the whole word when it has none).
pub open spec fn before_colon(w: Seq<u8>) -> Seq<u8>
    decreases w.len(),
{
    if w.len() == 0 {
        w
    } else if w[0] == 58 {
        Seq::empty()
    } else {
        seq![w[0]] + before_colon(w.drop_first())
    }
}

/// The bytes of an ASCII word.
pub open spec fn word(s: Seq<char>) -> Seq<u8> {
    s.map_values(|c: char| c as u8)
}

/// The type names that an annotation may use.
pub open spec fn is_type_name(p: Seq<u8>) -> bool {
    ||| p == word("int"@)
    ||| p == word("i"@)
    ||| p == word("float"@)
    ||| p == word("f"@)
    ||| p == word("str"@)
    ||| p == word("string"@)
    ||| p == word("s"@)
    ||| p == word("bool"@)
    ||| p == word("b"@)
    ||| p == word("json"@)
    ||| p == word("date"@)
    ||| p == word("array"@)
    ||| p == word("set"@)
    ||| p == word("map"@)
    ||| p == word("table"@)
    ||| p == word("database"@)
    ||| p == word("fiber"@)
}

/// The keywords of the language.
pub open spec fn is_keyword(w: Seq<u8>) -> bool {
    ||| w == word("func"@)
    ||| w == word("fiber"@)
    ||| w == word("if"@)
    ||| w == word("then"@)
    ||| w == word("else"@)
    ||| w == word("end"@)
    ||| w == word("while"@)
    ||| w == word("do"@)
    ||| w == word("for"@)
    ||| w == word("in"@)
    ||| w == word("to"@)
    ||| w == word("return"@)
    ||| w == word("const"@)
    ||| w == word("yield"@)
}

/// The constant words of the language.
pub open spec fn is_constant_word(w: Seq<u8>) -> bool {
    ||| w == word("true"@)
    ||| w == word("false"@)
    ||| w == word("null"@)
}

/// The style of a word: a type annotation (a type name followed by `:`), a
/// keyword, a constant, or plain.
pub open spec fn word_style(w: Seq<u8>) -> SpanStyle {
    if w.len() > 0 && w.last() == 58 && is_type_name(before_colon(w)) {
        SpanStyle::TypeName
    } else if is_keyword(w) {
        SpanStyle::Keyword
    } else if is_constant_word(w) {
        SpanStyle::Constant
    } else {
        SpanStyle::Plain
    }
}

/// The token that starts at `i`: its end and its style.
pub open spec fn token_at(b: Seq<u8>, i: int) -> (int, SpanStyle) {
    if b.len() >= 3 && i < b.len() - 2 && b[i] == 45 && b[i + 1] == 45 && b[i + 2] == 45 {
        (b.len() as int, SpanStyle::Comment)
    } else if b[i] == 34 {
        (string_end(b, i + 1), SpanStyle::Text)
    } else if is_word_start(b[i]) {
        (word_end(b, i), word_style(b.subrange(i, word_end(b, i))))
    } else if is_digit(b[i]) {
        (number_end(b, i), SpanStyle::Number)
    } else {
        (i + 1, SpanStyle::Plain)
    }
}

proof fn lemma_ends_advance(b: Seq<u8>, i: int)
    requires
        0 <= i < b.len(),
    ensures
        i < string_end(b, i + 1) <= b.len(),
        is_word_start(b[i]) ==> i < word_end(b, i) <= b.len(),
        is_digit(b[i]) ==> i < number_end(b, i) <= b.len(),
{
    lemma_string_end_bound(b, i + 1);
    lemma_word_end_bound(b, i);
    lemma_number_end_bound(b, i);
}

proof fn lemma_string_end_bound(b: Seq<u8>, i: int)
    requires
        0 <= i,
    ensures
        i <= string_end(b, i) <= b.len() || (i > b.len() && string_end(b, i) == b.len()),
        i <= b.len() ==> i <= string_end(b, i) <= b.len(),
    decreases b.len() - i,
{
    if i < b.len() && b[i] != 34 {
        if b[i] == 92 && i + 1 < b.len() {
            lemma_string_end_bound(b, i + 2);
        } else {
            lemma_string_end_bound(b, i + 1);
        }
    }
}

proof fn lemma_word_end_bound(b: Seq<u8>, i: int)
    requires
        0 <= i <= b.len(),
    ensures
        i <= word_end(b, i) <= b.len(),
        i < b.len() && is_word_byte(b[i]) ==> i < word_end(b, i),
    decreases b.len() - i,
{
    if i < b.len() && is_word_byte(b[i]) {
        lemma_word_end_bound(b, i + 1);
    }
}

proof fn lemma_number_end_bound(b: Seq<u8>, i: int)
    requires
        0 <= i <= b.len(),
    ensures
        i <= number_end(b, i) <= b.len(),
        i < b.len() && (is_digit(b[i]) || b[i] == 46) ==> i < number_end(b, i),
    decreases b.len() - i,
{
    if i < b.len() && (is_digit(b[i]) || b[i] == 46) {
        lemma_number_end_bound(b, i + 1);
    }
}

/// The spans of the line's bytes from position `i` on, token by token; a
/// comment runs to the end of the line.
pub open spec fn spans_from(b: Seq<u8>, i: int) -> Seq<Span>
    decreases b.len() - i,
{
    if i < 0 || i >= b.len() {
        Seq::empty()
    } else {
        let (end, style) = token_at(b, i);
        let here = Span { start: i as usize, end: end as usize, style };
        if style == SpanStyle::Comment || end <= i || end > b.len() {
            seq![here]
        } else {
            seq![here] + spans_from(b, end)
        }
    }
}

/// The spans `s` cover the bytes `from .. to` exactly: none is empty, the
/// first starts at `from`, each ends where the next starts, and the last ends
/// at `to`; there are none when `from == to`.
pub open spec fn tiles(s: Seq<Span>, from: int, to: int) -> bool {
    &&& (s.len() == 0 <==> from == to)
    &&& s.len() > 0 ==> s[0].start == from && s.last().end == to
    &&& forall|k: int| 0 <= k < s.len() ==> (#[trigger] s[k]).start < s[k].end
    &&& forall|k: int| 0 <= k < s.len() - 1 ==> #[trigger] meets_next(s, k)
}

/// Span `k` of `s` ends where span `k + 1` starts.
pub open spec fn meets_next(s: Seq<Span>, k: int) -> bool {
    s[k].end == s[k + 1].start
}

proof fn lemma_token_bounds(b: Seq<u8>, i: int)
    requires
        0 <= i < b.len(),
    ensures
        i < token_at(b, i).0 <= b.len(),
        token_at(b, i).1 == SpanStyle::Comment ==> token_at(b, i).0 == b.len(),
{
    lemma_ends_advance(b, i);
}

proof fn lemma_tiles_cons(here: Span, rest: Seq<Span>, mid: int, to: int)
    requires
        here.start < here.end,
        here.end == mid,
        mid <= to,
        tiles(rest, mid, to),
    ensures
        tiles(seq![here] + rest, here.start as int, to),
{
    let all = seq![here] + rest;
    assert(all[0] == here);
    assert forall|k: int| 0 <= k < all.len() - 1 implies #[trigger] meets_next(all, k) by {
        assert(all[k + 1] == rest[k]);
        if k > 0 {
            assert(all[k] == rest[k - 1]);
            assert(meets_next(rest, k - 1));
        }
    }
    assert forall|k: int| 0 <= k < all.len() implies (#[trigger] all[k]).start < all[k].end by {
        if k > 0 {
            assert(all[k] == rest[k - 1]);
        }
    }
    if rest.len() > 0 {
        assert(all.last() == rest.last());
    }
}

proof fn lemma_tiles_from(b: Seq<u8>, i: int)
    requires
        0 <= i <= b.len(),
        b.len() <= usize::MAX,
    ensures
        tiles(spans_from(b, i), i, b.len() as int),
    decreases b.len() - i,
{
    if i < b.len() {
        lemma_token_bounds(b, i);
        let (end, style) = token_at(b, i);
        let here = Span { start: i as usize, end: end as usize, style };
        if style == SpanStyle::Comment {
            assert(spans_from(b, i) == seq![here]);
        } else {
            lemma_tiles_from(b, end);
            lemma_tiles_cons(here, spans_from(b, end), end, b.len() as int);
            assert(spans_from(b, i) == seq![here] + spans_from(b, end));
        }
    }
}

/// The spans of a source line cover it exactly: each byte of the line is in
/// one span, in order, and no span is empty.
pub proof fn law_spans_tile_the_line(b: Seq<u8>)
    requires
        b.len() <= usize::MAX,
    ensures
        tiles(spans_from(b, 0), 0, b.len() as int),
{
    lemma_tiles_from(b, 0);
}

} // verus!

verus! {

/// Whether bytes `start .. end` of `b` spell `w`.
fn eq_word(b: &[u8], start: usize, end: usize, w: &str) -> (eq: bool)
    requires
        start <= end <= b@.len(),
    ensures
        eq == (b@.subrange(start as int, end as int) == word(w@)),
{
    let wlen = w.unicode_len();
    if end - start != wlen {
        assert(b@.subrange(start as int, end as int).len() != word(w@).len());
        return false;
    }
    let mut k: usize = 0;
    while k < wlen
        invariant
            wlen == w@.len(),
            start <= end <= b@.len(),
            end - start == w@.len(),
            k <= w@.len(),
            forall|j: int| 0 <= j < k ==> b@[start + j] == (w@[j] as u8),
        decreases w@.len() - k,
    {
        let c = w.get_char(k) as u8;
        if b[start + k] != c {
            proof {
                assert(b@.subrange(start as int, end as int)[k as int] != word(w@)[k as int]);
            }
            return false;
        }
        k = k + 1;
    }
    assert(b@.subrange(start as int, end as int) =~= word(w@));
    true
}

fn is_type_name_exec(b: &[u8], start: usize, end: usize) -> (r: bool)
    requires
        start <= end <= b@.len(),
    ensures
        r == is_type_name(b@.subrange(start as int, end as int)),
{
    eq_word(b, start, end, "int") || eq_word(b, start, end, "i") || eq_word(
        b,
        start,
        end,
        "float",
    ) || eq_word(b, start, end, "f") || eq_word(b, start, end, "str") || eq_word(
        b,
        start,
        end,
        "string",
    ) || eq_word(b, start, end, "s") || eq_word(b, start, end, "bool") || eq_word(
        b,
        start,
        end,
        "b",
    ) || eq_word(b, start, end, "json") || eq_word(b, start, end, "date")
        || eq_word(b, start, end, "array") || eq_word(b, start, end, "set")
        || eq_word(b, start, end, "map") || eq_word(b, start, end, "table")
        || eq_word(b, start, end, "database") || eq_word(
        b,
        start,
        end,
        "fiber",
    )
}

} // verus!

verus! {

fn is_keyword_exec(b: &[u8], start: usize, end: usize) -> (r: bool)
    requires
        start <= end <= b@.len(),
    ensures
        r == is_keyword(b@.subrange(start as int, end as int)),
{
    eq_word(b, start, end, "func") || eq_word(b, start, end, "fiber") || eq_word(b, start, end, "if")
        || eq_word(b, start, end, "then") || eq_word(b, start, end, "else") || eq_word(b, start, end, "end")
        || eq_word(b, start, end, "while") || eq_word(b, start, end, "do") || eq_word(b, start, end, "for")
        || eq_word(b, start, end, "in") || eq_word(b, start, end, "to") || eq_word(b, start, end, "return")
        || eq_word(b, start, end, "const") || eq_word(b, start, end, "yield")
}

fn is_constant_exec(b: &[u8], start: usize, end: usize) -> (r: bool)
    requires
        start <= end <= b@.len(),
    ensures
        r == is_constant_word(b@.subrange(start as int, end as int)),
{
    eq_word(b, start, end, "true") || eq_word(b, start, end, "false") || eq_word(b, start, end, "null")
}

proof fn lemma_before_colon(w: Seq<u8>, p: int)
    requires
        0 <= p <= w.len(),
        forall|j: int| 0 <= j < p ==> w[j] != 58,
        p < w.len() ==> w[p] == 58,
    ensures
        before_colon(w) == w.take(p),
    decreases w.len(),
{
    if w.len() == 0 {
        assert(w.take(p) =~= w);
    } else if p == 0 {
        assert(w.take(0) =~= Seq::<u8>::empty());
    } else {
        lemma_before_colon(w.drop_first(), p - 1);
        assert(seq![w[0]] + w.drop_first().take(p - 1) =~= w.take(p));
    }
}

/// The style of the word at bytes `start .. end`.
fn word_style_exec(b: &[u8], start: usize, end: usize) -> (s: SpanStyle)
    requires
        start <= end <= b@.len(),
    ensures
        s == word_style(b@.subrange(start as int, end as int)),
{
    let ghost w = b@.subrange(start as int, end as int);
    let mut p: usize = start;
    while p < end && b[p] != 58
        invariant
            start <= p <= end <= b@.len(),
            forall|j: int| start <= j < p ==> b@[j] != 58,
        decreases end - p,
    {
        p = p + 1;
    }
    proof {
        lemma_before_colon(w, p - start);
        assert(w.take(p - start) =~= b@.subrange(start as int, p as int));
    }
    if end > start && b[end - 1] == 58 && is_type_name_exec(b, start, p) {
        SpanStyle::TypeName
    } else if is_keyword_exec(b, start, end) {
        SpanStyle::Keyword
    } else if is_constant_exec(b, start, end) {
        SpanStyle::Constant
    } else {
        SpanStyle::Plain
    }
}

fn is_word_start_exec(c: u8) -> (r: bool)
    ensures
        r == is_word_start(c),
{
    (65 <= c && c <= 90) || (97 <= c && c <= 122) || c == 95
}

fn is_word_byte_exec(c: u8) -> (r: bool)
    ensures
        r == is_word_byte(c),
{
    (65 <= c && c <= 90) || (97 <= c && c <= 122) || (48 <= c && c <= 57) || c == 95 || c == 58
}

fn string_end_exec(b: &[u8], from: usize) -> (e: usize)
    requires
        from <= b@.len(),
    ensures
        e as int == string_end(b@, from as int),
{
    let mut i = from;
    while i < b.len() && b[i] != 34
        invariant
            from <= i <= b@.len() + 1,
            i <= b@.len() ==> string_end(b@, from as int) == string_end(b@, i as int),
            i > b@.len() ==> string_end(b@, from as int) == b@.len(),
        decreases b@.len() + 1 - i,
    {
        if b[i] == 92 && i + 1 < b.len() {
            i = i + 2;
        } else {
            i = i + 1;
        }
    }
    if i < b.len() {
        i + 1
    } else {
        b.len()
    }
}

fn word_end_exec(b: &[u8], from: usize) -> (e: usize)
    requires
        from <= b@.len(),
    ensures
        e as int == word_end(b@, from as int),
{
    let mut i = from;
    while i < b.len() && is_word_byte_exec(b[i])
        invariant
            from <= i <= b@.len(),
            word_end(b@, from as int) == word_end(b@, i as int),
        decreases b@.len() - i,
    {
        i = i + 1;
    }
    i
}

fn number_end_exec(b: &[u8], from: usize) -> (e: usize)
    requires
        from <= b@.len(),
    ensures
        e as int == number_end(b@, from as int),
{
    let mut i = from;
    while i < b.len() && ((48 <= b[i] && b[i] <= 57) || b[i] == 46)
        invariant
            from <= i <= b@.len(),
            number_end(b@, from as int) == number_end(b@, i as int),
        decreases b@.len() - i,
    {
        i = i + 1;
    }
    i
}

/// The token starting at `i`: its end and its style.
fn token_exec(b: &[u8], i: usize) -> (t: (usize, SpanStyle))
    requires
        i < b@.len(),
    ensures
        (t.0 as int, t.1) == token_at(b@, i as int),
        i < t.0 <= b@.len(),
{
    proof {
        lemma_ends_advance(b@, i as int);
    }
    if b.len() >= 3 && i < b.len() - 2 && b[i] == 45 && b[i + 1] == 45 && b[i + 2] == 45 {
        (b.len(), SpanStyle::Comment)
    } else if b[i] == 34 {
        (string_end_exec(b, i + 1), SpanStyle::Text)
    } else if is_word_start_exec(b[i]) {
        let e = word_end_exec(b, i);
        (e, word_style_exec(b, i, e))
    } else if 48 <= b[i] && b[i] <= 57 {
        (number_end_exec(b, i), SpanStyle::Number)
    } else {
        (i + 1, SpanStyle::Plain)
    }
}

/// The spans of a source line, token by token: a `---` comment to the end of
/// the line; a string literal to its closing quote; a word, styled as a type
/// annotation, a keyword, a constant or plain; a number; any other byte alone.
pub fn source_spans(b: &[u8]) -> (spans: Vec<Span>)
    ensures
        spans@ == spans_from(b@, 0),
{
    let mut spans: Vec<Span> = Vec::new();
    let mut i: usize = 0;
    while i < b.len()
        invariant
            i <= b@.len(),
            spans@ + spans_from(b@, i as int) == spans_from(b@, 0),
        decreases b@.len() - i,
    {
        let (end, style) = token_exec(b, i);
        let here = Span { start: i, end, style };
        assert(spans_from(b@, i as int) == if style == SpanStyle::Comment {
            seq![here]
        } else {
            seq![here] + spans_from(b@, end as int)
        });
        spans.push(here);
        if style == SpanStyle::Comment {
            assert(spans_from(b@, b@.len() as int) == Seq::<Span>::empty());
            assert(spans@ =~= spans_from(b@, 0));
            return spans;
        }
        assert(spans@ + spans_from(b@, end as int) =~= spans_from(b@, 0));
        i = end;
    }
    assert(spans@ =~= spans_from(b@, 0));
    spans
}

} // verus!

verus! {

/// The line, once trimmed, starts with `!`: it holds a REPL command.
pub open spec fn is_command_text(s: Seq<char>) -> bool {
    crate::text::trimmed(s).len() > 0 && crate::text::trimmed(s)[0] == '!'
}

/// The spans of a REPL line: the whole line as one command span, or the spans
/// of its source tokens.
pub open spec fn line_spans(line: &str) -> Seq<Span> {
    if is_command_text(line@) {
        seq![Span { start: 0, end: line.spec_bytes().len() as usize, style: SpanStyle::Command }]
    } else {
        spans_from(line.spec_bytes(), 0)
    }
}

/// Highlighting of REPL input lines.
pub struct Highlighter;

impl Highlighter {
    /// How to show `line`: as one command span when it holds a REPL command,
    /// else token by token (see `source_spans`). Span bounds are byte offsets.
    pub fn highlight(line: &str) -> (spans: Vec<Span>)
        ensures
            spans@ == line_spans(line),
    {
        let t = crate::text::trim(line);
        let is_command = t.unicode_len() > 0 && t.get_char(0) == '!';
        let bytes = line.as_bytes();
        if is_command {
            let mut spans: Vec<Span> = Vec::new();
            spans.push(Span { start: 0, end: bytes.len(), style: SpanStyle::Command });
            spans
        } else {
            source_spans(bytes)
        }
    }
}

} // verus!
