//! Syntax colouring of pretty-printed JSON for the inspector's payload panels.
//!
//! The input is scanned token by token: string literals become blue spans when
//! they are object keys (followed, after spaces, by a colon) and green spans
//! otherwise; `null`, `true`, `false` and numbers get their own spans; the
//! characters `&`, `<`, `>` are escaped; every other character is copied, one
//! character per UTF-8 byte. The coloured text is then cut at newlines, each
//! line is stripped of leading whitespace, and paired with the number of
//! leading spaces of the corresponding input line.
use vstd::prelude::*;
use vstd::utf8::encode_scalar;
use crate::text::{chars_of, push_str_chars, string_from_chars};

verus! {

/// One line of coloured output.
pub struct ColorizedLine {
    /// Number of leading spaces of the matching input line.
    pub indent: usize,
    /// The HTML markup of the line, without leading whitespace.
    pub html: String,
}

// ---------------------------------------------------------------------------
// HTML escaping

/// The escaped form of a single character.
pub open spec fn escape_char(c: char) -> Seq<char> {
    if c == '&' {
        seq!['&', 'a', 'm', 'p', ';']
    } else if c == '<' {
        seq!['&', 'l', 't', ';']
    } else if c == '>' {
        seq!['&', 'g', 't', ';']
    } else {
        seq![c]
    }
}

/// `s` with every `&`, `<` and `>` replaced by its HTML entity.
pub open spec fn escape_spec(s: Seq<char>) -> Seq<char>
    decreases s.len(),
{
    if s.len() == 0 {
        seq![]
    } else {
        escape_spec(s.drop_last()) + escape_char(s.last())
    }
}

fn push_escaped_char(out: &mut Vec<char>, c: char)
    ensures
        final(out)@ == old(out)@ + escape_char(c),
{
    if c == '&' {
        out.push('&');
        out.push('a');
        out.push('m');
        out.push('p');
        out.push(';');
    } else if c == '<' {
        out.push('&');
        out.push('l');
        out.push('t');
        out.push(';');
    } else if c == '>' {
        out.push('&');
        out.push('g');
        out.push('t');
        out.push(';');
    } else {
        out.push(c);
    }
    assert(final(out)@ =~= old(out)@ + escape_char(c));
}

/// Appends the escaped form of `s[from..to]` to `out`.
fn push_escaped(out: &mut Vec<char>, s: &Vec<char>, from: usize, to: usize)
    requires
        from <= to <= s@.len(),
    ensures
        final(out)@ == old(out)@ + escape_spec(s@.subrange(from as int, to as int)),
{
    let mut k = from;
    assert(s@.subrange(from as int, from as int) =~= Seq::<char>::empty());
    while k < to
        invariant
            from <= k <= to <= s@.len(),
            out@ == old(out)@ + escape_spec(s@.subrange(from as int, k as int)),
        decreases to - k,
    {
        push_escaped_char(out, s[k]);
        assert(s@.subrange(from as int, k + 1).drop_last() =~= s@.subrange(from as int, k as int));
        k = k + 1;
    }
}

/// Escapes `&`, `<` and `>` as HTML entities.
pub fn escape_html(s: &str) -> (r: String)
    ensures
        r@ == escape_spec(s@),
{
    let cs = chars_of(s);
    let mut out: Vec<char> = Vec::new();
    push_escaped(&mut out, &cs, 0, cs.len());
    assert(cs@.subrange(0, cs@.len() as int) =~= s@);
    string_from_chars(out.as_slice())
}

// ---------------------------------------------------------------------------
// Token scanning

/// The markup that opens an object key.
pub open spec fn key_open() -> Seq<char> {
    "<span class=\"text-blue-300\">"@
}

/// The markup that opens a string value.
pub open spec fn string_open() -> Seq<char> {
    "<span class=\"text-green-400\">"@
}

/// The markup that opens a number.
pub open spec fn number_open() -> Seq<char> {
    "<span class=\"text-purple-400\">"@
}

/// The markup that closes every span.
pub open spec fn span_close() -> Seq<char> {
    "</span>"@
}

/// The coloured `null` literal.
pub open spec fn null_span() -> Seq<char> {
    "<span class=\"text-orange-400\">null</span>"@
}

/// The coloured `true` literal.
pub open spec fn true_span() -> Seq<char> {
    "<span class=\"text-yellow-400\">true</span>"@
}

/// The coloured `false` literal.
pub open spec fn false_span() -> Seq<char> {
    "<span class=\"text-yellow-400\">false</span>"@
}

/// Position just past the closing quote of a string literal whose body starts
/// at `j`; a backslash skips the character after it. When no closing quote is
/// found the result is at least `s.len()`, and `s.len() + 1` when the text ends
/// in a backslash.
pub open spec fn string_close(s: Seq<char>, j: int) -> int
    decreases s.len() + 1 - j,
{
    if j < 0 || j >= s.len() {
        j
    } else if s[j] == '\\' {
        string_close(s, j + 2)
    } else if s[j] == '"' {
        j + 1
    } else {
        string_close(s, j + 1)
    }
}

/// First position at or after `k` that does not hold a space.
pub open spec fn spaces_end(s: Seq<char>, k: int) -> int
    decreases s.len() - k,
{
    if 0 <= k < s.len() && s[k] == ' ' {
        spaces_end(s, k + 1)
    } else {
        k
    }
}

/// Characters that may continue a number.
pub open spec fn is_number_char(c: char) -> bool {
    ('0' <= c <= '9') || c == '.' || c == 'e' || c == 'E' || c == '+' || c == '-'
}

/// First position at or after `j` that does not hold a number character.
pub open spec fn number_run(s: Seq<char>, j: int) -> int
    decreases s.len() - j,
{
    if 0 <= j < s.len() && is_number_char(s[j]) {
        number_run(s, j + 1)
    } else {
        j
    }
}

/// `w` occurs in `s` at position `i`.
pub open spec fn has_word_at(s: Seq<char>, i: int, w: Seq<char>) -> bool {
    0 <= i && i + w.len() <= s.len() && s.subrange(i, i + w.len()) == w
}

/// Where the token that starts at `i` ends.
pub open spec fn token_end(s: Seq<char>, i: int) -> int {
    let c = s[i];
    if c == '"' {
        string_close(s, i + 1)
    } else if c == 'n' && has_word_at(s, i, seq!['n', 'u', 'l', 'l']) {
        i + 4
    } else if c == 't' && has_word_at(s, i, seq!['t', 'r', 'u', 'e']) {
        i + 4
    } else if c == 'f' && has_word_at(s, i, seq!['f', 'a', 'l', 's', 'e']) {
        i + 5
    } else if c == '-' {
        number_run(s, i + 1)
    } else if '0' <= c <= '9' {
        number_run(s, i)
    } else {
        i + 1
    }
}

/// The characters written for a character outside every token: one character
/// per byte of its UTF-8 encoding, each byte read as a code point.
pub open spec fn byte_chars(c: char) -> Seq<char> {
    encode_scalar(c as u32).map_values(|b: u8| b as char)
}

/// The markup written for the token that starts at `i`.
pub open spec fn render_token(s: Seq<char>, i: int) -> Seq<char> {
    let c = s[i];
    let j = token_end(s, i);
    if c == '"' {
        let k = spaces_end(s, j);
        let open = if 0 <= k < s.len() && s[k] == ':' {
            key_open()
        } else {
            string_open()
        };
        open + escape_spec(s.subrange(i, j)) + span_close()
    } else if c == 'n' && has_word_at(s, i, seq!['n', 'u', 'l', 'l']) {
        null_span()
    } else if c == 't' && has_word_at(s, i, seq!['t', 'r', 'u', 'e']) {
        true_span()
    } else if c == 'f' && has_word_at(s, i, seq!['f', 'a', 'l', 's', 'e']) {
        false_span()
    } else if c == '-' || ('0' <= c <= '9') {
        number_open() + s.subrange(i, j) + span_close()
    } else if c == '&' || c == '<' || c == '>' {
        escape_char(c)
    } else {
        byte_chars(c)
    }
}

pub proof fn lemma_string_close_bounds(s: Seq<char>, j: int)
    requires
        0 <= j,
    ensures
        j <= string_close(s, j),
        j <= s.len() ==> string_close(s, j) <= s.len() + 1,
        j > s.len() ==> string_close(s, j) == j,
    decreases s.len() + 1 - j,
{
    if j < s.len() {
        if s[j] == '\\' {
            lemma_string_close_bounds(s, j + 2);
        } else if s[j] != '"' {
            lemma_string_close_bounds(s, j + 1);
        }
    }
}

/// `spaces_end` stops at the first character from `k` on that is not a
/// space, or at the end of the text: everything it skips is a space.
pub proof fn lemma_spaces_end_first_non_space(s: Seq<char>, k: int)
    requires
        0 <= k <= s.len(),
    ensures
        k <= spaces_end(s, k) <= s.len(),
        forall|m: int| k <= m < spaces_end(s, k) ==> s[m] == ' ',
        spaces_end(s, k) == s.len() || s[spaces_end(s, k)] != ' ',
    decreases s.len() - k,
{
    if k < s.len() && s[k] == ' ' {
        lemma_spaces_end_first_non_space(s, k + 1);
    }
}

/// A number runs over every number character from `j` on and stops at the
/// first other character, or at the end of the text.
pub proof fn lemma_number_run_maximal(s: Seq<char>, j: int)
    requires
        0 <= j <= s.len(),
    ensures
        j <= number_run(s, j) <= s.len(),
        forall|m: int| j <= m < number_run(s, j) ==> is_number_char(#[trigger] s[m]),
        number_run(s, j) == s.len() || !is_number_char(s[number_run(s, j)]),
    decreases s.len() - j,
{
    if j < s.len() && is_number_char(s[j]) {
        lemma_number_run_maximal(s, j + 1);
    }
}

/// How many backslashes stand right before position `q`, counting none
/// before position `lo`.
pub open spec fn backslashes_before(s: Seq<char>, lo: int, q: int) -> int
    decreases q - lo,
{
    if lo < q && 0 < q <= s.len() && s[q - 1] == '\\' {
        1 + backslashes_before(s, lo, q - 1)
    } else {
        0
    }
}

/// Position `q` holds the quote that closes a string literal whose body
/// starts at `lo`: a quote preceded, within the body, by an even number
/// (possibly zero) of backslashes, so that it is not escaped.
pub open spec fn closes_literal(s: Seq<char>, lo: int, q: int) -> bool {
    lo <= q < s.len() && s[q] == '"' && backslashes_before(s, lo, q) % 2 == 0
}

proof fn lemma_backslashes_before_bound(s: Seq<char>, lo: int, q: int)
    requires
        lo <= q,
    ensures
        0 <= backslashes_before(s, lo, q) <= q - lo,
    decreases q - lo,
{
    if lo < q {
        lemma_backslashes_before_bound(s, lo, q - 1);
    }
}

proof fn lemma_backslashes_before_shift(s: Seq<char>, lo: int, q: int)
    requires
        0 <= lo < q <= s.len(),
    ensures
        backslashes_before(s, lo, q) == backslashes_before(s, lo + 1, q) + if backslashes_before(
            s,
            lo + 1,
            q,
        ) == q - lo - 1 && s[lo] == '\\' {
            1int
        } else {
            0int
        },
    decreases q - lo,
{
    if q == lo + 1 {
        assert(backslashes_before(s, lo, lo) == 0);
        assert(backslashes_before(s, lo + 1, q) == 0);
    } else if s[q - 1] == '\\' {
        lemma_backslashes_before_shift(s, lo, q - 1);
        assert(backslashes_before(s, lo, q) == 1 + backslashes_before(s, lo, q - 1));
        assert(backslashes_before(s, lo + 1, q) == 1 + backslashes_before(s, lo + 1, q - 1));
    } else {
        assert(backslashes_before(s, lo, q) == 0);
        assert(backslashes_before(s, lo + 1, q) == 0);
    }
}

/// A string literal whose body starts at `j` closes at its first unescaped
/// quote: every backslash in it escapes exactly the one character after it,
/// so the literal ends right after the first quote that follows an even
/// number of backslashes. Without such a quote it runs to the end of the
/// text.
pub proof fn lemma_string_close_first_unescaped_quote(s: Seq<char>, j: int)
    requires
        0 <= j <= s.len(),
    ensures
        forall|q: int| j <= q && q + 1 < string_close(s, j) ==> !#[trigger] closes_literal(s, j, q),
        (exists|q: int| #[trigger] closes_literal(s, j, q)) ==> j < string_close(s, j) <= s.len()
            && closes_literal(s, j, string_close(s, j) - 1),
        !(exists|q: int| #[trigger] closes_literal(s, j, q)) ==> string_close(s, j) >= s.len(),
    decreases s.len() - j,
{
    if j == s.len() {
    } else if s[j] == '"' {
        assert(closes_literal(s, j, j));
    } else if s[j] == '\\' && j + 1 == s.len() {
        assert forall|q: int| !#[trigger] closes_literal(s, j, q) by {}
        assert(string_close(s, j + 2) == j + 2);
    } else {
        let next: int = if s[j] == '\\' { j + 2 } else { j + 1 };
        lemma_string_close_first_unescaped_quote(s, next);
        assert(string_close(s, j) == string_close(s, next));
        assert forall|q: int| next <= q < s.len() implies (closes_literal(s, j, q) <==> closes_literal(
            s,
            next,
            q,
        )) by {
            lemma_backslashes_before_shift(s, j, q);
            if s[j] == '\\' {
                lemma_backslashes_before_shift(s, j + 1, q);
                lemma_backslashes_before_bound(s, j + 2, q);
            }
        }
        assert forall|q: int| j <= q < next implies !closes_literal(s, j, q) by {
            if q == j + 1 {
                lemma_backslashes_before_shift(s, j, q);
            }
        }
        if exists|q: int| #[trigger] closes_literal(s, j, q) {
            let q = choose|q: int| #[trigger] closes_literal(s, j, q);
            assert(closes_literal(s, next, q));
        }
        if exists|q: int| #[trigger] closes_literal(s, next, q) {
            let q = choose|q: int| #[trigger] closes_literal(s, next, q);
            assert(closes_literal(s, j, q));
        }
    }
}

pub proof fn lemma_number_run_bounds(s: Seq<char>, j: int)
    requires
        0 <= j <= s.len(),
    ensures
        j <= number_run(s, j) <= s.len(),
    decreases s.len() - j,
{
    if j < s.len() && is_number_char(s[j]) {
        lemma_number_run_bounds(s, j + 1);
    }
}

pub proof fn lemma_spaces_end_bounds(s: Seq<char>, k: int)
    requires
        0 <= k,
    ensures
        k <= spaces_end(s, k),
        k <= s.len() ==> spaces_end(s, k) <= s.len(),
    decreases s.len() - k,
{
    if 0 <= k < s.len() && s[k] == ' ' {
        lemma_spaces_end_bounds(s, k + 1);
    }
}

/// Every token is non-empty and ends at most one position past the text.
pub proof fn lemma_token_end_bounds(s: Seq<char>, i: int)
    requires
        0 <= i < s.len(),
    ensures
        i < token_end(s, i) <= s.len() + 1,
        s[i] != '"' ==> token_end(s, i) <= s.len(),
{
    let c = s[i];
    if c == '"' {
        lemma_string_close_bounds(s, i + 1);
    } else if c == '-' {
        lemma_number_run_bounds(s, i + 1);
    } else if '0' <= c <= '9' {
        lemma_number_run_bounds(s, i);
        assert(is_number_char(s[i]));
        lemma_number_run_bounds(s, i + 1);
    }
}

/// The markup for the text from position `i` on.
pub open spec fn render_from(s: Seq<char>, i: int) -> Seq<char>
    decreases s.len() + 1 - i,
{
    if i < 0 || i >= s.len() {
        seq![]
    } else {
        proof {
            lemma_token_end_bounds(s, i);
        }
        render_token(s, i) + render_from(s, token_end(s, i))
    }
}

/// Scanning from `i` on never runs past the end of the text (a string literal
/// left open with a final backslash would).
pub open spec fn scan_ok(s: Seq<char>, i: int) -> bool
    decreases s.len() + 1 - i,
{
    if i < 0 || i >= s.len() {
        true
    } else {
        proof {
            lemma_token_end_bounds(s, i);
        }
        token_end(s, i) <= s.len() && scan_ok(s, token_end(s, i))
    }
}

// ---------------------------------------------------------------------------
// Lines

/// The pieces of `s` between newlines, as `str::split('\n')` yields them.
pub open spec fn split_lines(s: Seq<char>) -> Seq<Seq<char>>
    decreases s.len(),
{
    if s.len() == 0 {
        seq![seq![]]
    } else {
        let rest = split_lines(s.drop_last());
        if s.last() == '\n' {
            rest.push(seq![])
        } else {
            rest.update(rest.len() - 1, rest.last().push(s.last()))
        }
    }
}

/// Number of spaces at the start of `line`.
pub open spec fn leading_spaces(line: Seq<char>) -> nat
    decreases line.len(),
{
    if line.len() > 0 && line[0] == ' ' {
        1 + leading_spaces(line.drop_first())
    } else {
        0
    }
}

/// Characters with the Unicode `White_Space` property.
pub open spec fn is_unicode_whitespace(c: char) -> bool {
    let u = c as u32;
    (0x09 <= u <= 0x0d) || u == 0x20 || u == 0x85 || u == 0xa0 || u == 0x1680 || (0x2000 <= u
        <= 0x200a) || u == 0x2028 || u == 0x2029 || u == 0x202f || u == 0x205f || u == 0x3000
}

/// `line` without its leading whitespace, as `str::trim_start` leaves it.
pub open spec fn trim_start_spec(line: Seq<char>) -> Seq<char>
    decreases line.len(),
{
    if line.len() > 0 && is_unicode_whitespace(line[0]) {
        trim_start_spec(line.drop_first())
    } else {
        line
    }
}

/// The indent and markup of each output line.
pub open spec fn colorize_spec(json: Seq<char>) -> Seq<(nat, Seq<char>)> {
    let html = split_lines(render_from(json, 0));
    let raw = split_lines(json);
    Seq::new(
        html.len(),
        |k: int|
            (
                if k < raw.len() {
                    leading_spaces(raw[k])
                } else {
                    0
                },
                trim_start_spec(html[k]),
            ),
    )
}


// ---------------------------------------------------------------------------
// One output line per input line

/// Number of newlines in `s`.
pub open spec fn newline_count(s: Seq<char>) -> nat
    decreases s.len(),
{
    if s.len() == 0 {
        0
    } else {
        newline_count(s.drop_last()) + if s.last() == '\n' {
            1nat
        } else {
            0nat
        }
    }
}

proof fn lemma_newline_count_concat(a: Seq<char>, b: Seq<char>)
    ensures
        newline_count(a + b) == newline_count(a) + newline_count(b),
    decreases b.len(),
{
    if b.len() > 0 {
        lemma_newline_count_concat(a, b.drop_last());
        assert((a + b).drop_last() =~= a + b.drop_last());
    } else {
        assert(a + b =~= a);
    }
}

proof fn lemma_newline_count_none(s: Seq<char>)
    requires
        forall|i: int| 0 <= i < s.len() ==> s[i] != '\n',
    ensures
        newline_count(s) == 0,
    decreases s.len(),
{
    if s.len() > 0 {
        lemma_newline_count_none(s.drop_last());
    }
}

proof fn lemma_newline_count_single(c: char)
    ensures
        newline_count(seq![c]) == if c == '\n' {
            1nat
        } else {
            0nat
        },
{
    assert(seq![c].drop_last() =~= Seq::<char>::empty());
    assert(newline_count(Seq::<char>::empty()) == 0);
    assert(seq![c].last() == c);
}

proof fn lemma_split_lines_len(s: Seq<char>)
    ensures
        split_lines(s).len() == newline_count(s) + 1,
    decreases s.len(),
{
    if s.len() > 0 {
        lemma_split_lines_len(s.drop_last());
    }
}

proof fn lemma_escape_newlines(s: Seq<char>)
    ensures
        newline_count(escape_spec(s)) == newline_count(s),
    decreases s.len(),
{
    if s.len() > 0 {
        lemma_escape_newlines(s.drop_last());
        lemma_newline_count_concat(escape_spec(s.drop_last()), escape_char(s.last()));
        let c = s.last();
        if c == '&' || c == '<' || c == '>' {
            lemma_newline_count_none(escape_char(c));
        } else {
            lemma_newline_count_single(c);
        }
    }
}

proof fn lemma_markup_has_no_newline()
    ensures
        newline_count(key_open()) == 0,
        newline_count(string_open()) == 0,
        newline_count(number_open()) == 0,
        newline_count(span_close()) == 0,
        newline_count(null_span()) == 0,
        newline_count(true_span()) == 0,
        newline_count(false_span()) == 0,
{
    reveal_strlit("<span class=\"text-blue-300\">");
    reveal_strlit("<span class=\"text-green-400\">");
    reveal_strlit("<span class=\"text-purple-400\">");
    reveal_strlit("</span>");
    reveal_strlit("<span class=\"text-orange-400\">null</span>");
    reveal_strlit("<span class=\"text-yellow-400\">true</span>");
    reveal_strlit("<span class=\"text-yellow-400\">false</span>");
    lemma_newline_count_none(key_open());
    lemma_newline_count_none(string_open());
    lemma_newline_count_none(number_open());
    lemma_newline_count_none(span_close());
    lemma_newline_count_none(null_span());
    lemma_newline_count_none(true_span());
    lemma_newline_count_none(false_span());
}

proof fn lemma_byte_chars_newlines(c: char)
    ensures
        newline_count(byte_chars(c)) == if c == '\n' {
            1nat
        } else {
            0nat
        },
{
    vstd::utf8::char_is_scalar(c);
    let u = c as u32;
    let b = byte_chars(c);
    if u <= 0x7f {
        assert((u & 0x7f) as u8 == u) by (bit_vector)
            requires
                u <= 0x7f,
        ;
        assert(b =~= seq![c]);
        lemma_newline_count_single(c);
    } else {
        assert forall|i: int| 0 <= i < b.len() implies b[i] != '\n' by {
            let x = u;
            assert(0x80 <= (0x80u8 | (x & 0x3F) as u8)) by (bit_vector);
            assert(0x80 <= (0x80u8 | ((x >> 6) & 0x3F) as u8)) by (bit_vector);
            assert(0x80 <= (0x80u8 | ((x >> 12) & 0x3F) as u8)) by (bit_vector);
            assert(0x80 <= (0xC0u8 | ((x >> 6) & 0x1F) as u8)) by (bit_vector);
            assert(0x80 <= (0xE0u8 | ((x >> 12) & 0x0F) as u8)) by (bit_vector);
            assert(0x80 <= (0xF0u8 | ((x >> 18) & 0x7) as u8)) by (bit_vector);
        }
        lemma_newline_count_none(b);
    }
}

proof fn lemma_token_newlines(s: Seq<char>, i: int)
    requires
        0 <= i < s.len(),
        token_end(s, i) <= s.len(),
    ensures
        newline_count(render_token(s, i)) == newline_count(s.subrange(i, token_end(s, i))),
{
    lemma_token_end_bounds(s, i);
    lemma_markup_has_no_newline();
    let c = s[i];
    let j = token_end(s, i);
    let sub = s.subrange(i, j);
    if c == '"' {
        let k = spaces_end(s, j);
        let open = if 0 <= k < s.len() && s[k] == ':' {
            key_open()
        } else {
            string_open()
        };
        lemma_newline_count_concat(open, escape_spec(sub));
        lemma_newline_count_concat(open + escape_spec(sub), span_close());
        lemma_escape_newlines(sub);
    } else if c == 'n' && has_word_at(s, i, seq!['n', 'u', 'l', 'l']) {
        assert(sub =~= seq!['n', 'u', 'l', 'l']);
        lemma_newline_count_none(sub);
    } else if c == 't' && has_word_at(s, i, seq!['t', 'r', 'u', 'e']) {
        assert(sub =~= seq!['t', 'r', 'u', 'e']);
        lemma_newline_count_none(sub);
    } else if c == 'f' && has_word_at(s, i, seq!['f', 'a', 'l', 's', 'e']) {
        assert(sub =~= seq!['f', 'a', 'l', 's', 'e']);
        lemma_newline_count_none(sub);
    } else if c == '-' || ('0' <= c <= '9') {
        lemma_newline_count_concat(number_open(), sub);
        lemma_newline_count_concat(number_open() + sub, span_close());
    } else {
        assert(j == i + 1);
        assert(sub =~= seq![c]);
        lemma_newline_count_single(c);
        if c == '&' || c == '<' || c == '>' {
            lemma_newline_count_none(escape_char(c));
        } else {
            lemma_byte_chars_newlines(c);
        }
    }
}

proof fn lemma_render_newlines(s: Seq<char>, i: int)
    requires
        0 <= i <= s.len(),
        scan_ok(s, i),
    ensures
        newline_count(render_from(s, i)) == newline_count(s.subrange(i, s.len() as int)),
    decreases s.len() + 1 - i,
{
    if i == s.len() {
        assert(s.subrange(i, i) =~= Seq::<char>::empty());
    } else {
        lemma_token_end_bounds(s, i);
        let j = token_end(s, i);
        lemma_render_newlines(s, j);
        lemma_token_newlines(s, i);
        lemma_newline_count_concat(render_token(s, i), render_from(s, j));
        assert(s.subrange(i, s.len() as int) =~= s.subrange(i, j) + s.subrange(j, s.len() as int));
        lemma_newline_count_concat(s.subrange(i, j), s.subrange(j, s.len() as int));
    }
}

/// Colouring keeps the lines of its input: there is one coloured line per
/// input line, and each carries the leading spaces of its input line.
pub proof fn lemma_one_line_per_input_line(json: Seq<char>)
    requires
        scan_ok(json, 0),
    ensures
        colorize_spec(json).len() == split_lines(json).len(),
        colorize_spec(json).len() == newline_count(json) + 1,
        forall|k: int|
            0 <= k < colorize_spec(json).len() ==> #[trigger] colorize_spec(json)[k].0
                == leading_spaces(split_lines(json)[k]),
{
    lemma_render_newlines(json, 0);
    assert(json.subrange(0, json.len() as int) =~= json);
    lemma_split_lines_len(json);
    lemma_split_lines_len(render_from(json, 0));
}

/// Escaped text holds no `<` and no `>`.
pub proof fn lemma_escape_has_no_angle_brackets(s: Seq<char>)
    ensures
        !escape_spec(s).contains('<'),
        !escape_spec(s).contains('>'),
    decreases s.len(),
{
    if s.len() > 0 {
        lemma_escape_has_no_angle_brackets(s.drop_last());
        let a = escape_spec(s.drop_last());
        let b = escape_char(s.last());
        assert(escape_spec(s) == a + b);
        assert forall|i: int| 0 <= i < (a + b).len() implies (a + b)[i] != '<' && (a + b)[i] != '>' by {
            if i < a.len() {
                assert((a + b)[i] == a[i]);
                assert(!a.contains(a[i]) || (a[i] != '<' && a[i] != '>'));
            } else {
                assert((a + b)[i] == b[i - a.len()]);
            }
        }
    }
}

/// A coloured line never starts with whitespace.
pub proof fn lemma_trimmed_line_starts_visible(line: Seq<char>)
    ensures
        trim_start_spec(line).len() > 0 ==> !is_unicode_whitespace(trim_start_spec(line)[0]),
    decreases line.len(),
{
    if line.len() > 0 && is_unicode_whitespace(line[0]) {
        lemma_trimmed_line_starts_visible(line.drop_first());
    }
}

// ---------------------------------------------------------------------------
// Executable scanning

/// `Some(string_close(s, j0))`, or `None` when the literal runs past the end.
fn find_string_close(s: &Vec<char>, j0: usize) -> (r: Option<usize>)
    requires
        j0 <= s@.len(),
    ensures
        r is Some ==> r->0 == string_close(s@, j0 as int) && r->0 <= s@.len(),
        r is None ==> string_close(s@, j0 as int) == s@.len() + 1,
{
    let n = s.len();
    let mut j = j0;
    loop
        invariant
            j0 <= j <= n,
            n == s@.len(),
            string_close(s@, j as int) == string_close(s@, j0 as int),
        decreases n - j,
    {
        if j >= n {
            return Some(j);
        }
        if s[j] == '\\' {
            if j + 1 < n {
                j = j + 2;
            } else {
                assert(string_close(s@, (j + 2) as int) == j + 2);
                return None;
            }
        } else if s[j] == '"' {
            return Some(j + 1);
        } else {
            j = j + 1;
        }
    }
}

fn find_spaces_end(s: &Vec<char>, k0: usize) -> (k: usize)
    requires
        k0 <= s@.len(),
    ensures
        k == spaces_end(s@, k0 as int),
        k <= s@.len(),
{
    let mut k = k0;
    while k < s.len() && s[k] == ' '
        invariant
            k0 <= k <= s@.len(),
            spaces_end(s@, k as int) == spaces_end(s@, k0 as int),
        decreases s@.len() - k,
    {
        k = k + 1;
    }
    k
}

fn exec_is_number_char(c: char) -> (b: bool)
    ensures
        b == is_number_char(c),
{
    ('0' <= c && c <= '9') || c == '.' || c == 'e' || c == 'E' || c == '+' || c == '-'
}

fn find_number_run(s: &Vec<char>, j0: usize) -> (j: usize)
    requires
        j0 <= s@.len(),
    ensures
        j == number_run(s@, j0 as int),
        j0 <= j <= s@.len(),
{
    let mut j = j0;
    while j < s.len() && exec_is_number_char(s[j])
        invariant
            j0 <= j <= s@.len(),
            number_run(s@, j as int) == number_run(s@, j0 as int),
        decreases s@.len() - j,
    {
        j = j + 1;
    }
    j
}

/// Appends one character per byte of the UTF-8 encoding of `c`.
fn push_byte_chars(out: &mut Vec<char>, c: char)
    ensures
        final(out)@ == old(out)@ + byte_chars(c),
{
    proof {
        vstd::utf8::char_is_scalar(c);
    }
    let u = c as u32;
    if u <= 0x7f {
        let b0: u8 = (u & 0x7f) as u8;
        out.push(b0 as char);
    } else if u <= 0x7ff {
        let b0: u8 = 0xC0 | ((u >> 6) & 0x1F) as u8;
        let b1: u8 = 0x80 | (u & 0x3F) as u8;
        out.push(b0 as char);
        out.push(b1 as char);
    } else if u <= 0xffff {
        let b0: u8 = 0xE0 | ((u >> 12) & 0x0F) as u8;
        let b1: u8 = 0x80 | ((u >> 6) & 0x3F) as u8;
        let b2: u8 = 0x80 | (u & 0x3F) as u8;
        out.push(b0 as char);
        out.push(b1 as char);
        out.push(b2 as char);
    } else {
        let b0: u8 = 0xF0 | ((u >> 18) & 0x7) as u8;
        let b1: u8 = 0x80 | ((u >> 12) & 0x3F) as u8;
        let b2: u8 = 0x80 | ((u >> 6) & 0x3F) as u8;
        let b3: u8 = 0x80 | (u & 0x3F) as u8;
        out.push(b0 as char);
        out.push(b1 as char);
        out.push(b2 as char);
        out.push(b3 as char);
    }
    assert(final(out)@ =~= old(out)@ + byte_chars(c));
}

fn word_at(s: &Vec<char>, i: usize, w: &[char]) -> (b: bool)
    requires
        i <= s@.len(),
    ensures
        b == has_word_at(s@, i as int, w@),
{
    if s.len() - i < w.len() {
        return false;
    }
    let n = s.len();
    let mut k: usize = 0;
    while k < w.len()
        invariant
            n == s@.len(),
            i + w@.len() <= s@.len(),
            k <= w@.len(),
            forall|m: int| 0 <= m < k ==> s@[i + m] == w@[m],
        decreases w@.len() - k,
    {
        if s[i + k] != w[k] {
            assert(s@.subrange(i as int, i + w@.len())[k as int] != w@[k as int]);
            return false;
        }
        k = k + 1;
    }
    assert(s@.subrange(i as int, i + w@.len()) =~= w@);
    true
}

/// Whether scanning `s` from `i` on stays within the text.
fn scan_ok_from(s: &Vec<char>, start: usize) -> (b: bool)
    requires
        start <= s@.len(),
    ensures
        b == scan_ok(s@, start as int),
{
    let n = s.len();
    let mut i = start;
    let null_w = ['n', 'u', 'l', 'l'];
    let true_w = ['t', 'r', 'u', 'e'];
    let false_w = ['f', 'a', 'l', 's', 'e'];
    assert(null_w@ =~= seq!['n', 'u', 'l', 'l']);
    assert(true_w@ =~= seq!['t', 'r', 'u', 'e']);
    assert(false_w@ =~= seq!['f', 'a', 'l', 's', 'e']);
    while i < n
        invariant
            n == s@.len(),
            start <= i <= n,
            scan_ok(s@, i as int) == scan_ok(s@, start as int),
            null_w@ == seq!['n', 'u', 'l', 'l'],
            true_w@ == seq!['t', 'r', 'u', 'e'],
            false_w@ == seq!['f', 'a', 'l', 's', 'e'],
        decreases n - i,
    {
        proof {
            lemma_token_end_bounds(s@, i as int);
        }
        let c = s[i];
        let next: usize;
        if c == '"' {
            match find_string_close(s, i + 1) {
                Some(j) => {
                    next = j;
                },
                None => {
                    return false;
                },
            }
        } else if c == 'n' && word_at(s, i, &null_w) {
            next = i + 4;
        } else if c == 't' && word_at(s, i, &true_w) {
            next = i + 4;
        } else if c == 'f' && word_at(s, i, &false_w) {
            next = i + 5;
        } else if c == '-' {
            next = find_number_run(s, i + 1);
        } else if '0' <= c && c <= '9' {
            next = find_number_run(s, i);
        } else {
            next = i + 1;
        }
        assert(next == token_end(s@, i as int));
        i = next;
    }
    true
}

/// Whether [`colorize_json_string`] accepts `json`: no string literal is left
/// open with a final backslash.
pub fn can_colorize(json: &str) -> (b: bool)
    ensures
        b == scan_ok(json@, 0),
{
    let s = chars_of(json);
    scan_ok_from(&s, 0)
}

/// Renders the whole text; requires that no token runs past its end.
fn render_all(s: &Vec<char>) -> (out: Vec<char>)
    requires
        scan_ok(s@, 0),
    ensures
        out@ == render_from(s@, 0),
{
    let n = s.len();
    let mut out: Vec<char> = Vec::new();
    let mut i: usize = 0;
    let null_w = ['n', 'u', 'l', 'l'];
    let true_w = ['t', 'r', 'u', 'e'];
    let false_w = ['f', 'a', 'l', 's', 'e'];
    assert(null_w@ =~= seq!['n', 'u', 'l', 'l']);
    assert(true_w@ =~= seq!['t', 'r', 'u', 'e']);
    assert(false_w@ =~= seq!['f', 'a', 'l', 's', 'e']);
    while i < n
        invariant
            n == s@.len(),
            i <= n,
            scan_ok(s@, i as int),
            out@ + render_from(s@, i as int) == render_from(s@, 0),
            null_w@ == seq!['n', 'u', 'l', 'l'],
            true_w@ == seq!['t', 'r', 'u', 'e'],
            false_w@ == seq!['f', 'a', 'l', 's', 'e'],
        decreases n - i,
    {
        let ghost before = out@;
        proof {
            lemma_token_end_bounds(s@, i as int);
        }
        let ghost j_spec = token_end(s@, i as int);
        let c = s[i];
        let next: usize;
        if c == '"' {
            let found = find_string_close(s, i + 1);
            let j = match found {
                Some(j) => j,
                None => {
                    assert(false);
                    0
                },
            };
            let k = find_spaces_end(s, j);
            if k < n && s[k] == ':' {
                push_str_chars(&mut out, "<span class=\"text-blue-300\">");
            } else {
                push_str_chars(&mut out, "<span class=\"text-green-400\">");
            }
            push_escaped(&mut out, s, i, j);
            push_str_chars(&mut out, "</span>");
            next = j;
        } else if c == 'n' && word_at(s, i, &null_w) {
            push_str_chars(&mut out, "<span class=\"text-orange-400\">null</span>");
            next = i + 4;
        } else if c == 't' && word_at(s, i, &true_w) {
            push_str_chars(&mut out, "<span class=\"text-yellow-400\">true</span>");
            next = i + 4;
        } else if c == 'f' && word_at(s, i, &false_w) {
            push_str_chars(&mut out, "<span class=\"text-yellow-400\">false</span>");
            next = i + 5;
        } else if c == '-' || ('0' <= c && c <= '9') {
            let start = if c == '-' {
                i + 1
            } else {
                i
            };
            let j = find_number_run(s, start);
            push_str_chars(&mut out, "<span class=\"text-purple-400\">");
            let mut k = i;
            while k < j
                invariant
                    i <= k <= j <= n,
                    n == s@.len(),
                    out@ == before + number_open() + s@.subrange(i as int, k as int),
                decreases j - k,
            {
                out.push(s[k]);
                k = k + 1;
                assert(s@.subrange(i as int, k as int) =~= s@.subrange(i as int, k - 1).push(
                    s@[k - 1],
                ));
            }
            push_str_chars(&mut out, "</span>");
            next = j;
        } else if c == '&' || c == '<' || c == '>' {
            push_escaped_char(&mut out, c);
            next = i + 1;
        } else {
            push_byte_chars(&mut out, c);
            next = i + 1;
        }
        assert(next == j_spec);
        assert(out@ == before + render_token(s@, i as int));
        assert(render_from(s@, i as int) == render_token(s@, i as int) + render_from(
            s@,
            next as int,
        ));
        assert(out@ + render_from(s@, next as int) =~= before + render_from(s@, i as int));
        i = next;
    }
    assert(out@ =~= out@ + render_from(s@, i as int));
    out
}


// ---------------------------------------------------------------------------
// Executable line handling

/// The views of a sequence of character vectors.
pub open spec fn line_views(v: Seq<Vec<char>>) -> Seq<Seq<char>> {
    v.map_values(|x: Vec<char>| x@)
}

fn split_lines_exec(s: &Vec<char>) -> (lines: Vec<Vec<char>>)
    ensures
        line_views(lines@) == split_lines(s@),
{
    let mut done: Vec<Vec<char>> = Vec::new();
    let mut current: Vec<char> = Vec::new();
    let mut k: usize = 0;
    assert(s@.take(0) =~= Seq::<char>::empty());
    assert(line_views(done@).push(current@) =~= split_lines(s@.take(0)));
    while k < s.len()
        invariant
            k <= s@.len(),
            line_views(done@).push(current@) == split_lines(s@.take(k as int)),
        decreases s@.len() - k,
    {
        let c = s[k];
        let ghost prev = s@.take(k as int);
        assert(s@.take(k + 1).drop_last() =~= prev);
        if c == '\n' {
            let finished = current;
            current = Vec::new();
            done.push(finished);
            assert(line_views(done@).push(current@) =~= line_views(done@.drop_last()).push(
                finished@,
            ).push(Seq::<char>::empty()));
        } else {
            let ghost old_current = current@;
            current.push(c);
            assert(line_views(done@).push(current@) =~= line_views(done@).push(old_current).update(
                done@.len() as int,
                old_current.push(c),
            ));
        }
        k = k + 1;
    }
    assert(s@.take(k as int) =~= s@);
    done.push(current);
    assert(line_views(done@) =~= line_views(done@.drop_last()).push(done@.last()@));
    done
}

fn exec_is_unicode_whitespace(c: char) -> (b: bool)
    ensures
        b == is_unicode_whitespace(c),
{
    let u = c as u32;
    (0x09 <= u && u <= 0x0d) || u == 0x20 || u == 0x85 || u == 0xa0 || u == 0x1680 || (0x2000
        <= u && u <= 0x200a) || u == 0x2028 || u == 0x2029 || u == 0x202f || u == 0x205f || u
        == 0x3000
}

fn trim_start_exec(line: &Vec<char>) -> (r: Vec<char>)
    ensures
        r@ == trim_start_spec(line@),
{
    let n = line.len();
    let mut p: usize = 0;
    assert(line@.subrange(0, n as int) =~= line@);
    while p < n && exec_is_unicode_whitespace(line[p])
        invariant
            p <= n,
            n == line@.len(),
            trim_start_spec(line@.subrange(p as int, n as int)) == trim_start_spec(line@),
        decreases n - p,
    {
        assert(line@.subrange(p as int, n as int).drop_first() =~= line@.subrange(
            p + 1,
            n as int,
        ));
        p = p + 1;
    }
    let mut r: Vec<char> = Vec::new();
    let mut k = p;
    while k < n
        invariant
            p <= k <= n,
            n == line@.len(),
            r@ == line@.subrange(p as int, k as int),
        decreases n - k,
    {
        r.push(line[k]);
        k = k + 1;
        assert(r@ =~= line@.subrange(p as int, k as int));
    }
    r
}

fn leading_spaces_exec(line: &Vec<char>) -> (k: usize)
    ensures
        k == leading_spaces(line@),
{
    let n = line.len();
    let mut p: usize = 0;
    assert(line@.subrange(0, n as int) =~= line@);
    while p < n && line[p] == ' '
        invariant
            p <= n,
            n == line@.len(),
            p + leading_spaces(line@.subrange(p as int, n as int)) == leading_spaces(line@),
        decreases n - p,
    {
        assert(line@.subrange(p as int, n as int).drop_first() =~= line@.subrange(
            p + 1,
            n as int,
        ));
        p = p + 1;
    }
    p
}

/// Colours pretty-printed JSON: one entry per line of `json`, with the indent of
/// that input line and the HTML markup of the coloured line.
pub fn colorize_json_string(json: &str) -> (lines: Vec<ColorizedLine>)
    requires
        scan_ok(json@, 0),
    ensures
        lines@.len() == colorize_spec(json@).len(),
        forall|k: int|
            0 <= k < lines@.len() ==> lines@[k].indent == colorize_spec(json@)[k].0
                && lines@[k].html@ == colorize_spec(json@)[k].1,
{
    let s = chars_of(json);
    let rendered = render_all(&s);
    let raw_lines = split_lines_exec(&s);
    let html_lines = split_lines_exec(&rendered);
    let ghost spec = colorize_spec(json@);
    let mut lines: Vec<ColorizedLine> = Vec::new();
    let mut idx: usize = 0;
    while idx < html_lines.len()
        invariant
            idx <= html_lines@.len(),
            s@ == json@,
            line_views(raw_lines@) == split_lines(json@),
            line_views(html_lines@) == split_lines(render_from(json@, 0)),
            spec == colorize_spec(json@),
            lines@.len() == idx,
            forall|k: int|
                0 <= k < idx ==> lines@[k].indent == spec[k].0 && lines@[k].html@ == spec[k].1,
        decreases html_lines@.len() - idx,
    {
        assert(html_lines@[idx as int]@ == split_lines(render_from(json@, 0))[idx as int]);
        let indent = if idx < raw_lines.len() {
            assert(raw_lines@[idx as int]@ == split_lines(json@)[idx as int]);
            leading_spaces_exec(&raw_lines[idx])
        } else {
            0
        };
        let trimmed = trim_start_exec(&html_lines[idx]);
        let html = string_from_chars(trimmed.as_slice());
        lines.push(ColorizedLine { indent, html });
        idx = idx + 1;
    }
    lines
}

} // verus!
