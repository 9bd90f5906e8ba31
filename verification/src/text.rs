//! Characters, decimal numbers and small string helpers.

use vstd::prelude::*;
use vstd::std_specs::iter::IteratorSpec;

verus! {

/// The decimal digit that stands for `d`, for `0 <= d <= 9`.
pub open spec fn digit(d: int) -> char {
    if d == 0 {
        '0'
    } else if d == 1 {
        '1'
    } else if d == 2 {
        '2'
    } else if d == 3 {
        '3'
    } else if d == 4 {
        '4'
    } else if d == 5 {
        '5'
    } else if d == 6 {
        '6'
    } else if d == 7 {
        '7'
    } else if d == 8 {
        '8'
    } else {
        '9'
    }
}

/// The decimal representation of `n`, without leading zeros.
pub open spec fn decimal(n: nat) -> Seq<char>
    decreases n,
{
    if n < 10 {
        seq![digit(n as int)]
    } else {
        decimal(n / 10).push(digit((n % 10) as int))
    }
}

/// The decimal representation of an integer, with `-` before a negative one.
pub open spec fn signed_decimal(n: int) -> Seq<char> {
    if n < 0 {
        seq!['-'] + decimal((-n) as nat)
    } else {
        decimal(n as nat)
    }
}

/// The value of the decimal digit `c`, if it is one.
pub open spec fn digit_of(c: char) -> Option<nat> {
    if c == '0' {
        Some(0)
    } else if c == '1' {
        Some(1)
    } else if c == '2' {
        Some(2)
    } else if c == '3' {
        Some(3)
    } else if c == '4' {
        Some(4)
    } else if c == '5' {
        Some(5)
    } else if c == '6' {
        Some(6)
    } else if c == '7' {
        Some(7)
    } else if c == '8' {
        Some(8)
    } else if c == '9' {
        Some(9)
    } else {
        None
    }
}

/// Whether `c` is one of `0` to `9`.
pub open spec fn is_digit(c: char) -> bool {
    digit_of(c) is Some
}

/// The value of the digit `c`; 0 for any other character.
pub open spec fn digit_value(c: char) -> nat {
    match digit_of(c) {
        Some(d) => d,
        None => 0,
    }
}

/// The number that a string of decimal digits stands for; 0 for the empty
/// string.
pub open spec fn digits_value(s: Seq<char>) -> nat
    decreases s.len(),
{
    if s.len() == 0 {
        0
    } else {
        digits_value(s.drop_last()) * 10 + digit_value(s.last())
    }
}

/// Whether every character of `s` is a decimal digit.
pub open spec fn all_digits(s: Seq<char>) -> bool {
    forall|i: int| 0 <= i < s.len() ==> is_digit(#[trigger] s[i])
}

/// What a token reads as an unsigned 64-bit number: an optional `+`, then
/// at least one digit, and a value that fits.
pub open spec fn parse_decimal(s: Seq<char>) -> Option<u64> {
    let body = if s.len() > 0 && s[0] == '+' {
        s.skip(1)
    } else {
        s
    };
    if body.len() > 0 && all_digits(body) && digits_value(body) <= u64::MAX {
        Some(digits_value(body) as u64)
    } else {
        None
    }
}

/// The characters of a string, in order.
pub fn chars_of(s: &str) -> (r: Vec<char>)
    ensures
        r@ == s@,
{
    let mut out: Vec<char> = Vec::new();
    let mut it = s.chars();
    loop
        invariant
            it.obeys_prophetic_iter_laws(),
            out@ + it.remaining() == s@,
        ensures
            out@ == s@,
        decreases s@.len() - out@.len(),
    {
        match it.next() {
            Some(c) => {
                out.push(c);
            },
            None => {
                assert(out@ =~= out@ + it.remaining());
                break ;
            },
        }
    }
    out
}

/// The one-character string of the digit `d`.
fn digit_str(d: u64) -> (r: &'static str)
    requires
        d < 10,
    ensures
        r@ == seq![digit(d as int)],
{
    proof {
        reveal_strlit("0123456789");
    }
    let table: &'static str = "0123456789";
    let r = table.substring_char(d as usize, d as usize + 1);
    assert(r@ =~= seq![digit(d as int)]);
    r
}

/// Appends the decimal representation of `n` to `out`.
pub fn push_decimal(out: &mut String, n: u64)
    ensures
        final(out)@ == old(out)@ + decimal(n as nat),
    decreases n,
{
    if n >= 10 {
        push_decimal(out, n / 10);
    }
    out.append(digit_str(n % 10));
    assert(out@ =~= old(out)@ + decimal(n as nat));
}

/// Appends the decimal representation of `n` to `out`, with `-` before a
/// negative number.
pub fn push_signed(out: &mut String, n: i32)
    ensures
        final(out)@ == old(out)@ + signed_decimal(n as int),
{
    if n < 0 {
        proof {
            reveal_strlit("-");
        }
        out.append("-");
        let m: u64 = (-(n as i64)) as u64;
        push_decimal(out, m);
        assert(out@ =~= old(out)@ + signed_decimal(n as int));
    } else {
        push_decimal(out, n as u64);
    }
}

/// The decimal representation of `n`.
pub fn decimal_string(n: u64) -> (r: String)
    ensures
        r@ == decimal(n as nat),
{
    let mut out = String::new();
    push_decimal(&mut out, n);
    assert(out@ =~= decimal(n as nat));
    out
}

/// The value of a decimal digit.
fn read_digit(c: char) -> (r: Option<u64>)
    ensures
        r is Some <==> is_digit(c),
        r matches Some(d) ==> d == digit_value(c) && d < 10,
{
    if c == '0' {
        Some(0)
    } else if c == '1' {
        Some(1)
    } else if c == '2' {
        Some(2)
    } else if c == '3' {
        Some(3)
    } else if c == '4' {
        Some(4)
    } else if c == '5' {
        Some(5)
    } else if c == '6' {
        Some(6)
    } else if c == '7' {
        Some(7)
    } else if c == '8' {
        Some(8)
    } else if c == '9' {
        Some(9)
    } else {
        None
    }
}

/// Appending a digit multiplies the value by ten and adds the digit.
proof fn lemma_digits_value_step(s: Seq<char>, c: char)
    ensures
        digits_value(s.push(c)) == digits_value(s) * 10 + digit_value(c),
{
    assert(s.push(c).drop_last() =~= s);
}

/// Reads an unsigned decimal number.
pub fn parse_u64(s: &[char]) -> (r: Option<u64>)
    ensures
        r == parse_decimal(s@),
{
    let n: usize = s.len();
    let start: usize = if n > 0 && s[0] == '+' {
        1
    } else {
        0
    };
    let ghost body = s@.skip(start as int);
    assert(s@.skip(0) =~= s@);
    if start == n {
        return None;
    }
    let mut acc: u64 = 0;
    let mut i: usize = start;
    while i < n
        invariant
            start <= i <= n,
            n == s@.len(),
            body == s@.skip(start as int),
            body == if s@.len() > 0 && s@[0] == '+' {
                s@.skip(1)
            } else {
                s@
            },
            all_digits(body.take(i - start)),
            acc == digits_value(body.take(i - start)),
        decreases n - i,
    {
        let c = s[i];
        let ghost seen = body.take(i - start);
        assert(body.take(i - start + 1) =~= seen.push(c));
        let d: u64 = match read_digit(c) {
            Some(d) => d,
            None => {
                assert(!is_digit(body[i - start]));
                return None;
            },
        };
        assert(all_digits(seen.push(c))) by {
            assert forall|j: int| 0 <= j < seen.push(c).len() implies is_digit(
                #[trigger] seen.push(c)[j],
            ) by {
                if j < seen.len() {
                    assert(seen.push(c)[j] == seen[j]);
                }
            }
        }
        proof {
            lemma_digits_value_step(seen, c);
            lemma_digits_value_monotone(body, i - start + 1);
        }
        if acc > (u64::MAX - d) / 10 {
            return None;
        }
        acc = acc * 10 + d;
        i = i + 1;
    }
    assert(body.take(n - start) =~= body);
    assert(body.len() > 0);
    Some(acc)
}

/// The value of a prefix of a digit string is at most the value of the whole.
proof fn lemma_digits_value_monotone(s: Seq<char>, k: int)
    requires
        0 <= k <= s.len(),
    ensures
        digits_value(s.take(k)) <= digits_value(s),
    decreases s.len() - k,
{
    if k < s.len() {
        lemma_digits_value_monotone(s, k + 1);
        assert(s.take(k + 1).drop_last() =~= s.take(k));
    } else {
        assert(s.take(k) =~= s);
    }
}

/// Whether `c` is ASCII white space: a space, a tab, a line feed, a form
/// feed or a carriage return.
pub open spec fn is_space(c: char) -> bool {
    c == ' ' || c == '\t' || c == '\n' || c == '\x0C' || c == '\r'
}

/// The first index from `from` on at which `s` has `sep`, or the length of
/// `s` where it has none.
pub open spec fn field_end(s: Seq<char>, sep: char, from: int) -> int
    decreases s.len() - from,
{
    if from >= s.len() || s[from] == sep {
        from
    } else {
        field_end(s, sep, from + 1)
    }
}

/// The fields that `sep` parts `s` into from index `from` on. There is one
/// more field than there are separators, and a field may be empty.
pub open spec fn fields_from(s: Seq<char>, sep: char, from: int) -> Seq<Seq<char>>
    decreases s.len() - from,
{
    let end = field_end(s, sep, from);
    if from <= end < s.len() {
        seq![s.subrange(from, end)] + fields_from(s, sep, end + 1)
    } else {
        seq![s.subrange(from, end)]
    }
}

/// The fields that `sep` parts `s` into.
pub open spec fn fields(s: Seq<char>, sep: char) -> Seq<Seq<char>> {
    fields_from(s, sep, 0)
}

/// A line without the carriage return that a line feed followed.
pub open spec fn line_body(s: Seq<char>, from: int, end: int) -> Seq<char> {
    if from < end < s.len() && s[end - 1] == '\r' {
        s.subrange(from, end - 1)
    } else {
        s.subrange(from, end)
    }
}

/// The lines of `s` from index `from` on. A line ends at a line feed, or at a
/// carriage return and a line feed, or at the end of `s`; what follows the
/// last line feed is a line only if it is not empty.
pub open spec fn lines_from(s: Seq<char>, from: int) -> Seq<Seq<char>>
    decreases s.len() - from,
{
    let end = field_end(s, '\n', from);
    if from >= s.len() {
        Seq::empty()
    } else if from <= end < s.len() {
        seq![line_body(s, from, end)] + lines_from(s, end + 1)
    } else {
        seq![line_body(s, from, end)]
    }
}

/// The lines of `s`.
pub open spec fn lines(s: Seq<char>) -> Seq<Seq<char>> {
    lines_from(s, 0)
}

/// The first index from `from` on at which `s` has white space, or the
/// length of `s`.
pub open spec fn word_end(s: Seq<char>, from: int) -> int
    decreases s.len() - from,
{
    if from >= s.len() || is_space(s[from]) {
        from
    } else {
        word_end(s, from + 1)
    }
}

/// The words of `s` from index `from` on: its longest runs of characters
/// that are not white space.
pub open spec fn words_from(s: Seq<char>, from: int) -> Seq<Seq<char>>
    decreases s.len() - from,
{
    let end = word_end(s, from);
    if from >= s.len() {
        Seq::empty()
    } else if is_space(s[from]) {
        words_from(s, from + 1)
    } else if from < end <= s.len() {
        seq![s.subrange(from, end)] + words_from(s, end)
    } else {
        Seq::empty()
    }
}

/// The words of `s`.
pub open spec fn words(s: Seq<char>) -> Seq<Seq<char>> {
    words_from(s, 0)
}

/// Where a field ends: at a separator or at the end, and not before `from`.
pub proof fn lemma_field_end(s: Seq<char>, sep: char, from: int)
    requires
        0 <= from <= s.len(),
    ensures
        from <= field_end(s, sep, from) <= s.len(),
        field_end(s, sep, from) < s.len() ==> s[field_end(s, sep, from)] == sep,
        forall|j: int| from <= j < field_end(s, sep, from) ==> s[j] != sep,
    decreases s.len() - from,
{
    if from < s.len() && s[from] != sep {
        lemma_field_end(s, sep, from + 1);
    }
}

/// Where a word ends: at white space or at the end, and not before `from`.
pub proof fn lemma_word_end(s: Seq<char>, from: int)
    requires
        0 <= from <= s.len(),
    ensures
        from <= word_end(s, from) <= s.len(),
        word_end(s, from) < s.len() ==> is_space(s[word_end(s, from)]),
        forall|j: int| from <= j < word_end(s, from) ==> !is_space(s[j]),
        from < s.len() && !is_space(s[from]) ==> from < word_end(s, from),
    decreases s.len() - from,
{
    if from < s.len() && !is_space(s[from]) {
        lemma_word_end(s, from + 1);
    }
}

/// A stretch of a vector of characters, from `start` up to `end`.
#[derive(Clone, Copy, Debug, PartialEq, Eq, Structural)]
pub struct Span {
    pub start: usize,
    pub end: usize,
}

impl Span {
    /// The characters of `s` that the span covers.
    pub open spec fn of(self, s: Seq<char>) -> Seq<char> {
        s.subrange(self.start as int, self.end as int)
    }

    /// Whether the span lies within `s`.
    pub open spec fn within(self, s: Seq<char>) -> bool {
        self.start <= self.end <= s.len()
    }
}

/// Whether the spans cover, one by one, the pieces `parts` of `s`.
pub open spec fn spans_cover(spans: Seq<Span>, s: Seq<char>, parts: Seq<Seq<char>>) -> bool {
    &&& spans.len() == parts.len()
    &&& forall|i: int|
        0 <= i < spans.len() ==> (#[trigger] spans[i]).within(s) && spans[i].of(s) == parts[i]
}

/// Whether `c` is ASCII white space.
pub fn char_is_space(c: char) -> (r: bool)
    ensures
        r == is_space(c),
{
    c == ' ' || c == '\t' || c == '\n' || c == '\x0C' || c == '\r'
}

/// The fields that `sep` parts the stretch `within` of `v` into, as spans of
/// `v`.
pub fn split_fields(v: &Vec<char>, within: Span, sep: char) -> (r: Vec<Span>)
    requires
        within.within(v@),
    ensures
        spans_cover(r@, v@, fields(within.of(v@), sep)),
{
    let ghost s = within.of(v@);
    let ghost base = within.start as int;
    let ghost mut done: Seq<Seq<char>> = Seq::empty();
    let mut out: Vec<Span> = Vec::new();
    let mut start: usize = within.start;
    let mut i: usize = within.start;
    loop
        invariant_except_break
            within.start <= start <= i <= within.end,
            field_end(s, sep, start - base) == field_end(s, sep, i - base),
            fields(s, sep) == done + fields_from(s, sep, start - base),
            spans_cover(out@, v@, done),
        invariant
            within.within(v@),
            s == within.of(v@),
            base == within.start,
        ensures
            spans_cover(out@, v@, fields(s, sep)),
        decreases within.end - i,
    {
        proof {
            lemma_field_end(s, sep, i - base);
        }
        let closes: bool = i == within.end || v[i] == sep;
        if closes {
            let span = Span { start, end: i };
            proof {
                if i < within.end {
                    assert(s[i - base] == v@[i as int]);
                }
                let piece = s.subrange(start - base, i - base);
                assert(span.of(v@) =~= piece);
                assert(field_end(s, sep, start - base) == i - base);
                if i < within.end {
                    assert(done.push(piece) + fields_from(s, sep, i + 1 - base) =~= done + (
                    seq![piece] + fields_from(s, sep, i + 1 - base)));
                } else {
                    assert(done.push(piece) =~= done + seq![piece]);
                }
                done = done.push(piece);
            }
            out.push(span);
            if i == within.end {
                break ;
            }
            start = i + 1;
        } else {
            assert(s[i - base] == v@[i as int]);
        }
        i = i + 1;
    }
    out
}

/// The lines of `v`, as spans of `v`.
pub fn split_lines(v: &Vec<char>) -> (r: Vec<Span>)
    ensures
        spans_cover(r@, v@, lines(v@)),
{
    let ghost s = v@;
    let ghost mut done: Seq<Seq<char>> = Seq::empty();
    let n: usize = v.len();
    let mut out: Vec<Span> = Vec::new();
    let mut start: usize = 0;
    let mut i: usize = 0;
    while i < n
        invariant
            n == v@.len(),
            s == v@,
            start <= i <= n,
            field_end(s, '\n', start as int) == field_end(s, '\n', i as int),
            lines(s) == done + lines_from(s, start as int),
            spans_cover(out@, v@, done),
        decreases n - i,
    {
        proof {
            lemma_field_end(s, '\n', i as int);
        }
        if v[i] == '\n' {
            let end: usize = if start < i && v[i - 1] == '\r' {
                i - 1
            } else {
                i
            };
            let span = Span { start, end };
            proof {
                let piece = line_body(s, start as int, i as int);
                assert(span.of(v@) =~= piece);
                assert(field_end(s, '\n', start as int) == i);
                assert(done.push(piece) + lines_from(s, i + 1) =~= done + (seq![piece]
                    + lines_from(s, i + 1)));
                done = done.push(piece);
            }
            out.push(span);
            start = i + 1;
        }
        i = i + 1;
    }
    if start < n {
        let span = Span { start, end: n };
        proof {
            lemma_field_end(s, '\n', n as int);
            let piece = line_body(s, start as int, n as int);
            assert(span.of(v@) =~= piece);
            assert(done.push(piece) =~= done + seq![piece]);
            done = done.push(piece);
        }
        out.push(span);
    } else {
        assert(done =~= done + lines_from(s, start as int));
    }
    out
}

/// The words of the stretch `within` of `v`, as spans of `v`.
pub fn split_words(v: &Vec<char>, within: Span) -> (r: Vec<Span>)
    requires
        within.within(v@),
    ensures
        spans_cover(r@, v@, words(within.of(v@))),
{
    let ghost s = within.of(v@);
    let ghost base = within.start as int;
    let ghost mut done: Seq<Seq<char>> = Seq::empty();
    let mut out: Vec<Span> = Vec::new();
    let mut i: usize = within.start;
    while i < within.end
        invariant
            within.within(v@),
            s == within.of(v@),
            base == within.start,
            within.start <= i <= within.end,
            words(s) == done + words_from(s, i - base),
            spans_cover(out@, v@, done),
        decreases within.end - i,
    {
        assert(s[i - base] == v@[i as int]);
        if char_is_space(v[i]) {
            i = i + 1;
        } else {
            let start: usize = i;
            while i < within.end && !char_is_space(v[i])
                invariant
                    within.within(v@),
                    s == within.of(v@),
                    base == within.start,
                    within.start <= start <= i <= within.end,
                    word_end(s, start - base) == word_end(s, i - base),
                decreases within.end - i,
            {
                assert(s[i - base] == v@[i as int]);
                i = i + 1;
            }
            let span = Span { start, end: i };
            proof {
                lemma_word_end(s, start - base);
                lemma_word_end(s, i - base);
                if i < within.end {
                    assert(s[i - base] == v@[i as int]);
                }
                let piece = s.subrange(start - base, i - base);
                assert(span.of(v@) =~= piece);
                assert(word_end(s, start - base) == i - base);
                assert(done.push(piece) + words_from(s, i - base) =~= done + (seq![piece]
                    + words_from(s, i - base)));
                done = done.push(piece);
            }
            out.push(span);
        }
    }
    assert(done =~= done + words_from(s, i - base));
    out
}

/// Whether the stretch `span` of `v` reads `word`.
pub fn span_is(v: &Vec<char>, span: Span, word: &str) -> (r: bool)
    requires
        span.within(v@),
    ensures
        r == (span.of(v@) == word@),
{
    let w = chars_of(word);
    if w.len() != span.end - span.start {
        return false;
    }
    let mut i: usize = 0;
    while i < w.len()
        invariant
            span.within(v@),
            w@ == word@,
            w.len() == span.end - span.start,
            i <= w.len(),
            forall|j: int| 0 <= j < i ==> v@[span.start + j] == w@[j],
        decreases w.len() - i,
    {
        if v[span.start + i] != w[i] {
            assert(span.of(v@)[i as int] != word@[i as int]);
            return false;
        }
        i = i + 1;
    }
    assert(span.of(v@) =~= word@);
    true
}

/// The lower-case hexadecimal digit that stands for `d`, for `0 <= d <= 15`.
pub open spec fn hex_digit(d: int) -> char {
    if d < 10 {
        digit(d)
    } else if d == 10 {
        'a'
    } else if d == 11 {
        'b'
    } else if d == 12 {
        'c'
    } else if d == 13 {
        'd'
    } else if d == 14 {
        'e'
    } else {
        'f'
    }
}

/// The hexadecimal representation of `n`, without leading zeros.
pub open spec fn hex(n: nat) -> Seq<char>
    decreases n,
{
    if n < 16 {
        seq![hex_digit(n as int)]
    } else {
        hex(n / 16).push(hex_digit((n % 16) as int))
    }
}

/// The last `width` hexadecimal digits of `n`, with zeros in front where
/// `n` has fewer.
pub open spec fn hex_padded(n: nat, width: nat) -> Seq<char>
    decreases width,
{
    if width == 0 {
        Seq::empty()
    } else {
        hex_padded(n / 16, (width - 1) as nat).push(hex_digit((n % 16) as int))
    }
}

/// The one-character string of the hexadecimal digit `d`.
fn hex_digit_str(d: u64) -> (r: &'static str)
    requires
        d < 16,
    ensures
        r@ == seq![hex_digit(d as int)],
{
    proof {
        reveal_strlit("0123456789abcdef");
    }
    let table: &'static str = "0123456789abcdef";
    let r = table.substring_char(d as usize, d as usize + 1);
    assert(r@ =~= seq![hex_digit(d as int)]);
    r
}

/// Appends the hexadecimal representation of `n` to `out`.
pub fn push_hex(out: &mut String, n: u64)
    ensures
        final(out)@ == old(out)@ + hex(n as nat),
    decreases n,
{
    if n >= 16 {
        push_hex(out, n / 16);
    }
    out.append(hex_digit_str(n % 16));
    assert(out@ =~= old(out)@ + hex(n as nat));
}

/// Appends the last `width` hexadecimal digits of `n` to `out`.
pub fn push_hex_padded(out: &mut String, n: u64, width: u8)
    ensures
        final(out)@ == old(out)@ + hex_padded(n as nat, width as nat),
    decreases width,
{
    if width > 0 {
        push_hex_padded(out, n / 16, width - 1);
        out.append(hex_digit_str(n % 16));
    }
    assert(out@ =~= old(out)@ + hex_padded(n as nat, width as nat));
}

/// Whether `s` begins with `prefix`.
pub fn text_starts_with(s: &str, prefix: &str) -> (r: bool)
    ensures
        r == prefix@.is_prefix_of(s@),
{
    let v = chars_of(s);
    let w = chars_of(prefix);
    if w.len() > v.len() {
        return false;
    }
    let span = Span { start: 0, end: w.len() };
    let r = span_is(&v, span, prefix);
    assert(span.of(v@) =~= s@.subrange(0, prefix@.len() as int));
    r
}

/// Whether the two strings hold the same characters.
pub fn same_text(a: &str, b: &str) -> (r: bool)
    ensures
        r == (a@ == b@),
{
    let v = chars_of(a);
    let span = Span { start: 0, end: v.len() };
    assert(span.of(v@) =~= a@);
    span_is(&v, span, b)
}

} // verus!
