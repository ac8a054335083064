//! Text as sequences of characters: line splitting, trimming, and the number formats that
//! messages and challenges use.

use vstd::prelude::*;
use vstd::slice::{slice_subrange, slice_to_vec};
use vstd::utf8::{decode_utf8, encode_scalar, encode_utf8, valid_utf8};

verus! {

// ---- What the standard library is trusted for ----

/// `String::push` appends the given character to the end of the string.
pub assume_specification[ String::push ](s: &mut String, c: char)
    ensures
        final(s)@ == old(s)@.push(c),
;

/// `std::str::from_utf8` gives the text that the bytes encode, and fails exactly on bytes that
/// are not UTF-8.
#[verifier::external_body]
pub(crate) fn text_of_utf8(bytes: &[u8]) -> (text: Option<&str>)
    ensures
        text is Some <==> valid_utf8(bytes@),
        text is Some ==> text->0@ == decode_utf8(bytes@),
{
    std::str::from_utf8(bytes).ok()
}

/// The text that `String::from_utf8_lossy` makes of bytes that are not UTF-8.
pub uninterp spec fn replaced_utf8(bytes: Seq<u8>) -> Seq<char>;

/// Bytes read as UTF-8, with replacement characters where they are not.
pub open spec fn lossy_text(bytes: Seq<u8>) -> Seq<char> {
    if valid_utf8(bytes) {
        decode_utf8(bytes)
    } else {
        replaced_utf8(bytes)
    }
}

/// `String::from_utf8_lossy` reads bytes that are valid UTF-8 as the text they encode, and puts
/// replacement characters into the others. Where those stand is left to the name
/// `replaced_utf8`.
#[verifier::external_body]
pub(crate) fn text_of_utf8_lossy(bytes: &[u8]) -> (text: String)
    ensures
        valid_utf8(bytes@) ==> text@ == decode_utf8(bytes@),
        !valid_utf8(bytes@) ==> text@ == replaced_utf8(bytes@),
{
    String::from_utf8_lossy(bytes).into_owned()
}

// ---- Characters and strings ----

/// The characters of a string slice, in order.
pub fn chars_of(s: &str) -> (chars: Vec<char>)
    ensures
        chars@ == s@,
{
    let mut chars: Vec<char> = Vec::new();
    for c in it: s.chars()
        invariant
            it.seq() == s@,
            chars@ == s@.take(it.index() as int),
    {
        chars.push(c);
        assert(chars@ == s@.take(it.index() as int + 1));
    }
    assert(s@.take(s@.len() as int) == s@);
    chars
}

/// Appends characters to a string.
pub(crate) fn push_chars(out: &mut String, chars: &Vec<char>)
    ensures
        final(out)@ == old(out)@ + chars@,
{
    let ghost start = out@;
    for i in 0..chars.len()
        invariant
            out@ == start + chars@.take(i as int),
    {
        out.push(chars[i]);
        assert(out@ == start + chars@.take(i + 1));
    }
    assert(chars@.take(chars@.len() as int) == chars@);
}

/// The characters from position `from` up to position `to`.
pub(crate) fn range_of(chars: &Vec<char>, from: usize, to: usize) -> (part: Vec<char>)
    requires
        from <= to <= chars@.len(),
    ensures
        part@ == chars@.subrange(from as int, to as int),
{
    slice_to_vec(slice_subrange(chars.as_slice(), from, to))
}

/// Whether two character sequences are the same.
pub(crate) fn same_chars(a: &Vec<char>, b: &Vec<char>) -> (same: bool)
    ensures
        same == (a@ == b@),
{
    if a.len() != b.len() {
        return false;
    }
    for i in 0..a.len()
        invariant
            a@.len() == b@.len(),
            a@.take(i as int) == b@.take(i as int),
    {
        if a[i] != b[i] {
            return false;
        }
        assert(a@.take(i + 1) == a@.take(i as int).push(a@[i as int]));
        assert(b@.take(i + 1) == b@.take(i as int).push(b@[i as int]));
    }
    assert(a@.take(a@.len() as int) == a@);
    assert(b@.take(b@.len() as int) == b@);
    true
}

/// Whether `chars` begins with `prefix`.
pub(crate) fn starts_with(chars: &Vec<char>, prefix: &Vec<char>) -> (yes: bool)
    ensures
        yes == prefix@.is_prefix_of(chars@),
{
    if chars.len() < prefix.len() {
        return false;
    }
    same_chars(&range_of(chars, 0, prefix.len()), prefix)
}

/// The encoding of a text without NUL has no zero byte.
pub proof fn lemma_encoding_has_no_zero(text: Seq<char>)
    requires
        !text.contains('\0'),
    ensures
        forall|i: int| 0 <= i < encode_utf8(text).len() ==> encode_utf8(text)[i] != 0,
    decreases text.len(),
{
    if text.len() > 0 {
        let rest = text.drop_first();
        let scalar: u32 = text[0] as u32;
        assert(text.contains(text[0]));
        vstd::utf8::char_u32_cast(text[0], scalar);
        assert(scalar != 0);
        assert(!rest.contains('\0')) by {
            assert forall|i: int| 0 <= i < rest.len() implies rest[i] != '\0' by {
                assert(rest[i] == text[i + 1]);
                assert(text.contains(text[i + 1]));
            }
        }
        lemma_encoding_has_no_zero(rest);
        assert(scalar != 0 && scalar <= 0x7f ==> (scalar & 0x7f) as u8 != 0) by (bit_vector);
        assert(0xc0 | ((scalar >> 6) & 0x1f) as u8 != 0) by (bit_vector);
        assert(0xe0 | ((scalar >> 12) & 0x0f) as u8 != 0) by (bit_vector);
        assert(0xf0 | ((scalar >> 18) & 0x7) as u8 != 0) by (bit_vector);
        assert(0x80 | (scalar & 0x3f) as u8 != 0) by (bit_vector);
        assert(0x80 | ((scalar >> 6) & 0x3f) as u8 != 0) by (bit_vector);
        assert(0x80 | ((scalar >> 12) & 0x3f) as u8 != 0) by (bit_vector);
        let first = encode_scalar(scalar);
        assert forall|i: int| 0 <= i < encode_utf8(text).len() implies encode_utf8(text)[i] != 0 by {
            if i < first.len() {
                assert(encode_utf8(text)[i] == first[i]);
            } else {
                assert(encode_utf8(text)[i] == encode_utf8(rest)[i - first.len()]);
            }
        }
    }
}

// ---- White space ----

/// The characters with the Unicode property White_Space.
pub open spec fn white_space(c: char) -> bool {
    ||| '\u{9}' <= c <= '\u{d}'
    ||| c == '\u{20}'
    ||| c == '\u{85}'
    ||| c == '\u{a0}'
    ||| c == '\u{1680}'
    ||| '\u{2000}' <= c <= '\u{200a}'
    ||| c == '\u{2028}'
    ||| c == '\u{2029}'
    ||| c == '\u{202f}'
    ||| c == '\u{205f}'
    ||| c == '\u{3000}'
}

/// Tests for the characters with the Unicode property White_Space.
pub fn is_white_space(c: char) -> (yes: bool)
    ensures
        yes == white_space(c),
{
    ('\u{9}' <= c && c <= '\u{d}') || c == '\u{20}' || c == '\u{85}' || c == '\u{a0}' || c
        == '\u{1680}' || ('\u{2000}' <= c && c <= '\u{200a}') || c == '\u{2028}' || c == '\u{2029}'
        || c == '\u{202f}' || c == '\u{205f}' || c == '\u{3000}'
}

/// `s` without the white space at its start.
pub open spec fn trim_start(s: Seq<char>) -> Seq<char>
    decreases s.len(),
{
    if s.len() > 0 && white_space(s[0]) {
        trim_start(s.drop_first())
    } else {
        s
    }
}

/// `s` without the white space at its end.
pub open spec fn trim_end(s: Seq<char>) -> Seq<char>
    decreases s.len(),
{
    if s.len() > 0 && white_space(s.last()) {
        trim_end(s.drop_last())
    } else {
        s
    }
}

/// `s` without the white space at either end.
pub open spec fn trimmed(s: Seq<char>) -> Seq<char> {
    trim_end(trim_start(s))
}

/// Removes the white space at either end.
pub fn trim(chars: &Vec<char>) -> (part: Vec<char>)
    ensures
        part@ == trimmed(chars@),
{
    let mut from: usize = 0;
    assert(chars@.subrange(0, chars@.len() as int) == chars@);
    while from < chars.len() && is_white_space(chars[from])
        invariant
            from <= chars@.len(),
            trim_start(chars@) == trim_start(chars@.subrange(from as int, chars@.len() as int)),
        decreases chars@.len() - from,
    {
        assert(chars@.subrange(from as int, chars@.len() as int).drop_first() == chars@.subrange(
            from + 1,
            chars@.len() as int,
        ));
        from = from + 1;
    }
    let ghost rest = chars@.subrange(from as int, chars@.len() as int);
    assert(trim_start(chars@) == rest);
    let mut to: usize = chars.len();
    while to > from && is_white_space(chars[to - 1])
        invariant
            from <= to <= chars@.len(),
            trimmed(chars@) == trim_end(chars@.subrange(from as int, to as int)),
        decreases to,
    {
        assert(chars@.subrange(from as int, to as int).drop_last() == chars@.subrange(
            from as int,
            to - 1,
        ));
        to = to - 1;
    }
    range_of(chars, from, to)
}

/// Text with no white space at either end is its own trimmed form.
pub proof fn lemma_trimmed_fixed(s: Seq<char>)
    requires
        s.len() > 0 ==> !white_space(s[0]) && !white_space(s.last()),
    ensures
        trimmed(s) == s,
{
}

/// White space before a text does not change its trimmed form.
pub proof fn lemma_trimmed_after_space(c: char, s: Seq<char>)
    requires
        white_space(c),
    ensures
        trimmed(seq![c] + s) == trimmed(s),
{
    assert((seq![c] + s).drop_first() == s);
}

/// White space after a text does not change its trimmed form.
pub proof fn lemma_trimmed_before_space(s: Seq<char>, c: char)
    requires
        white_space(c),
    ensures
        trimmed(s.push(c)) == trimmed(s),
{
    lemma_trim_start_push(s, c);
    let t = trim_start(s);
    if t.len() > 0 {
        assert(t.push(c).drop_last() == t);
    }
}

/// What trimming the start makes of a text with white space after it.
proof fn lemma_trim_start_push(s: Seq<char>, c: char)
    requires
        white_space(c),
    ensures
        trim_start(s).len() > 0 ==> trim_start(s.push(c)) == trim_start(s).push(c),
        trim_start(s).len() == 0 ==> trim_start(s.push(c)) == Seq::<char>::empty(),
    decreases s.len(),
{
    if s.len() == 0 {
        assert(s.push(c).drop_first() == Seq::<char>::empty());
        assert(trim_start(s.push(c).drop_first()) == Seq::<char>::empty());
    } else if white_space(s[0]) {
        assert(s.push(c).drop_first() == s.drop_first().push(c));
        lemma_trim_start_push(s.drop_first(), c);
    }
}

/// Trimming lengthens nothing.
proof fn lemma_trim_lengths(s: Seq<char>)
    ensures
        trim_start(s).len() <= s.len(),
        trim_end(s).len() <= s.len(),
    decreases s.len(),
{
    if s.len() > 0 {
        lemma_trim_lengths(s.drop_first());
        lemma_trim_lengths(s.drop_last());
    }
}

/// A trimmed text has no white space at either end.
pub proof fn lemma_trimmed_ends(s: Seq<char>)
    requires
        trimmed(s) == s,
        s.len() > 0,
    ensures
        !white_space(s[0]),
        !white_space(s.last()),
{
    if white_space(s[0]) {
        lemma_trim_lengths(s.drop_first());
        lemma_trim_lengths(trim_start(s));
    }
    if white_space(s.last()) {
        lemma_trimmed_before_space(s.drop_last(), s.last());
        assert(s.drop_last().push(s.last()) == s);
        lemma_trim_lengths(s.drop_last());
        lemma_trim_lengths(trim_start(s.drop_last()));
    }
}

// ---- Lines ----

/// The position of the first `c` in `s`, or the length of `s` where there is none.
pub open spec fn position(s: Seq<char>, c: char) -> nat
    decreases s.len(),
{
    if s.len() == 0 || s[0] == c {
        0
    } else {
        1 + position(s.drop_first(), c)
    }
}

/// What `position` finds: no earlier `c`, and a `c` where it is not the length.
pub proof fn lemma_position(s: Seq<char>, c: char)
    ensures
        position(s, c) <= s.len(),
        forall|i: int| 0 <= i < position(s, c) ==> s[i] != c,
        position(s, c) < s.len() ==> s[position(s, c) as int] == c,
    decreases s.len(),
{
    if s.len() > 0 && s[0] != c {
        let rest = s.drop_first();
        lemma_position(rest, c);
        assert forall|i: int| 0 <= i < position(s, c) implies s[i] != c by {
            if i > 0 {
                assert(s[i] == rest[i - 1]);
            }
        }
    }
}

/// A place with no earlier `c`, at the end or at a `c`, is the position of the first `c`.
pub proof fn lemma_position_is(s: Seq<char>, c: char, n: int)
    requires
        0 <= n <= s.len(),
        forall|i: int| 0 <= i < n ==> s[i] != c,
        n < s.len() ==> s[n] == c,
    ensures
        position(s, c) == n,
{
    lemma_position(s, c);
    if position(s, c) < n {
        assert(s[position(s, c) as int] != c);
    } else if n < position(s, c) {
        assert(s[n] != c);
    }
}

/// The position of the first `c` at or after `from`, or the length where there is none.
pub(crate) fn find(chars: &Vec<char>, from: usize, c: char) -> (n: usize)
    requires
        from <= chars@.len(),
    ensures
        n == from + position(chars@.skip(from as int), c),
        n <= chars@.len(),
{
    let mut n: usize = from;
    let ghost rest = chars@.skip(from as int);
    while n < chars.len() && chars[n] != c
        invariant
            from <= n <= chars@.len(),
            rest == chars@.skip(from as int),
            forall|i: int| 0 <= i < n - from ==> rest[i] != c,
        decreases chars@.len() - n,
    {
        n = n + 1;
    }
    proof {
        lemma_position_is(rest, c, n - from);
    }
    n
}

/// A terminated line without the carriage return that may stand before the line feed.
pub open spec fn chomped(s: Seq<char>) -> Seq<char> {
    if s.len() > 0 && s.last() == '\r' {
        s.drop_last()
    } else {
        s
    }
}

/// Leaving out the carriage return does not change the trimmed form.
pub proof fn lemma_trimmed_chomped(s: Seq<char>)
    ensures
        trimmed(chomped(s)) == trimmed(s),
{
    if s.len() > 0 && s.last() == '\r' {
        assert(s.drop_last().push('\r') == s);
        lemma_trimmed_before_space(s.drop_last(), '\r');
    }
}

/// The lines of a text. A line ends in a line feed, or a carriage return and a line feed, which
/// are not part of it; the last line may lack its ending.
pub open spec fn lines(s: Seq<char>) -> Seq<Seq<char>>
    decreases s.len(),
{
    let n = position(s, '\n') as int;
    if s.len() == 0 {
        Seq::empty()
    } else if n >= s.len() {
        seq![s]
    } else {
        seq![chomped(s.take(n))] + lines(s.skip(n + 1))
    }
}

/// The character sequences in a vector of vectors.
pub open spec fn views(v: Seq<Vec<char>>) -> Seq<Seq<char>> {
    Seq::new(v.len(), |i: int| v[i]@)
}

/// Splits a text into its lines.
pub fn split_lines(chars: &Vec<char>) -> (out: Vec<Vec<char>>)
    ensures
        views(out@) == lines(chars@),
{
    let mut out: Vec<Vec<char>> = Vec::new();
    let mut from: usize = 0;
    assert(chars@.skip(0) == chars@);
    assert(views(out@) + lines(chars@) == lines(chars@));
    while from < chars.len()
        invariant
            from <= chars@.len(),
            views(out@) + lines(chars@.skip(from as int)) == lines(chars@),
        decreases chars@.len() - from,
    {
        let ghost rest = chars@.skip(from as int);
        let ghost before = out@;
        let end = find(chars, from, '\n');
        if end == chars.len() {
            let line = range_of(chars, from, end);
            assert(line@ == rest);
            out.push(line);
            assert(views(out@) == views(before).push(rest));
            assert(chars@.skip(end as int) == Seq::<char>::empty());
            assert(views(out@) + Seq::<Seq<char>>::empty() == views(before) + lines(rest));
            from = end;
        } else {
            let mut stop: usize = end;
            if end > from && chars[end - 1] == '\r' {
                stop = end - 1;
            }
            let line = range_of(chars, from, stop);
            assert(rest.take(end - from) == chars@.subrange(from as int, end as int));
            assert(line@ == chomped(rest.take(end - from)));
            out.push(line);
            assert(views(out@) == views(before).push(line@));
            assert(rest.skip(end - from + 1) == chars@.skip(end + 1));
            assert(lines(rest) == seq![line@] + lines(chars@.skip(end + 1)));
            assert(views(out@) + lines(chars@.skip(end + 1)) == views(before) + lines(rest));
            from = end + 1;
        }
    }
    assert(chars@.skip(from as int) == Seq::<char>::empty());
    assert(views(out@) + Seq::<Seq<char>>::empty() == views(out@));
    out
}

/// The lines of a text that follows a terminated line are the same as on their own.
pub proof fn lemma_lines_concat(a: Seq<char>, b: Seq<char>)
    requires
        a.len() == 0 || a.last() == '\n',
    ensures
        lines(a + b) == lines(a) + lines(b),
    decreases a.len(),
{
    if a.len() == 0 {
        assert(a + b == b);
        assert(lines(a) + lines(b) == lines(b));
    } else {
        let n = position(a, '\n') as int;
        lemma_position(a, '\n');
        assert(n < a.len()) by {
            if n >= a.len() {
                assert(a[a.len() - 1] != '\n');
            }
        }
        assert forall|i: int| 0 <= i < n implies (a + b)[i] != '\n' by {
            assert((a + b)[i] == a[i]);
        }
        lemma_position_is(a + b, '\n', n);
        assert((a + b).take(n) == a.take(n));
        assert((a + b).skip(n + 1) == a.skip(n + 1) + b);
        lemma_lines_concat(a.skip(n + 1), b);
        let first = seq![chomped(a.take(n))];
        let rest = lines(a.skip(n + 1));
        assert(first + (rest + lines(b)) == (first + rest) + lines(b));
    }
}

/// A terminated line without a line feed in it is one line.
pub proof fn lemma_one_line(line: Seq<char>)
    requires
        !line.contains('\n'),
    ensures
        lines(line.push('\n')) == seq![chomped(line)],
{
    let text = line.push('\n');
    assert forall|i: int| 0 <= i < line.len() implies text[i] != '\n' by {
        assert(line.contains(line[i]));
    }
    lemma_position_is(text, '\n', line.len() as int);
    assert(text.take(line.len() as int) == line);
    let rest = text.skip(line.len() as int + 1);
    assert(rest == Seq::<char>::empty());
    assert(lines(rest) == Seq::<Seq<char>>::empty());
    assert(lines(text) == seq![chomped(line)] + Seq::<Seq<char>>::empty());
}

// ---- Numbers ----

/// The character of a digit below ten.
pub open spec fn decimal_digit(d: nat) -> char {
    (48 + d) as char
}

/// A number in decimal notation, without leading zeros.
pub open spec fn decimal(n: nat) -> Seq<char>
    decreases n,
{
    if n < 10 {
        seq![decimal_digit(n)]
    } else {
        decimal(n / 10).push(decimal_digit(n % 10))
    }
}

/// A signed number in decimal notation: a minus sign before the negative ones.
pub open spec fn signed_decimal(n: int) -> Seq<char> {
    if n < 0 {
        seq!['-'] + decimal((-n) as nat)
    } else {
        decimal(n as nat)
    }
}

/// Appends a number in decimal notation.
fn push_decimal(out: &mut String, n: u64)
    ensures
        final(out)@ == old(out)@ + decimal(n as nat),
    decreases n,
{
    let ghost start = out@;
    let digit: char = (48 + (n % 10) as u8) as char;
    if n >= 10 {
        push_decimal(out, n / 10);
    }
    out.push(digit);
    assert(out@ == start + decimal(n as nat));
}

/// Appends a signed number in decimal notation.
pub(crate) fn push_signed_decimal(out: &mut String, n: i32)
    ensures
        final(out)@ == old(out)@ + signed_decimal(n as int),
{
    let ghost start = out@;
    if n < 0 {
        out.push('-');
        push_decimal(out, (-(n as i64)) as u64);
        assert(out@ == start + signed_decimal(n as int));
    } else {
        push_decimal(out, n as u64);
    }
}

/// The character of a hexadecimal digit, in lower case.
pub open spec fn hex_digit(d: nat) -> char {
    if d < 10 {
        (48 + d) as char
    } else {
        (87 + d) as char
    }
}

/// Two hexadecimal digits for each byte, the high one first.
pub open spec fn hex(bytes: Seq<u8>) -> Seq<char> {
    Seq::new(
        2 * bytes.len(),
        |i: int|
            hex_digit(
                if i % 2 == 0 {
                    (bytes[i / 2] / 16) as nat
                } else {
                    (bytes[i / 2] % 16) as nat
                },
            ),
    )
}

/// The character of a hexadecimal digit below sixteen.
fn hex_char(d: u8) -> (c: char)
    requires
        d < 16,
    ensures
        c == hex_digit(d as nat),
{
    if d < 10 {
        (48 + d) as char
    } else {
        (87 + d) as char
    }
}

/// Appends two hexadecimal digits for each byte.
pub(crate) fn push_hex(out: &mut String, bytes: &[u8])
    ensures
        final(out)@ == old(out)@ + hex(bytes@),
{
    let ghost start = out@;
    for i in 0..bytes.len()
        invariant
            out@ == start + hex(bytes@.take(i as int)),
    {
        out.push(hex_char(bytes[i] / 16));
        out.push(hex_char(bytes[i] % 16));
        assert(out@ == start + hex(bytes@.take(i + 1)));
    }
    assert(bytes@.take(bytes@.len() as int) == bytes@);
}

/// Different digits have different characters.
proof fn lemma_hex_digit_injective(x: nat, y: nat)
    requires
        x < 16,
        y < 16,
        hex_digit(x) == hex_digit(y),
    ensures
        x == y,
{
    assert(hex_digit(x) as nat == if x < 10 { 48 + x } else { 87 + x });
    assert(hex_digit(y) as nat == if y < 10 { 48 + y } else { 87 + y });
}

/// Different bytes have different hexadecimal digits.
pub proof fn lemma_hex_injective(a: Seq<u8>, b: Seq<u8>)
    requires
        hex(a) == hex(b),
    ensures
        a == b,
{
    assert(hex(a).len() == 2 * a.len() && hex(b).len() == 2 * b.len());
    assert forall|i: int| 0 <= i < a.len() implies a[i] == b[i] by {
        assert((2 * i) / 2 == i && (2 * i) % 2 == 0);
        assert((2 * i + 1) / 2 == i && (2 * i + 1) % 2 == 1);
        assert(hex(a)[2 * i] == hex_digit((a[i] / 16) as nat));
        assert(hex(b)[2 * i] == hex_digit((b[i] / 16) as nat));
        assert(hex(a)[2 * i + 1] == hex_digit((a[i] % 16) as nat));
        assert(hex(b)[2 * i + 1] == hex_digit((b[i] % 16) as nat));
        lemma_hex_digit_injective((a[i] / 16) as nat, (b[i] / 16) as nat);
        lemma_hex_digit_injective((a[i] % 16) as nat, (b[i] % 16) as nat);
    }
    assert(a == b);
}

/// A text with every line feed in it turned into a carriage return and a line feed.
pub open spec fn with_crlf(text: Seq<char>) -> Seq<char>
    decreases text.len(),
{
    if text.len() == 0 {
        Seq::empty()
    } else if text[0] == '\n' {
        seq!['\r', '\n'] + with_crlf(text.drop_first())
    } else {
        seq![text[0]] + with_crlf(text.drop_first())
    }
}

/// Up to the first line feed, `with_crlf` changes nothing.
pub proof fn lemma_crlf_after_line(line: Seq<char>, rest: Seq<char>)
    requires
        !line.contains('\n'),
    ensures
        with_crlf(line + rest) == line + with_crlf(rest),
    decreases line.len(),
{
    let text = line + rest;
    if line.len() == 0 {
        assert(text == rest);
        assert(line + with_crlf(rest) == with_crlf(rest));
    } else {
        let tail = line.drop_first();
        assert(line.contains(line[0]));
        assert(!tail.contains('\n')) by {
            assert forall|i: int| 0 <= i < tail.len() implies tail[i] != '\n' by {
                assert(tail[i] == line[i + 1]);
                assert(line.contains(line[i + 1]));
            }
        }
        lemma_crlf_after_line(tail, rest);
        assert(text.drop_first() == tail + rest);
        assert(seq![line[0]] + (tail + with_crlf(rest)) == line + with_crlf(rest));
    }
}

/// A text with a line feed in it is a terminated line and a shorter rest.
pub proof fn lemma_first_line(text: Seq<char>)
    ensures
        ({
            let n = position(text, '\n') as int;
            if n < text.len() {
                &&& !text.take(n).contains('\n')
                &&& text == text.take(n).push('\n') + text.skip(n + 1)
            } else {
                !text.contains('\n')
            }
        }),
{
    lemma_position(text, '\n');
}

// ---- Laws ----

/// The characters that count as white space, one by one.
pub open spec fn white_space_characters() -> Seq<char> {
    seq![
        '\u{9}', '\u{a}', '\u{b}', '\u{c}', '\u{d}', '\u{20}', '\u{85}',
        '\u{a0}', '\u{1680}', '\u{2000}', '\u{2001}', '\u{2002}', '\u{2003}', '\u{2004}',
        '\u{2005}', '\u{2006}', '\u{2007}', '\u{2008}', '\u{2009}', '\u{200a}', '\u{2028}',
        '\u{2029}', '\u{202f}', '\u{205f}', '\u{3000}',
    ]
}

/// White space is these characters and no others.
pub proof fn law_white_space(c: char)
    ensures
        white_space(c) <==> white_space_characters().contains(c),
{
    let all = white_space_characters();
    assert(all.len() == 25);
    if white_space(c) {
        let i: int = if c <= '\u{d}' {
            c as int - 9
        } else if c == '\u{20}' {
            5
        } else if c == '\u{85}' {
            6
        } else if c == '\u{a0}' {
            7
        } else if c == '\u{1680}' {
            8
        } else if c <= '\u{200a}' {
            9 + (c as int - 0x2000)
        } else if c == '\u{2028}' {
            20
        } else if c == '\u{2029}' {
            21
        } else if c == '\u{202f}' {
            22
        } else if c == '\u{205f}' {
            23
        } else {
            24
        };
        assert(all[i] == c);
    }
}

/// Whether all of `s` is white space.
pub open spec fn all_white(s: Seq<char>) -> bool {
    forall|i: int| 0 <= i < s.len() ==> white_space(#[trigger] s[i])
}

/// Whether `s` has no white space at either end.
pub open spec fn bare(s: Seq<char>) -> bool {
    s.len() > 0 ==> !white_space(s[0]) && !white_space(s.last())
}

/// Trimming takes the white space round a text away, however much of it there is, and nothing of
/// the text.
pub proof fn law_trimming(lead: Seq<char>, core: Seq<char>, tail: Seq<char>)
    requires
        all_white(lead),
        bare(core),
        all_white(tail),
    ensures
        trimmed(lead + core + tail) == core,
    decreases lead.len() + tail.len(),
{
    let s = lead + core + tail;
    if lead.len() > 0 {
        let rest = lead.drop_first();
        assert forall|i: int| 0 <= i < rest.len() implies white_space(#[trigger] rest[i]) by {
            assert(rest[i] == lead[i + 1]);
        }
        law_trimming(rest, core, tail);
        assert(white_space(lead[0]));
        assert(s == seq![lead[0]] + (rest + core + tail));
        lemma_trimmed_after_space(lead[0], rest + core + tail);
    } else if tail.len() > 0 {
        let rest = tail.drop_last();
        assert forall|i: int| 0 <= i < rest.len() implies white_space(#[trigger] rest[i]) by {
            assert(rest[i] == tail[i]);
        }
        law_trimming(lead, core, rest);
        assert(white_space(tail[tail.len() - 1]));
        assert(s == (lead + core + rest).push(tail.last()));
        lemma_trimmed_before_space(lead + core + rest, tail.last());
    } else {
        assert(s == core);
        lemma_trimmed_fixed(core);
    }
}

/// Every text is its trimmed form with white space round it.
pub proof fn law_trimming_leaves_white_space(s: Seq<char>)
    ensures
        bare(trimmed(s)),
        exists|lead: Seq<char>, tail: Seq<char>|
            #![trigger all_white(lead), all_white(tail)]
            all_white(lead) && all_white(tail) && s == lead + trimmed(s) + tail,
    decreases s.len(),
{
    let none = Seq::<char>::empty();
    if s.len() == 0 {
        assert(all_white(none));
        assert(s == none + trimmed(s) + none);
    } else if white_space(s[0]) {
        let rest = s.drop_first();
        assert(s == seq![s[0]] + rest);
        lemma_trimmed_after_space(s[0], rest);
        law_trimming_leaves_white_space(rest);
        let (lead, tail) = choose|lead: Seq<char>, tail: Seq<char>|
            #![trigger all_white(lead), all_white(tail)]
            all_white(lead) && all_white(tail) && rest == lead + trimmed(rest) + tail;
        let more = seq![s[0]] + lead;
        assert forall|i: int| 0 <= i < more.len() implies white_space(#[trigger] more[i]) by {
            if i > 0 {
                assert(more[i] == lead[i - 1]);
            }
        }
        assert(all_white(more) && all_white(tail));
        assert(s == more + trimmed(s) + tail);
    } else if white_space(s.last()) {
        let rest = s.drop_last();
        assert(s == rest.push(s.last()));
        lemma_trimmed_before_space(rest, s.last());
        law_trimming_leaves_white_space(rest);
        let (lead, tail) = choose|lead: Seq<char>, tail: Seq<char>|
            #![trigger all_white(lead), all_white(tail)]
            all_white(lead) && all_white(tail) && rest == lead + trimmed(rest) + tail;
        let more = tail.push(s.last());
        assert forall|i: int| 0 <= i < more.len() implies white_space(#[trigger] more[i]) by {
            if i < tail.len() {
                assert(more[i] == tail[i]);
            }
        }
        assert(all_white(lead) && all_white(more));
        assert(s == lead + trimmed(s) + more);
    } else {
        lemma_trimmed_fixed(s);
        assert(all_white(none));
        assert(s == none + trimmed(s) + none);
    }
}

/// A line ends at a line feed, or at a carriage return and a line feed; neither is part of it.
/// What follows is split on its own, and the last line may lack its ending.
pub proof fn law_lines(line: Seq<char>, rest: Seq<char>)
    requires
        !line.contains('\n'),
    ensures
        lines(Seq::empty()) == Seq::<Seq<char>>::empty(),
        line.len() > 0 ==> lines(line) == seq![line],
        lines(line + seq!['\r', '\n'] + rest) == seq![line] + lines(rest),
        !(line.len() > 0 && line.last() == '\r') ==> lines(line + seq!['\n'] + rest) == seq![line]
            + lines(rest),
{
    let ended = line.push('\r');
    assert(!ended.contains('\n')) by {
        if ended.contains('\n') {
            let i = choose|i: int| 0 <= i < ended.len() && ended[i] == '\n';
            assert(line.contains(line[i]));
        }
    }
    assert(line + seq!['\r', '\n'] + rest == ended.push('\n') + rest);
    lemma_lines_concat(ended.push('\n'), rest);
    lemma_one_line(ended);
    assert(chomped(ended) == line);
    assert(line + seq!['\n'] + rest == line.push('\n') + rest);
    lemma_lines_concat(line.push('\n'), rest);
    lemma_one_line(line);
    if line.len() > 0 {
        assert forall|i: int| 0 <= i < line.len() implies line[i] != '\n' by {
            assert(line.contains(line[i]));
        }
        lemma_position_is(line, '\n', line.len() as int);
    }
}

/// The number that a decimal notation stands for.
pub open spec fn decimal_value(digits: Seq<char>) -> int
    decreases digits.len(),
{
    if digits.len() == 0 {
        0
    } else {
        10 * decimal_value(digits.drop_last()) + (digits.last() as int - '0' as int)
    }
}

/// A number in decimal notation is read back: it consists of digits, of which the first is not
/// zero where there are more.
pub proof fn law_decimal_is_read_back(n: nat)
    ensures
        decimal_value(decimal(n)) == n,
        decimal(n).len() > 0,
        forall|i: int| 0 <= i < decimal(n).len() ==> '0' <= #[trigger] decimal(n)[i] <= '9',
        decimal(n).len() > 1 ==> decimal(n)[0] != '0',
    decreases n,
{
    if n < 10 {
        assert(decimal(n).drop_last() == Seq::<char>::empty());
        assert(decimal_value(decimal(n).drop_last()) == 0);
        assert(decimal(n).last() as int == 48 + n);
    } else {
        law_decimal_is_read_back(n / 10);
        let high = decimal(n / 10);
        let digit = decimal_digit(n % 10);
        assert(digit as int == 48 + n % 10);
        assert(decimal(n) == high.push(digit));
        assert(decimal(n).drop_last() == high);
        assert(decimal(n)[0] == high[0]);
        if high.len() == 1 && high[0] == '0' {
            assert(high.drop_last() == Seq::<char>::empty());
            assert(decimal_value(high.drop_last()) == 0);
            assert(decimal_value(high) == 0);
        }
    }
}

/// A negative number has a minus sign before its magnitude, another number none.
pub proof fn law_signed_decimal(n: nat)
    ensures
        signed_decimal(n as int) == decimal(n),
        n > 0 ==> signed_decimal(-(n as int)) == seq!['-'] + decimal(n),
{
}

/// The number that a lower case hexadecimal digit stands for.
pub open spec fn hex_value(c: char) -> int {
    if '0' <= c <= '9' {
        c as int - '0' as int
    } else {
        10 + (c as int - 'a' as int)
    }
}

/// Bytes in hexadecimal notation are read back: each byte is two lower case digits, the high one
/// first.
pub proof fn law_hex_is_read_back(bytes: Seq<u8>)
    ensures
        hex(bytes).len() == 2 * bytes.len(),
        forall|i: int|
            0 <= i < hex(bytes).len() ==> ('0' <= #[trigger] hex(bytes)[i] <= '9' || 'a'
                <= hex(bytes)[i] <= 'f'),
        forall|i: int|
            0 <= i < bytes.len() ==> 16 * hex_value(hex(bytes)[2 * i]) + hex_value(
                hex(bytes)[2 * i + 1],
            ) == #[trigger] bytes[i],
{
    let text = hex(bytes);
    assert forall|i: int| 0 <= i < bytes.len() implies 16 * hex_value(text[2 * i]) + hex_value(
        text[2 * i + 1],
    ) == #[trigger] bytes[i] by {
        let high = (bytes[i] / 16) as nat;
        let low = (bytes[i] % 16) as nat;
        assert((2 * i) / 2 == i && (2 * i) % 2 == 0);
        assert((2 * i + 1) / 2 == i && (2 * i + 1) % 2 == 1);
        assert(text[2 * i] == hex_digit(high) && text[2 * i + 1] == hex_digit(low));
        lemma_hex_digit(high);
        lemma_hex_digit(low);
    }
    assert forall|i: int| 0 <= i < text.len() implies ('0' <= #[trigger] text[i] <= '9' || 'a'
        <= text[i] <= 'f') by {
        let byte = bytes[i / 2];
        lemma_hex_digit((byte / 16) as nat);
        lemma_hex_digit((byte % 16) as nat);
    }
}

proof fn lemma_hex_digit(d: nat)
    requires
        d < 16,
    ensures
        hex_value(hex_digit(d)) == d,
        '0' <= hex_digit(d) <= '9' || 'a' <= hex_digit(d) <= 'f',
{
    assert(hex_digit(d) as nat == if d < 10 {
        48 + d
    } else {
        87 + d
    });
}

} // verus!
