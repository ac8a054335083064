//! PUBLIC KEY documents in PEM: reading the body out of one, and writing it back in the
//! 64-column form of RFC 7468.

use vstd::prelude::*;
use vstd::slice::slice_subrange;
use vstd::string::*;
use vstd::utf8::{decode_utf8, encode_utf8, is_ascii_chars, valid_utf8};

use crate::text::{chars_of, push_chars, split_lines, starts_with, text_of_utf8, trim};
use crate::text::{all_white, bare, chomped, lines, position, trimmed, views, with_crlf};
use crate::text::{law_trimming, lemma_crlf_after_line, lemma_first_line, lemma_lines_concat};
use crate::text::{lemma_one_line, lemma_trimmed_chomped, lemma_trimmed_ends, lemma_trimmed_fixed};

verus! {

/// The number of columns that a body line fills.
pub const COLUMNS: usize = 64;

/// What every encapsulation boundary begins with.
pub open spec fn dashes() -> Seq<char> {
    "-----"@
}

/// The boundary line before the body.
pub open spec fn header() -> Seq<char> {
    "-----BEGIN PUBLIC KEY-----"@
}

/// The boundary line after the body.
pub open spec fn footer() -> Seq<char> {
    "-----END PUBLIC KEY-----"@
}

/// Whether a trimmed line belongs to the body: it is neither blank nor a boundary.
pub open spec fn body_line(line: Seq<char>) -> bool {
    line.len() > 0 && !dashes().is_prefix_of(line)
}

/// What a line of a document adds to the body.
pub open spec fn line_body(line: Seq<char>) -> Seq<char> {
    if body_line(trimmed(line)) {
        trimmed(line)
    } else {
        Seq::empty()
    }
}

/// The body lines among `ls`, trimmed and joined.
pub open spec fn joined_body(ls: Seq<Seq<char>>) -> Seq<char>
    decreases ls.len(),
{
    if ls.len() == 0 {
        Seq::empty()
    } else {
        joined_body(ls.drop_last()) + line_body(ls.last())
    }
}

/// The body of a document, as one line.
pub open spec fn pem_body(pem: Seq<char>) -> Seq<char> {
    joined_body(lines(pem))
}

/// How many lines of 64 columns `len` bytes fill.
pub open spec fn row_count(len: nat) -> nat {
    (len + 63) / 64
}

/// The bytes of line `i`: 64 of them, but for the last line, which has the rest.
pub open spec fn row_bytes(bytes: Seq<u8>, i: int) -> Seq<u8> {
    let to = if 64 * i + 64 <= bytes.len() {
        64 * i + 64
    } else {
        bytes.len() as int
    };
    bytes.subrange(64 * i, to)
}

/// The text of one line's bytes. Bytes that are not UTF-8 on their own, because the line break
/// falls inside a character, are left out.
pub open spec fn row_text(bytes: Seq<u8>) -> Seq<char> {
    if valid_utf8(bytes) {
        decode_utf8(bytes)
    } else {
        Seq::empty()
    }
}

/// The lines that a body is written in.
pub open spec fn rows(body: Seq<char>) -> Seq<Seq<char>> {
    let bytes = encode_utf8(body);
    Seq::new(row_count(bytes.len()), |i: int| row_text(row_bytes(bytes, i)))
}

/// Lines as text, each of them terminated.
pub open spec fn unlines(ls: Seq<Seq<char>>) -> Seq<char>
    decreases ls.len(),
{
    if ls.len() == 0 {
        Seq::empty()
    } else {
        unlines(ls.drop_last()) + ls.last().push('\n')
    }
}

/// The document with the given body: the boundaries, and between them the body in lines of 64
/// columns.
pub open spec fn pem_document(body: Seq<char>) -> Seq<char> {
    header().push('\n') + unlines(rows(body)) + footer().push('\n')
}

/// Writes the PUBLIC KEY document of a base64 body, in lines of 64 columns.
pub fn wrap_public_key_pem(body: &str) -> (pem: String)
    ensures
        pem@ == pem_document(body@),
{
    let mut out: String = "-----BEGIN PUBLIC KEY-----".to_owned();
    out.push('\n');
    let bytes = body.as_bytes();
    let ghost all = rows(body@);
    let ghost start = out@;
    let mut from: usize = 0;
    let ghost mut done: int = 0;
    assert(all.take(0) == Seq::<Seq<char>>::empty());
    while from < bytes.len()
        invariant
            bytes@ == encode_utf8(body@),
            all == rows(body@),
            0 <= done <= all.len(),
            from == if 64 * done <= bytes@.len() { 64 * done } else { bytes@.len() as int },
            from == bytes@.len() ==> done == all.len(),
            out@ == start + unlines(all.take(done)),
        decreases bytes@.len() - from,
    {
        let to: usize = if bytes.len() - from > COLUMNS { from + COLUMNS } else { bytes.len() };
        let row = slice_subrange(bytes, from, to);
        let ghost before = out@;
        match text_of_utf8(row) {
            Some(text) => out.append(text),
            None => (),
        }
        out.push('\n');
        proof {
            assert(row@ == row_bytes(bytes@, done));
            assert(all.take(done + 1).drop_last() == all.take(done));
            assert(out@ == before + all[done].push('\n'));
            assert(out@ == start + unlines(all.take(done + 1)));
            done = done + 1;
        }
        from = to;
    }
    assert(all.take(all.len() as int) == all);
    out.append("-----END PUBLIC KEY-----");
    out.push('\n');
    assert(out@ == pem_document(body@));
    out
}

/// Writes a PUBLIC KEY document again in lines of 64 columns.
///
/// Keys were once written with the whole body on one line, which RFC 7468 does not allow and
/// strict readers refuse. Documents of that form keep working through this function.
pub fn normalize_public_key_pem(pem: &str) -> (out: String)
    ensures
        out@ == pem_document(pem_body(pem@)),
{
    let ls = split_lines(&chars_of(pem));
    let boundary = chars_of("-----");
    let mut body: String = String::new();
    for i in 0..ls.len()
        invariant
            boundary@ == dashes(),
            body@ == joined_body(views(ls@).take(i as int)),
    {
        let line = trim(&ls[i]);
        let ghost before = body@;
        if line.len() > 0 && !starts_with(&line, &boundary) {
            push_chars(&mut body, &line);
        }
        assert(body@ == before + line_body(ls@[i as int]@));
        assert(views(ls@).take(i + 1).drop_last() == views(ls@).take(i as int));
    }
    assert(views(ls@).take(ls@.len() as int) == views(ls@));
    wrap_public_key_pem(body.as_str())
}

// ---- Laws ----

/// Whether a line comes back out of a document as it went in.
pub open spec fn stable_line(line: Seq<char>) -> bool {
    &&& trimmed(line) == line
    &&& body_line(line)
    &&& !line.contains('\n')
}

/// Whether line `i` of a written body is text on its own and comes back out as it went in.
pub open spec fn stable_row(body: Seq<char>, i: int) -> bool {
    valid_utf8(row_bytes(encode_utf8(body), i)) && stable_line(rows(body)[i])
}

/// Whether every line that `body` is written in comes back out as it went in.
pub open spec fn stable_body(body: Seq<char>) -> bool {
    forall|i: int| 0 <= i < rows(body).len() ==> #[trigger] stable_row(body, i)
}

/// The characters of base64 text, the padding among them.
pub open spec fn base64_char(c: char) -> bool {
    ||| 'A' <= c <= 'Z'
    ||| 'a' <= c <= 'z'
    ||| '0' <= c <= '9'
    ||| c == '+'
    ||| c == '/'
    ||| c == '='
}

/// Whether all of `s` is base64 text.
pub open spec fn base64_text(s: Seq<char>) -> bool {
    forall|i: int| 0 <= i < s.len() ==> base64_char(#[trigger] s[i])
}

/// The document with the whole body on one line, as it was once written.
pub open spec fn unwrapped_document(body: Seq<char>) -> Seq<char> {
    header().push('\n') + body.push('\n') + footer().push('\n')
}

/// Lines joined, with nothing between them.
pub open spec fn joined(ls: Seq<Seq<char>>) -> Seq<char>
    decreases ls.len(),
{
    if ls.len() == 0 {
        Seq::empty()
    } else {
        joined(ls.drop_last()) + ls.last()
    }
}

proof fn lemma_encode_concat(a: Seq<char>, b: Seq<char>)
    ensures
        encode_utf8(a + b) == encode_utf8(a) + encode_utf8(b),
    decreases a.len(),
{
    if a.len() == 0 {
        assert(a + b == b);
        assert(encode_utf8(a) + encode_utf8(b) == encode_utf8(b));
    } else {
        assert((a + b).drop_first() == a.drop_first() + b);
        lemma_encode_concat(a.drop_first(), b);
        assert(encode_utf8(a + b) == encode_utf8(a) + encode_utf8(b));
    }
}

proof fn lemma_unlines_ends(ls: Seq<Seq<char>>)
    ensures
        unlines(ls).len() == 0 || unlines(ls).last() == '\n',
{
}

/// Stable lines come back from the text made of them.
proof fn lemma_lines_unlines(ls: Seq<Seq<char>>)
    requires
        forall|i: int| 0 <= i < ls.len() ==> stable_line(#[trigger] ls[i]),
    ensures
        lines(unlines(ls)) == ls,
    decreases ls.len(),
{
    if ls.len() == 0 {
        assert(lines(unlines(ls)) == ls);
    } else {
        let front = ls.drop_last();
        let last = ls.last();
        assert forall|i: int| 0 <= i < front.len() implies stable_line(#[trigger] front[i]) by {
            assert(front[i] == ls[i]);
        }
        assert(stable_line(ls[ls.len() - 1]));
        lemma_lines_unlines(front);
        lemma_unlines_ends(front);
        lemma_lines_concat(unlines(front), last.push('\n'));
        lemma_one_line(last);
        lemma_stable_line_ends(last);
        assert(front + seq![last] == ls);
    }
}

/// A stable line does not end in a carriage return.
proof fn lemma_stable_line_ends(line: Seq<char>)
    requires
        trimmed(line) == line,
    ensures
        chomped(line) == line,
{
    if line.len() > 0 {
        lemma_trimmed_ends(line);
    }
}

proof fn lemma_joined_body_stable(ls: Seq<Seq<char>>)
    requires
        forall|i: int| 0 <= i < ls.len() ==> stable_line(#[trigger] ls[i]),
    ensures
        joined_body(ls) == joined(ls),
    decreases ls.len(),
{
    if ls.len() > 0 {
        let front = ls.drop_last();
        assert forall|i: int| 0 <= i < front.len() implies stable_line(#[trigger] front[i]) by {
            assert(front[i] == ls[i]);
        }
        assert(stable_line(ls[ls.len() - 1]));
        lemma_joined_body_stable(front);
    }
}

proof fn lemma_joined_body_concat(a: Seq<Seq<char>>, b: Seq<Seq<char>>)
    ensures
        joined_body(a + b) == joined_body(a) + joined_body(b),
    decreases b.len(),
{
    if b.len() == 0 {
        assert(a + b == a);
        assert(joined_body(a) + joined_body(b) == joined_body(a));
    } else {
        assert((a + b).drop_last() == a + b.drop_last());
        lemma_joined_body_concat(a, b.drop_last());
        assert(joined_body(a + b) == joined_body(a) + joined_body(b));
    }
}

/// The boundaries are lines of their own, and add nothing to the body.
proof fn lemma_boundaries()
    ensures
        lines(header().push('\n')) == seq![header()],
        lines(footer().push('\n')) == seq![footer()],
        joined_body(seq![header()]) == Seq::<char>::empty(),
        joined_body(seq![footer()]) == Seq::<char>::empty(),
        header().push('\n').last() == '\n',
{
    reveal_strlit("-----");
    reveal_strlit("-----BEGIN PUBLIC KEY-----");
    reveal_strlit("-----END PUBLIC KEY-----");
    assert(!header().contains('\n'));
    assert(!footer().contains('\n'));
    lemma_one_line(header());
    lemma_one_line(footer());
    lemma_trimmed_fixed(header());
    lemma_trimmed_fixed(footer());
    assert(dashes().is_prefix_of(header()));
    assert(dashes().is_prefix_of(footer()));
    let none = Seq::<Seq<char>>::empty();
    assert(joined_body(none) == Seq::<char>::empty());
    assert(seq![header()].drop_last() == none);
    assert(seq![footer()].drop_last() == none);
}

/// The lines and the body of what stands between the boundaries.
proof fn lemma_framed(inner: Seq<char>)
    requires
        inner.len() == 0 || inner.last() == '\n',
    ensures
        lines(header().push('\n') + inner + footer().push('\n')) == seq![header()] + lines(inner)
            + seq![footer()],
        pem_body(header().push('\n') + inner + footer().push('\n')) == pem_body(inner),
{
    lemma_boundaries();
    let top = header().push('\n');
    let end = footer().push('\n');
    lemma_lines_concat(top, inner);
    lemma_lines_concat(top + inner, end);
    lemma_joined_body_concat(seq![header()], lines(inner));
    lemma_joined_body_concat(seq![header()] + lines(inner), seq![footer()]);
    assert(Seq::<char>::empty() + pem_body(inner) + Seq::<char>::empty() == pem_body(inner));
}

/// The lines of a body, joined, are the body again where each of them is text on its own.
proof fn lemma_joined_rows(body: Seq<char>)
    requires
        forall|i: int|
            0 <= i < row_count(encode_utf8(body).len()) ==> valid_utf8(
                #[trigger] row_bytes(encode_utf8(body), i),
            ),
    ensures
        joined(rows(body)) == body,
{
    let bytes = encode_utf8(body);
    let n = rows(body).len() as int;
    lemma_joined_rows_upto(body, n);
    assert(rows(body).take(n) == rows(body));
    assert(bytes.take(bytes.len() as int) == bytes);
    vstd::utf8::encode_utf8_decode_utf8(joined(rows(body)));
    vstd::utf8::encode_utf8_decode_utf8(body);
}

proof fn lemma_joined_rows_upto(body: Seq<char>, n: int)
    requires
        0 <= n <= rows(body).len(),
        forall|i: int|
            0 <= i < row_count(encode_utf8(body).len()) ==> valid_utf8(
                #[trigger] row_bytes(encode_utf8(body), i),
            ),
    ensures
        encode_utf8(joined(rows(body).take(n))) == encode_utf8(body).take(
            if 64 * n <= encode_utf8(body).len() {
                64 * n
            } else {
                encode_utf8(body).len() as int
            },
        ),
    decreases n,
{
    let bytes = encode_utf8(body);
    let ls = rows(body).take(n);
    if n == 0 {
        assert(ls == Seq::<Seq<char>>::empty());
        assert(bytes.take(0) == Seq::<u8>::empty());
        assert(encode_utf8(joined(ls)) == Seq::<u8>::empty());
    } else {
        lemma_joined_rows_upto(body, n - 1);
        assert(ls.drop_last() == rows(body).take(n - 1));
        let row = row_bytes(bytes, n - 1);
        assert(valid_utf8(row));
        assert(ls.last() == decode_utf8(row));
        lemma_encode_concat(joined(ls.drop_last()), ls.last());
        vstd::utf8::decode_utf8_encode_utf8(row);
        assert(bytes.take(64 * (n - 1)) + row == bytes.take(
            if 64 * n <= bytes.len() {
                64 * n
            } else {
                bytes.len() as int
            },
        ));
    }
}

/// The document of a body gives that body back: wrapping loses nothing and adds nothing.
pub proof fn law_document_keeps_body(body: Seq<char>)
    requires
        stable_body(body),
    ensures
        pem_body(pem_document(body)) == body,
{
    let ls = rows(body);
    assert forall|i: int| 0 <= i < ls.len() implies stable_line(#[trigger] ls[i]) by {
        assert(stable_row(body, i));
    }
    lemma_unlines_ends(ls);
    lemma_framed(unlines(ls));
    lemma_lines_unlines(ls);
    lemma_joined_body_stable(ls);
    assert forall|i: int| 0 <= i < row_count(encode_utf8(body).len()) implies valid_utf8(
        #[trigger] row_bytes(encode_utf8(body), i),
    ) by {
        assert(stable_row(body, i));
    }
    lemma_joined_rows(body);
}

/// Normalizing a second time changes nothing.
pub proof fn law_normalizing_twice_is_normalizing_once(pem: Seq<char>)
    requires
        stable_body(pem_body(pem)),
    ensures
        pem_document(pem_body(pem_document(pem_body(pem)))) == pem_document(pem_body(pem)),
{
    law_document_keeps_body(pem_body(pem));
}

/// The characters from `64 * i` on, 64 of them at most.
pub open spec fn columns(body: Seq<char>, i: int) -> Seq<char> {
    let to = if 64 * i + 64 <= body.len() {
        64 * i + 64
    } else {
        body.len() as int
    };
    body.subrange(64 * i, to)
}

/// For base64 text, line `i` holds the characters from `64 * i` on.
proof fn lemma_base64_row(body: Seq<char>, i: int)
    requires
        base64_text(body),
        0 <= i < rows(body).len(),
    ensures
        rows(body).len() == row_count(body.len()),
        valid_utf8(row_bytes(encode_utf8(body), i)),
        rows(body)[i] == columns(body, i),
{
    let bytes = encode_utf8(body);
    assert(is_ascii_chars(body));
    vstd::utf8::is_ascii_chars_encode_utf8(body);
    let part = columns(body, i);
    assert(is_ascii_chars(part));
    vstd::utf8::is_ascii_chars_encode_utf8(part);
    let row = row_bytes(bytes, i);
    assert forall|j: int| 0 <= j < part.len() implies encode_utf8(part)[j] == row[j] by {
        assert(part[j] == body[64 * i + j]);
    }
    assert(encode_utf8(part) == row_bytes(bytes, i));
    vstd::utf8::encode_utf8_valid_utf8(part);
    vstd::utf8::encode_utf8_decode_utf8(part);
}

/// Base64 text on a line of its own comes back out as it went in.
pub proof fn lemma_base64_stable_line(line: Seq<char>)
    requires
        base64_text(line),
        line.len() > 0,
    ensures
        stable_line(line),
{
    assert(base64_char(line[0]) && base64_char(line[line.len() - 1]));
    lemma_trimmed_fixed(line);
    reveal_strlit("-----");
    assert(dashes()[0] == '-');
    if dashes().is_prefix_of(line) {
        assert(line.take(5)[0] == '-');
        assert(false);
    }
}

/// A base64 body is stable, whatever its length.
pub proof fn law_base64_is_stable(body: Seq<char>)
    requires
        base64_text(body),
    ensures
        stable_body(body),
{
    assert forall|i: int| 0 <= i < rows(body).len() implies #[trigger] stable_row(body, i) by {
        lemma_base64_row(body, i);
        let row = rows(body)[i];
        assert(row.len() > 0);
        assert forall|j: int| 0 <= j < row.len() implies base64_char(#[trigger] row[j]) by {
            assert(row[j] == body[64 * i + j]);
        }
        lemma_base64_stable_line(row);
    }
}

/// A document whose base64 body is already in lines of 64 columns is left as it is.
pub proof fn law_wrapped_document_is_unchanged(body: Seq<char>)
    requires
        base64_text(body),
    ensures
        pem_document(pem_body(pem_document(body))) == pem_document(body),
{
    law_base64_is_stable(body);
    law_document_keeps_body(body);
}

/// A document with its body on one line becomes the document with the same body in lines of 64
/// columns.
pub proof fn law_unwrapped_document_is_wrapped(body: Seq<char>)
    requires
        body.len() == 0 || stable_line(body),
    ensures
        pem_document(pem_body(unwrapped_document(body))) == pem_document(body),
{
    let inner = body.push('\n');
    lemma_framed(inner);
    if body.len() == 0 {
        assert(!body.contains('\n'));
        lemma_one_line(body);
        assert(chomped(body) == body);
        assert(trimmed(body) == body);
    } else {
        lemma_one_line(body);
        lemma_stable_line_ends(body);
    }
    assert(line_body(body) == body);
    let none = Seq::<Seq<char>>::empty();
    assert(joined_body(none) == Seq::<char>::empty());
    assert(seq![body].drop_last() == none);
    assert(Seq::<char>::empty() + body == body);
}

/// The body of one line without its ending.
proof fn lemma_one_line_body(line: Seq<char>)
    ensures
        joined_body(seq![line]) == line_body(line),
{
    let none = Seq::<Seq<char>>::empty();
    assert(joined_body(none) == Seq::<char>::empty());
    assert(seq![line].drop_last() == none);
    assert(Seq::<char>::empty() + line_body(line) == line_body(line));
}

/// The body of a text that begins with a terminated line.
proof fn lemma_body_after_line(line: Seq<char>, rest: Seq<char>)
    requires
        !line.contains('\n'),
    ensures
        pem_body(line.push('\n') + rest) == line_body(line) + pem_body(rest),
{
    lemma_lines_concat(line.push('\n'), rest);
    lemma_one_line(line);
    lemma_trimmed_chomped(line);
    lemma_one_line_body(chomped(line));
    lemma_joined_body_concat(seq![chomped(line)], lines(rest));
}

/// Terminating the last line does not change the body.
proof fn lemma_terminated_body(text: Seq<char>)
    ensures
        pem_body(text.push('\n')) == pem_body(text),
    decreases text.len(),
{
    let none = Seq::<char>::empty();
    let n = position(text, '\n') as int;
    lemma_first_line(text);
    if n < text.len() {
        let line = text.take(n);
        let rest = text.skip(n + 1);
        lemma_terminated_body(rest);
        lemma_body_after_line(line, rest);
        lemma_body_after_line(line, rest.push('\n'));
        assert(text.push('\n') == line.push('\n') + rest.push('\n'));
    } else {
        lemma_body_after_line(text, none);
        assert(text.push('\n') + none == text.push('\n'));
        assert(line_body(text) + pem_body(none) == line_body(text));
        if text.len() > 0 {
            lemma_one_line_body(text);
        } else {
            assert(line_body(text) == none);
        }
    }
}

proof fn lemma_crlf_body(text: Seq<char>)
    ensures
        pem_body(with_crlf(text)) == pem_body(text),
    decreases text.len(),
{
    let n = position(text, '\n') as int;
    lemma_first_line(text);
    if n < text.len() {
        let line = text.take(n);
        let rest = text.skip(n + 1);
        let ended = seq!['\n'] + rest;
        assert(text == line + ended);
        assert(ended.drop_first() == rest);
        lemma_crlf_after_line(line, ended);
        assert(with_crlf(text) == line.push('\r').push('\n') + with_crlf(rest));
        assert(!line.push('\r').contains('\n'));
        lemma_crlf_body(rest);
        lemma_body_after_line(line.push('\r'), with_crlf(rest));
        lemma_body_after_line(line, rest);
        lemma_trimmed_chomped(line.push('\r'));
        assert(chomped(line.push('\r')) == line);
    } else {
        let none = Seq::<char>::empty();
        lemma_crlf_after_line(text, none);
        assert(text + none == text);
    }
}

/// Line endings do not matter: a text whose lines end in a carriage return and a line feed is
/// normalized to the same document as one whose lines end in a line feed.
pub proof fn law_line_endings_do_not_matter(text: Seq<char>)
    ensures
        pem_document(pem_body(with_crlf(text))) == pem_document(pem_body(text)),
{
    lemma_crlf_body(text);
}

/// Blank lines and boundary lines do not matter, wherever they stand and whatever a boundary
/// says.
pub proof fn law_blank_and_boundary_lines_do_not_matter(
    before: Seq<char>,
    line: Seq<char>,
    after: Seq<char>,
)
    requires
        before.len() == 0 || before.last() == '\n',
        !line.contains('\n'),
        !body_line(trimmed(line)),
    ensures
        pem_document(pem_body(before + line.push('\n') + after)) == pem_document(
            pem_body(before + after),
        ),
{
    assert(before + line.push('\n') + after == before + (line.push('\n') + after));
    lemma_lines_concat(before, line.push('\n') + after);
    lemma_lines_concat(before, after);
    lemma_joined_body_concat(lines(before), lines(line.push('\n') + after));
    lemma_joined_body_concat(lines(before), lines(after));
    lemma_body_after_line(line, after);
    assert(line_body(line) + pem_body(after) == pem_body(after));
}

/// The boundaries round a text do not matter: framed by them, any text is normalized to the same
/// document as without them.
pub proof fn law_frame_does_not_matter(text: Seq<char>)
    ensures
        pem_document(pem_body(unwrapped_document(text))) == pem_document(pem_body(text)),
        text.len() == 0 || text.last() == '\n' ==> pem_document(
            pem_body(header().push('\n') + text + footer().push('\n')),
        ) == pem_document(pem_body(text)),
{
    lemma_framed(text.push('\n'));
    lemma_terminated_body(text);
    if text.len() == 0 || text.last() == '\n' {
        lemma_framed(text);
    }
}

/// The lines of a document with a base64 body: the header, then the body from left to right in
/// lines of 64 columns, of which only the last may be shorter, then the footer.
pub proof fn law_document_columns(body: Seq<char>)
    requires
        base64_text(body),
    ensures
        lines(pem_document(body)) == seq![header()] + rows(body) + seq![footer()],
        joined(rows(body)) == body,
        forall|i: int| 0 <= i < rows(body).len() ==> #[trigger] rows(body)[i] == columns(body, i),
        forall|i: int|
            0 <= i < rows(body).len() ==> 0 < (#[trigger] rows(body)[i]).len() <= 64,
        forall|i: int| 0 <= i < rows(body).len() - 1 ==> (#[trigger] rows(body)[i]).len() == 64,
{
    assert forall|i: int| 0 <= i < rows(body).len() implies {
        &&& #[trigger] rows(body)[i] == columns(body, i)
        &&& 0 < rows(body)[i].len() <= 64
        &&& i < rows(body).len() - 1 ==> rows(body)[i].len() == 64
    } by {
        lemma_base64_row(body, i);
    }
    law_base64_is_stable(body);
    let ls = rows(body);
    assert forall|i: int| 0 <= i < ls.len() implies stable_line(#[trigger] ls[i]) by {
        assert(stable_row(body, i));
    }
    lemma_unlines_ends(ls);
    lemma_framed(unlines(ls));
    lemma_lines_unlines(ls);
    assert forall|i: int| 0 <= i < row_count(encode_utf8(body).len()) implies valid_utf8(
        #[trigger] row_bytes(encode_utf8(body), i),
    ) by {
        assert(stable_row(body, i));
    }
    lemma_joined_rows(body);
}

/// What is in the body: a line adds what stands on it between white space, unless that begins
/// with five dashes; lines are joined in their order; the last line needs no line feed; and
/// nothing else is in the body.
pub proof fn law_body_is_what_stands_on_its_lines(
    before: Seq<char>,
    lead: Seq<char>,
    core: Seq<char>,
    tail: Seq<char>,
    after: Seq<char>,
)
    requires
        before.len() == 0 || before.last() == '\n',
        all_white(lead),
        bare(core),
        all_white(tail),
        !(lead + core + tail).contains('\n'),
    ensures
        pem_body(Seq::empty()) == Seq::<char>::empty(),
        pem_body(after.push('\n')) == pem_body(after),
        !seq!['-', '-', '-', '-', '-'].is_prefix_of(core) ==> pem_body(
            before + (lead + core + tail).push('\n') + after,
        ) == pem_body(before) + core + pem_body(after),
        seq!['-', '-', '-', '-', '-'].is_prefix_of(core) ==> pem_body(
            before + (lead + core + tail).push('\n') + after,
        ) == pem_body(before) + pem_body(after),
{
    let none = Seq::<char>::empty();
    let line = lead + core + tail;
    reveal_strlit("-----");
    assert(dashes() == seq!['-', '-', '-', '-', '-']);
    assert(lines(none) == Seq::<Seq<char>>::empty());
    lemma_terminated_body(after);
    law_trimming(lead, core, tail);
    assert(before + line.push('\n') + after == before + (line.push('\n') + after));
    lemma_lines_concat(before, line.push('\n') + after);
    lemma_joined_body_concat(lines(before), lines(line.push('\n') + after));
    lemma_body_after_line(line, after);
    assert(pem_body(before) + (core + pem_body(after)) == pem_body(before) + core + pem_body(
        after,
    ));
    assert(none + pem_body(after) == pem_body(after));
    if core.len() == 0 {
        assert(core == none);
    }
}

/// A short body fills one line between the boundaries, and an empty one none.
pub proof fn law_short_body_is_one_line(body: Seq<char>)
    requires
        encode_utf8(body).len() <= 64,
    ensures
        body.len() > 0 ==> pem_document(body) == "-----BEGIN PUBLIC KEY-----\n"@ + body
            + "\n-----END PUBLIC KEY-----\n"@,
        body.len() == 0 ==> pem_document(body)
            == "-----BEGIN PUBLIC KEY-----\n-----END PUBLIC KEY-----\n"@,
{
    lemma_boundary_texts();
    reveal_strlit("-----BEGIN PUBLIC KEY-----\n-----END PUBLIC KEY-----\n");
    let bytes = encode_utf8(body);
    let none = Seq::<Seq<char>>::empty();
    assert(unlines(none) == Seq::<char>::empty());
    if body.len() == 0 {
        reveal_strlit("-----BEGIN PUBLIC KEY-----");
        reveal_strlit("-----END PUBLIC KEY-----");
        assert(bytes == Seq::<u8>::empty());
        assert(rows(body) == none);
        assert(pem_document(body)
            == "-----BEGIN PUBLIC KEY-----\n-----END PUBLIC KEY-----\n"@);
    } else {
        lemma_encoding_length(body);
        assert(row_bytes(bytes, 0) == bytes);
        vstd::utf8::encode_utf8_valid_utf8(body);
        vstd::utf8::encode_utf8_decode_utf8(body);
        assert(rows(body) == seq![body]);
        assert(seq![body].drop_last() == none);
        assert(unlines(rows(body)) == body.push('\n'));
        assert(pem_document(body) == "-----BEGIN PUBLIC KEY-----\n"@ + body
            + "\n-----END PUBLIC KEY-----\n"@);
    }
}

/// A longer body fills a line with its first 64 bytes, and goes on as the rest would on its own.
pub proof fn law_long_body_goes_on(first: Seq<char>, rest: Seq<char>, inner: Seq<char>)
    requires
        encode_utf8(first).len() == 64,
        pem_document(rest) == "-----BEGIN PUBLIC KEY-----\n"@ + inner,
    ensures
        pem_document(first + rest) == "-----BEGIN PUBLIC KEY-----\n"@ + first + seq!['\n'] + inner,
{
    lemma_boundary_texts();
    let a = encode_utf8(first);
    let b = encode_utf8(rest);
    let bytes = encode_utf8(first + rest);
    lemma_encode_concat(first, rest);
    assert(row_bytes(bytes, 0) == a);
    vstd::utf8::encode_utf8_valid_utf8(first);
    vstd::utf8::encode_utf8_decode_utf8(first);
    let all = rows(first + rest);
    assert(all.len() == 1 + rows(rest).len());
    assert forall|i: int| 0 <= i < rows(rest).len() implies all[i + 1] == #[trigger] rows(
        rest,
    )[i] by {
        assert(row_bytes(bytes, i + 1) == row_bytes(b, i));
    }
    assert(all == seq![first] + rows(rest));
    lemma_unlines_first(first, rows(rest));
    let lead = "-----BEGIN PUBLIC KEY-----\n"@;
    let tail = unlines(rows(rest)) + footer().push('\n');
    assert(pem_document(rest) == lead + tail);
    assert(inner == pem_document(rest).skip(lead.len() as int));
    assert(tail == pem_document(rest).skip(lead.len() as int));
    assert(pem_document(first + rest) == lead + first + seq!['\n'] + inner);
}

/// Whether `line` is the text of the bytes of `body` from `64 * i` on, 64 of them at most; or
/// empty, where those bytes are no text on their own.
pub open spec fn holds_bytes(body: Seq<char>, line: Seq<char>, i: int) -> bool {
    let bytes = encode_utf8(body);
    let part = bytes.subrange(
        64 * i,
        if 64 * i + 64 < bytes.len() {
            64 * i + 64
        } else {
            bytes.len() as int
        },
    );
    encode_utf8(line) == if valid_utf8(part) {
        part
    } else {
        Seq::empty()
    }
}

/// Lines one after the other, each with a line feed behind it.
pub open spec fn terminated(ls: Seq<Seq<char>>) -> Seq<char> {
    ls.fold_left(Seq::empty(), |text: Seq<char>, line: Seq<char>| text + line + seq!['\n'])
}

/// The document has a line for every 64 bytes of the body. The line holds the text of its bytes,
/// and nothing where they are no text on their own.
pub proof fn law_document_lines(body: Seq<char>, ls: Seq<Seq<char>>)
    requires
        ls.len() == (encode_utf8(body).len() + 63) / 64,
        forall|i: int| 0 <= i < ls.len() ==> #[trigger] holds_bytes(body, ls[i], i),
    ensures
        pem_document(body) == "-----BEGIN PUBLIC KEY-----\n"@ + terminated(ls)
            + "-----END PUBLIC KEY-----\n"@,
{
    reveal_strlit("-----END PUBLIC KEY-----");
    reveal_strlit("-----END PUBLIC KEY-----\n");
    lemma_boundary_texts();
    assert(footer().push('\n') == "-----END PUBLIC KEY-----\n"@);
    assert forall|i: int| 0 <= i < ls.len() implies ls[i] == #[trigger] rows(body)[i] by {
        assert(holds_bytes(body, ls[i], i));
        vstd::utf8::encode_utf8_decode_utf8(ls[i]);
    }
    assert(ls == rows(body));
    lemma_terminated_is_unlines(ls);
}

proof fn lemma_terminated_is_unlines(ls: Seq<Seq<char>>)
    ensures
        terminated(ls) == unlines(ls),
    decreases ls.len(),
{
    if ls.len() > 0 {
        lemma_terminated_is_unlines(ls.drop_last());
        assert(terminated(ls) == terminated(ls.drop_last()) + ls.last() + seq!['\n']);
        assert(unlines(ls) == unlines(ls.drop_last()) + ls.last() + seq!['\n']);
    }
}

proof fn lemma_boundary_texts()
    ensures
        header().push('\n') == "-----BEGIN PUBLIC KEY-----\n"@,
        seq!['\n'] + footer().push('\n') == "\n-----END PUBLIC KEY-----\n"@,
{
    reveal_strlit("-----BEGIN PUBLIC KEY-----");
    reveal_strlit("-----BEGIN PUBLIC KEY-----\n");
    reveal_strlit("-----END PUBLIC KEY-----");
    reveal_strlit("\n-----END PUBLIC KEY-----\n");
    assert(header().push('\n') == "-----BEGIN PUBLIC KEY-----\n"@);
    assert(seq!['\n'] + footer().push('\n') == "\n-----END PUBLIC KEY-----\n"@);
}

/// A text that is not empty has bytes.
proof fn lemma_encoding_length(text: Seq<char>)
    requires
        text.len() > 0,
    ensures
        encode_utf8(text).len() > 0,
{
}

proof fn lemma_unlines_first(first: Seq<char>, ls: Seq<Seq<char>>)
    ensures
        unlines(seq![first] + ls) == first + seq!['\n'] + unlines(ls),
    decreases ls.len(),
{
    let all = seq![first] + ls;
    if ls.len() == 0 {
        let none = Seq::<Seq<char>>::empty();
        assert(all.drop_last() == none);
        assert(unlines(none) == Seq::<char>::empty());
        assert(unlines(all) == first + seq!['\n'] + unlines(ls));
    } else {
        lemma_unlines_first(first, ls.drop_last());
        assert(all.drop_last() == seq![first] + ls.drop_last());
        assert(unlines(all) == first + seq!['\n'] + unlines(ls));
    }
}

} // verus!
