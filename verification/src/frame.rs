//! The base protocol's framing: each message is a `Content-Length` header,
//! an empty line, then the body of exactly that many bytes.

use vstd::prelude::*;
use vstd::slice::slice_subrange;
use crate::decimal::{decimal_bytes, decimal_value, parse_decimal, write_decimal, lemma_decimal_round_trip};

verus! {

/// The bytes of `Content-Length: `.
pub open spec fn content_length_prefix() -> Seq<u8> {
    seq![67u8, 111, 110, 116, 101, 110, 116, 45, 76, 101, 110, 103, 116, 104, 58, 32]
}

/// The line terminator `\r\n`.
pub open spec fn crlf() -> Seq<u8> {
    seq![13u8, 10]
}

/// The header line that announces a body of `len` bytes.
pub open spec fn content_length_line(len: nat) -> Seq<u8> {
    content_length_prefix() + decimal_bytes(len) + crlf()
}

/// The header block of a message whose body has `len` bytes: the
/// `Content-Length` line followed by the empty line.
pub open spec fn frame_header(len: nat) -> Seq<u8> {
    content_length_line(len) + crlf()
}

/// A whole framed message.
pub open spec fn lsp_frame(body: Seq<u8>) -> Seq<u8> {
    frame_header(body.len()) + body
}

/// What one header line is, as far as a reader of messages is concerned.
#[derive(PartialEq, Eq, Structural, Debug, Clone, Copy)]
pub enum HeaderLine {
    /// The empty line that closes the header block.
    End,
    /// A `Content-Length` line with the body length it announces.
    ContentLength(usize),
    /// Any other header field, such as `Content-Type`.
    Other,
    /// A line that is not terminated by `\r\n`, or a `Content-Length` line
    /// whose value is not a decimal number that fits in a `usize`.
    Malformed,
}

/// Whether `line` ends with `\r\n`.
pub open spec fn ends_with_crlf(line: Seq<u8>) -> bool {
    line.len() >= 2 && line.subrange(line.len() - 2, line.len() as int) == crlf()
}

/// Whether `s` begins with `p`.
pub open spec fn has_prefix(s: Seq<u8>, p: Seq<u8>) -> bool {
    p.len() <= s.len() && s.take(p.len() as int) == p
}

/// How a reader classifies one header line (terminator included).
pub open spec fn header_line_kind(line: Seq<u8>) -> HeaderLine {
    if line == crlf() {
        HeaderLine::End
    } else if !ends_with_crlf(line) {
        HeaderLine::Malformed
    } else if has_prefix(line, content_length_prefix()) {
        match decimal_value(line.subrange(content_length_prefix().len() as int, line.len() - 2)) {
            Some(n) => HeaderLine::ContentLength(n),
            None => HeaderLine::Malformed,
        }
    } else {
        HeaderLine::Other
    }
}

fn push_content_length_prefix(out: &mut Vec<u8>)
    ensures
        final(out)@ == old(out)@ + content_length_prefix(),
{
    let prefix: [u8; 16] = [67, 111, 110, 116, 101, 110, 116, 45, 76, 101, 110, 103, 116, 104, 58, 32];
    out.extend_from_slice(&prefix);
    proof {
        assert(prefix@ =~= content_length_prefix());
        assert(final(out)@ =~= old(out)@ + content_length_prefix());
    }
}

fn push_crlf(out: &mut Vec<u8>)
    ensures
        final(out)@ == old(out)@ + crlf(),
{
    out.push(13);
    out.push(10);
    proof {
        assert(final(out)@ =~= old(out)@ + crlf());
    }
}

/// Frames a message body: `Content-Length: <byte length>\r\n\r\n<body>`.
pub fn prepare_lsp_json(body: &[u8]) -> (r: Vec<u8>)
    ensures
        r@ == lsp_frame(body@),
{
    let mut out: Vec<u8> = Vec::new();
    push_content_length_prefix(&mut out);
    write_decimal(body.len(), &mut out);
    push_crlf(&mut out);
    push_crlf(&mut out);
    out.extend_from_slice(body);
    proof {
        assert(out@ =~= lsp_frame(body@));
    }
    out
}

fn starts_with_content_length(line: &[u8]) -> (r: bool)
    ensures
        r == has_prefix(line@, content_length_prefix()),
{
    let prefix: [u8; 16] = [67, 111, 110, 116, 101, 110, 116, 45, 76, 101, 110, 103, 116, 104, 58, 32];
    assert(prefix@ =~= content_length_prefix());
    if line.len() < 16 {
        return false;
    }
    let mut i: usize = 0;
    while i < 16
        invariant
            i <= 16,
            16 <= line@.len(),
            prefix@ == content_length_prefix(),
            forall|j: int| 0 <= j < i ==> line@[j] == prefix@[j],
        decreases 16 - i,
    {
        if line[i] != prefix[i] {
            assert(line@.take(16)[i as int] != content_length_prefix()[i as int]);
            return false;
        }
        i = i + 1;
    }
    assert(line@.take(16) =~= content_length_prefix());
    true
}

/// Classifies one header line, terminator included.
pub fn parse_header_line(line: &[u8]) -> (r: HeaderLine)
    ensures
        r == header_line_kind(line@),
{
    let n = line.len();
    if n == 2 && line[0] == 13 && line[1] == 10 {
        assert(line@ =~= crlf());
        return HeaderLine::End;
    }
    assert(line@ != crlf());
    if n < 2 || line[n - 2] != 13 || line[n - 1] != 10 {
        proof {
            if n >= 2 {
                let t = line@.subrange(n - 2, n as int);
                assert(t[0] == line@[n - 2]);
                assert(t[1] == line@[n - 1]);
            }
        }
        return HeaderLine::Malformed;
    }
    assert(line@.subrange(n - 2, n as int) =~= crlf());
    if starts_with_content_length(line) {
        let digits = slice_subrange(line, 16, n - 2);
        match parse_decimal(digits) {
            Some(v) => HeaderLine::ContentLength(v),
            None => HeaderLine::Malformed,
        }
    } else {
        HeaderLine::Other
    }
}

/// Where a reader of a header block stands after one more line.
#[derive(PartialEq, Eq, Structural, Debug, Clone, Copy)]
pub enum HeaderStep {
    /// Read on; the `Content-Length` seen so far, if any.
    Continue(Option<usize>),
    /// The block is over; the body has this many bytes.
    Body(usize),
    /// The block is over without a `Content-Length` line.
    MissingLength,
    /// The line is malformed.
    Malformed,
}

/// The reader's next position: the closing empty line ends the block with
/// the length seen so far, a `Content-Length` line replaces it (the last
/// one counts), other header fields leave it, a malformed line stops.
pub open spec fn header_step_spec(length: Option<usize>, line: Seq<u8>) -> HeaderStep {
    match header_line_kind(line) {
        HeaderLine::End => match length {
            Some(n) => HeaderStep::Body(n),
            None => HeaderStep::MissingLength,
        },
        HeaderLine::ContentLength(n) => HeaderStep::Continue(Some(n)),
        HeaderLine::Other => HeaderStep::Continue(length),
        HeaderLine::Malformed => HeaderStep::Malformed,
    }
}

/// Reads one more header line, given the `Content-Length` seen so far.
pub fn header_step(length: Option<usize>, line: &[u8]) -> (r: HeaderStep)
    ensures
        r == header_step_spec(length, line@),
        header_line_kind(line@) == HeaderLine::Other ==> r == HeaderStep::Continue(length),
{
    match parse_header_line(line) {
        HeaderLine::End => match length {
            Some(n) => HeaderStep::Body(n),
            None => HeaderStep::MissingLength,
        },
        HeaderLine::ContentLength(n) => HeaderStep::Continue(Some(n)),
        HeaderLine::Other => HeaderStep::Continue(length),
        HeaderLine::Malformed => HeaderStep::Malformed,
    }
}

/// A header field other than `Content-Length` never moves the reader: for
/// every length seen so far (none included) and every line that ends with
/// `\r\n`, is not the empty line, and does not start with `Content-Length: `,
/// the reader goes on with the same length.
pub proof fn lemma_other_field_keeps_length(length: Option<usize>, line: Seq<u8>)
    requires
        line.len() > 2,
        line[line.len() - 2] == 13u8,
        line[line.len() - 1] == 10u8,
        !(line.len() >= 16 && line.take(16) == seq![67u8, 111, 110, 116, 101, 110, 116, 45, 76, 101, 110, 103, 116, 104, 58, 32]),
    ensures
        header_step_spec(length, line) == HeaderStep::Continue(length),
{
    assert(line.subrange(line.len() - 2, line.len() as int) =~= crlf());
    assert(line != crlf());
}

/// Where a reader that starts with `length` stands after the lines of a
/// header block, one after another: it goes on while each line lets it, and
/// stops at the first line that ends the block or is malformed.
pub open spec fn header_block_outcome(length: Option<usize>, lines: Seq<Seq<u8>>) -> HeaderStep
    decreases lines.len(),
{
    if lines.len() == 0 {
        HeaderStep::Continue(length)
    } else {
        match header_step_spec(length, lines[0]) {
            HeaderStep::Continue(next) => header_block_outcome(next, lines.drop_first()),
            stop => stop,
        }
    }
}

/// Where another header field stands in a block does not matter: a block of
/// that field, a `Content-Length` line and the empty line, in either order
/// of the first two, gives a body of the announced length to a reader that
/// starts with no length.
pub proof fn lemma_field_order_irrelevant(line: Seq<u8>, n: usize)
    requires
        line.len() > 2,
        line[line.len() - 2] == 13u8,
        line[line.len() - 1] == 10u8,
        !(line.len() >= 16 && line.take(16) == seq![67u8, 111, 110, 116, 101, 110, 116, 45, 76, 101, 110, 103, 116, 104, 58, 32]),
    ensures
        header_block_outcome(None, seq![line, content_length_line(n as nat), crlf()])
            == HeaderStep::Body(n),
        header_block_outcome(None, seq![content_length_line(n as nat), line, crlf()])
            == HeaderStep::Body(n),
{
    lemma_other_field_keeps_length(None, line);
    lemma_other_field_keeps_length(Some(n), line);
    lemma_length_line_and_end(None, n);
    lemma_length_line_and_end(Some(n), n);
    let a = seq![line, content_length_line(n as nat), crlf()];
    let b = seq![content_length_line(n as nat), line, crlf()];
    assert(crlf() =~= seq![13u8, 10]);
    assert(a.drop_first() =~= seq![content_length_line(n as nat), crlf()]);
    assert(a.drop_first().drop_first() =~= seq![crlf()]);
    assert(a.drop_first().drop_first().drop_first() =~= Seq::<Seq<u8>>::empty());
    assert(b.drop_first() =~= seq![line, crlf()]);
    assert(b.drop_first().drop_first() =~= seq![crlf()]);
    assert(b.drop_first().drop_first().drop_first() =~= Seq::<Seq<u8>>::empty());
    reveal_with_fuel(header_block_outcome, 4);
}

/// A `Content-Length` line sets the length, whatever was seen before; the
/// empty line ends the block with the length seen, or with no length.
pub proof fn lemma_length_line_and_end(length: Option<usize>, n: usize)
    ensures
        header_step_spec(length, content_length_line(n as nat)) == HeaderStep::Continue(Some(n)),
        header_step_spec(length, seq![13u8, 10]) == match length {
            Some(m) => HeaderStep::Body(m),
            None => HeaderStep::MissingLength,
        },
{
    lemma_decimal_round_trip(n);
    let line = content_length_line(n as nat);
    assert(line.len() > 2);
    assert(line.subrange(line.len() - 2, line.len() as int) =~= crlf());
    assert(line.take(16) =~= content_length_prefix());
    assert(line.subrange(16, line.len() - 2) =~= decimal_bytes(n as nat));
    assert(seq![13u8, 10] =~= crlf());
}

/// A framed message is, byte for byte, `Content-Length: `, the decimal
/// length of the body in bytes, `\r\n\r\n`, and the body itself.
pub proof fn lemma_frame_bytes(body: Seq<u8>)
    ensures
        lsp_frame(body) == seq![67u8, 111, 110, 116, 101, 110, 116, 45, 76, 101, 110, 103, 116, 104, 58, 32]
            + decimal_bytes(body.len()) + seq![13u8, 10, 13, 10] + body,
        lsp_frame(body).len() == 20 + decimal_bytes(body.len()).len() + body.len(),
{
    assert(lsp_frame(body) =~= seq![67u8, 111, 110, 116, 101, 110, 116, 45, 76, 101, 110, 103, 116, 104, 58, 32]
        + decimal_bytes(body.len()) + seq![13u8, 10, 13, 10] + body);
}

/// The header block that `prepare_lsp_json` writes reads back, line by line, as a
/// `Content-Length` line announcing the body's length and then the closing
/// empty line, so that a reader that starts with no length ends the block
/// knowing that the body has the body's length.
pub proof fn lemma_frame_header_reads_back(body: Seq<u8>)
    requires
        body.len() <= usize::MAX,
    ensures
        lsp_frame(body) == content_length_line(body.len()) + crlf() + body,
        header_line_kind(content_length_line(body.len())) == HeaderLine::ContentLength(
            body.len() as usize,
        ),
        header_line_kind(crlf()) == HeaderLine::End,
        header_step_spec(None, content_length_line(body.len())) == HeaderStep::Continue(
            Some(body.len() as usize),
        ),
        header_step_spec(Some(body.len() as usize), crlf()) == HeaderStep::Body(
            body.len() as usize,
        ),
{
    let n = body.len() as usize;
    lemma_decimal_round_trip(n);
    let line = content_length_line(n as nat);
    assert(line != crlf()) by {
        assert(line.len() > 2);
    }
    assert(line.subrange(line.len() - 2, line.len() as int) =~= crlf());
    assert(line.take(16) =~= content_length_prefix());
    assert(line.subrange(16, line.len() - 2) =~= decimal_bytes(n as nat));
}

} // verus!
