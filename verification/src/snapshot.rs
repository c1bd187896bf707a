//! The snapshot that a primary sends to a replica at a full resync: an
//! opaque blob, kept as base64 text, and its framing on the wire.

use vstd::prelude::*;
use vstd::string::*;
use base64::Engine;
use crate::frame::{lemma_first_line, lemma_header_single_line};
use crate::text::{
    crlf, crlf_at, decimal, find_crlf, is_digit, lemma_decimal_value, lemma_find_crlf_hit,
    lemma_find_crlf_miss, parse_decimal, parsed_decimal, push_bytes, push_crlf, push_decimal,
    to_wire, wire_bytes,
};

verus! {

/// The error of the base64 decoder. Nothing is read from it.
#[verifier::external_type_specification]
#[verifier::external_body]
pub struct ExDecodeError(base64::DecodeError);

/// The bytes that `text` stands for in base64 with the standard alphabet and
/// canonical padding, or `None` where `text` is no such encoding.
pub uninterp spec fn standard_base64(text: Seq<char>) -> Option<Seq<u8>>;

/// `Engine::decode` of `base64::prelude::BASE64_STANDARD`: decodes a whole
/// text into a new vector. The result depends on the text alone, so it is
/// named by `standard_base64`; nothing more is claimed of it.
#[verifier::external_body]
fn base64_decode(text: &str) -> (res: Result<Vec<u8>, base64::DecodeError>)
    ensures
        match res {
            Ok(bytes) => standard_base64(text@) == Some(bytes@),
            Err(_) => standard_base64(text@) is None,
        },
{
    base64::prelude::BASE64_STANDARD.decode(text)
}

/// Why no snapshot could be had.
#[derive(Debug, Clone, Copy, PartialEq, Eq, Structural)]
pub enum SnapshotError {
    /// The stored text is not base64.
    Malformed,
}

/// The snapshot of an empty store, as base64 text.
pub const EMPTY_RDB: &'static str =
    "UkVESVMwMDEx+glyZWRpcy12ZXIFNy4yLjD6CnJlZGlzLWJpdHPAQPoFY3RpbWXCbQi8ZfoIdXNlZC1tZW3CsMQQAPoIYW9mLWJhc2XAAP/wbjv+wP9aog==";

/// What `decode_snapshot` returns for `text`.
pub open spec fn decoded_snapshot(text: Seq<char>) -> Result<Seq<u8>, SnapshotError> {
    match standard_base64(text) {
        Some(bytes) => Ok(bytes),
        None => Err(SnapshotError::Malformed),
    }
}

/// The outcome of decoding a snapshot, as mathematical values.
pub open spec fn snapshot_view(res: Result<Vec<u8>, SnapshotError>) -> Result<
    Seq<u8>,
    SnapshotError,
> {
    match res {
        Ok(bytes) => Ok(bytes@),
        Err(e) => Err(e),
    }
}

/// Decodes a snapshot kept as base64 text.
pub fn decode_snapshot(text: &str) -> (res: Result<Vec<u8>, SnapshotError>)
    ensures
        snapshot_view(res) == decoded_snapshot(text@),
{
    match base64_decode(text) {
        Ok(bytes) => Ok(bytes),
        Err(_) => Err(SnapshotError::Malformed),
    }
}

/// A snapshot on the wire: `$`, its length in bytes, a terminator, and the
/// bytes. No terminator follows the bytes: by this a replica tells the
/// snapshot from a length-prefixed text.
pub open spec fn rdb_frame(content: Seq<u8>) -> Seq<u8> {
    wire_bytes(seq!['$'] + decimal(content.len()) + crlf()) + content
}

/// Frames a snapshot for the wire.
pub fn frame_rdb(content: &Vec<u8>) -> (out: Vec<u8>)
    ensures
        out@ == rdb_frame(content@),
{
    let mut header = String::new();
    header.push('$');
    push_decimal(&mut header, content.len() as u64);
    push_crlf(&mut header);
    proof {
        assert(header@ =~= seq!['$'] + decimal(content@.len()) + crlf());
    }
    let mut out = to_wire(header.as_str());
    push_bytes(&mut out, content);
    out
}

/// The characters that stand for the bytes, one for each byte.
pub open spec fn byte_chars(bytes: Seq<u8>) -> Seq<char> {
    Seq::new(bytes.len(), |i: int| bytes[i] as char)
}

/// How much of a snapshot has come.
#[derive(Debug, Clone, Copy, PartialEq, Eq, Structural)]
pub enum Receipt {
    /// The header, or some of the bytes that it announces, is still to come.
    Partial,
    /// The header has come, and all the bytes that it announces.
    Complete,
    /// What has come does not begin as a snapshot does.
    Invalid,
}

/// How much of a snapshot the bytes `received` hold. A snapshot begins with
/// `$`, its length in decimal and a terminator; it is complete once as many
/// bytes as the length says follow the terminator.
pub open spec fn receipt(received: Seq<u8>) -> Receipt {
    let text = byte_chars(received);
    let end = find_crlf(text, 0);
    if text.len() == 0 {
        Receipt::Partial
    } else if text[0] != '$' {
        Receipt::Invalid
    } else if end >= text.len() {
        Receipt::Partial
    } else {
        match parsed_decimal(text.subrange(1, end)) {
            Some(n) => if received.len() >= end + 2 + n {
                Receipt::Complete
            } else {
                Receipt::Partial
            },
            None => Receipt::Invalid,
        }
    }
}

fn header_end(received: &Vec<u8>) -> (end: usize)
    ensures
        end == find_crlf(byte_chars(received@), 0),
        end <= received@.len(),
        end < received@.len() ==> crlf_at(byte_chars(received@), end as int),
{
    let ghost text = byte_chars(received@);
    let n = received.len();
    let mut i: usize = 0;
    while n >= 2 && i <= n - 2
        invariant
            i <= n,
            n == received@.len(),
            text == byte_chars(received@),
            forall|j: int| 0 <= j < i ==> !crlf_at(text, j),
        decreases n - i,
    {
        if received[i] as char == '\r' && received[i + 1] as char == '\n' {
            proof {
                assert(crlf_at(text, i as int));
                lemma_find_crlf_hit(text, 0, i as int);
            }
            return i;
        }
        proof {
            assert(!crlf_at(text, i as int));
        }
        i += 1;
    }
    proof {
        lemma_find_crlf_miss(text, 0);
    }
    n
}

/// Length of the first line of `bytes` with its terminator, or of all of
/// `bytes` where they hold no terminator.
pub open spec fn line_cut(bytes: Seq<u8>) -> int {
    let end = find_crlf(byte_chars(bytes), 0);
    if end < bytes.len() {
        end + 2
    } else {
        bytes.len() as int
    }
}

/// Length of the first line of `bytes` with its terminator.
pub fn first_line_len(bytes: &Vec<u8>) -> (cut: usize)
    ensures
        cut == line_cut(bytes@),
        cut <= bytes@.len(),
{
    let end = header_end(bytes);
    if end < bytes.len() {
        end + 2
    } else {
        bytes.len()
    }
}

/// Says how much of a snapshot has come.
pub fn receive_rdb(received: &Vec<u8>) -> (res: Receipt)
    ensures
        res == receipt(received@),
{
    let ghost text = byte_chars(received@);
    let n = received.len();
    if n == 0 {
        return Receipt::Partial;
    }
    if received[0] as char != '$' {
        return Receipt::Invalid;
    }
    let end = header_end(received);
    if end >= n {
        return Receipt::Partial;
    }
    proof {
        assert(crlf_at(text, end as int));
        assert(text[0] == '$');
    }
    let mut digits: Vec<char> = Vec::new();
    let mut i: usize = 1;
    while i < end
        invariant
            1 <= i <= end < n,
            n == received@.len(),
            text == byte_chars(received@),
            digits@ == text.subrange(1, i as int),
        decreases end - i,
    {
        digits.push(received[i] as char);
        i += 1;
        proof {
            assert(digits@ =~= text.subrange(1, i as int));
        }
    }
    match parse_decimal(&digits) {
        Some(length) => {
            if (n - end - 2) as u64 >= length {
                Receipt::Complete
            } else {
                Receipt::Partial
            }
        },
        None => Receipt::Invalid,
    }
}

/// The characters of a framed snapshot: its header line, a terminator, and
/// one character for each byte of the content.
proof fn lemma_frame_chars(content: Seq<u8>)
    ensures
        byte_chars(rdb_frame(content)) == seq!['$'] + decimal(content.len()) + crlf() + byte_chars(
            content,
        ),
{
    let n = content.len();
    let header = seq!['$'] + decimal(n);
    let line = header + crlf();
    let frame = rdb_frame(content);
    lemma_decimal_value(n);
    assert(vstd::utf8::is_ascii_chars(line)) by {
        assert forall|i: int| 0 <= i < line.len() implies '\0' <= #[trigger] line[i] <= '\u{7f}' by {
            if 1 <= i < header.len() {
                assert(is_digit(decimal(n)[i - 1]));
            }
        }
    }
    vstd::utf8::is_ascii_chars_encode_utf8(line);
    assert(line =~= seq!['$'] + decimal(n) + crlf());
    let text = byte_chars(frame);
    let expected = header + crlf() + byte_chars(content);
    assert(text.len() == line.len() + content.len());
    assert forall|i: int| 0 <= i < text.len() implies text[i] == expected[i] by {
        if i < line.len() {
            assert(frame[i] == wire_bytes(line)[i]);
            assert(wire_bytes(line)[i] == line[i] as u8);
        }
    }
    assert(text =~= expected);
}

/// A framed snapshot, once it has come in full, is seen as complete; as long
/// as bytes of it are still to come, it is seen as partial.
pub proof fn lemma_receipt_of_frame(content: Seq<u8>, come: int)
    requires
        content.len() <= u64::MAX,
        0 <= come <= rdb_frame(content).len(),
    ensures
        receipt(rdb_frame(content)) == Receipt::Complete,
        come < rdb_frame(content).len() ==> receipt(rdb_frame(content).take(come))
            == Receipt::Partial,
{
    let n = content.len();
    let header = seq!['$'] + decimal(n);
    let frame = rdb_frame(content);
    let text = byte_chars(frame);
    let h = header.len() as int;
    lemma_decimal_value(n);
    lemma_header_single_line('$', n);
    lemma_frame_chars(content);
    lemma_first_line(header, byte_chars(content));
    assert(text.subrange(1, h) =~= decimal(n));
    assert(frame.len() == h + 2 + n);
    if come < frame.len() {
        let part = frame.take(come);
        let seen = byte_chars(part);
        assert(seen =~= text.take(come));
        if come == 0 {
        } else if come < h + 2 {
            assert(seen[0] == '$');
            assert forall|j: int| 0 <= j implies !crlf_at(seen, j) by {
                if crlf_at(seen, j) {
                    if j + 1 < h {
                        assert(crlf_at(header, j));
                    } else {
                        assert(seen[j + 1] == '\r');
                    }
                }
            }
            lemma_find_crlf_miss(seen, 0);
        } else {
            let rest = byte_chars(content).take(come - h - 2);
            assert(seen =~= header + crlf() + rest);
            lemma_first_line(header, rest);
            assert(seen.subrange(1, h) =~= decimal(n));
        }
    }
}

} // verus!
