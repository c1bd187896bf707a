//! Text primitives of the wire protocol: the line terminator, decimal
//! numbers, and the splitting of a text into lines.

use vstd::prelude::*;
use vstd::string::*;

verus! {

/// The two-character line terminator.
pub open spec fn crlf() -> Seq<char> {
    seq!['\r', '\n']
}

/// Number of bytes that `s` takes on the wire.
pub open spec fn byte_len(s: Seq<char>) -> nat {
    vstd::utf8::encode_utf8(s).len()
}

/// The bytes that `s` takes on the wire.
pub open spec fn wire_bytes(s: Seq<char>) -> Seq<u8> {
    vstd::utf8::encode_utf8(s)
}

/// The views of a sequence of owned strings.
pub open spec fn views(v: Seq<String>) -> Seq<Seq<char>> {
    Seq::new(v.len(), |i: int| v[i]@)
}

/// The views of a sequence of string slices.
pub open spec fn str_views(v: Seq<&str>) -> Seq<Seq<char>> {
    Seq::new(v.len(), |i: int| v[i]@)
}

/// `String::push` appends one character at the end of the string and leaves
/// the characters before it unchanged.
pub assume_specification[ String::push ](s: &mut String, ch: char)
    ensures
        final(s)@ == old(s)@.push(ch),
;

/// The text that `bytes` stand for in UTF-8, where each malformed sequence
/// reads as the replacement character.
pub uninterp spec fn utf8_lossy(bytes: Seq<u8>) -> Seq<char>;

/// `String::from_utf8_lossy`: the text of the bytes, with the replacement
/// character in place of what is not UTF-8. Bytes that are UTF-8 give the
/// text that they encode. The text depends on the bytes alone, and is named
/// by `utf8_lossy`.
#[verifier::external_body]
pub(crate) fn lossy_text(bytes: &Vec<u8>) -> (text: String)
    ensures
        text@ == utf8_lossy(bytes@),
        vstd::utf8::valid_utf8(bytes@) ==> text@ == vstd::utf8::decode_utf8(bytes@),
{
    String::from_utf8_lossy(bytes).into_owned()
}

/// The character that stands for the digit `d`.
pub open spec fn digit_char(d: int) -> char {
    if d == 0 {
        '0'
    } else if d == 1 {
        '1'
    } else if d == 2 {
        '2'
    } else if d == 3 {
        '3'
    } else if d == 4 {
        '4'
    } else if d == 5 {
        '5'
    } else if d == 6 {
        '6'
    } else if d == 7 {
        '7'
    } else if d == 8 {
        '8'
    } else {
        '9'
    }
}

/// Whether `c` is one of the ten decimal digits.
pub open spec fn is_digit(c: char) -> bool {
    '0' <= c && c <= '9'
}

/// The value of the decimal digit `c`.
pub open spec fn digit_value(c: char) -> int {
    c as int - '0' as int
}

/// Decimal notation of `n`, without sign or leading zeros.
pub open spec fn decimal(n: nat) -> Seq<char>
    decreases n,
{
    if n < 10 {
        seq![digit_char(n as int)]
    } else {
        decimal(n / 10).push(digit_char((n % 10) as int))
    }
}

/// The number that a sequence of decimal digits denotes.
pub open spec fn digits_value(s: Seq<char>) -> nat
    decreases s.len(),
{
    if s.len() == 0 {
        0
    } else {
        (digits_value(s.drop_last()) * 10 + digit_value(s.last())) as nat
    }
}

/// Whether every character of `s` is a decimal digit.
pub open spec fn all_digits(s: Seq<char>) -> bool {
    forall|i: int| 0 <= i < s.len() ==> is_digit(#[trigger] s[i])
}

/// What `parse_decimal` returns: the number that `s` denotes, where `s` is a
/// non-empty run of digits whose value fits in 64 bits.
pub open spec fn parsed_decimal(s: Seq<char>) -> Option<u64> {
    if s.len() > 0 && all_digits(s) && digits_value(s) <= u64::MAX {
        Some(digits_value(s) as u64)
    } else {
        None
    }
}

/// Position of the first space of `s` at or after `from`, or the length of
/// `s` where there is none.
pub open spec fn find_space(s: Seq<char>, from: int) -> int
    decreases s.len() - from,
{
    if from < 0 || from >= s.len() {
        s.len() as int
    } else if s[from] == ' ' {
        from
    } else {
        find_space(s, from + 1)
    }
}

/// The first space is at `k` when one stands there and none before.
pub proof fn lemma_find_space_hit(s: Seq<char>, from: int, k: int)
    requires
        0 <= from <= k < s.len(),
        s[k] == ' ',
        forall|j: int| from <= j < k ==> s[j] != ' ',
    ensures
        find_space(s, from) == k,
    decreases k - from,
{
    if from < k {
        lemma_find_space_hit(s, from + 1, k);
    }
}

/// Position of the first space of `chars` at or after `from`, or its length.
pub fn space_from(chars: &Vec<char>, from: usize) -> (at: usize)
    requires
        from <= chars@.len(),
    ensures
        at == find_space(chars@, from as int),
        from <= at <= chars@.len(),
{
    let mut i: usize = from;
    while i < chars.len()
        invariant
            from <= i <= chars@.len(),
            find_space(chars@, from as int) == find_space(chars@, i as int),
        decreases chars@.len() - i,
    {
        if chars[i] == ' ' {
            return i;
        }
        i += 1;
    }
    i
}

/// Whether the line terminator stands at position `i` of `s`.
pub open spec fn crlf_at(s: Seq<char>, i: int) -> bool {
    0 <= i && i + 1 < s.len() && s[i] == '\r' && s[i + 1] == '\n'
}

/// Position of the first line terminator of `s` at or after `from`, or the
/// length of `s` where there is none.
pub open spec fn find_crlf(s: Seq<char>, from: int) -> int
    decreases s.len() - from,
{
    if from < 0 || from >= s.len() {
        s.len() as int
    } else if crlf_at(s, from) {
        from
    } else {
        find_crlf(s, from + 1)
    }
}

/// The pieces of `s` between its line terminators, taken from the left. A
/// text without terminator is one line; a text that ends in a terminator has
/// an empty last line.
pub open spec fn split_lines(s: Seq<char>) -> Seq<Seq<char>>
    decreases s.len(),
{
    let i = find_crlf(s, 0);
    if 0 <= i && i + 2 <= s.len() {
        seq![s.take(i)] + split_lines(s.skip(i + 2))
    } else {
        seq![s]
    }
}

/// A line that carries content: not empty, and not a length or count header.
pub open spec fn is_token(line: Seq<char>) -> bool {
    line.len() > 0 && line[0] != '$' && line[0] != '*'
}

/// The lines that carry content, in order.
pub open spec fn tokens(lines: Seq<Seq<char>>) -> Seq<Seq<char>>
    decreases lines.len(),
{
    if lines.len() == 0 {
        Seq::empty()
    } else if is_token(lines.last()) {
        tokens(lines.drop_last()).push(lines.last())
    } else {
        tokens(lines.drop_last())
    }
}

/// The first terminator is at `k` when one stands there and none before.
pub proof fn lemma_find_crlf_hit(s: Seq<char>, from: int, k: int)
    requires
        0 <= from <= k,
        crlf_at(s, k),
        forall|j: int| from <= j < k ==> !crlf_at(s, j),
    ensures
        find_crlf(s, from) == k,
    decreases k - from,
{
    if from < k {
        lemma_find_crlf_hit(s, from + 1, k);
    }
}

/// Without a terminator at or after `from`, the search ends at the length.
pub proof fn lemma_find_crlf_miss(s: Seq<char>, from: int)
    requires
        0 <= from,
        forall|j: int| from <= j ==> !crlf_at(s, j),
    ensures
        find_crlf(s, from) == s.len(),
    decreases s.len() - from,
{
    if from < s.len() {
        lemma_find_crlf_miss(s, from + 1);
    }
}

/// A text without a line terminator inside it.
pub open spec fn single_line(s: Seq<char>) -> bool {
    forall|j: int| !crlf_at(s, j)
}

/// The first terminator of a single line followed by a terminator is the
/// one that follows it.
pub proof fn lemma_find_crlf_after_line(a: Seq<char>, rest: Seq<char>)
    requires
        single_line(a),
    ensures
        find_crlf(a + crlf() + rest, 0) == a.len(),
        (a + crlf() + rest).take(a.len() as int) == a,
        (a + crlf() + rest).skip(a.len() as int + 2) == rest,
{
    let s = a + crlf() + rest;
    let k = a.len() as int;
    assert(crlf_at(s, k));
    assert forall|j: int| 0 <= j < k implies !crlf_at(s, j) by {
        if crlf_at(s, j) {
            if j + 1 < k {
                assert(crlf_at(a, j));
            } else {
                assert(s[j + 1] == '\r');
            }
        }
    }
    lemma_find_crlf_hit(s, 0, k);
    assert(s.take(k) =~= a);
    assert(s.skip(k + 2) =~= rest);
}

/// Splitting a text that starts with a single line and a terminator gives
/// that line and then the lines of the rest.
pub proof fn lemma_split_lines_first(a: Seq<char>, rest: Seq<char>)
    requires
        single_line(a),
    ensures
        split_lines(a + crlf() + rest) == seq![a] + split_lines(rest),
{
    lemma_find_crlf_after_line(a, rest);
}

/// The content lines of two runs of lines, one after the other.
pub proof fn lemma_tokens_add(a: Seq<Seq<char>>, b: Seq<Seq<char>>)
    ensures
        tokens(a + b) == tokens(a) + tokens(b),
    decreases b.len(),
{
    if b.len() == 0 {
        assert(a + b =~= a);
        assert(tokens(a) + tokens(b) =~= tokens(a));
    } else {
        lemma_tokens_add(a, b.drop_last());
        assert((a + b).drop_last() =~= a + b.drop_last());
        assert((a + b).last() == b.last());
        if is_token(b.last()) {
            assert(tokens(a + b) =~= tokens(a) + tokens(b));
        }
    }
}

fn digit(d: usize) -> (c: char)
    requires
        d < 10,
    ensures
        c == digit_char(d as int),
{
    if d == 0 {
        '0'
    } else if d == 1 {
        '1'
    } else if d == 2 {
        '2'
    } else if d == 3 {
        '3'
    } else if d == 4 {
        '4'
    } else if d == 5 {
        '5'
    } else if d == 6 {
        '6'
    } else if d == 7 {
        '7'
    } else if d == 8 {
        '8'
    } else {
        '9'
    }
}

/// Appends the decimal notation of `n` to `out`.
pub fn push_decimal(out: &mut String, n: u64)
    ensures
        final(out)@ == old(out)@ + decimal(n as nat),
    decreases n,
{
    if n >= 10 {
        push_decimal(out, n / 10);
    }
    out.push(digit((n % 10) as usize));
    assert(out@ =~= old(out)@ + decimal(n as nat));
}

/// Number of bytes that `s` takes on the wire.
pub fn wire_len(s: &str) -> (n: u64)
    ensures
        n == byte_len(s@),
{
    s.as_bytes().len() as u64
}

/// The bytes that `s` takes on the wire.
pub fn to_wire(s: &str) -> (bytes: Vec<u8>)
    ensures
        bytes@ == wire_bytes(s@),
{
    s.as_bytes_vec()
}

/// The bytes `bytes[from..to]`.
pub fn bytes_of(bytes: &Vec<u8>, from: usize, to: usize) -> (out: Vec<u8>)
    requires
        from <= to <= bytes@.len(),
    ensures
        out@ == bytes@.subrange(from as int, to as int),
{
    let mut out: Vec<u8> = Vec::new();
    let mut i: usize = from;
    while i < to
        invariant
            from <= i <= to <= bytes@.len(),
            out@ == bytes@.subrange(from as int, i as int),
        decreases to - i,
    {
        out.push(bytes[i]);
        i += 1;
        assert(out@ =~= bytes@.subrange(from as int, i as int));
    }
    out
}

/// Appends the bytes of `more` to `out`.
pub fn push_bytes(out: &mut Vec<u8>, more: &Vec<u8>)
    ensures
        final(out)@ == old(out)@ + more@,
{
    let mut i: usize = 0;
    while i < more.len()
        invariant
            i <= more@.len(),
            out@ == old(out)@ + more@.take(i as int),
        decreases more@.len() - i,
    {
        out.push(more[i]);
        i += 1;
        assert(out@ =~= old(out)@ + more@.take(i as int));
    }
    assert(more@.take(i as int) =~= more@);
}

/// Appends the line terminator to `out`.
pub fn push_crlf(out: &mut String)
    ensures
        final(out)@ == old(out)@ + crlf(),
{
    out.push('\r');
    out.push('\n');
    assert(out@ =~= old(out)@ + crlf());
}

/// The characters of `s`, one by one.
pub fn to_chars(s: &str) -> (out: Vec<char>)
    ensures
        out@ == s@,
{
    let mut out: Vec<char> = Vec::new();
    for c in it: s.chars()
        invariant
            it.seq() == s@,
            out@ == s@.take(it.index() as int),
    {
        out.push(c);
    }
    out
}

/// The string made of `chars[from..to]`.
pub fn string_of(chars: &Vec<char>, from: usize, to: usize) -> (out: String)
    requires
        from <= to <= chars@.len(),
    ensures
        out@ == chars@.subrange(from as int, to as int),
{
    let mut out = String::new();
    let mut i: usize = from;
    while i < to
        invariant
            from <= i <= to <= chars@.len(),
            out@ == chars@.subrange(from as int, i as int),
        decreases to - i,
    {
        out.push(chars[i]);
        i += 1;
        assert(out@ =~= chars@.subrange(from as int, i as int));
    }
    out
}

/// Decimal notation denotes the number that it was written for.
pub proof fn lemma_decimal_value(n: nat)
    ensures
        decimal(n).len() > 0,
        all_digits(decimal(n)),
        digits_value(decimal(n)) == n,
    decreases n,
{
    if n >= 10 {
        lemma_decimal_value(n / 10);
        let d = decimal(n);
        assert(d.drop_last() =~= decimal(n / 10));
        assert(d.last() == digit_char((n % 10) as int));
    } else {
        let d = decimal(n);
        assert(d.drop_last() =~= Seq::<char>::empty());
        assert(digits_value(d.drop_last()) == 0);
    }
}

proof fn lemma_digits_value_prefix(s: Seq<char>, k: int)
    requires
        all_digits(s),
        0 <= k <= s.len(),
    ensures
        digits_value(s.take(k)) <= digits_value(s),
    decreases s.len(),
{
    if k < s.len() {
        let t = s.drop_last();
        assert(all_digits(t));
        lemma_digits_value_prefix(t, k);
        assert(t.take(k) =~= s.take(k));
        assert(is_digit(s.last()));
    } else {
        assert(s.take(k) =~= s);
    }
}

/// Reads an unsigned decimal number: digits only, at least one, no sign.
pub fn parse_decimal(chars: &Vec<char>) -> (res: Option<u64>)
    ensures
        res == parsed_decimal(chars@),
{
    if chars.len() == 0 {
        return None;
    }
    let mut value: u64 = 0;
    let mut i: usize = 0;
    while i < chars.len()
        invariant
            i <= chars@.len(),
            all_digits(chars@.take(i as int)),
            value == digits_value(chars@.take(i as int)),
        decreases chars@.len() - i,
    {
        let c = chars[i];
        let ghost before = chars@.take(i as int);
        let ghost after = chars@.take(i as int + 1);
        proof {
            assert(after.drop_last() =~= before);
            assert(after.last() == c);
        }
        if !('0' <= c && c <= '9') {
            proof {
                assert(!is_digit(chars@[i as int]));
            }
            return None;
        }
        let d: u64 = (c as u32 - '0' as u32) as u64;
        proof {
            assert forall|j: int| 0 <= j < after.len() implies is_digit(#[trigger] after[j]) by {
                if j < i {
                    assert(after[j] == before[j]);
                }
            }
        }
        let next = match value.checked_mul(10) {
            Some(tens) => tens.checked_add(d),
            None => None,
        };
        match next {
            Some(v) => {
                value = v;
            },
            None => {
                proof {
                    assert(digits_value(after) > u64::MAX);
                    if all_digits(chars@) {
                        lemma_digits_value_prefix(chars@, i as int + 1);
                    }
                }
                return None;
            },
        }
        i += 1;
    }
    proof {
        assert(chars@.take(i as int) =~= chars@);
    }
    Some(value)
}

} // verus!
