//! Frames: the typed values that travel over a connection, their text on the
//! wire, and the lenient reading of a received text.

use vstd::prelude::*;
use vstd::string::*;
use crate::text::{
    byte_len, crlf, crlf_at, decimal, find_crlf, is_digit, is_token, lemma_decimal_value,
    lemma_find_crlf_after_line, lemma_find_crlf_hit, lemma_find_crlf_miss,
    lemma_split_lines_first, lemma_tokens_add, single_line, split_lines, str_views, string_of,
    to_chars, tokens, views,
};
use crate::{
    bulk_string, bulk_strings, get_words, make_bulk_string, make_null_bulk_string,
    make_resp_array, make_simple_string, null_bulk_string, resp_array, simple_string,
};

verus! {

/// One self-delimited protocol value.
#[derive(Debug)]
pub enum Frame {
    /// A short status text.
    SimpleString(String),
    /// A length-prefixed text.
    BulkString(String),
    /// The absent value.
    NullBulkString,
    /// An ordered list of texts, each sent length-prefixed.
    Array(Vec<String>),
}

/// What a frame holds, as mathematical values.
pub enum FrameView {
    SimpleString(Seq<char>),
    BulkString(Seq<char>),
    NullBulkString,
    Array(Seq<Seq<char>>),
}

impl View for Frame {
    type V = FrameView;

    open spec fn view(&self) -> FrameView {
        match self {
            Frame::SimpleString(s) => FrameView::SimpleString(s@),
            Frame::BulkString(s) => FrameView::BulkString(s@),
            Frame::NullBulkString => FrameView::NullBulkString,
            Frame::Array(items) => FrameView::Array(views(items@)),
        }
    }
}

/// The text of a frame on the wire.
pub open spec fn encoding(frame: FrameView) -> Seq<char> {
    match frame {
        FrameView::SimpleString(s) => simple_string(s),
        FrameView::BulkString(s) => bulk_string(s),
        FrameView::NullBulkString => null_bulk_string(),
        FrameView::Array(items) => resp_array(items),
    }
}

/// The first line of `s`: what stands before its first line terminator, or
/// all of `s` where it has none.
pub open spec fn first_line(s: Seq<char>) -> Seq<char> {
    s.take(find_crlf(s, 0))
}

/// What follows the first line terminator of `s`.
pub open spec fn after_first_line(s: Seq<char>) -> Seq<char> {
    let i = find_crlf(s, 0);
    if i + 2 <= s.len() {
        s.skip(i + 2)
    } else {
        Seq::empty()
    }
}

/// `s` without the line terminator at its end, if it ends in one.
pub open spec fn without_final_crlf(s: Seq<char>) -> Seq<char> {
    if s.len() >= 2 && crlf_at(s, s.len() - 2) {
        s.take(s.len() - 2)
    } else {
        s
    }
}

/// The header line of the absent value.
pub open spec fn null_header() -> Seq<char> {
    seq!['$', '-', '1']
}

/// The frame that a received text stands for. The first character decides:
/// `+` gives the rest of the first line as a status text; `$` gives the
/// absent value where the first line is `$-1`, and else what follows the
/// first line, without its final terminator, as a length-prefixed text; `*`
/// gives the content lines as an array. Any other text, the empty one too,
/// is absent content.
pub open spec fn decoding(s: Seq<char>) -> FrameView {
    if s.len() == 0 {
        FrameView::NullBulkString
    } else if s[0] == '+' {
        FrameView::SimpleString(first_line(s).skip(1))
    } else if s[0] == '$' {
        if first_line(s) == null_header() {
            FrameView::NullBulkString
        } else {
            FrameView::BulkString(without_final_crlf(after_first_line(s)))
        }
    } else if s[0] == '*' {
        FrameView::Array(tokens(split_lines(s)))
    } else {
        FrameView::NullBulkString
    }
}

/// The frames that come back unchanged from the wire: a status text is a
/// single line, and each item of an array is a content line.
pub open spec fn round_trips(frame: FrameView) -> bool {
    match frame {
        FrameView::SimpleString(s) => single_line(s),
        FrameView::BulkString(_) => true,
        FrameView::NullBulkString => true,
        FrameView::Array(items) => forall|i: int|
            0 <= i < items.len() ==> is_token(#[trigger] items[i]) && single_line(items[i]),
    }
}

/// A tag character followed by a decimal number is a single line.
pub proof fn lemma_header_single_line(tag: char, n: nat)
    requires
        tag != '\r',
    ensures
        single_line(seq![tag] + decimal(n)),
        (seq![tag] + decimal(n)).len() >= 2,
        is_digit((seq![tag] + decimal(n))[1]),
{
    lemma_decimal_value(n);
    let h = seq![tag] + decimal(n);
    assert forall|j: int| !crlf_at(h, j) by {
        if crlf_at(h, j) {
            if j == 0 {
            } else {
                assert(is_digit(decimal(n)[j - 1]));
            }
        }
    }
    assert(h[1] == decimal(n)[0]);
}

/// The first line of a single line followed by a terminator is that line,
/// and what follows is the rest.
pub proof fn lemma_first_line(a: Seq<char>, rest: Seq<char>)
    requires
        single_line(a),
    ensures
        find_crlf(a + crlf() + rest, 0) == a.len(),
        first_line(a + crlf() + rest) == a,
        after_first_line(a + crlf() + rest) == rest,
{
    lemma_find_crlf_after_line(a, rest);
}

/// The text of a run of words begins with the text of its first word.
proof fn lemma_bulk_strings_front(w: Seq<char>, rest: Seq<Seq<char>>)
    ensures
        bulk_strings(seq![w] + rest) == bulk_string(w) + bulk_strings(rest),
    decreases rest.len(),
{
    let all = seq![w] + rest;
    if rest.len() == 0 {
        assert(all.drop_last() =~= Seq::<Seq<char>>::empty());
        assert(bulk_strings(all.drop_last()) =~= Seq::<char>::empty());
        assert(all.last() == w);
        assert(bulk_strings(all) =~= bulk_string(w));
        assert(bulk_string(w) + bulk_strings(rest) =~= bulk_string(w));
    } else {
        lemma_bulk_strings_front(w, rest.drop_last());
        assert(all.drop_last() =~= seq![w] + rest.drop_last());
        assert(all.last() == rest.last());
        assert(bulk_strings(all) =~= bulk_string(w) + bulk_strings(rest));
    }
}

/// The content lines of the text of a run of words are the words.
proof fn lemma_tokens_of_bulk_strings(words: Seq<Seq<char>>)
    requires
        forall|i: int| 0 <= i < words.len() ==> is_token(#[trigger] words[i]) && single_line(words[i]),
    ensures
        tokens(split_lines(bulk_strings(words))) == words,
    decreases words.len(),
{
    if words.len() == 0 {
        let e = Seq::<char>::empty();
        assert(bulk_strings(words) =~= e);
        lemma_find_crlf_miss(e, 0);
        assert(split_lines(e) =~= seq![e]);
        lemma_tokens_one(e);
        assert(tokens(seq![e]) =~= words);
    } else {
        let w = words[0];
        let rest = words.drop_first();
        assert(words =~= seq![w] + rest);
        lemma_bulk_strings_front(w, rest);
        lemma_tokens_of_bulk_strings(rest);
        let header = seq!['$'] + decimal(byte_len(w));
        let tail = bulk_strings(rest);
        lemma_header_single_line('$', byte_len(w));
        assert(bulk_strings(words) =~= header + crlf() + (w + crlf() + tail));
        lemma_split_lines_first(header, w + crlf() + tail);
        lemma_split_lines_first(w, tail);
        let lines = seq![header] + (seq![w] + split_lines(tail));
        assert(split_lines(bulk_strings(words)) == lines);
        lemma_tokens_add(seq![header], seq![w] + split_lines(tail));
        lemma_tokens_add(seq![w], split_lines(tail));
        lemma_tokens_one(header);
        lemma_tokens_one(w);
        assert(tokens(lines) =~= words);
    }
}

/// The content lines of a single line.
proof fn lemma_tokens_one(line: Seq<char>)
    ensures
        tokens(seq![line]) == (if is_token(line) {
            seq![line]
        } else {
            Seq::empty()
        }),
{
    assert(seq![line].drop_last() =~= Seq::<Seq<char>>::empty());
    assert(tokens(seq![line].drop_last()) =~= Seq::<Seq<char>>::empty());
    if is_token(line) {
        assert(tokens(seq![line]) =~= seq![line]);
    }
}

/// The content lines of an array frame's text are its items.
pub proof fn lemma_words_of_array(words: Seq<Seq<char>>)
    requires
        forall|i: int| 0 <= i < words.len() ==> is_token(#[trigger] words[i]) && single_line(words[i]),
    ensures
        tokens(split_lines(resp_array(words))) == words,
{
    let header = seq!['*'] + decimal(words.len());
    let body = bulk_strings(words);
    lemma_header_single_line('*', words.len());
    assert(resp_array(words) =~= header + crlf() + body);
    lemma_split_lines_first(header, body);
    lemma_tokens_add(seq![header], split_lines(body));
    lemma_tokens_one(header);
    lemma_tokens_of_bulk_strings(words);
    assert(tokens(seq![header]) + tokens(split_lines(body)) =~= words);
}

/// Round trip: the text of a frame, read back, is the frame. It holds of
/// every length-prefixed text and of the absent value, of a status text that
/// is a single line, and of an array whose items are content lines.
pub proof fn lemma_decode_encode(frame: FrameView)
    requires
        round_trips(frame),
    ensures
        decoding(encoding(frame)) == frame,
{
    match frame {
        FrameView::SimpleString(s) => {
            let a = seq!['+'] + s;
            assert forall|j: int| !crlf_at(a, j) by {
                if crlf_at(a, j) {
                    assert(crlf_at(s, j - 1));
                }
            }
            let e = Seq::<char>::empty();
            assert(simple_string(s) =~= a + crlf() + e);
            lemma_first_line(a, e);
            assert(a.skip(1) =~= s);
        },
        FrameView::BulkString(s) => {
            let header = seq!['$'] + decimal(byte_len(s));
            lemma_header_single_line('$', byte_len(s));
            assert(bulk_string(s) =~= header + crlf() + (s + crlf()));
            lemma_first_line(header, s + crlf());
            assert(header[1] != '-');
            assert(null_header()[1] == '-');
            let body = s + crlf();
            assert(crlf_at(body, body.len() - 2));
            assert(body.take(body.len() - 2) =~= s);
        },
        FrameView::NullBulkString => {
            let a = null_header();
            let e = Seq::<char>::empty();
            assert(single_line(a));
            assert(null_bulk_string() =~= a + crlf() + e);
            lemma_first_line(a, e);
        },
        FrameView::Array(items) => {
            lemma_words_of_array(items);
        },
    }
}

/// The string slices of `items`, in order.
pub fn as_strs<'a>(items: &'a Vec<String>) -> (refs: Vec<&'a str>)
    ensures
        str_views(refs@) == views(items@),
{
    let mut refs: Vec<&'a str> = Vec::new();
    let mut i: usize = 0;
    while i < items.len()
        invariant
            i <= items@.len(),
            refs@.len() == i,
            forall|j: int| 0 <= j < i ==> (#[trigger] refs@[j])@ == items@[j]@,
        decreases items@.len() - i,
    {
        refs.push(items[i].as_str());
        i += 1;
    }
    proof {
        assert(str_views(refs@) =~= views(items@));
    }
    refs
}

/// Writes a frame as text for the wire.
pub fn encode(frame: &Frame) -> (res: String)
    ensures
        res@ == encoding(frame@),
{
    match frame {
        Frame::SimpleString(s) => make_simple_string(s.as_str()),
        Frame::BulkString(s) => {
            let mut one: Vec<&str> = Vec::new();
            one.push(s.as_str());
            proof {
                assert(str_views(one@) =~= seq![s@]);
            }
            make_bulk_string(one)
        },
        Frame::NullBulkString => make_null_bulk_string(),
        Frame::Array(items) => make_resp_array(as_strs(items)),
    }
}

/// Position of the first line terminator of `chars`, or its length.
pub fn line_end(chars: &Vec<char>) -> (end: usize)
    ensures
        end == find_crlf(chars@, 0),
        end <= chars@.len(),
        end < chars@.len() ==> crlf_at(chars@, end as int),
{
    let n = chars.len();
    let mut i: usize = 0;
    while n >= 2 && i <= n - 2
        invariant
            i <= n,
            n == chars@.len(),
            forall|j: int| 0 <= j < i ==> !crlf_at(chars@, j),
        decreases n - i,
    {
        if chars[i] == '\r' && chars[i + 1] == '\n' {
            proof {
                lemma_find_crlf_hit(chars@, 0, i as int);
            }
            return i;
        }
        i += 1;
    }
    proof {
        lemma_find_crlf_miss(chars@, 0);
    }
    n
}

/// Reads a received text as a frame. The reading is lenient: a text that
/// fits no frame is absent content, never an error.
pub fn decode(input: &str) -> (frame: Frame)
    ensures
        frame@ == decoding(input@),
{
    let chars = to_chars(input);
    let n = chars.len();
    if n == 0 {
        return Frame::NullBulkString;
    }
    let tag = chars[0];
    if tag == '+' {
        let end = line_end(&chars);
        proof {
            assert(end >= 1) by {
                if end == 0 {
                    assert(crlf_at(chars@, 0));
                }
            }
            assert(chars@.subrange(1, end as int) =~= first_line(input@).skip(1));
        }
        Frame::SimpleString(string_of(&chars, 1, end))
    } else if tag == '$' {
        let end = line_end(&chars);
        if end == 3 && chars[1] == '-' && chars[2] == '1' {
            proof {
                assert(first_line(input@) =~= null_header());
            }
            return Frame::NullBulkString;
        }
        proof {
            if first_line(input@) == null_header() {
                assert(first_line(input@).len() == 3);
                assert(first_line(input@)[1] == '-');
                assert(first_line(input@)[2] == '1');
            }
        }
        let from: usize = if end < n {
            end + 2
        } else {
            n
        };
        let ghost body = after_first_line(input@);
        proof {
            assert(body =~= chars@.subrange(from as int, n as int));
        }
        let to: usize = if n - from >= 2 && chars[n - 2] == '\r' && chars[n - 1] == '\n' {
            n - 2
        } else {
            n
        };
        proof {
            if body.len() >= 2 {
                assert(body[body.len() - 2] == chars@[n - 2]);
                assert(body[body.len() - 1] == chars@[n - 1]);
            }
            assert(without_final_crlf(body) =~= chars@.subrange(from as int, to as int));
        }
        Frame::BulkString(string_of(&chars, from, to))
    } else if tag == '*' {
        Frame::Array(get_words(String::from_str(input)))
    } else {
        Frame::NullBulkString
    }
}

} // verus!
