//! A small in-memory key-value server: the wire codec, the command rules,
//! the store with expiring keys, and the replication handshake.

use vstd::prelude::*;
use vstd::string::*;
use crate::text::{
    byte_len, crlf, crlf_at, decimal, is_token, lemma_find_crlf_hit, lemma_find_crlf_miss,
    push_crlf, push_decimal, split_lines, str_views, string_of, to_chars, tokens, views, wire_len,
};

pub mod command;
pub mod frame;
pub mod servers;
pub mod snapshot;
pub mod store;
pub mod text;

verus! {

/// `payload` as a length-prefixed string: `$`, its length in bytes, a
/// terminator, the payload, a terminator.
pub open spec fn bulk_string(payload: Seq<char>) -> Seq<char> {
    seq!['$'] + decimal(byte_len(payload)) + crlf() + payload + crlf()
}

/// `s` as a status line: `+`, the text, a terminator.
pub open spec fn simple_string(s: Seq<char>) -> Seq<char> {
    seq!['+'] + s + crlf()
}

/// The frame that stands for an absent value.
pub open spec fn null_bulk_string() -> Seq<char> {
    seq!['$', '-', '1', '\r', '\n']
}

/// The words joined by line terminators.
pub open spec fn join_lines(words: Seq<Seq<char>>) -> Seq<char>
    decreases words.len(),
{
    if words.len() == 0 {
        Seq::empty()
    } else if words.len() == 1 {
        words[0]
    } else {
        join_lines(words.drop_last()) + crlf() + words.last()
    }
}

/// Each word as a length-prefixed string, one after the other.
pub open spec fn bulk_strings(words: Seq<Seq<char>>) -> Seq<char>
    decreases words.len(),
{
    if words.len() == 0 {
        Seq::empty()
    } else {
        bulk_strings(words.drop_last()) + bulk_string(words.last())
    }
}

/// An array frame: `*`, the number of words, a terminator, then each word as
/// a length-prefixed string.
pub open spec fn resp_array(words: Seq<Seq<char>>) -> Seq<char> {
    seq!['*'] + decimal(words.len()) + crlf() + bulk_strings(words)
}

/// The words joined by line terminators.
pub fn join_words(words: &Vec<&str>) -> (body: String)
    ensures
        body@ == join_lines(str_views(words@)),
{
    let mut body = String::new();
    let mut i: usize = 0;
    while i < words.len()
        invariant
            i <= words@.len(),
            body@ == join_lines(str_views(words@).take(i as int)),
        decreases words@.len() - i,
    {
        let ghost before = str_views(words@).take(i as int);
        let ghost after = str_views(words@).take(i as int + 1);
        proof {
            assert(after.drop_last() =~= before);
            assert(after.last() == words@[i as int]@);
        }
        if i > 0 {
            push_crlf(&mut body);
        }
        body.append(words[i]);
        i += 1;
        proof {
            assert(body@ =~= join_lines(after));
        }
    }
    proof {
        assert(str_views(words@).take(i as int) =~= str_views(words@));
    }
    body
}

/// One length-prefixed string whose payload is the words joined by line
/// terminators. No word gives the empty payload.
pub fn make_bulk_string(words: Vec<&str>) -> (res: String)
    ensures
        res@ == bulk_string(join_lines(str_views(words@))),
{
    let body = join_words(&words);
    let mut res = String::new();
    res.push('$');
    push_decimal(&mut res, wire_len(body.as_str()));
    push_crlf(&mut res);
    res.append(body.as_str());
    push_crlf(&mut res);
    proof {
        assert(res@ =~= bulk_string(body@));
    }
    res
}

/// A status line that carries `s`.
pub fn make_simple_string(s: &str) -> (res: String)
    ensures
        res@ == simple_string(s@),
{
    let mut res = String::new();
    res.push('+');
    res.append(s);
    push_crlf(&mut res);
    proof {
        assert(res@ =~= simple_string(s@));
    }
    res
}

/// The frame that stands for an absent value.
pub fn make_null_bulk_string() -> (res: String)
    ensures
        res@ == null_bulk_string(),
{
    let mut res = String::new();
    res.push('$');
    res.push('-');
    res.push('1');
    push_crlf(&mut res);
    proof {
        assert(res@ =~= null_bulk_string());
    }
    res
}

/// An array frame of the words, each sent as a length-prefixed string.
pub fn make_resp_array(words: Vec<&str>) -> (res: String)
    ensures
        res@ == resp_array(str_views(words@)),
{
    let mut res = String::new();
    res.push('*');
    push_decimal(&mut res, words.len() as u64);
    push_crlf(&mut res);
    let ghost head = res@;
    let mut i: usize = 0;
    while i < words.len()
        invariant
            i <= words@.len(),
            res@ == head + bulk_strings(str_views(words@).take(i as int)),
        decreases words@.len() - i,
    {
        let ghost before = str_views(words@).take(i as int);
        let ghost after = str_views(words@).take(i as int + 1);
        proof {
            assert(after.drop_last() =~= before);
            assert(after.last() == words@[i as int]@);
        }
        let word = words[i];
        res.push('$');
        push_decimal(&mut res, wire_len(word));
        push_crlf(&mut res);
        res.append(word);
        push_crlf(&mut res);
        i += 1;
        proof {
            assert(res@ =~= head + bulk_strings(after));
        }
    }
    proof {
        assert(str_views(words@).take(i as int) =~= str_views(words@));
        assert(head =~= seq!['*'] + decimal(words@.len()) + crlf());
    }
    res
}

fn push_token(words: &mut Vec<String>, chars: &Vec<char>, from: usize, to: usize)
    requires
        from <= to <= chars@.len(),
    ensures
        views(final(words)@) == (if is_token(chars@.subrange(from as int, to as int)) {
            views(old(words)@).push(chars@.subrange(from as int, to as int))
        } else {
            views(old(words)@)
        }),
{
    if from < to && chars[from] != '$' && chars[from] != '*' {
        let word = string_of(chars, from, to);
        words.push(word);
        proof {
            assert(views(words@) =~= views(old(words)@).push(
                chars@.subrange(from as int, to as int),
            ));
        }
    }
}

/// The content lines of `s`: `s` is cut at its line terminators, and the
/// lines that are empty or begin with `$` or `*` are left out.
pub fn get_words(s: String) -> (words: Vec<String>)
    ensures
        views(words@) == tokens(split_lines(s@)),
{
    let chars = to_chars(s.as_str());
    let n = chars.len();
    let mut words: Vec<String> = Vec::new();
    let mut start: usize = 0;
    let mut i: usize = 0;
    let ghost mut done: Seq<Seq<char>> = Seq::empty();
    proof {
        assert(s@.skip(0) =~= s@);
        assert(views(words@) =~= tokens(done));
    }
    while n >= 2 && i <= n - 2
        invariant
            start <= i <= n,
            n == chars@.len(),
            chars@ == s@,
            split_lines(s@) == done + split_lines(s@.skip(start as int)),
            forall|j: int| start <= j < i ==> !crlf_at(s@, j),
            views(words@) == tokens(done),
        decreases n - i,
    {
        if chars[i] == '\r' && chars[i + 1] == '\n' {
            let ghost rest = s@.skip(start as int);
            let ghost k = i as int - start as int;
            let ghost part = s@.subrange(start as int, i as int);
            proof {
                assert(crlf_at(rest, k));
                assert forall|j: int| 0 <= j < k implies !crlf_at(rest, j) by {
                    if crlf_at(rest, j) {
                        assert(crlf_at(s@, start + j));
                    }
                }
                lemma_find_crlf_hit(rest, 0, k);
                assert(rest.take(k) =~= part);
                assert(rest.skip(k + 2) =~= s@.skip(i as int + 2));
                assert(done + (seq![part] + split_lines(s@.skip(i as int + 2))) =~= done.push(part)
                    + split_lines(s@.skip(i as int + 2)));
                assert(done.push(part).drop_last() =~= done);
            }
            push_token(&mut words, &chars, start, i);
            proof {
                done = done.push(part);
            }
            start = i + 2;
            i = i + 2;
        } else {
            proof {
                assert(!crlf_at(s@, i as int));
            }
            i += 1;
        }
    }
    let ghost rest = s@.skip(start as int);
    proof {
        assert forall|j: int| 0 <= j implies !crlf_at(rest, j) by {
            if crlf_at(rest, j) {
                assert(crlf_at(s@, start + j));
            }
        }
        lemma_find_crlf_miss(rest, 0);
        assert(rest =~= s@.subrange(start as int, n as int));
        assert((done + seq![rest]) =~= done.push(rest));
        assert(done.push(rest).drop_last() =~= done);
    }
    push_token(&mut words, &chars, start, n);
    words
}

} // verus!
