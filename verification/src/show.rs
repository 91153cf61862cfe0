//! Pieces that reports are made of: short object ids, plurals, padding, lines and dates.
use vstd::prelude::*;
use vstd::string::*;
use vstd::utf8::*;

use crate::text::{chars_of, lemma_texts_push, parts, split, text_range, texts};

verus! {

/// The views of the items of a list.
pub open spec fn views<T: View>(v: Seq<T>) -> Seq<T::V> {
    Seq::new(v.len(), |i: int| v[i]@)
}

/// The view of an optional value.
pub open spec fn view_option<T: View>(v: Option<T>) -> Option<T::V> {
    match v {
        Some(x) => Some(x@),
        None => None,
    }
}

/// Where a short object id ends: after twelve bytes, or with the text.
pub open spec fn short_end(s: Seq<char>) -> int {
    let n = encode_utf8(s).len() as int;
    if n < 12 {
        n
    } else {
        12
    }
}

/// A character of `s` ends where its short form does.
pub open spec fn has_short(s: Seq<char>) -> bool {
    is_char_boundary(encode_utf8(s), short_end(s))
}

/// The first twelve bytes of `s`, or all of them.
pub open spec fn short(s: Seq<char>) -> Seq<char> {
    decode_utf8(encode_utf8(s).take(short_end(s)))
}

/// Object ids, which are ASCII, are shortened to twelve characters.
pub proof fn law_short_ascii(s: Seq<char>)
    requires
        is_ascii_chars(s),
    ensures
        has_short(s),
        short(s) == s.take(if s.len() < 12 {
            s.len() as int
        } else {
            12
        }),
{
    let n = if s.len() < 12 {
        s.len() as int
    } else {
        12
    };
    is_ascii_chars_encode_utf8(s);
    let t = s.take(n);
    assert(is_ascii_chars(t)) by {
        assert forall|i: int| 0 <= i < t.len() implies 0 <= #[trigger] t[i] as u32 && t[i] as u32
            <= 127 by {
            assert(t[i] == s[i]);
        }
    }
    is_ascii_chars_encode_utf8(t);
    assert(encode_utf8(s).take(n) =~= encode_utf8(t));
    encode_utf8_decode_utf8(t);
    lemma_boundary_of_ascii(s, n);
}

proof fn lemma_boundary_of_ascii(s: Seq<char>, n: int)
    requires
        is_ascii_chars(s),
        0 <= n <= s.len(),
    ensures
        is_char_boundary(encode_utf8(s), n),
{
    is_ascii_chars_encode_utf8(s);
    encode_utf8_valid_utf8(s);
    let bytes = encode_utf8(s);
    if n < s.len() {
        assert(bytes[n] as u32 <= 127);
        let b = bytes[n];
        assert(b <= 127 ==> is_leading_byte_width_1(b)) by (bit_vector);
        is_char_boundary_iff_is_leading_byte(bytes, n);
    } else {
        is_char_boundary_start_end_of_seq(bytes);
    }
}

/// The first twelve bytes of an object id.
pub fn short_id(s: &str) -> (r: &str)
    requires
        has_short(s@),
    ensures
        r@ == short(s@),
{
    let n: usize = s.as_bytes().len();
    let mid: usize = if n < 12 {
        n
    } else {
        12
    };
    let (head, _) = s.split_at(mid);
    proof {
        assert(encode_utf8(head@) =~= encode_utf8(s@).take(mid as int));
        encode_utf8_decode_utf8(head@);
    }
    head
}

/// The word for one thing or for any other number of them.
pub open spec fn plural(n: nat, one: Seq<char>, many: Seq<char>) -> Seq<char> {
    if n == 1 {
        one
    } else {
        many
    }
}

pub fn plural_word<'a>(n: u64, one: &'a str, many: &'a str) -> (r: &'a str)
    ensures
        r@ == plural(n as nat, one@, many@),
{
    if n == 1 {
        one
    } else {
        many
    }
}

/// `s` filled up with spaces to `width` characters.
pub open spec fn padded(s: Seq<char>, width: nat) -> Seq<char>
    decreases width - s.len(),
{
    if s.len() >= width {
        s
    } else {
        padded(s.push(' '), width)
    }
}

pub fn pad(s: &str, width: usize) -> (r: String)
    ensures
        r@ == padded(s@, width as nat),
{
    let mut out = s.to_owned();
    let mut n: usize = s.unicode_len();
    while n < width
        invariant
            n == out@.len(),
            padded(s@, width as nat) == padded(out@, width as nat),
        decreases width - n,
    {
        out.push(' ');
        n += 1;
    }
    out
}

/// A line without the carriage return that ended it together with a line feed.
pub open spec fn without_return(s: Seq<char>) -> Seq<char> {
    if s.len() > 0 && s.last() == '\r' {
        s.drop_last()
    } else {
        s
    }
}

/// The lines of a text; what follows the last line feed is a line where it is not empty.
pub open spec fn lines(s: Seq<char>) -> Seq<Seq<char>> {
    let p = parts(s, '\n');
    let ended = Seq::new((p.len() - 1) as nat, |i: int| without_return(p[i]));
    if p.last().len() == 0 {
        ended
    } else {
        ended.push(p.last())
    }
}

pub fn split_lines(s: &str) -> (r: Vec<String>)
    ensures
        texts(r@) == lines(s@),
{
    let p = split(s, '\n');
    proof {
        lemma_parts_nonempty(s@, '\n', Seq::empty());
    }
    let last: usize = p.len() - 1;
    let ghost ps = texts(p@);
    let ghost ended = Seq::new((ps.len() - 1) as nat, |i: int| without_return(ps[i]));
    let mut out: Vec<String> = Vec::new();
    let mut i: usize = 0;
    proof {
        assert(texts(out@) =~= ended.take(0));
    }
    while i < last
        invariant
            i <= last,
            last == p@.len() - 1,
            ps == texts(p@),
            ended == Seq::new((ps.len() - 1) as nat, |i: int| without_return(ps[i])),
            texts(out@) == ended.take(i as int),
        decreases last - i,
    {
        let cs = chars_of(p[i].as_str());
        let n: usize = cs.len();
        let line = if n > 0 && cs[n - 1] == '\r' {
            text_range(&cs, 0, n - 1)
        } else {
            p[i].clone()
        };
        proof {
            assert(ps[i as int] == cs@);
            if n > 0 && cs@[n - 1] == '\r' {
                assert(cs@.subrange(0, n - 1) =~= cs@.drop_last());
            }
            lemma_texts_push(out@, line);
            assert(ended.take(i + 1) =~= ended.take(i as int).push(ended[i as int]));
        }
        out.push(line);
        i += 1;
    }
    proof {
        assert(ended.take(i as int) =~= ended);
        assert(ps.last() == p@[last as int]@);
    }
    if !p[last].as_str().is_empty() {
        let line = p[last].clone();
        proof {
            lemma_texts_push(out@, line);
        }
        out.push(line);
    }
    out
}

pub proof fn lemma_parts_nonempty(s: Seq<char>, c: char, cur: Seq<char>)
    ensures
        crate::text::parts_after(s, c, cur).len() >= 1,
    decreases s.len(),
{
    if s.len() > 0 {
        if s[0] == c {
            lemma_parts_nonempty(s.drop_first(), c, Seq::empty());
        } else {
            lemma_parts_nonempty(s.drop_first(), c, cur.push(s[0]));
        }
    }
}

} // verus!
