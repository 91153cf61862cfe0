//! Text as sequences of characters: splitting, trimming, joining and numbers.
use vstd::prelude::*;
use vstd::string::*;
use vstd::utf8::*;

verus! {

/// The characters with the Unicode `White_Space` property.
pub open spec fn white_space(c: char) -> bool {
    ||| '\u{9}' <= c <= '\u{d}'
    ||| c == ' '
    ||| c == '\u{85}'
    ||| c == '\u{a0}'
    ||| c == '\u{1680}'
    ||| '\u{2000}' <= c <= '\u{200a}'
    ||| c == '\u{2028}'
    ||| c == '\u{2029}'
    ||| c == '\u{202f}'
    ||| c == '\u{205f}'
    ||| c == '\u{3000}'
}

/// Whether `c` has the Unicode `White_Space` property.
pub fn is_white_space(c: char) -> (r: bool)
    ensures
        r == white_space(c),
{
    ('\u{9}' <= c && c <= '\u{d}') || c == ' ' || c == '\u{85}' || c == '\u{a0}' || c
        == '\u{1680}' || ('\u{2000}' <= c && c <= '\u{200a}') || c == '\u{2028}' || c == '\u{2029}'
        || c == '\u{202f}' || c == '\u{205f}' || c == '\u{3000}'
}

/// `String::push` appends one character.
pub assume_specification[ String::push ](s: &mut String, c: char)
    ensures
        final(s)@ == old(s)@.push(c),
;

/// The characters of `s`, in order.
pub fn chars_of(s: &str) -> (r: Vec<char>)
    ensures
        r@ == s@,
{
    let mut out: Vec<char> = Vec::new();
    for c in it: s.chars()
        invariant
            out@ == it.seq().take(it.index() as int),
            it.seq() == s@,
    {
        out.push(c);
    }
    proof {
        assert(out@ =~= s@);
    }
    out
}

/// Whether two texts have the same characters.
pub fn same(a: &str, b: &str) -> (r: bool)
    ensures
        r == (a@ == b@),
{
    let x: &[u8] = a.as_bytes();
    let y: &[u8] = b.as_bytes();
    proof {
        encode_utf8_decode_utf8(a@);
        encode_utf8_decode_utf8(b@);
    }
    if x.len() != y.len() {
        return false;
    }
    let mut i: usize = 0;
    while i < x.len()
        invariant
            x@.len() == y@.len(),
            i <= x@.len(),
            x@.take(i as int) == y@.take(i as int),
            x@ == encode_utf8(a@),
            y@ == encode_utf8(b@),
        decreases x@.len() - i,
    {
        if x[i] != y[i] {
            return false;
        }
        proof {
            assert(x@.take(i + 1) =~= x@.take(i as int).push(x@[i as int]));
            assert(y@.take(i + 1) =~= y@.take(i as int).push(y@[i as int]));
        }
        i += 1;
    }
    proof {
        assert(x@.take(i as int) =~= x@);
        assert(y@.take(i as int) =~= y@);
    }
    true
}

/// The characters of each text of a list.
pub open spec fn texts(v: Seq<String>) -> Seq<Seq<char>> {
    Seq::new(v.len(), |i: int| v[i]@)
}

pub proof fn lemma_texts_push(v: Seq<String>, s: String)
    ensures
        texts(v.push(s)) == texts(v).push(s@),
{
    assert(texts(v.push(s)) =~= texts(v).push(s@));
}

/// The characters `from..to` of `cs` as text.
pub fn text_range(cs: &Vec<char>, from: usize, to: usize) -> (r: String)
    requires
        from <= to <= cs@.len(),
    ensures
        r@ == cs@.subrange(from as int, to as int),
{
    let mut out = String::new();
    let mut i: usize = from;
    while i < to
        invariant
            from <= i <= to <= cs@.len(),
            out@ == cs@.subrange(from as int, i as int),
        decreases to - i,
    {
        out.push(cs[i]);
        proof {
            assert(cs@.subrange(from as int, i + 1) =~= cs@.subrange(from as int, i as int).push(
                cs@[i as int],
            ));
        }
        i += 1;
    }
    out
}

pub fn text_of(cs: &Vec<char>) -> (r: String)
    ensures
        r@ == cs@,
{
    let r = text_range(cs, 0, cs.len());
    proof {
        assert(cs@.subrange(0, cs@.len() as int) =~= cs@);
    }
    r
}

pub fn cat2(a: &str, b: &str) -> (r: String)
    ensures
        r@ == a@ + b@,
{
    let mut out = a.to_owned();
    out.append(b);
    out
}

pub fn cat3(a: &str, b: &str, c: &str) -> (r: String)
    ensures
        r@ == a@ + b@ + c@,
{
    let mut out = cat2(a, b);
    out.append(c);
    out
}

pub fn cat4(a: &str, b: &str, c: &str, d: &str) -> (r: String)
    ensures
        r@ == a@ + b@ + c@ + d@,
{
    let mut out = cat3(a, b, c);
    out.append(d);
    out
}

pub fn cat5(a: &str, b: &str, c: &str, d: &str, e: &str) -> (r: String)
    ensures
        r@ == a@ + b@ + c@ + d@ + e@,
{
    let mut out = cat4(a, b, c, d);
    out.append(e);
    out
}

/// `s` without its leading white space.
pub open spec fn trim_start(s: Seq<char>) -> Seq<char>
    decreases s.len(),
{
    if s.len() > 0 && white_space(s[0]) {
        trim_start(s.drop_first())
    } else {
        s
    }
}

/// `s` without its trailing white space.
pub open spec fn trim_end(s: Seq<char>) -> Seq<char>
    decreases s.len(),
{
    if s.len() > 0 && white_space(s.last()) {
        trim_end(s.drop_last())
    } else {
        s
    }
}

/// `s` without the white space at both ends.
pub open spec fn trimmed(s: Seq<char>) -> Seq<char> {
    trim_end(trim_start(s))
}

pub fn trim(s: &str) -> (r: &str)
    ensures
        r@ == trimmed(s@),
{
    let cs = chars_of(s);
    let mut from: usize = 0;
    proof {
        assert(cs@.skip(0) =~= cs@);
    }
    while from < cs.len() && is_white_space(cs[from])
        invariant
            from <= cs@.len(),
            cs@ == s@,
            trim_start(s@) == trim_start(cs@.skip(from as int)),
        decreases cs@.len() - from,
    {
        proof {
            assert(cs@.skip(from as int).drop_first() =~= cs@.skip(from + 1));
        }
        from += 1;
    }
    let mut to: usize = cs.len();
    proof {
        assert(trim_start(s@) == cs@.skip(from as int));
        assert(cs@.skip(from as int) =~= cs@.subrange(from as int, to as int));
    }
    while to > from && is_white_space(cs[to - 1])
        invariant
            from <= to <= cs@.len(),
            trimmed(s@) == trim_end(cs@.subrange(from as int, to as int)),
        decreases to,
    {
        proof {
            assert(cs@.subrange(from as int, to as int).drop_last() =~= cs@.subrange(
                from as int,
                to - 1,
            ));
        }
        to -= 1;
    }
    s.substring_char(from, to)
}

/// The words of `cur + s` where `cur` is the word being read.
pub open spec fn words_after(s: Seq<char>, cur: Seq<char>) -> Seq<Seq<char>>
    decreases s.len(),
{
    let done = if cur.len() == 0 {
        Seq::empty()
    } else {
        seq![cur]
    };
    if s.len() == 0 {
        done
    } else if white_space(s[0]) {
        done + words_after(s.drop_first(), Seq::empty())
    } else {
        words_after(s.drop_first(), cur.push(s[0]))
    }
}

/// The maximal runs of characters of `s` that are not white space, in order.
pub open spec fn words(s: Seq<char>) -> Seq<Seq<char>> {
    words_after(s, Seq::empty())
}

pub fn split_whitespace(s: &str) -> (r: Vec<String>)
    ensures
        texts(r@) == words(s@),
{
    let cs = chars_of(s);
    let mut out: Vec<String> = Vec::new();
    let mut cur: Vec<char> = Vec::new();
    let mut i: usize = 0;
    proof {
        assert(cs@.skip(0) =~= cs@);
        assert(texts(out@) + words(s@) =~= words(s@));
    }
    while i < cs.len()
        invariant
            i <= cs@.len(),
            words(s@) == texts(out@) + words_after(cs@.skip(i as int), cur@),
        decreases cs@.len() - i,
    {
        let c: char = cs[i];
        proof {
            assert(cs@.skip(i as int).drop_first() =~= cs@.skip(i + 1));
        }
        if is_white_space(c) {
            if cur.len() > 0 {
                let w = text_of(&cur);
                proof {
                    lemma_texts_push(out@, w);
                    assert(texts(out@).push(w@) + words_after(cs@.skip(i + 1), Seq::empty())
                        =~= texts(out@) + (seq![cur@] + words_after(
                        cs@.skip(i + 1),
                        Seq::empty(),
                    )));
                }
                out.push(w);
                cur = Vec::new();
            } else {
                proof {
                    assert(Seq::<Seq<char>>::empty() + words_after(cs@.skip(i + 1), Seq::empty())
                        =~= words_after(cs@.skip(i + 1), Seq::empty()));
                }
                cur = Vec::new();
            }
        } else {
            cur.push(c);
        }
        i += 1;
    }
    if cur.len() > 0 {
        let w = text_of(&cur);
        proof {
            lemma_texts_push(out@, w);
            assert(texts(out@).push(w@) =~= texts(out@) + seq![cur@]);
        }
        out.push(w);
    } else {
        proof {
            assert(texts(out@) + Seq::<Seq<char>>::empty() =~= texts(out@));
        }
    }
    out
}

/// `p` occurs in `s` at `i`.
pub open spec fn occurs_at(s: Seq<char>, p: Seq<char>, i: int) -> bool {
    0 <= i && i + p.len() <= s.len() && s.subrange(i, i + p.len()) == p
}

/// The first place at or after `i` where `p` occurs in `s`.
pub open spec fn find_from(s: Seq<char>, p: Seq<char>, i: int) -> Option<int>
    decreases s.len() - p.len() - i + 1,
{
    if i > s.len() - p.len() {
        None
    } else if occurs_at(s, p, i) {
        Some(i)
    } else {
        find_from(s, p, i + 1)
    }
}

/// `s` before and after the first occurrence of `p`.
pub open spec fn cut(s: Seq<char>, p: Seq<char>) -> Option<(Seq<char>, Seq<char>)> {
    match find_from(s, p, 0) {
        Some(i) => Some((s.take(i), s.skip(i + p.len()))),
        None => None,
    }
}

pub proof fn lemma_find_from(s: Seq<char>, p: Seq<char>, i: int)
    requires
        0 <= i,
    ensures
        find_from(s, p, i) matches Some(k) ==> i <= k && occurs_at(s, p, k) && forall|j: int|
            i <= j < k ==> !occurs_at(s, p, j),
        find_from(s, p, i) is None ==> forall|j: int| i <= j ==> !occurs_at(s, p, j),
    decreases s.len() - p.len() - i + 1,
{
    if i > s.len() - p.len() {
    } else if occurs_at(s, p, i) {
    } else {
        lemma_find_from(s, p, i + 1);
    }
}

fn matches_at(cs: &Vec<char>, p: &Vec<char>, at: usize) -> (r: bool)
    requires
        at + p@.len() <= cs@.len(),
    ensures
        r == (cs@.subrange(at as int, at + p@.len()) == p@),
{
    let n: usize = cs.len();
    let mut k: usize = 0;
    while k < p.len()
        invariant
            k <= p@.len(),
            n == cs@.len(),
            at + p@.len() <= n,
            forall|j: int| 0 <= j < k ==> cs@[at + j] == p@[j],
        decreases p@.len() - k,
    {
        if cs[at + k] != p[k] {
            proof {
                assert(cs@.subrange(at as int, at + p@.len())[k as int] == cs@[at + k]);
            }
            return false;
        }
        k += 1;
    }
    proof {
        assert(cs@.subrange(at as int, at + p@.len()) =~= p@);
    }
    true
}

fn find_in(cs: &Vec<char>, p: &Vec<char>) -> (r: Option<usize>)
    ensures
        match r {
            Some(i) => find_from(cs@, p@, 0) == Some(i as int) && i + p@.len() <= cs@.len(),
            None => find_from(cs@, p@, 0) is None,
        },
{
    if p.len() > cs.len() {
        return None;
    }
    let last: usize = cs.len() - p.len();
    let mut i: usize = 0;
    while i < last
        invariant
            i <= last,
            last == cs@.len() - p@.len(),
            find_from(cs@, p@, 0) == find_from(cs@, p@, i as int),
        decreases last - i,
    {
        if matches_at(cs, p, i) {
            return Some(i);
        }
        i += 1;
    }
    if matches_at(cs, p, i) {
        return Some(i);
    }
    proof {
        reveal_with_fuel(find_from, 2);
    }
    None
}

/// `s` split at the first occurrence of `p`, without it.
pub fn split_once<'a>(s: &'a str, p: &str) -> (r: Option<(&'a str, &'a str)>)
    ensures
        match r {
            Some((a, b)) => cut(s@, p@) == Some((a@, b@)),
            None => cut(s@, p@) is None,
        },
{
    let cs = chars_of(s);
    let ps = chars_of(p);
    match find_in(&cs, &ps) {
        None => None,
        Some(i) => {
            let n: usize = cs.len();
            let a = s.substring_char(0, i);
            let b = s.substring_char(i + ps.len(), n);
            proof {
                assert(s@.take(i as int) =~= a@);
                assert(s@.skip(i + p@.len()) =~= b@);
            }
            Some((a, b))
        },
    }
}

pub fn contains(s: &str, p: &str) -> (r: bool)
    ensures
        r == (find_from(s@, p@, 0) is Some),
{
    let cs = chars_of(s);
    let ps = chars_of(p);
    find_in(&cs, &ps).is_some()
}

/// The number of characters of `s` before its first white space.
pub open spec fn white_at(s: Seq<char>) -> nat
    decreases s.len(),
{
    if s.len() == 0 || white_space(s[0]) {
        0
    } else {
        1 + white_at(s.drop_first())
    }
}

/// `s` before and after its first white space character.
pub open spec fn cut_white(s: Seq<char>) -> Option<(Seq<char>, Seq<char>)> {
    let n = white_at(s) as int;
    if n < s.len() {
        Some((s.take(n), s.skip(n + 1)))
    } else {
        None
    }
}

pub fn split_once_white(s: &str) -> (r: Option<(&str, &str)>)
    ensures
        match r {
            Some((a, b)) => cut_white(s@) == Some((a@, b@)),
            None => cut_white(s@) is None,
        },
{
    let cs = chars_of(s);
    let mut i: usize = 0;
    proof {
        assert(cs@.skip(0) =~= cs@);
    }
    while i < cs.len() && !is_white_space(cs[i])
        invariant
            i <= cs@.len(),
            cs@ == s@,
            white_at(s@) == i + white_at(cs@.skip(i as int)),
        decreases cs@.len() - i,
    {
        proof {
            assert(cs@.skip(i as int).drop_first() =~= cs@.skip(i + 1));
        }
        i += 1;
    }
    if i < cs.len() {
        let a = s.substring_char(0, i);
        let b = s.substring_char(i + 1, cs.len());
        proof {
            assert(s@.take(i as int) =~= a@);
            assert(s@.skip(i + 1) =~= b@);
        }
        Some((a, b))
    } else {
        None
    }
}

/// `s` starts with `p`.
pub open spec fn has_prefix(s: Seq<char>, p: Seq<char>) -> bool {
    p.len() <= s.len() && s.take(p.len() as int) == p
}

pub fn strip_prefix<'a>(s: &'a str, p: &str) -> (r: Option<&'a str>)
    ensures
        match r {
            Some(rest) => has_prefix(s@, p@) && rest@ == s@.skip(p@.len() as int),
            None => !has_prefix(s@, p@),
        },
{
    let cs = chars_of(s);
    let ps = chars_of(p);
    if ps.len() > cs.len() {
        return None;
    }
    proof {
        assert(cs@.subrange(0, p@.len() as int) =~= cs@.take(p@.len() as int));
    }
    if matches_at(&cs, &ps, 0) {
        let rest = s.substring_char(ps.len(), cs.len());
        proof {
            assert(rest@ =~= s@.skip(p@.len() as int));
        }
        Some(rest)
    } else {
        None
    }
}

pub fn starts_with(s: &str, p: &str) -> (r: bool)
    ensures
        r == has_prefix(s@, p@),
{
    strip_prefix(s, p).is_some()
}

pub open spec fn has_suffix(s: Seq<char>, p: Seq<char>) -> bool {
    p.len() <= s.len() && s.skip(s.len() - p.len()) == p
}

pub fn ends_with(s: &str, p: &str) -> (r: bool)
    ensures
        r == has_suffix(s@, p@),
{
    let cs = chars_of(s);
    let ps = chars_of(p);
    let n: usize = ps.len();
    let total: usize = cs.len();
    if n > total {
        return false;
    }
    let start: usize = total - n;
    let mut i: usize = 0;
    while i < n
        invariant
            cs@ == s@,
            ps@ == p@,
            n == ps@.len(),
            start + n == total,
            total == cs@.len(),
            i <= n,
            forall|k: int| 0 <= k < i ==> #[trigger] ps@[k] == cs@[start + k],
        decreases n - i,
    {
        if ps[i] != cs[start + i] {
            proof {
                assert(s@.skip(start as int)[i as int] != p@[i as int]);
            }
            return false;
        }
        i += 1;
    }
    proof {
        assert(s@.skip(start as int) =~= p@);
    }
    true
}

/// `s` starts with `-`.
pub open spec fn dashed(s: Seq<char>) -> bool {
    s.len() > 0 && s[0] == '-'
}

pub fn is_dashed(s: &str) -> (r: bool)
    ensures
        r == dashed(s@),
{
    let cs = chars_of(s);
    cs.len() > 0 && cs[0] == '-'
}

/// The parts of `cur + s` between the characters `c`, where `cur` is the part being read.
pub open spec fn parts_after(s: Seq<char>, c: char, cur: Seq<char>) -> Seq<Seq<char>>
    decreases s.len(),
{
    if s.len() == 0 {
        seq![cur]
    } else if s[0] == c {
        seq![cur] + parts_after(s.drop_first(), c, Seq::empty())
    } else {
        parts_after(s.drop_first(), c, cur.push(s[0]))
    }
}

/// The parts of `s` between the characters `c`.
pub open spec fn parts(s: Seq<char>, c: char) -> Seq<Seq<char>> {
    parts_after(s, c, Seq::empty())
}

pub fn split(s: &str, c: char) -> (r: Vec<String>)
    ensures
        texts(r@) == parts(s@, c),
{
    let cs = chars_of(s);
    let mut out: Vec<String> = Vec::new();
    let mut cur: Vec<char> = Vec::new();
    let mut i: usize = 0;
    proof {
        assert(cs@.skip(0) =~= cs@);
        assert(texts(out@) + parts(s@, c) =~= parts(s@, c));
    }
    while i < cs.len()
        invariant
            i <= cs@.len(),
            parts(s@, c) == texts(out@) + parts_after(cs@.skip(i as int), c, cur@),
        decreases cs@.len() - i,
    {
        proof {
            assert(cs@.skip(i as int).drop_first() =~= cs@.skip(i + 1));
        }
        if cs[i] == c {
            let w = text_of(&cur);
            proof {
                lemma_texts_push(out@, w);
                assert(texts(out@).push(w@) + parts_after(cs@.skip(i + 1), c, Seq::empty())
                    =~= texts(out@) + (seq![cur@] + parts_after(
                    cs@.skip(i + 1),
                    c,
                    Seq::empty(),
                )));
            }
            out.push(w);
            cur = Vec::new();
        } else {
            cur.push(cs[i]);
        }
        i += 1;
    }
    let w = text_of(&cur);
    proof {
        lemma_texts_push(out@, w);
        assert(texts(out@).push(w@) =~= texts(out@) + seq![cur@]);
    }
    out.push(w);
    out
}

/// The texts of `ws` one after the other, with `sep` between them.
pub open spec fn joined(ws: Seq<Seq<char>>, sep: Seq<char>) -> Seq<char>
    decreases ws.len(),
{
    if ws.len() == 0 {
        Seq::empty()
    } else if ws.len() == 1 {
        ws[0]
    } else {
        joined(ws.drop_last(), sep) + sep + ws.last()
    }
}

/// Joined texts begin with the first.
pub proof fn lemma_joined_first(ws: Seq<Seq<char>>, sep: Seq<char>)
    requires
        ws.len() > 0,
    ensures
        joined(ws, sep) == if ws.len() == 1 {
            ws[0]
        } else {
            ws[0] + sep + joined(ws.drop_first(), sep)
        },
    decreases ws.len(),
{
    if ws.len() > 1 {
        let rest = ws.drop_first();
        let front = ws.drop_last();
        lemma_joined_first(front, sep);
        if ws.len() > 2 {
            assert(front.drop_first() =~= rest.drop_last());
            assert(joined(ws, sep) =~= ws[0] + sep + joined(rest, sep));
        }
    }
}

/// Joins the texts from position `from` on.
pub fn join_from(ws: &Vec<String>, from: usize, sep: &str) -> (r: String)
    requires
        from <= ws@.len(),
    ensures
        r@ == joined(texts(ws@).skip(from as int), sep@),
{
    let mut out = String::new();
    let mut i: usize = from;
    let ghost all = texts(ws@).skip(from as int);
    proof {
        assert(all.take(0) =~= Seq::empty());
    }
    while i < ws.len()
        invariant
            from <= i <= ws@.len(),
            all == texts(ws@).skip(from as int),
            out@ == joined(all.take(i - from), sep@),
        decreases ws@.len() - i,
    {
        proof {
            assert(all.take(i - from + 1).drop_last() =~= all.take(i - from));
            assert(all.take(i - from + 1).last() == ws@[i as int]@);
        }
        if i > from {
            out.append(sep);
        }
        out.append(ws[i].as_str());
        proof {
            if i == from {
                assert(Seq::<char>::empty() + ws@[i as int]@ =~= ws@[i as int]@);
            }
        }
        i += 1;
    }
    proof {
        assert(all.take(i - from) =~= all);
    }
    out
}

pub fn join(ws: &Vec<String>, sep: &str) -> (r: String)
    ensures
        r@ == joined(texts(ws@), sep@),
{
    let r = join_from(ws, 0, sep);
    proof {
        assert(texts(ws@).skip(0) =~= texts(ws@));
    }
    r
}

/// `s` does not hold the character `c`.
pub open spec fn lacks(s: Seq<char>, c: char) -> bool {
    forall|i: int| 0 <= i < s.len() ==> #[trigger] s[i] != c
}

/// Cutting at a character leaves it out of the part before, and the parts make up the whole.
pub proof fn lemma_cut_char(s: Seq<char>, c: char)
    ensures
        match cut(s, seq![c]) {
            Some((a, b)) => lacks(a, c) && s == a + seq![c] + b,
            None => lacks(s, c),
        },
{
    let p = seq![c];
    lemma_find_from(s, p, 0);
    assert forall|i: int| 0 <= i < s.len() implies occurs_at(s, p, i) == (#[trigger] s[i] == c) by {
        assert(s.subrange(i, i + 1)[0] == s[i]);
        if s[i] == c {
            assert(s.subrange(i, i + 1) =~= p);
        }
    }
    match find_from(s, p, 0) {
        Some(k) => {
            assert(s =~= s.take(k) + seq![c] + s.skip(k + 1));
        },
        None => {},
    }
}

/// Cutting at a character that the first part lacks gives the two parts.
pub proof fn lemma_cut_found(a: Seq<char>, c: char, b: Seq<char>)
    requires
        lacks(a, c),
    ensures
        cut(a + seq![c] + b, seq![c]) == Some((a, b)),
{
    let s = a + seq![c] + b;
    lemma_cut_char(s, c);
    assert(s[a.len() as int] == c);
    match cut(s, seq![c]) {
        Some((x, y)) => {
            if x.len() < a.len() {
                assert(s[x.len() as int] == c);
                assert(a[x.len() as int] == c);
            }
            if x.len() > a.len() {
                assert(x[a.len() as int] == c);
            }
            assert(x =~= a) by {
                assert(s.take(a.len() as int) =~= a);
                assert(s.take(a.len() as int) =~= x);
            }
            assert(y =~= b) by {
                assert(s.skip(a.len() as int + 1) =~= b);
                assert(s.skip(a.len() as int + 1) =~= y);
            }
        },
        None => {},
    }
}

pub proof fn lemma_cut_absent(s: Seq<char>, c: char)
    requires
        lacks(s, c),
    ensures
        cut(s, seq![c]) is None,
{
    lemma_cut_char(s, c);
    match cut(s, seq![c]) {
        Some((a, b)) => {
            assert(s[a.len() as int] == c);
        },
        None => {},
    }
}

/// A split has a part.
pub proof fn lemma_some_part(s: Seq<char>, c: char, cur: Seq<char>)
    ensures
        parts_after(s, c, cur).len() > 0,
    decreases s.len(),
{
    if s.len() > 0 && s[0] != c {
        lemma_some_part(s.drop_first(), c, cur.push(s[0]));
    }
}

/// No part of a split holds the separator.
pub proof fn lemma_parts_lack(s: Seq<char>, c: char, cur: Seq<char>)
    requires
        lacks(cur, c),
    ensures
        forall|i: int|
            0 <= i < parts_after(s, c, cur).len() ==> lacks(
                #[trigger] parts_after(s, c, cur)[i],
                c,
            ),
    decreases s.len(),
{
    if s.len() > 0 {
        if s[0] == c {
            lemma_parts_lack(s.drop_first(), c, Seq::empty());
            let rest = parts_after(s.drop_first(), c, Seq::empty());
            assert forall|i: int| 0 <= i < parts_after(s, c, cur).len() implies lacks(
                #[trigger] parts_after(s, c, cur)[i],
                c,
            ) by {
                if i > 0 {
                    assert(parts_after(s, c, cur)[i] == rest[i - 1]);
                }
            }
        } else {
            lemma_parts_lack(s.drop_first(), c, cur.push(s[0]));
            assert(parts_after(s, c, cur) == parts_after(s.drop_first(), c, cur.push(s[0])));
        }
    } else {
        assert(parts_after(s, c, cur) == seq![cur]);
    }
}

/// A text without the separator is its only part.
pub proof fn lemma_parts_single(s: Seq<char>, c: char, cur: Seq<char>)
    requires
        lacks(s, c),
    ensures
        parts_after(s, c, cur) == seq![cur + s],
    decreases s.len(),
{
    if s.len() == 0 {
        assert(cur + s =~= cur);
    } else {
        let rest = s.drop_first();
        assert(s[0] != c);
        assert forall|i: int| 0 <= i < rest.len() implies #[trigger] rest[i] != c by {
            assert(rest[i] == s[i + 1]);
        }
        lemma_parts_single(rest, c, cur.push(s[0]));
        assert(cur.push(s[0]) + rest =~= cur + s);
    }
}

pub proof fn lemma_has_prefix(p: Seq<char>, s: Seq<char>)
    ensures
        has_prefix(p + s, p),
        (p + s).skip(p.len() as int) == s,
{
    assert((p + s).take(p.len() as int) =~= p);
    assert((p + s).skip(p.len() as int) =~= s);
}

pub fn copy_texts(list: &Vec<String>) -> (r: Vec<String>)
    ensures
        texts(r@) == texts(list@),
{
    let mut out: Vec<String> = Vec::new();
    let n: usize = list.len();
    let mut i: usize = 0;
    while i < n
        invariant
            n == list@.len(),
            0 <= i <= n,
            out@.len() == i,
            forall|k: int| 0 <= k < i ==> #[trigger] out@[k]@ == list@[k]@,
        decreases n - i,
    {
        out.push(list[i].clone());
        i += 1;
    }
    proof {
        assert(texts(out@) =~= texts(list@));
    }
    out
}

} // verus!
