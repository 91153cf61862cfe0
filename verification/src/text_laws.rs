//! What holds of texts that are split, joined and trimmed.
use vstd::prelude::*;

use crate::text::{
    joined, lacks, lemma_joined_first, lemma_parts_lack, lemma_some_part, parts, parts_after,
    trim_end, trim_start, trimmed, white_space, words, words_after,
};

verus! {

proof fn lemma_parts_of_both(a: Seq<char>, c: char, b: Seq<char>, cur: Seq<char>)
    ensures
        parts_after(a + seq![c] + b, c, cur) == parts_after(a, c, cur) + parts(b, c),
    decreases a.len(),
{
    let s = a + seq![c] + b;
    if a.len() == 0 {
        assert(s[0] == c);
        assert(s.drop_first() =~= b);
    } else {
        let rest = a.drop_first();
        assert(s[0] == a[0]);
        assert(s.drop_first() =~= rest + seq![c] + b);
        if a[0] == c {
            lemma_parts_of_both(rest, c, b, Seq::empty());
            assert(seq![cur] + (parts(rest, c) + parts(b, c)) =~= seq![cur] + parts(rest, c) + parts(
                b,
                c,
            ));
        } else {
            lemma_parts_of_both(rest, c, b, cur.push(a[0]));
        }
    }
}

proof fn lemma_parts_join(s: Seq<char>, c: char, cur: Seq<char>)
    ensures
        joined(parts_after(s, c, cur), seq![c]) == cur + s,
    decreases s.len(),
{
    let p = parts_after(s, c, cur);
    lemma_some_part(s, c, cur);
    lemma_joined_first(p, seq![c]);
    if s.len() == 0 {
        assert(cur + s =~= cur);
    } else if s[0] == c {
        let rest = parts_after(s.drop_first(), c, Seq::empty());
        lemma_some_part(s.drop_first(), c, Seq::empty());
        lemma_parts_join(s.drop_first(), c, Seq::empty());
        assert(p.drop_first() =~= rest);
        assert(cur + seq![c] + (Seq::<char>::empty() + s.drop_first()) =~= cur + s);
    } else {
        lemma_parts_join(s.drop_first(), c, cur.push(s[0]));
        assert(cur.push(s[0]) + s.drop_first() =~= cur + s);
    }
}

/// The parts of a text are free of what separates them, and joined by it they are the text.
pub proof fn law_parts_make_up_the_text(s: Seq<char>, c: char)
    ensures
        joined(parts(s, c), seq![c]) == s,
        parts(s, c).len() > 0,
        forall|i: int| 0 <= i < parts(s, c).len() ==> lacks(#[trigger] parts(s, c)[i], c),
{
    lemma_parts_join(s, c, Seq::empty());
    lemma_some_part(s, c, Seq::empty());
    lemma_parts_lack(s, c, Seq::empty());
    assert(Seq::<char>::empty() + s =~= s);
}

/// The parts on either side of a separator are those of the two sides.
pub proof fn law_parts_of_both_sides(a: Seq<char>, c: char, b: Seq<char>)
    ensures
        parts(a + seq![c] + b, c) == parts(a, c) + parts(b, c),
{
    lemma_parts_of_both(a, c, b, Seq::empty());
}

/// Texts free of what separates them are found again when they are joined and split.
pub proof fn law_joined_parts_are_found(ws: Seq<Seq<char>>, c: char)
    requires
        ws.len() > 0,
        forall|i: int| 0 <= i < ws.len() ==> lacks(#[trigger] ws[i], c),
    ensures
        parts(joined(ws, seq![c]), c) == ws,
    decreases ws.len(),
{
    if ws.len() == 1 {
        crate::text::lemma_parts_single(ws[0], c, Seq::empty());
        assert(Seq::<char>::empty() + ws[0] =~= ws[0]);
        assert(ws =~= seq![ws[0]]);
    } else {
        let rest = ws.drop_last();
        assert forall|i: int| 0 <= i < rest.len() implies lacks(#[trigger] rest[i], c) by {
            assert(rest[i] == ws[i]);
        }
        law_joined_parts_are_found(rest, c);
        law_parts_of_both_sides(joined(rest, seq![c]), c, ws.last());
        assert(lacks(ws[ws.len() - 1], c));
        crate::text::lemma_parts_single(ws.last(), c, Seq::empty());
        assert(Seq::<char>::empty() + ws.last() =~= ws.last());
        assert(rest + seq![ws.last()] =~= ws);
    }
}

/// All of a text is white space.
pub open spec fn all_white(s: Seq<char>) -> bool {
    forall|i: int| 0 <= i < s.len() ==> white_space(#[trigger] s[i])
}

proof fn lemma_trim_start(s: Seq<char>)
    ensures
        ({
            let n = s.len() - trim_start(s).len();
            &&& 0 <= n <= s.len()
            &&& s.skip(n) == trim_start(s)
            &&& all_white(s.take(n))
            &&& trim_start(s).len() > 0 ==> !white_space(trim_start(s)[0])
        }),
    decreases s.len(),
{
    if s.len() > 0 && white_space(s[0]) {
        let rest = s.drop_first();
        lemma_trim_start(rest);
        let n = s.len() - trim_start(s).len();
        assert(rest.skip(n - 1) =~= s.skip(n));
        assert forall|i: int| 0 <= i < n implies white_space(#[trigger] s.take(n)[i]) by {
            if i > 0 {
                assert(rest.take(n - 1)[i - 1] == s[i]);
            }
        }
    } else {
        assert(s.skip(0) =~= s);
    }
}

proof fn lemma_trim_end(s: Seq<char>)
    ensures
        ({
            let n = trim_end(s).len() as int;
            &&& 0 <= n <= s.len()
            &&& s.take(n) == trim_end(s)
            &&& all_white(s.skip(n))
            &&& n > 0 ==> !white_space(trim_end(s).last())
        }),
    decreases s.len(),
{
    if s.len() > 0 && white_space(s.last()) {
        let rest = s.drop_last();
        lemma_trim_end(rest);
        let n = trim_end(s).len() as int;
        assert(rest.take(n) =~= s.take(n));
        assert forall|i: int| 0 <= i < s.skip(n).len() implies white_space(
            #[trigger] s.skip(n)[i],
        ) by {
            if n + i < rest.len() {
                assert(rest.skip(n)[i] == s[n + i]);
            }
        }
    } else {
        assert(s.take(s.len() as int) =~= s);
    }
}

/// Trimming takes off the white space at both ends, all of it and nothing else.
pub proof fn law_trimmed(s: Seq<char>)
    ensures
        exists|a: int, b: int| #![trigger s.subrange(a, b)]
            0 <= a <= b <= s.len() && trimmed(s) == s.subrange(a, b) && all_white(s.take(a))
                && all_white(s.skip(b)),
        trimmed(s).len() > 0 ==> !white_space(trimmed(s)[0]) && !white_space(trimmed(s).last()),
{
    lemma_trim_start(s);
    let t = trim_start(s);
    lemma_trim_end(t);
    let a = s.len() - t.len();
    let b = a + trim_end(t).len();
    assert(t.take(trim_end(t).len() as int) =~= s.subrange(a, b));
    assert forall|i: int| 0 <= i < s.skip(b).len() implies white_space(#[trigger] s.skip(b)[i]) by {
        assert(t.skip(trim_end(t).len() as int)[i] == s[b + i]);
    }
    assert(s.subrange(a, b) == trimmed(s));
}

/// No character of a text is white space.
pub open spec fn no_white(s: Seq<char>) -> bool {
    forall|i: int| 0 <= i < s.len() ==> !white_space(#[trigger] s[i])
}

proof fn lemma_words(s: Seq<char>, cur: Seq<char>, i: int)
    requires
        no_white(cur),
        0 <= i < words_after(s, cur).len(),
    ensures
        words_after(s, cur)[i].len() > 0,
        no_white(words_after(s, cur)[i]),
    decreases s.len(),
{
    let all = words_after(s, cur);
    if s.len() == 0 {
        assert(all == seq![cur]);
    } else if white_space(s[0]) {
        let rest = words_after(s.drop_first(), Seq::empty());
        if cur.len() == 0 {
            assert(all == Seq::<Seq<char>>::empty() + rest);
            assert(all =~= rest);
            lemma_words(s.drop_first(), Seq::empty(), i);
        } else {
            assert(all == seq![cur] + rest);
            if i > 0 {
                assert(all[i] == rest[i - 1]);
                lemma_words(s.drop_first(), Seq::empty(), i - 1);
            } else {
                assert(all[0] == cur);
            }
        }
    } else {
        let longer = cur.push(s[0]);
        assert forall|k: int| 0 <= k < longer.len() implies !white_space(#[trigger] longer[k]) by {
            if k < cur.len() {
                assert(longer[k] == cur[k]);
            }
        }
        lemma_words(s.drop_first(), longer, i);
    }
}

proof fn lemma_words_of_both(a: Seq<char>, w: char, b: Seq<char>, cur: Seq<char>)
    requires
        white_space(w),
    ensures
        words_after(a + seq![w] + b, cur) == words_after(a, cur) + words(b),
    decreases a.len(),
{
    let s = a + seq![w] + b;
    if a.len() == 0 {
        assert(s[0] == w);
        assert(s.drop_first() =~= b);
        assert(words_after(a, cur) + words(b) =~= words_after(s, cur));
    } else {
        let rest = a.drop_first();
        assert(s[0] == a[0]);
        assert(s.drop_first() =~= rest + seq![w] + b);
        if white_space(a[0]) {
            lemma_words_of_both(rest, w, b, Seq::empty());
            assert(words_after(s, cur) =~= words_after(a, cur) + words(b));
        } else {
            lemma_words_of_both(rest, w, b, cur.push(a[0]));
        }
    }
}

proof fn lemma_one_word(s: Seq<char>, cur: Seq<char>)
    requires
        no_white(s),
        (cur + s).len() > 0,
    ensures
        words_after(s, cur) == seq![cur + s],
    decreases s.len(),
{
    if s.len() == 0 {
        assert(cur + s =~= cur);
    } else {
        assert(cur.push(s[0]) + s.drop_first() =~= cur + s);
        lemma_one_word(s.drop_first(), cur.push(s[0]));
    }
}

/// The words of a text are what stands between white space: no word is empty or has any in it, the
/// words on either side of white space are those of the two sides, and a text without any is one.
pub proof fn law_words(s: Seq<char>, a: Seq<char>, w: char, b: Seq<char>)
    requires
        white_space(w),
    ensures
        forall|i: int|
            0 <= i < words(s).len() ==> (#[trigger] words(s)[i]).len() > 0 && no_white(words(s)[i]),
        words(a + seq![w] + b) == words(a) + words(b),
        no_white(s) && s.len() > 0 ==> words(s) == seq![s],
        words(Seq::empty()).len() == 0,
{
    assert forall|i: int| 0 <= i < words(s).len() implies (#[trigger] words(s)[i]).len() > 0
        && no_white(words(s)[i]) by {
        lemma_words(s, Seq::empty(), i);
    }
    lemma_words_of_both(a, w, b, Seq::empty());
    if no_white(s) && s.len() > 0 {
        lemma_one_word(s, Seq::empty());
        assert(Seq::<char>::empty() + s =~= s);
    }
}

} // verus!
