//! Command line words: quotes, escapes and white space.
use vstd::prelude::*;
use vstd::string::*;

use crate::error::{pragma_fail, PragmaErr};
use crate::text::{
    chars_of, is_white_space, joined, lemma_joined_first, lemma_texts_push, text_of, texts,
    white_space, words, words_after,
};

verus! {

/// The platform whose rules for backslashes apply.
#[derive(Debug, Clone, Copy, PartialEq, Eq, Structural)]
pub enum Host {
    Posix,
    Windows,
}

/// How far a word has been read.
pub struct Reading {
    /// The characters of the word so far.
    pub word: Seq<char>,
    /// The quote that is open.
    pub quote: Option<char>,
    /// The next character stands for itself.
    pub escaped: bool,
    /// A word has begun, be it an empty one.
    pub in_word: bool,
}

pub open spec fn at_start() -> Reading {
    Reading { word: Seq::empty(), quote: None, escaped: false, in_word: false }
}

/// The reading after one more character, and the word that it ended.
pub open spec fn read_char(st: Reading, c: char, host: Host) -> (Option<Seq<char>>, Reading) {
    if st.escaped {
        (None, Reading { word: st.word.push(c), escaped: false, in_word: true, ..st })
    } else if c == '\\' {
        if host == Host::Windows {
            (None, Reading { word: st.word.push(c), in_word: true, ..st })
        } else {
            (None, Reading { escaped: true, in_word: true, ..st })
        }
    } else if st.quote is Some {
        if c == st.quote->0 {
            (None, Reading { quote: None, in_word: true, ..st })
        } else {
            (None, Reading { word: st.word.push(c), in_word: true, ..st })
        }
    } else if c == '\'' || c == '"' {
        (None, Reading { quote: Some(c), in_word: true, ..st })
    } else if white_space(c) {
        if st.in_word {
            (Some(st.word), at_start())
        } else {
            (None, st)
        }
    } else {
        (None, Reading { word: st.word.push(c), in_word: true, ..st })
    }
}

/// The words that the rest `s` ends, or `None` where a quote stays open.
pub open spec fn words_read(s: Seq<char>, st: Reading, host: Host) -> Option<Seq<Seq<char>>>
    decreases s.len(),
{
    if s.len() == 0 {
        if st.quote is Some {
            None
        } else if st.in_word {
            Some(
                seq![
                    if st.escaped {
                        st.word.push('\\')
                    } else {
                        st.word
                    },
                ],
            )
        } else {
            Some(Seq::empty())
        }
    } else {
        let (ended, next) = read_char(st, s[0], host);
        match (ended, words_read(s.drop_first(), next, host)) {
            (_, None) => None,
            (None, Some(rest)) => Some(rest),
            (Some(word), Some(rest)) => Some(seq![word] + rest),
        }
    }
}

/// The words of a command line, or `None` where a quote stays open.
pub open spec fn pragma_words(s: Seq<char>, host: Host) -> Option<Seq<Seq<char>>> {
    words_read(s, at_start(), host)
}

/// What is said of a quote that stays open.
pub open spec fn unterminated() -> Seq<char> {
    "unterminated quoted argument"@
}

pub fn split_pragma_words(arg: &str, host: Host) -> (r: Result<Vec<String>, PragmaErr>)
    ensures
        match r {
            Ok(ws) => pragma_words(arg@, host) == Some(texts(ws@)),
            Err(e) => pragma_words(arg@, host) is None && e@ == PragmaErr::Fail(
                Some(unterminated()),
            ),
        },
{
    let cs = chars_of(arg);
    let mut out: Vec<String> = Vec::new();
    let mut word: Vec<char> = Vec::new();
    let mut quote: Option<char> = None;
    let mut escaped: bool = false;
    let mut in_word: bool = false;
    let mut i: usize = 0;
    proof {
        assert(cs@.skip(0) =~= arg@);
        assert(word@ =~= Seq::<char>::empty());
        let rest = words_read(arg@, at_start(), host);
        if rest is Some {
            assert(texts(out@) + rest->0 =~= rest->0);
        }
    }
    while i < cs.len()
        invariant
            i <= cs@.len(),
            ({
                let st = Reading { word: word@, quote, escaped, in_word };
                match words_read(cs@.skip(i as int), st, host) {
                    Some(rest) => pragma_words(arg@, host) == Some(texts(out@) + rest),
                    None => pragma_words(arg@, host) is None,
                }
            }),
        decreases cs@.len() - i,
    {
        let c: char = cs[i];
        let ghost st = Reading { word: word@, quote, escaped, in_word };
        let ghost before = texts(out@);
        proof {
            assert(cs@.skip(i as int).drop_first() =~= cs@.skip(i + 1));
        }
        i += 1;
        if escaped {
            word.push(c);
            escaped = false;
            in_word = true;
        } else if c == '\\' {
            if host == Host::Windows {
                word.push(c);
            } else {
                escaped = true;
            }
            in_word = true;
        } else if let Some(q) = quote {
            if c == q {
                quote = None;
            } else {
                word.push(c);
            }
            in_word = true;
        } else if c == '\'' || c == '"' {
            quote = Some(c);
            in_word = true;
        } else if is_white_space(c) {
            if in_word {
                let w = text_of(&word);
                proof {
                    lemma_texts_push(out@, w);
                }
                out.push(w);
                word = Vec::new();
                in_word = false;
                proof {
                    assert(word@ =~= Seq::<char>::empty());
                    let rest = words_read(cs@.skip(i as int), at_start(), host);
                    if rest is Some {
                        assert(before.push(w@) + rest->0 =~= before + (seq![w@] + rest->0));
                    }
                }
            }
        } else {
            word.push(c);
            in_word = true;
        }
        proof {
            let now = Reading { word: word@, quote, escaped, in_word };
            assert(read_char(st, c, host).1 == now);
        }
    }
    if escaped {
        word.push('\\');
    }
    if quote.is_some() {
        return Err(pragma_fail("unterminated quoted argument"));
    }
    if in_word {
        let w = text_of(&word);
        proof {
            lemma_texts_push(out@, w);
            assert(texts(out@).push(w@) =~= texts(out@) + seq![w@]);
        }
        out.push(w);
    } else {
        proof {
            assert(texts(out@) + Seq::<Seq<char>>::empty() =~= texts(out@));
        }
    }
    Ok(out)
}

/// The backslash at `i` escapes white space or a quote.
pub open spec fn escapes_separator(s: Seq<char>, i: int) -> bool {
    i + 1 < s.len() && (white_space(s[i + 1]) || s[i + 1] == '\'' || s[i + 1] == '"')
}

/// Some backslash could be meant as part of a path.
pub open spec fn ambiguous_escape(s: Seq<char>, host: Host) -> bool {
    host == Host::Posix && exists|i: int|
        0 <= i < s.len() && #[trigger] s[i] == '\\' && !escapes_separator(s, i)
}

pub open spec fn ambiguous_message() -> Seq<char> {
    "backslashes are not supported in POSIX repository paths"@
}

pub fn reject_ambiguous_posix_path_escape(arg: &str, host: Host) -> (r: Result<(), PragmaErr>)
    ensures
        match r {
            Ok(()) => !ambiguous_escape(arg@, host),
            Err(e) => ambiguous_escape(arg@, host) && e@ == PragmaErr::Fail(
                Some(ambiguous_message()),
            ),
        },
{
    if host == Host::Windows {
        return Ok(());
    }
    let cs = chars_of(arg);
    let n: usize = cs.len();
    let mut i: usize = 0;
    while i < n
        invariant
            i <= n,
            n == cs@.len(),
            cs@ == arg@,
            host == Host::Posix,
            forall|j: int|
                0 <= j < i && #[trigger] arg@[j] == '\\' ==> escapes_separator(arg@, j),
        decreases n - i,
    {
        if cs[i] == '\\' && !(i + 1 < n && (is_white_space(cs[i + 1]) || cs[i + 1] == '\'' || cs[i
            + 1] == '"')) {
            proof {
                assert(arg@[i as int] == '\\' && !escapes_separator(arg@, i as int));
            }
            return Err(pragma_fail("backslashes are not supported in POSIX repository paths"));
        }
        i += 1;
    }
    Ok(())
}

/// `s` holds no quote and no backslash.
pub open spec fn plain(s: Seq<char>) -> bool {
    forall|i: int|
        0 <= i < s.len() ==> #[trigger] s[i] != '\'' && s[i] != '"' && s[i] != '\\'
}

/// Without quotes and backslashes, words are what white space separates.
pub proof fn law_plain_words(s: Seq<char>, host: Host)
    requires
        plain(s),
    ensures
        pragma_words(s, host) == Some(words(s)),
{
    lemma_plain_words(s, Seq::empty(), host);
}

proof fn lemma_plain_words(s: Seq<char>, word: Seq<char>, host: Host)
    requires
        plain(s),
    ensures
        words_read(
            s,
            Reading { word, quote: None, escaped: false, in_word: word.len() > 0 },
            host,
        ) == Some(words_after(s, word)),
    decreases s.len(),
{
    if s.len() > 0 {
        let rest = s.drop_first();
        assert(plain(rest)) by {
            assert forall|i: int| 0 <= i < rest.len() implies #[trigger] rest[i] != '\'' && rest[i]
                != '"' && rest[i] != '\\' by {
                assert(rest[i] == s[i + 1]);
            }
        }
        assert(s[0] != '\'' && s[0] != '"' && s[0] != '\\');
        if white_space(s[0]) {
            lemma_plain_words(rest, Seq::empty(), host);
            if word.len() == 0 {
                assert(word =~= Seq::empty());
                assert(Seq::<Seq<char>>::empty() + words_after(rest, Seq::empty())
                    =~= words_after(rest, Seq::empty()));
            }
        } else {
            lemma_plain_words(rest, word.push(s[0]), host);
        }
    }
}

/// A text in single quotes is one word, whatever white space it holds.
pub proof fn law_quoted_word(s: Seq<char>, host: Host)
    requires
        forall|i: int| 0 <= i < s.len() ==> #[trigger] s[i] != '\'' && s[i] != '\\',
    ensures
        pragma_words(seq!['\''] + s + seq!['\''], host) == Some(seq![s]),
{
    let all = seq!['\''] + s + seq!['\''];
    let inside = Reading { word: Seq::empty(), quote: Some('\''), escaped: false, in_word: true };
    assert(all.drop_first() =~= s + seq!['\'']);
    lemma_inside_quotes(s, Seq::empty(), host);
    assert(Seq::<char>::empty() + s =~= s);
}

proof fn lemma_inside_quotes(s: Seq<char>, word: Seq<char>, host: Host)
    requires
        forall|i: int| 0 <= i < s.len() ==> #[trigger] s[i] != '\'' && s[i] != '\\',
    ensures
        words_read(
            s + seq!['\''],
            Reading { word, quote: Some('\''), escaped: false, in_word: true },
            host,
        ) == Some(seq![word + s]),
    decreases s.len(),
{
    let all = s + seq!['\''];
    let st = Reading { word, quote: Some('\''), escaped: false, in_word: true };
    if s.len() == 0 {
        assert(all.drop_first() =~= Seq::empty());
        reveal_with_fuel(words_read, 2);
        assert(word + s =~= word);
    } else {
        assert(all.drop_first() =~= s.drop_first() + seq!['\'']);
        assert forall|i: int| 0 <= i < s.drop_first().len() implies #[trigger] s.drop_first()[i]
            != '\'' && s.drop_first()[i] != '\\' by {
            assert(s.drop_first()[i] == s[i + 1]);
        }
        assert(s[0] != '\'' && s[0] != '\\');
        lemma_inside_quotes(s.drop_first(), word.push(s[0]), host);
        assert(word.push(s[0]) + s.drop_first() =~= word + s);
    }
}

/// A text with a backslash before every backslash and every double quote.
pub open spec fn escaped_text(s: Seq<char>) -> Seq<char>
    decreases s.len(),
{
    if s.len() == 0 {
        Seq::empty()
    } else {
        (if s[0] == '\\' || s[0] == '"' {
            seq!['\\', s[0]]
        } else {
            seq![s[0]]
        }) + escaped_text(s.drop_first())
    }
}

/// A text as a word in double quotes.
pub open spec fn quoted(s: Seq<char>) -> Seq<char> {
    seq!['"'] + escaped_text(s) + seq!['"']
}

/// Words in double quotes, one after the other, with a space between them.
pub open spec fn quoted_line(ws: Seq<Seq<char>>) -> Seq<char> {
    joined(Seq::new(ws.len(), |i: int| quoted(ws[i])), " "@)
}

/// Reading an escaped text and the quote behind it takes the text into the word.
proof fn lemma_escaped_inside(s: Seq<char>, word: Seq<char>, rest: Seq<char>)
    ensures
        words_read(
            escaped_text(s) + seq!['"'] + rest,
            Reading { word, quote: Some('"'), escaped: false, in_word: true },
            Host::Posix,
        ) == words_read(
            rest,
            Reading { word: word + s, quote: None, escaped: false, in_word: true },
            Host::Posix,
        ),
    decreases s.len(),
{
    let st = Reading { word, quote: Some('"'), escaped: false, in_word: true };
    let all = escaped_text(s) + seq!['"'] + rest;
    if s.len() == 0 {
        assert(all.drop_first() =~= rest);
        assert(word + s =~= word);
    } else {
        let c = s[0];
        let tail = escaped_text(s.drop_first()) + seq!['"'] + rest;
        lemma_escaped_inside(s.drop_first(), word.push(c), rest);
        assert(word.push(c) + s.drop_first() =~= word + s);
        if c == '\\' || c == '"' {
            assert(all[0] == '\\');
            let once = all.drop_first();
            assert(once[0] == c);
            assert(once.drop_first() =~= tail);
            let held = Reading { word, quote: Some('"'), escaped: true, in_word: true };
            assert(words_read(all, st, Host::Posix) == words_read(once, held, Host::Posix));
        } else {
            assert(all[0] == c);
            assert(all.drop_first() =~= tail);
        }
    }
}

/// Reading a quoted word from the start.
proof fn lemma_quoted_first(s: Seq<char>, rest: Seq<char>)
    ensures
        pragma_words(quoted(s) + rest, Host::Posix) == words_read(
            rest,
            Reading { word: s, quote: None, escaped: false, in_word: true },
            Host::Posix,
        ),
{
    let all = quoted(s) + rest;
    assert(all[0] == '"');
    assert(all.drop_first() =~= escaped_text(s) + seq!['"'] + rest);
    lemma_escaped_inside(s, Seq::empty(), rest);
    assert(Seq::<char>::empty() + s =~= s);
}

/// Words in double quotes, joined by spaces, are read as these words, empty ones and ones with white
/// space included.
pub proof fn law_quoted_words(ws: Seq<Seq<char>>)
    ensures
        pragma_words(quoted_line(ws), Host::Posix) == Some(ws),
    decreases ws.len(),
{
    let qs = Seq::new(ws.len(), |i: int| quoted(ws[i]));
    reveal_strlit(" ");
    if ws.len() == 0 {
        assert(ws =~= Seq::empty());
    } else if ws.len() == 1 {
        lemma_joined_first(qs, " "@);
        assert(quoted_line(ws) =~= quoted(ws[0]) + Seq::<char>::empty());
        lemma_quoted_first(ws[0], Seq::empty());
        assert(ws =~= seq![ws[0]]);
    } else {
        let rest = ws.drop_first();
        let line = quoted_line(rest);
        law_quoted_words(rest);
        lemma_joined_first(qs, " "@);
        assert(qs.drop_first() =~= Seq::new(rest.len(), |i: int| quoted(rest[i])));
        assert(quoted_line(ws) =~= quoted(ws[0]) + (" "@ + line));
        lemma_quoted_first(ws[0], " "@ + line);
        assert((" "@ + line).drop_first() =~= line);
        assert((" "@ + line)[0] == ' ');
        assert(seq![ws[0]] + rest =~= ws);
    }
}

/// The reading after all of `s`.
pub open spec fn reading_after(s: Seq<char>, st: Reading, host: Host) -> Reading
    decreases s.len(),
{
    if s.len() == 0 {
        st
    } else {
        reading_after(s.drop_first(), read_char(st, s[0], host).1, host)
    }
}

proof fn lemma_refused(s: Seq<char>, st: Reading, host: Host)
    ensures
        words_read(s, st, host) is None == (reading_after(s, st, host).quote is Some),
    decreases s.len(),
{
    if s.len() > 0 {
        lemma_refused(s.drop_first(), read_char(st, s[0], host).1, host);
    }
}

/// A command line is refused exactly where a quote that it opens is still open at its end.
pub proof fn law_refused_where_a_quote_stays_open(s: Seq<char>, host: Host)
    ensures
        pragma_words(s, host) is None == (reading_after(s, at_start(), host).quote is Some),
{
    lemma_refused(s, at_start(), host);
}

} // verus!
