//! JSON objects made of plain members.
use vstd::prelude::*;

use crate::bytes::nibble;
use crate::number::{decimal, decimal_int};
use crate::order::{
    ascending, before, is_before, lemma_before_irreflexive, lemma_before_total,
    lemma_before_transitive,
};
use crate::show::views;
use crate::text::same;

verus! {

/// A value of a JSON object. A document is a JSON text that stands as it is read, not as a text.
#[derive(Debug, Clone, PartialEq, Eq)]
pub enum JsonField<S = String> {
    Null,
    Bool(bool),
    Count(u64),
    Integer(i64),
    Text(S),
    Document(S),
    /// An object with one member, which is a text.
    Tagged { tag: S, text: S },
}

pub type JsonFieldView = JsonField<Seq<char>>;

impl View for JsonField<String> {
    type V = JsonFieldView;

    open spec fn view(&self) -> JsonFieldView {
        match self {
            JsonField::Null => JsonField::Null,
            JsonField::Bool(b) => JsonField::Bool(*b),
            JsonField::Count(n) => JsonField::Count(*n),
            JsonField::Integer(n) => JsonField::Integer(*n),
            JsonField::Text(s) => JsonField::Text(s@),
            JsonField::Document(s) => JsonField::Document(s@),
            JsonField::Tagged { tag, text } => JsonField::Tagged { tag: tag@, text: text@ },
        }
    }
}

/// A member of a JSON object.
#[derive(Debug, Clone, PartialEq, Eq)]
pub struct JsonMember<S = String, V = JsonField> {
    pub name: S,
    pub value: V,
}

pub type JsonMemberView = JsonMember<Seq<char>, JsonFieldView>;

impl View for JsonMember<String, JsonField> {
    type V = JsonMemberView;

    open spec fn view(&self) -> JsonMemberView {
        JsonMember { name: self.name@, value: self.value@ }
    }
}

/// A character of a JSON text.
pub open spec fn json_char(c: char) -> Seq<char> {
    if c == '"' {
        seq!['\\', '"']
    } else if c == '\\' {
        seq!['\\', '\\']
    } else if c == '\u{8}' {
        seq!['\\', 'b']
    } else if c == '\t' {
        seq!['\\', 't']
    } else if c == '\n' {
        seq!['\\', 'n']
    } else if c == '\u{c}' {
        seq!['\\', 'f']
    } else if c == '\r' {
        seq!['\\', 'r']
    } else if 32 > (c as int) {
        seq!['\\', 'u', '0', '0', nibble(c as int / 16), nibble(c as int % 16)]
    } else {
        seq![c]
    }
}

/// The characters of a JSON text between its quotes.
pub open spec fn json_chars(s: Seq<char>) -> Seq<char>
    decreases s.len(),
{
    if s.len() == 0 {
        Seq::empty()
    } else {
        json_chars(s.drop_last()) + json_char(s.last())
    }
}

/// A text as JSON.
pub open spec fn json_text(s: Seq<char>) -> Seq<char> {
    seq!['"'] + json_chars(s) + seq!['"']
}

/// The JSON document that a text holds, without the space around its values; nothing where the
/// text is not JSON.
pub uninterp spec fn json_document_of(text: Seq<char>) -> Option<Seq<char>>;

/// A value as JSON.
pub open spec fn field_text(v: JsonFieldView) -> Seq<char> {
    match v {
        JsonField::Null => seq!['n', 'u', 'l', 'l'],
        JsonField::Bool(b) => if b {
            seq!['t', 'r', 'u', 'e']
        } else {
            seq!['f', 'a', 'l', 's', 'e']
        },
        JsonField::Count(n) => decimal(n as nat),
        JsonField::Integer(n) => decimal_int(n as int),
        JsonField::Text(s) => json_text(s),
        JsonField::Document(s) => json_document_of(s)->0,
        JsonField::Tagged { tag, text } => seq!['{'] + json_text(tag) + seq![':'] + json_text(text)
            + seq!['}'],
    }
}

/// The members of an object, with commas between them.
pub open spec fn members_text(members: Seq<JsonMemberView>) -> Seq<char>
    decreases members.len(),
{
    if members.len() == 0 {
        Seq::empty()
    } else {
        let m = members.last();
        let before = members_text(members.drop_last());
        (if members.len() == 1 {
            before
        } else {
            before.push(',')
        }) + json_text(m.name) + seq![':'] + field_text(m.value)
    }
}

/// An object as JSON.
pub open spec fn object_text(members: Seq<JsonMemberView>) -> Seq<char> {
    seq!['{'] + members_text(members) + seq!['}']
}

/// The names of the members.
pub open spec fn member_names(members: Seq<JsonMemberView>) -> Seq<Seq<char>> {
    Seq::new(members.len(), |i: int| members[i].name)
}

/// The members can be printed: their names ascend, and every document is one.
pub open spec fn printable(members: Seq<JsonMemberView>) -> bool {
    &&& ascending(member_names(members))
    &&& forall|i: int|
        0 <= i < members.len() ==> ((#[trigger] members[i]).value matches JsonField::Document(s)
            ==> json_document_of(s) is Some)
}

/// Reads a text with `serde_json::from_str` as a `serde_json::Value` and prints the value.
///
/// What comes back depends on the text alone and is named `json_document_of`; nothing comes back
/// for a text that is not JSON.
#[verifier::external_body]
pub(crate) fn json_document(text: &str) -> (r: Option<String>)
    ensures
        (match r {
            Some(s) => Some(s@),
            None => None::<Seq<char>>,
        }) == json_document_of(text@),
{
    match serde_json::from_str::<serde_json::Value>(text) {
        Ok(value) => Some(value.to_string()),
        Err(_) => None,
    }
}

/// Prints an object with the `Display` of `serde_json::Value`.
///
/// The members come out in ascending order of their names, without spaces. In texts, quotes,
/// backslashes and control characters are escaped. A document stands as `json_document_of` gives
/// it.
#[verifier::external_body]
pub(crate) fn print_object(members: &Vec<JsonMember>) -> (r: String)
    requires
        printable(views(members@)),
    ensures
        r@ == object_text(views(members@)),
{
    let mut map = serde_json::Map::new();
    for m in members {
        let value = match &m.value {
            JsonField::Null => serde_json::Value::Null,
            JsonField::Bool(b) => serde_json::Value::Bool(*b),
            JsonField::Count(n) => serde_json::Value::from(*n),
            JsonField::Integer(n) => serde_json::Value::from(*n),
            JsonField::Text(s) => serde_json::Value::String(s.clone()),
            JsonField::Document(s) => s.parse().unwrap_or_default(),
            JsonField::Tagged { tag, text } => serde_json::Map::from_iter([(tag.clone(), text.clone().into())]).into(),
        };
        map.insert(m.name.clone(), value);
    }
    serde_json::Value::Object(map).to_string()
}

/// `members` with one more, in the order of the names; it takes the place of one with its name.
pub open spec fn with_member(members: Seq<JsonMemberView>, m: JsonMemberView) -> Seq<JsonMemberView>
    decreases members.len(),
{
    if members.len() == 0 {
        seq![m]
    } else if members[0].name == m.name {
        members.update(0, m)
    } else if before(m.name, members[0].name) {
        seq![m] + members
    } else {
        seq![members[0]] + with_member(members.skip(1), m)
    }
}

proof fn lemma_with_member(members: Seq<JsonMemberView>, m: JsonMemberView, at: int)
    requires
        0 <= at <= members.len(),
        forall|i: int| 0 <= i < at ==> before((#[trigger] members[i]).name, m.name),
        at < members.len() ==> !before(members[at].name, m.name),
    ensures
        with_member(members, m) == if at < members.len() && members[at].name == m.name {
            members.update(at, m)
        } else {
            members.insert(at, m)
        },
    decreases at,
{
    if at > 0 {
        let rest = members.skip(1);
        assert(before(members[0].name, m.name));
        lemma_before_irreflexive(m.name);
        if before(m.name, members[0].name) {
            lemma_before_transitive(m.name, members[0].name, m.name);
        }
        assert forall|i: int| 0 <= i < at - 1 implies before((#[trigger] rest[i]).name, m.name) by {
            assert(rest[i] == members[i + 1]);
        }
        lemma_with_member(rest, m, at - 1);
        if at < members.len() && members[at].name == m.name {
            assert(seq![members[0]] + rest.update(at - 1, m) =~= members.update(at, m));
        } else {
            assert(seq![members[0]] + rest.insert(at - 1, m) =~= members.insert(at, m));
        }
    } else if members.len() == 0 {
        assert(seq![m] =~= members.insert(0, m));
    } else if members[0].name != m.name {
        lemma_before_total(members[0].name, m.name);
        assert(seq![m] + members =~= members.insert(0, m));
    }
}

/// Adds a member in the order of the names.
pub fn put_member(members: &mut Vec<JsonMember>, m: JsonMember)
    requires
        printable(views(old(members)@)),
        m@.value matches JsonField::Document(s) ==> json_document_of(s) is Some,
    ensures
        views(final(members)@) == with_member(views(old(members)@), m@),
        printable(views(final(members)@)),
{
    let ghost was = views(members@);
    let n: usize = members.len();
    let mut at: usize = 0;
    while at < n && is_before(members[at].name.as_str(), m.name.as_str())
        invariant
            n == members@.len(),
            at <= n,
            was == views(members@),
            forall|i: int| 0 <= i < at ==> before((#[trigger] was[i]).name, m@.name),
        decreases n - at,
    {
        at += 1;
    }
    proof {
        lemma_with_member(was, m@, at as int);
        lemma_names_stay_ascending(was, m@, at as int);
    }
    if at < n && same(members[at].name.as_str(), m.name.as_str()) {
        members.set(at, m);
        proof {
            assert(views(members@) =~= was.update(at as int, m@));
        }
    } else {
        members.insert(at, m);
        proof {
            assert(views(members@) =~= was.insert(at as int, m@));
        }
    }
}

proof fn lemma_names_stay_ascending(members: Seq<JsonMemberView>, m: JsonMemberView, at: int)
    requires
        printable(members),
        m.value matches JsonField::Document(s) ==> json_document_of(s) is Some,
        0 <= at <= members.len(),
        forall|i: int| 0 <= i < at ==> before((#[trigger] members[i]).name, m.name),
        at < members.len() ==> !before(members[at].name, m.name),
    ensures
        at < members.len() && members[at].name == m.name ==> printable(members.update(at, m)),
        !(at < members.len() && members[at].name == m.name) ==> printable(members.insert(at, m)),
{
    let names = member_names(members);
    if at < members.len() && members[at].name == m.name {
        assert(member_names(members.update(at, m)) =~= names);
        let all = members.update(at, m);
        assert forall|i: int| 0 <= i < all.len() implies ((#[trigger] all[i]).value matches JsonField::Document(
            s,
        ) ==> json_document_of(s) is Some) by {
            if i != at {
                assert(all[i] == members[i]);
            }
        }
    } else {
        let all = members.insert(at, m);
        if at < members.len() {
            lemma_before_total(members[at].name, m.name);
        }
        assert forall|i: int, j: int| 0 <= i < j < all.len() implies #[trigger] before(
            member_names(all)[i],
            member_names(all)[j],
        ) by {
            let a = if i < at {
                i
            } else {
                i - 1
            };
            let b = if j < at {
                j
            } else {
                j - 1
            };
            if i == at {
                if j - 1 > at {
                    assert(before(names[at], names[j - 1]));
                    lemma_before_transitive(m.name, names[at], names[j - 1]);
                }
            } else if j == at {
                assert(before(members[i].name, m.name));
            } else {
                assert(before(names[a], names[b]));
            }
        }
        assert forall|i: int| 0 <= i < all.len() implies ((#[trigger] all[i]).value matches JsonField::Document(
            s,
        ) ==> json_document_of(s) is Some) by {
            if i < at {
                assert(all[i] == members[i]);
            } else if i > at {
                assert(all[i] == members[i - 1]);
            }
        }
    }
}

} // verus!
