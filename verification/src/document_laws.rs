//! JSON objects tell their members apart.
use vstd::prelude::*;

use crate::bytes::{nibble, nibble_value};
use crate::document::{
    field_text, json_char, json_chars, json_text, members_text, object_text, JsonField,
    JsonFieldView, JsonMemberView,
};
use crate::number::{decimal, decimal_int, digit_value, law_decimal_round_trip};

verus! {

proof fn lemma_chars_from_front(s: Seq<char>)
    requires
        s.len() > 0,
    ensures
        json_chars(s) == json_char(s[0]) + json_chars(s.skip(1)),
    decreases s.len(),
{
    let front = s.drop_last();
    if s.len() == 1 {
        assert(front =~= Seq::empty());
        assert(s.skip(1) =~= Seq::empty());
        assert(json_chars(s) =~= json_char(s[0]) + json_chars(s.skip(1)));
    } else {
        lemma_chars_from_front(front);
        assert(s.skip(1).drop_last() =~= front.skip(1));
        assert(json_chars(s) =~= json_char(s[0]) + json_chars(s.skip(1)));
    }
}

proof fn lemma_nibbles_differ(x: int, y: int)
    requires
        0 <= x < 16,
        0 <= y < 16,
        nibble(x) == nibble(y),
    ensures
        x == y,
{
    assert(nibble_value(nibble(x)) == Some(x));
    assert(nibble_value(nibble(y)) == Some(y));
}

/// The text of a character tells which it is, and where it ends.
proof fn lemma_char_first(a: char, b: char, x: Seq<char>, y: Seq<char>)
    requires
        json_char(a) + x == json_char(b) + y,
    ensures
        a == b,
        x == y,
{
    let l = json_char(a) + x;
    let r = json_char(b) + y;
    assert(l[0] == r[0]);
    assert(l[0] == json_char(a)[0]);
    assert(r[0] == json_char(b)[0]);
    if json_char(a).len() > 1 && json_char(b).len() > 1 {
        assert(l[1] == json_char(a)[1]);
        assert(r[1] == json_char(b)[1]);
        if json_char(a).len() == 6 && json_char(b).len() == 6 {
            assert(l[4] == json_char(a)[4] && r[4] == json_char(b)[4]);
            assert(l[5] == json_char(a)[5] && r[5] == json_char(b)[5]);
            lemma_nibbles_differ(a as int / 16, b as int / 16);
            lemma_nibbles_differ(a as int % 16, b as int % 16);
        }
    }
    assert(a == b);
    assert(x =~= l.skip(json_char(a).len() as int));
    assert(y =~= r.skip(json_char(b).len() as int));
}

proof fn lemma_chars_end_at_quote(a: Seq<char>, b: Seq<char>, x: Seq<char>, y: Seq<char>)
    requires
        json_chars(a) + seq!['"'] + x == json_chars(b) + seq!['"'] + y,
    ensures
        a == b,
        x == y,
    decreases a.len(),
{
    let l = json_chars(a) + seq!['"'] + x;
    let r = json_chars(b) + seq!['"'] + y;
    if a.len() > 0 {
        lemma_chars_from_front(a);
    }
    if b.len() > 0 {
        lemma_chars_from_front(b);
    }
    assert(l[0] == r[0]);
    if a.len() == 0 {
        assert(l[0] == '"');
        if b.len() > 0 {
            assert(r[0] == json_char(b[0])[0]);
        }
        assert(a =~= b);
        assert(x =~= l.skip(1));
        assert(y =~= r.skip(1));
    } else {
        assert(l[0] == json_char(a[0])[0]);
        if b.len() == 0 {
            assert(r[0] == '"');
        }
        let xs = json_chars(a.skip(1)) + seq!['"'] + x;
        let ys = json_chars(b.skip(1)) + seq!['"'] + y;
        assert(l =~= json_char(a[0]) + xs);
        assert(r =~= json_char(b[0]) + ys);
        lemma_char_first(a[0], b[0], xs, ys);
        lemma_chars_end_at_quote(a.skip(1), b.skip(1), x, y);
        assert(a =~= seq![a[0]] + a.skip(1));
        assert(b =~= seq![b[0]] + b.skip(1));
    }
}

/// A JSON text tells what it is the text of, and where it ends.
pub proof fn law_json_text_is_told(a: Seq<char>, b: Seq<char>, x: Seq<char>, y: Seq<char>)
    requires
        json_text(a) + x == json_text(b) + y,
    ensures
        a == b,
        x == y,
{
    let l = json_text(a) + x;
    let r = json_text(b) + y;
    assert(l.skip(1) =~= json_chars(a) + seq!['"'] + x);
    assert(r.skip(1) =~= json_chars(b) + seq!['"'] + y);
    lemma_chars_end_at_quote(a, b, x, y);
}

/// A character that ends a value.
pub open spec fn ends_value(s: Seq<char>) -> bool {
    s.len() > 0 && (s[0] == ',' || s[0] == '}')
}

proof fn lemma_integer_chars(i: int)
    ensures
        decimal_int(i).len() > 0,
        forall|k: int|
            1 <= k < decimal_int(i).len() ==> digit_value(#[trigger] decimal_int(i)[k]) is Some,
        decimal_int(i)[0] == '-' <==> i < 0,
        i >= 0 ==> digit_value(decimal_int(i)[0]) is Some,
{
    let n = if i < 0 {
        (-i) as nat
    } else {
        i as nat
    };
    law_decimal_round_trip(n);
    if i < 0 {
        assert forall|k: int| 1 <= k < decimal_int(i).len() implies digit_value(
            #[trigger] decimal_int(i)[k],
        ) is Some by {
            assert(decimal_int(i)[k] == decimal(n)[k - 1]);
        }
    }
}

pub proof fn lemma_integer_is_told(i: int, j: int, x: Seq<char>, y: Seq<char>)
    requires
        decimal_int(i) + x == decimal_int(j) + y,
        ends_value(x),
        ends_value(y),
    ensures
        i == j,
        x == y,
{
    let a = decimal_int(i);
    let b = decimal_int(j);
    let l = a + x;
    let r = b + y;
    lemma_integer_chars(i);
    lemma_integer_chars(j);
    if a.len() < b.len() {
        assert(l[a.len() as int] == x[0]);
        assert(r[a.len() as int] == b[a.len() as int]);
    }
    if b.len() < a.len() {
        assert(r[b.len() as int] == y[0]);
        assert(l[b.len() as int] == a[b.len() as int]);
    }
    assert(a =~= l.take(a.len() as int));
    assert(b =~= r.take(b.len() as int));
    assert(x =~= l.skip(a.len() as int));
    assert(y =~= r.skip(b.len() as int));
    if i < 0 {
        assert(a.skip(1) =~= decimal((-i) as nat));
        assert(b.skip(1) =~= decimal((-j) as nat));
        law_decimal_round_trip((-i) as nat);
        law_decimal_round_trip((-j) as nat);
    } else {
        law_decimal_round_trip(i as nat);
        law_decimal_round_trip(j as nat);
    }
}

/// A value that is null, an integer, a text or a tagged text.
pub open spec fn is_plain(v: JsonFieldView) -> bool {
    v is Null || v is Integer || v is Text || v is Tagged
}

proof fn lemma_field_start(v: JsonFieldView)
    requires
        is_plain(v),
    ensures
        field_text(v).len() > 0,
        v is Null ==> field_text(v)[0] == 'n',
        v is Text ==> field_text(v)[0] == '"',
        v is Tagged ==> field_text(v)[0] == '{',
        v is Integer ==> field_text(v)[0] == '-' || digit_value(field_text(v)[0]) is Some,
{
    if let JsonField::Integer(n) = v {
        lemma_integer_chars(n as int);
    }
}

proof fn lemma_field_is_told(v: JsonFieldView, w: JsonFieldView, x: Seq<char>, y: Seq<char>)
    requires
        is_plain(v),
        is_plain(w),
        field_text(v) + x == field_text(w) + y,
        ends_value(x),
        ends_value(y),
    ensures
        v == w,
        x == y,
{
    let l = field_text(v) + x;
    let r = field_text(w) + y;
    lemma_field_start(v);
    lemma_field_start(w);
    assert(l[0] == field_text(v)[0]);
    assert(r[0] == field_text(w)[0]);
    match (v, w) {
        (JsonField::Null, JsonField::Null) => {
            assert(x =~= l.skip(4));
            assert(y =~= r.skip(4));
        },
        (JsonField::Integer(i), JsonField::Integer(j)) => {
            lemma_integer_is_told(i as int, j as int, x, y);
        },
        (JsonField::Text(a), JsonField::Text(b)) => {
            law_json_text_is_told(a, b, x, y);
        },
        (JsonField::Tagged { tag: t1, text: s1 }, JsonField::Tagged { tag: t2, text: s2 }) => {
            let x1 = seq![':'] + json_text(s1) + seq!['}'] + x;
            let y1 = seq![':'] + json_text(s2) + seq!['}'] + y;
            assert(l.skip(1) =~= json_text(t1) + x1);
            assert(r.skip(1) =~= json_text(t2) + y1);
            law_json_text_is_told(t1, t2, x1, y1);
            let x2 = seq!['}'] + x;
            let y2 = seq!['}'] + y;
            assert(x1.skip(1) =~= json_text(s1) + x2);
            assert(y1.skip(1) =~= json_text(s2) + y2);
            law_json_text_is_told(s1, s2, x2, y2);
            assert(x =~= x2.skip(1));
            assert(y =~= y2.skip(1));
        },
        _ => {
            assert(false);
        },
    }
}

/// One member of an object.
pub open spec fn member_text(m: JsonMemberView) -> Seq<char> {
    json_text(m.name) + seq![':'] + field_text(m.value)
}

/// The members of an object behind its first, each behind a comma.
pub open spec fn more_members(ms: Seq<JsonMemberView>) -> Seq<char>
    decreases ms.len(),
{
    if ms.len() == 0 {
        Seq::empty()
    } else {
        seq![','] + member_text(ms[0]) + more_members(ms.skip(1))
    }
}

proof fn lemma_more_members_push(ms: Seq<JsonMemberView>)
    requires
        ms.len() > 0,
    ensures
        more_members(ms) == more_members(ms.drop_last()).push(',') + member_text(ms.last()),
    decreases ms.len(),
{
    let front = ms.drop_last();
    if ms.len() == 1 {
        assert(front =~= Seq::empty());
        assert(ms.skip(1) =~= Seq::empty());
        assert(more_members(ms) =~= more_members(front).push(',') + member_text(ms.last()));
    } else {
        lemma_more_members_push(ms.skip(1));
        assert(ms.skip(1).drop_last() =~= front.skip(1));
        assert(more_members(ms) =~= more_members(front).push(',') + member_text(ms.last()));
    }
}

proof fn lemma_members_from_front(ms: Seq<JsonMemberView>)
    requires
        ms.len() > 0,
    ensures
        members_text(ms) == member_text(ms[0]) + more_members(ms.skip(1)),
    decreases ms.len(),
{
    let front = ms.drop_last();
    if ms.len() == 1 {
        assert(front =~= Seq::empty());
        assert(ms.skip(1) =~= Seq::empty());
        assert(members_text(ms) == members_text(front) + json_text(ms[0].name) + seq![':']
            + field_text(ms[0].value));
        assert(members_text(ms) =~= member_text(ms[0]) + more_members(ms.skip(1)));
    } else {
        lemma_members_from_front(front);
        lemma_more_members_push(ms.skip(1));
        assert(ms.skip(1).drop_last() =~= front.skip(1));
        assert(members_text(ms) == members_text(front).push(',') + json_text(ms.last().name) + seq![':']
            + field_text(ms.last().value));
        assert(members_text(ms) =~= member_text(ms[0]) + more_members(ms.skip(1)));
    }
}

/// Every member has a plain value.
pub open spec fn all_plain(ms: Seq<JsonMemberView>) -> bool {
    forall|i: int| 0 <= i < ms.len() ==> is_plain((#[trigger] ms[i]).value)
}

proof fn lemma_member_is_told(m: JsonMemberView, n: JsonMemberView, x: Seq<char>, y: Seq<char>)
    requires
        is_plain(m.value),
        is_plain(n.value),
        member_text(m) + x == member_text(n) + y,
        ends_value(x),
        ends_value(y),
    ensures
        m == n,
        x == y,
{
    let x1 = seq![':'] + field_text(m.value) + x;
    let y1 = seq![':'] + field_text(n.value) + y;
    assert(member_text(m) + x =~= json_text(m.name) + x1);
    assert(member_text(n) + y =~= json_text(n.name) + y1);
    law_json_text_is_told(m.name, n.name, x1, y1);
    assert(x1.skip(1) =~= field_text(m.value) + x);
    assert(y1.skip(1) =~= field_text(n.value) + y);
    lemma_field_is_told(m.value, n.value, x, y);
}

proof fn lemma_more_is_told(a: Seq<JsonMemberView>, b: Seq<JsonMemberView>)
    requires
        all_plain(a),
        all_plain(b),
        more_members(a) + seq!['}'] == more_members(b) + seq!['}'],
    ensures
        a == b,
    decreases a.len(),
{
    let l = more_members(a) + seq!['}'];
    let r = more_members(b) + seq!['}'];
    assert(l[0] == r[0]);
    if a.len() == 0 {
        assert(l[0] == '}');
        if b.len() > 0 {
            assert(r[0] == ',');
        }
        assert(a =~= b);
    } else {
        assert(l[0] == ',');
        if b.len() == 0 {
            assert(r[0] == '}');
        }
        let x = more_members(a.skip(1)) + seq!['}'];
        let y = more_members(b.skip(1)) + seq!['}'];
        assert(l.skip(1) =~= member_text(a[0]) + x);
        assert(r.skip(1) =~= member_text(b[0]) + y);
        lemma_ends(a.skip(1));
        lemma_ends(b.skip(1));
        lemma_member_is_told(a[0], b[0], x, y);
        lemma_more_is_told(a.skip(1), b.skip(1));
        assert(a =~= seq![a[0]] + a.skip(1));
        assert(b =~= seq![b[0]] + b.skip(1));
    }
}

proof fn lemma_ends(ms: Seq<JsonMemberView>)
    ensures
        ends_value(more_members(ms) + seq!['}']),
{
    if ms.len() > 0 {
        assert((more_members(ms) + seq!['}'])[0] == ',');
    }
}

/// Objects with plain values are written alike only where they are the same.
pub proof fn law_objects_are_told_apart(a: Seq<JsonMemberView>, b: Seq<JsonMemberView>)
    requires
        all_plain(a),
        all_plain(b),
        object_text(a) == object_text(b),
    ensures
        a == b,
{
    let l = object_text(a);
    let r = object_text(b);
    if a.len() > 0 {
        lemma_members_from_front(a);
    }
    if b.len() > 0 {
        lemma_members_from_front(b);
    }
    assert(l[1] == r[1]);
    if a.len() == 0 {
        assert(l[1] == '}');
        if b.len() > 0 {
            assert(r[1] == '"');
        }
        assert(a =~= b);
    } else {
        assert(l[1] == '"');
        if b.len() == 0 {
            assert(r[1] == '}');
        }
        let x = more_members(a.skip(1)) + seq!['}'];
        let y = more_members(b.skip(1)) + seq!['}'];
        assert(l.skip(1) =~= member_text(a[0]) + x);
        assert(r.skip(1) =~= member_text(b[0]) + y);
        lemma_ends(a.skip(1));
        lemma_ends(b.skip(1));
        lemma_member_is_told(a[0], b[0], x, y);
        lemma_more_is_told(a.skip(1), b.skip(1));
        assert(a =~= seq![a[0]] + a.skip(1));
        assert(b =~= seq![b[0]] + b.skip(1));
    }
}

} // verus!
