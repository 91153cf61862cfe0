//! Texts in ascending order: sorting, sets and maps of keys.
use vstd::prelude::*;

use crate::text::{chars_of, same, texts};

verus! {

/// `a` comes before `b`: it is a proper prefix, or smaller at the first character that differs.
pub open spec fn before(a: Seq<char>, b: Seq<char>) -> bool
    decreases a.len(),
{
    if b.len() == 0 {
        false
    } else if a.len() == 0 {
        true
    } else if a[0] == b[0] {
        before(a.drop_first(), b.drop_first())
    } else {
        a[0] < b[0]
    }
}

pub proof fn lemma_before_irreflexive(a: Seq<char>)
    ensures
        !before(a, a),
    decreases a.len(),
{
    if a.len() > 0 {
        lemma_before_irreflexive(a.drop_first());
    }
}

pub proof fn lemma_before_transitive(a: Seq<char>, b: Seq<char>, c: Seq<char>)
    requires
        before(a, b),
        before(b, c),
    ensures
        before(a, c),
    decreases a.len(),
{
    if a.len() > 0 && a[0] == b[0] && b[0] == c[0] {
        lemma_before_transitive(a.drop_first(), b.drop_first(), c.drop_first());
    }
}

/// Of two different texts one comes before the other.
pub proof fn lemma_before_total(a: Seq<char>, b: Seq<char>)
    ensures
        a == b || before(a, b) || before(b, a),
    decreases a.len(),
{
    if a.len() == 0 && b.len() == 0 {
        assert(a =~= b);
    } else if a.len() > 0 && b.len() > 0 && a[0] == b[0] {
        lemma_before_total(a.drop_first(), b.drop_first());
        if a.drop_first() == b.drop_first() {
            assert(a =~= seq![a[0]] + a.drop_first());
            assert(b =~= seq![b[0]] + b.drop_first());
        }
    }
}

pub fn is_before(a: &str, b: &str) -> (r: bool)
    ensures
        r == before(a@, b@),
{
    let x = chars_of(a);
    let y = chars_of(b);
    let mut i: usize = 0;
    proof {
        assert(x@.skip(0) =~= x@);
        assert(y@.skip(0) =~= y@);
    }
    while i < x.len() && i < y.len()
        invariant
            i <= x@.len(),
            i <= y@.len(),
            before(a@, b@) == before(x@.skip(i as int), y@.skip(i as int)),
        decreases x@.len() - i,
    {
        if x[i] != y[i] {
            return x[i] < y[i];
        }
        proof {
            assert(x@.skip(i as int).drop_first() =~= x@.skip(i + 1));
            assert(y@.skip(i as int).drop_first() =~= y@.skip(i + 1));
        }
        i += 1;
    }
    i < y.len()
}

/// The texts ascend, so that none occurs twice.
pub open spec fn ascending(s: Seq<Seq<char>>) -> bool {
    forall|i: int, j: int| 0 <= i < j < s.len() ==> before(#[trigger] s[i], #[trigger] s[j])
}

/// The texts do not descend.
pub open spec fn sorted(s: Seq<Seq<char>>) -> bool {
    forall|i: int, j: int| 0 <= i < j < s.len() ==> !before(#[trigger] s[j], #[trigger] s[i])
}

/// Two ascending lists of the same texts are the same list.
pub proof fn law_ascending_is_unique(a: Seq<Seq<char>>, b: Seq<Seq<char>>)
    requires
        ascending(a),
        ascending(b),
        forall|k: Seq<char>| a.contains(k) == b.contains(k),
    ensures
        a == b,
    decreases a.len(),
{
    if a.len() == 0 {
        if b.len() > 0 {
            assert(b.contains(b[0]));
        }
        assert(a =~= b);
    } else {
        assert(a.contains(a[0]));
        assert(b.contains(a[0]));
        assert(b.contains(b[0]));
        assert(a.contains(b[0]));
        let i = b.index_of(a[0]);
        let j = a.index_of(b[0]);
        if i > 0 && j > 0 {
            assert(before(b[0], b[i]));
            assert(before(a[0], a[j]));
            lemma_before_transitive(a[0], b[0], a[0]);
            lemma_before_irreflexive(a[0]);
        }
        assert(a[0] == b[0]);
        let x = a.drop_first();
        let y = b.drop_first();
        assert forall|k: Seq<char>| x.contains(k) == y.contains(k) by {
            lemma_before_irreflexive(a[0]);
            if x.contains(k) {
                let n = x.index_of(k);
                assert(a[n + 1] == k);
                assert(before(a[0], a[n + 1]));
                assert(a.contains(k));
                assert(b.contains(k));
                let p = b.index_of(k);
                assert(p > 0);
                assert(y[p - 1] == k);
            }
            if y.contains(k) {
                let n = y.index_of(k);
                assert(b[n + 1] == k);
                assert(before(b[0], b[n + 1]));
                assert(b.contains(k));
                assert(a.contains(k));
                let p = a.index_of(k);
                assert(p > 0);
                assert(x[p - 1] == k);
            }
        }
        assert(ascending(x)) by {
            assert forall|i: int, j: int| 0 <= i < j < x.len() implies before(
                #[trigger] x[i],
                #[trigger] x[j],
            ) by {
                assert(before(a[i + 1], a[j + 1]));
            }
        }
        assert(ascending(y)) by {
            assert forall|i: int, j: int| 0 <= i < j < y.len() implies before(
                #[trigger] y[i],
                #[trigger] y[j],
            ) by {
                assert(before(b[i + 1], b[j + 1]));
            }
        }
        law_ascending_is_unique(x, y);
        assert(a =~= seq![a[0]] + x);
        assert(b =~= seq![b[0]] + y);
    }
}

/// Where `key` stands in an ascending list, or where it belongs.
pub fn position(keys: &Vec<String>, key: &str) -> (r: usize)
    requires
        ascending(texts(keys@)),
    ensures
        r <= keys@.len(),
        forall|j: int| 0 <= j < r ==> before(#[trigger] texts(keys@)[j], key@),
        forall|j: int| r <= j < keys@.len() ==> !before(#[trigger] texts(keys@)[j], key@),
        texts(keys@).contains(key@) == (r < keys@.len() && texts(keys@)[r as int] == key@),
        !texts(keys@).contains(key@) ==> forall|j: int|
            r <= j < keys@.len() ==> before(key@, #[trigger] texts(keys@)[j]),
{
    let ghost all = texts(keys@);
    let mut i: usize = 0;
    while i < keys.len() && is_before(keys[i].as_str(), key)
        invariant
            i <= keys@.len(),
            all == texts(keys@),
            forall|j: int| 0 <= j < i ==> before(#[trigger] all[j], key@),
        decreases keys@.len() - i,
    {
        i += 1;
    }
    proof {
        lemma_before_irreflexive(key@);
        assert forall|j: int| i <= j < all.len() implies !before(#[trigger] all[j], key@) by {
            if before(all[j], key@) && j > i {
                lemma_before_transitive(all[i as int], all[j], key@);
            }
        }
        if all.contains(key@) {
            let k = all.index_of(key@);
            assert(!(k < i));
            if k > i {
                assert(before(all[i as int], all[k]));
            }
        } else {
            assert forall|j: int| i <= j < all.len() implies before(key@, #[trigger] all[j]) by {
                lemma_before_total(key@, all[j]);
                assert(all.contains(all[j]));
            }
        }
    }
    i
}

/// The list with `key` at its place.
proof fn lemma_insert(s: Seq<Seq<char>>, key: Seq<char>, at: int)
    requires
        ascending(s),
        0 <= at <= s.len(),
        forall|j: int| 0 <= j < at ==> before(#[trigger] s[j], key),
        forall|j: int| at <= j < s.len() ==> before(key, #[trigger] s[j]),
    ensures
        ascending(s.insert(at, key)),
        forall|k: Seq<char>| s.insert(at, key).contains(k) == (s.contains(k) || k == key),
{
    let t = s.insert(at, key);
    assert forall|i: int, j: int| 0 <= i < j < t.len() implies before(
        #[trigger] t[i],
        #[trigger] t[j],
    ) by {
        let a = if i < at {
            s[i]
        } else if i == at {
            key
        } else {
            s[i - 1]
        };
        let b = if j < at {
            s[j]
        } else if j == at {
            key
        } else {
            s[j - 1]
        };
        assert(t[i] == a && t[j] == b);
    }
    assert forall|k: Seq<char>| t.contains(k) == (s.contains(k) || k == key) by {
        if s.contains(k) {
            let n = s.index_of(k);
            if n < at {
                assert(t[n] == k);
            } else {
                assert(t[n + 1] == k);
            }
        }
        assert(t[at] == key);
        if t.contains(k) && k != key {
            let n = t.index_of(k);
            if n < at {
                assert(s[n] == k);
            } else {
                assert(s[n - 1] == k);
            }
        }
    }
}

proof fn lemma_texts_insert(v: Seq<String>, at: int, s: String)
    requires
        0 <= at <= v.len(),
    ensures
        texts(v.insert(at, s)) == texts(v).insert(at, s@),
{
    assert(texts(v.insert(at, s)) =~= texts(v).insert(at, s@));
}

proof fn lemma_texts_remove(v: Seq<String>, at: int)
    requires
        0 <= at < v.len(),
    ensures
        texts(v.remove(at)) == texts(v).remove(at),
{
    assert(texts(v.remove(at)) =~= texts(v).remove(at));
}

/// The list without the text at `at`.
proof fn lemma_remove(s: Seq<Seq<char>>, at: int)
    requires
        ascending(s),
        0 <= at < s.len(),
    ensures
        ascending(s.remove(at)),
        forall|k: Seq<char>| s.remove(at).contains(k) == (s.contains(k) && k != s[at]),
{
    let t = s.remove(at);
    assert forall|i: int, j: int| 0 <= i < j < t.len() implies before(
        #[trigger] t[i],
        #[trigger] t[j],
    ) by {
        let a = if i < at {
            i
        } else {
            i + 1
        };
        let b = if j < at {
            j
        } else {
            j + 1
        };
        assert(t[i] == s[a] && t[j] == s[b]);
    }
    assert forall|k: Seq<char>| t.contains(k) == (s.contains(k) && k != s[at]) by {
        if t.contains(k) {
            let n = t.index_of(k);
            let m = if n < at {
                n
            } else {
                n + 1
            };
            assert(s[m] == k);
            lemma_before_irreflexive(k);
            if m < at {
                assert(before(s[m], s[at]));
            } else {
                assert(before(s[at], s[m]));
            }
        }
        if s.contains(k) && k != s[at] {
            let n = s.index_of(k);
            if n < at {
                assert(t[n] == k);
            } else {
                assert(t[n - 1] == k);
            }
        }
    }
}

/// Adds `key` to an ascending list where it is not there yet; says whether it was added.
pub fn insert_key(keys: &mut Vec<String>, key: &str) -> (r: bool)
    requires
        ascending(texts(old(keys)@)),
    ensures
        ascending(texts(final(keys)@)),
        forall|k: Seq<char>| #[trigger]
            texts(final(keys)@).contains(k) == (texts(old(keys)@).contains(k) || k == key@),
        r == !texts(old(keys)@).contains(key@),
        final(keys)@.len() == old(keys)@.len() + if r {
            1int
        } else {
            0int
        },
{
    let at: usize = position(keys, key);
    if at < keys.len() && same(keys[at].as_str(), key) {
        proof {
            assert(texts(keys@)[at as int] == key@);
        }
        return false;
    }
    let text = key.to_owned();
    proof {
        assert(!texts(keys@).contains(key@));
        lemma_insert(texts(keys@), key@, at as int);
        lemma_texts_insert(keys@, at as int, text);
    }
    keys.insert(at, text);
    true
}

pub fn has_key(keys: &Vec<String>, key: &str) -> (r: bool)
    requires
        ascending(texts(keys@)),
    ensures
        r == texts(keys@).contains(key@),
{
    let at: usize = position(keys, key);
    at < keys.len() && same(keys[at].as_str(), key)
}

/// Whether a list, in whatever order, holds a text.
pub fn lists(keys: &Vec<String>, key: &str) -> (r: bool)
    ensures
        r == texts(keys@).contains(key@),
{
    let mut i: usize = 0;
    while i < keys.len()
        invariant
            i <= keys@.len(),
            forall|j: int| 0 <= j < i ==> #[trigger] texts(keys@)[j] != key@,
        decreases keys@.len() - i,
    {
        if same(keys[i].as_str(), key) {
            proof {
                assert(texts(keys@)[i as int] == key@);
            }
            return true;
        }
        i += 1;
    }
    false
}

/// A map from texts to values, in ascending order of the texts.
#[derive(Debug, Clone)]
pub struct KeyMap<V> {
    pub keys: Vec<String>,
    pub values: Vec<V>,
}

impl<V> View for KeyMap<V> {
    type V = Map<Seq<char>, V>;

    open spec fn view(&self) -> Map<Seq<char>, V> {
        Map::new(
            |k: Seq<char>| self.names().contains(k),
            |k: Seq<char>| self.values@[self.names().index_of(k)],
        )
    }
}

impl<V> KeyMap<V> {
    /// The keys in ascending order.
    pub open spec fn names(&self) -> Seq<Seq<char>> {
        texts(self.keys@)
    }

    pub open spec fn wf(&self) -> bool {
        ascending(self.names()) && self.keys@.len() == self.values@.len()
    }

    pub fn new() -> (r: KeyMap<V>)
        ensures
            r.wf(),
            r@ == Map::<Seq<char>, V>::empty(),
    {
        let r = KeyMap { keys: Vec::new(), values: Vec::new() };
        proof {
            assert(r@ =~= Map::<Seq<char>, V>::empty());
        }
        r
    }

    /// The value at a place in the order belongs to the key there.
    pub proof fn lemma_at(&self, i: int)
        requires
            self.wf(),
            0 <= i < self.keys@.len(),
        ensures
            self@.contains_key(self.names()[i]),
            self@[self.names()[i]] == self.values@[i],
    {
        let k = self.names()[i];
        assert(self.names().contains(k));
        let n = self.names().index_of(k);
        lemma_before_irreflexive(k);
        if n < i {
            assert(before(self.names()[n], self.names()[i]));
        }
        if i < n {
            assert(before(self.names()[i], self.names()[n]));
        }
    }

    pub fn get(&self, key: &str) -> (r: Option<&V>)
        requires
            self.wf(),
        ensures
            match r {
                Some(v) => self@.contains_key(key@) && *v == self@[key@],
                None => !self@.contains_key(key@),
            },
    {
        let at: usize = position(&self.keys, key);
        if at < self.keys.len() && same(self.keys[at].as_str(), key) {
            proof {
                self.lemma_at(at as int);
            }
            Some(&self.values[at])
        } else {
            None
        }
    }

    pub fn contains(&self, key: &str) -> (r: bool)
        requires
            self.wf(),
        ensures
            r == self@.contains_key(key@),
    {
        has_key(&self.keys, key)
    }

    /// Gives `key` a value, whether or not it had one.
    pub fn put(&mut self, key: &str, value: V)
        requires
            old(self).wf(),
        ensures
            final(self).wf(),
            final(self)@ == old(self)@.insert(key@, value),
    {
        let at: usize = position(&self.keys, key);
        let ghost before_put = *self;
        if at < self.keys.len() && same(self.keys[at].as_str(), key) {
            self.values.set(at, value);
            proof {
                assert(self@ =~= before_put@.insert(key@, value)) by {
                    assert forall|k: Seq<char>| self@.contains_key(k) implies self@[k]
                        == before_put@.insert(key@, value)[k] by {
                        let n = self.names().index_of(k);
                        self.lemma_at(n);
                        self.lemma_at(at as int);
                        before_put.lemma_at(n);
                    }
                }
            }
        } else {
            let text = key.to_owned();
            proof {
                assert(!self.names().contains(key@));
                lemma_insert(self.names(), key@, at as int);
                lemma_texts_insert(self.keys@, at as int, text);
            }
            self.keys.insert(at, text);
            self.values.insert(at, value);
            proof {
                assert(self.wf());
                assert(self@ =~= before_put@.insert(key@, value)) by {
                    assert forall|k: Seq<char>| self@.contains_key(k) implies self@[k]
                        == before_put@.insert(key@, value)[k] by {
                        let n = self.names().index_of(k);
                        self.lemma_at(n);
                        self.lemma_at(at as int);
                        if n < at {
                            before_put.lemma_at(n);
                        } else if n > at {
                            before_put.lemma_at(n - 1);
                        }
                    }
                }
            }
        }
    }

    /// Takes the value of `key` away, where it has one.
    pub fn take(&mut self, key: &str) -> (r: Option<V>)
        requires
            old(self).wf(),
        ensures
            final(self).wf(),
            final(self)@ == old(self)@.remove(key@),
            match r {
                Some(v) => old(self)@.contains_key(key@) && v == old(self)@[key@],
                None => !old(self)@.contains_key(key@),
            },
    {
        let at: usize = position(&self.keys, key);
        let ghost before_take = *self;
        if at < self.keys.len() && same(self.keys[at].as_str(), key) {
            proof {
                self.lemma_at(at as int);
                lemma_remove(self.names(), at as int);
                lemma_texts_remove(self.keys@, at as int);
            }
            let _key = self.keys.remove(at);
            let value = self.values.remove(at);
            proof {
                assert(self.wf());
                assert(self@ =~= before_take@.remove(key@)) by {
                    assert forall|k: Seq<char>| self@.contains_key(k) implies self@[k]
                        == before_take@.remove(key@)[k] by {
                        let n = self.names().index_of(k);
                        self.lemma_at(n);
                        if n < at {
                            before_take.lemma_at(n);
                        } else {
                            before_take.lemma_at(n + 1);
                        }
                    }
                }
            }
            Some(value)
        } else {
            proof {
                assert(self@ =~= before_take@.remove(key@));
            }
            None
        }
    }
}

/// Puts `key` behind the texts that do not come after it.
proof fn lemma_sorted_insert(s: Seq<Seq<char>>, key: Seq<char>, at: int)
    requires
        sorted(s),
        0 <= at <= s.len(),
        forall|j: int| 0 <= j < at ==> !before(key, #[trigger] s[j]),
        at < s.len() ==> before(key, s[at]),
    ensures
        sorted(s.insert(at, key)),
        s.insert(at, key).to_multiset() == s.to_multiset().insert(key),
{
    let t = s.insert(at, key);
    assert forall|i: int, j: int| 0 <= i < j < t.len() implies !before(
        #[trigger] t[j],
        #[trigger] t[i],
    ) by {
        if i == at {
            assert(t[j] == s[j - 1]);
            if before(s[j - 1], key) {
                lemma_before_transitive(s[j - 1], key, s[at]);
                lemma_before_irreflexive(s[at]);
            }
        } else if j == at {
            assert(t[i] == s[i]);
        } else {
            let a = if i < at {
                i
            } else {
                i - 1
            };
            let b = if j < at {
                j
            } else {
                j - 1
            };
            assert(t[i] == s[a] && t[j] == s[b]);
        }
    }
    assert(t.remove(at) =~= s);
    t.to_multiset_ensures();
    assert(t[at] == key);
    assert(t.contains(key));
    assert(t.to_multiset() =~= s.to_multiset().insert(key));
}

/// The texts in ascending order, each as often as before.
pub fn sort_texts(list: &Vec<String>) -> (r: Vec<String>)
    ensures
        sorted(texts(r@)),
        texts(r@).to_multiset() == texts(list@).to_multiset(),
{
    let ghost all = texts(list@);
    let mut out: Vec<String> = Vec::new();
    let mut n: usize = 0;
    proof {
        assert(texts(out@) =~= all.take(0));
    }
    while n < list.len()
        invariant
            n <= list@.len(),
            all == texts(list@),
            sorted(texts(out@)),
            texts(out@).to_multiset() == all.take(n as int).to_multiset(),
        decreases list@.len() - n,
    {
        let key = list[n].clone();
        let mut at: usize = 0;
        while at < out.len() && !is_before(key.as_str(), out[at].as_str())
            invariant
                at <= out@.len(),
                forall|j: int| 0 <= j < at ==> !before(key@, #[trigger] texts(out@)[j]),
            decreases out@.len() - at,
        {
            at += 1;
        }
        proof {
            assert(at < out@.len() ==> before(key@, texts(out@)[at as int]));
            lemma_sorted_insert(texts(out@), key@, at as int);
            lemma_texts_insert(out@, at as int, key);
            assert(all.take(n + 1) =~= all.take(n as int).push(key@));
            all.take(n as int).to_multiset_ensures();
        }
        out.insert(at, key);
        n += 1;
    }
    proof {
        assert(all.take(n as int) =~= all);
    }
    out
}

/// One more text of a list.
pub proof fn lemma_take_contains(all: Seq<Seq<char>>, i: int)
    requires
        0 <= i < all.len(),
    ensures
        forall|k: Seq<char>| #[trigger]
            all.take(i + 1).contains(k) == (all.take(i).contains(k) || k == all[i]),
{
    let now = all.take(i);
    let next = all.take(i + 1);
    assert(next =~= now.push(all[i]));
    assert forall|k: Seq<char>| #[trigger] next.contains(k) == (now.contains(k) || k == all[i]) by {
        if now.contains(k) {
            assert(next[now.index_of(k)] == k);
        }
        assert(next[i] == all[i]);
        if next.contains(k) && k != all[i] {
            assert(now[next.index_of(k)] == k);
        }
    }
}

/// Adds texts to an ascending list, each where it is not there yet.
pub fn insert_keys(out: &mut Vec<String>, keys: &Vec<String>)
    requires
        ascending(texts(old(out)@)),
    ensures
        ascending(texts(final(out)@)),
        forall|k: Seq<char>| #[trigger]
            texts(final(out)@).contains(k) == (texts(old(out)@).contains(k) || texts(
                keys@,
            ).contains(k)),
{
    let ghost all = texts(keys@);
    let mut i: usize = 0;
    proof {
        assert(all.take(0) =~= Seq::empty());
    }
    while i < keys.len()
        invariant
            i <= keys@.len(),
            all == texts(keys@),
            ascending(texts(out@)),
            forall|k: Seq<char>| #[trigger]
                texts(out@).contains(k) == (texts(old(out)@).contains(k) || all.take(
                    i as int,
                ).contains(k)),
        decreases keys@.len() - i,
    {
        proof {
            lemma_take_contains(all, i as int);
        }
        insert_key(out, keys[i].as_str());
        i += 1;
    }
    proof {
        assert(all.take(i as int) =~= all);
    }
}

} // verus!
