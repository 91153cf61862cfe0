//! Walks over the commits of a repository.
use vstd::prelude::*;

use crate::order::{ascending, has_key, insert_key};
use crate::text::texts;

verus! {

/// The texts of a list as a set.
pub open spec fn key_set(keys: Seq<String>) -> Set<Seq<char>> {
    Set::new(|k: Seq<char>| texts(keys).contains(k))
}

/// The next commit of a walk: the last of the stack that was not seen before and at which the walk
/// does not stop; with it, the rest of the stack and what was seen.
pub open spec fn next_of(
    stack: Seq<Seq<char>>,
    seen: Set<Seq<char>>,
    stop: Set<Seq<char>>,
) -> (Option<Seq<char>>, Seq<Seq<char>>, Set<Seq<char>>)
    decreases stack.len(),
{
    if stack.len() == 0 {
        (None, stack, seen)
    } else if seen.contains(stack.last()) {
        next_of(stack.drop_last(), seen, stop)
    } else if stop.contains(stack.last()) {
        next_of(stack.drop_last(), seen.insert(stack.last()), stop)
    } else {
        (Some(stack.last()), stack.drop_last(), seen.insert(stack.last()))
    }
}

/// A walk in progress: the commits still to visit, those that were seen, and those at which it
/// stops.
pub struct CommitWalk {
    pub stack: Vec<String>,
    pub seen: Vec<String>,
    pub stop: Vec<String>,
}

impl CommitWalk {
    pub open spec fn wf(&self) -> bool {
        ascending(texts(self.seen@)) && ascending(texts(self.stop@))
    }

    /// A walk from the given commits that stops at others.
    pub fn start(roots: Vec<String>, stop: &Vec<String>) -> (r: CommitWalk)
        ensures
            r.wf(),
            texts(r.stack@) == texts(roots@),
            key_set(r.seen@) == Set::<Seq<char>>::empty(),
            key_set(r.stop@) == key_set(stop@),
    {
        let seen: Vec<String> = Vec::new();
        let mut stops: Vec<String> = Vec::new();
        let ghost all = texts(stop@);
        let mut i: usize = 0;
        proof {
            assert(all.take(0) =~= Seq::empty());
        }
        while i < stop.len()
            invariant
                i <= stop@.len(),
                all == texts(stop@),
                ascending(texts(stops@)),
                forall|k: Seq<char>| #[trigger]
                    texts(stops@).contains(k) == all.take(i as int).contains(k),
            decreases stop@.len() - i,
        {
            proof {
                let now = all.take(i as int);
                let next = all.take(i + 1);
                let key = stop@[i as int]@;
                assert(next =~= now.push(key));
                assert forall|k: Seq<char>| next.contains(k) == (now.contains(k) || k == key) by {
                    if now.contains(k) {
                        assert(next[now.index_of(k)] == k);
                    }
                    assert(next[i as int] == key);
                    if next.contains(k) && k != key {
                        assert(now[next.index_of(k)] == k);
                    }
                }
            }
            insert_key(&mut stops, stop[i].as_str());
            i += 1;
        }
        proof {
            assert(all.take(i as int) =~= all);
            assert(key_set(stops@) =~= key_set(stop@));
            assert(key_set(seen@) =~= Set::<Seq<char>>::empty());
        }
        CommitWalk { stack: roots, seen, stop: stops }
    }

    /// The next commit to visit.
    pub fn next_commit(&mut self) -> (r: Option<String>)
        requires
            old(self).wf(),
        ensures
            final(self).wf(),
            final(self).stop == old(self).stop,
            ({
                let (id, stack, seen) = next_of(
                    texts(old(self).stack@),
                    key_set(old(self).seen@),
                    key_set(old(self).stop@),
                );
                &&& crate::error::text_option(r) == id
                &&& texts(final(self).stack@) == stack
                &&& key_set(final(self).seen@) == seen
            }),
    {
        let ghost goal = next_of(
            texts(self.stack@),
            key_set(self.seen@),
            key_set(self.stop@),
        );
        let ghost stops = self.stop;
        while self.stack.len() > 0
            invariant
                self.wf(),
                self.stop == stops,
                stops == old(self).stop,
                goal == next_of(
                    texts(old(self).stack@),
                    key_set(old(self).seen@),
                    key_set(old(self).stop@),
                ),
                goal == next_of(
                    texts(self.stack@),
                    key_set(self.seen@),
                    key_set(self.stop@),
                ),
            decreases self.stack@.len(),
        {
            let ghost before = texts(self.stack@);
            let ghost seen_before = key_set(self.seen@);
            let id = match self.stack.pop() {
                Some(id) => id,
                None => return None,
            };
            proof {
                assert(before.last() == id@);
                assert(texts(self.stack@) =~= before.drop_last());
            }
            let fresh: bool = insert_key(&mut self.seen, id.as_str());
            proof {
                assert(key_set(self.seen@) =~= seen_before.insert(id@));
                if !fresh {
                    assert(key_set(self.seen@) =~= seen_before);
                }
            }
            if fresh && !has_key(&self.stop, id.as_str()) {
                return Some(id);
            }
        }
        None
    }

    /// Adds the parents of a visited commit.
    pub fn add_parents(&mut self, parents: Vec<String>)
        ensures
            texts(final(self).stack@) == texts(old(self).stack@) + texts(parents@),
            final(self).seen == old(self).seen,
            final(self).stop == old(self).stop,
    {
        let mut parents = parents;
        proof {
            assert(texts(self.stack@ + parents@) =~= texts(self.stack@) + texts(parents@));
        }
        self.stack.append(&mut parents);
    }
}

/// A walk visits no commit twice and none at which it stops, and what it has seen it keeps.
pub proof fn law_walk_visits_once(
    stack: Seq<Seq<char>>,
    seen: Set<Seq<char>>,
    stop: Set<Seq<char>>,
)
    ensures
        ({
            let (id, rest, after) = next_of(stack, seen, stop);
            &&& seen.subset_of(after)
            &&& id matches Some(k) ==> !seen.contains(k) && !stop.contains(k) && after.contains(k)
                && stack.contains(k)
            &&& id is None ==> rest.len() == 0
        }),
    decreases stack.len(),
{
    if stack.len() > 0 {
        let last = stack.last();
        let rest = stack.drop_last();
        if seen.contains(last) {
            law_walk_visits_once(rest, seen, stop);
        } else if stop.contains(last) {
            law_walk_visits_once(rest, seen.insert(last), stop);
        }
        if next_of(stack, seen, stop).0 is Some {
            let k = next_of(stack, seen, stop).0->0;
            if rest.contains(k) {
                assert(stack[rest.index_of(k)] == k);
            }
        }
    }
}

} // verus!
