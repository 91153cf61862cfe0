//! From the paths of commands to the keys of the repository.
use vstd::prelude::*;
use vstd::string::*;

use crate::error::{seen, CommandError, RepoErr};
use crate::order::{ascending, insert_keys};
use crate::restore::{normal_filter, normalize_repo_path_filter};
use crate::text::{chars_of, join, joined, lemma_texts_push, same, texts};
use crate::words::Host;

verus! {

/// A text with its backslashes turned into slashes.
pub open spec fn forward(s: Seq<char>) -> Seq<char> {
    Seq::new(
        s.len(),
        |i: int|
            if s[i] == '\\' {
                '/'
            } else {
                s[i]
            },
    )
}

fn with_forward_slashes(s: &str) -> (r: String)
    ensures
        r@ == forward(s@),
{
    let cs = chars_of(s);
    let n: usize = cs.len();
    let mut out = String::new();
    let mut i: usize = 0;
    while i < n
        invariant
            n == cs@.len(),
            cs@ == s@,
            i <= n,
            out@ == forward(s@).take(i as int),
        decreases n - i,
    {
        out.push(
            if cs[i] == '\\' {
                '/'
            } else {
                cs[i]
            },
        );
        proof {
            assert(out@ =~= forward(s@).take(i + 1));
        }
        i += 1;
    }
    proof {
        assert(forward(s@).take(n as int) =~= forward(s@));
    }
    out
}

/// The error of a path that does not lie in the worktree.
pub open spec fn outside(shown: Seq<char>, worktree: Seq<char>) -> CommandError<Seq<char>> {
    CommandError::Repo(RepoErr::PathOutsideWorktree { path: shown, worktree })
}

fn path_outside_worktree(shown: &str, worktree: &str) -> (r: CommandError)
    ensures
        r@ == outside(shown@, worktree@),
{
    CommandError::Repo(
        RepoErr::PathOutsideWorktree { path: shown.to_owned(), worktree: worktree.to_owned() },
    )
}

/// The key of a directory; `below` is the part of its path below the worktree, where it lies there.
pub fn repo_directory_key(below: Option<&str>, shown: &str, worktree: &str) -> (r: Result<
    String,
    CommandError,
>)
    ensures
        seen(r) == match below {
            Some(s) => Ok(forward(s@)),
            None => Err(outside(shown@, worktree@)),
        },
{
    match below {
        Some(s) => Ok(with_forward_slashes(s)),
        None => Err(path_outside_worktree(shown, worktree)),
    }
}

/// A component that names an entry of a directory.
pub open spec fn names_entry(part: Seq<char>) -> bool {
    part.len() > 0 && part != "."@ && part != ".."@
}

/// The components of a path whose parent is missing: those of the parent that is there, those that
/// are missing, which are given from the innermost outwards, and the name of the file.
pub open spec fn whole_path(
    parent: Seq<Seq<char>>,
    missing: Seq<Seq<char>>,
    name: Seq<char>,
) -> Seq<
    Seq<char>,
> {
    (parent + missing.reverse()).push(name)
}

/// The key of a path whose parent is missing. `parent` are the components below the worktree of the
/// part that is there; without them, or without a name, the path lies outside.
pub open spec fn missing_key(
    parent: Option<Seq<Seq<char>>>,
    missing: Seq<Seq<char>>,
    name: Option<Seq<char>>,
    shown: Seq<char>,
    worktree: Seq<char>,
) -> Result<Seq<char>, CommandError<Seq<char>>> {
    match (parent, name) {
        (Some(p), Some(n)) => {
            let parts = whole_path(p, missing, n);
            if forall|i: int| 0 <= i < parts.len() ==> names_entry(#[trigger] parts[i]) {
                Ok(forward(joined(parts, "/"@)))
            } else {
                Err(outside(shown, worktree))
            }
        },
        _ => Err(outside(shown, worktree)),
    }
}

pub fn is_entry_name(part: &str) -> (r: bool)
    ensures
        r == names_entry(part@),
{
    !part.is_empty() && !same(part, ".") && !same(part, "..")
}

fn all_entry_names(parts: &Vec<String>) -> (r: bool)
    ensures
        r == forall|i: int| 0 <= i < parts@.len() ==> names_entry(#[trigger] texts(parts@)[i]),
{
    let count: usize = parts.len();
    let mut j: usize = 0;
    while j < count
        invariant
            count == parts@.len(),
            j <= count,
            forall|k: int| 0 <= k < j ==> names_entry(#[trigger] texts(parts@)[k]),
        decreases count - j,
    {
        if !is_entry_name(parts[j].as_str()) {
            proof {
                assert(!names_entry(texts(parts@)[j as int]));
            }
            return false;
        }
        j += 1;
    }
    true
}

pub fn repo_key_with_missing_parent(
    parent: Option<Vec<String>>,
    missing: &Vec<String>,
    name: Option<&str>,
    shown: &str,
    worktree: &str,
) -> (r: Result<String, CommandError>)
    ensures
        seen(r) == missing_key(
            match parent {
                Some(p) => Some(texts(p@)),
                None => None,
            },
            texts(missing@),
            crate::error::str_option(name),
            shown@,
            worktree@,
        ),
{
    let mut parts = match parent {
        Some(p) => p,
        None => return Err(path_outside_worktree(shown, worktree)),
    };
    let file = match name {
        Some(n) => n,
        None => return Err(path_outside_worktree(shown, worktree)),
    };
    let ghost start = texts(parts@);
    let ghost ms = texts(missing@);
    let n: usize = missing.len();
    let mut i: usize = 0;
    proof {
        assert(start + ms.reverse().take(0) =~= start);
    }
    while i < n
        invariant
            n == missing@.len(),
            i <= n,
            ms == texts(missing@),
            texts(parts@) == start + ms.reverse().take(i as int),
        decreases n - i,
    {
        let part = missing[n - 1 - i].clone();
        proof {
            lemma_texts_push(parts@, part);
            assert(ms.reverse()[i as int] == part@);
            assert(start + ms.reverse().take(i + 1) =~= (start + ms.reverse().take(i as int)).push(
                part@,
            ));
        }
        parts.push(part);
        i += 1;
    }
    let last = file.to_owned();
    proof {
        assert(ms.reverse().take(n as int) =~= ms.reverse());
        lemma_texts_push(parts@, last);
    }
    parts.push(last);
    let ghost all = whole_path(start, ms, file@);
    proof {
        assert(texts(parts@) =~= all);
    }
    if !all_entry_names(&parts) {
        return Err(path_outside_worktree(shown, worktree));
    }
    Ok(with_forward_slashes(join(&parts, "/").as_str()))
}

/// The filter that a path stands for: the empty path is the whole worktree; an absolute path, whose
/// key is given, and a relative one are normalised.
pub fn repo_path_arg(path: &str, absolute_key: Option<&str>, host: Host) -> (r: String)
    ensures
        r@ == if path@.len() == 0 {
            Seq::empty()
        } else {
            match absolute_key {
                Some(key) => normal_filter(key@, host),
                None => normal_filter(path@, host),
            }
        },
{
    if path.is_empty() {
        return String::new();
    }
    match absolute_key {
        Some(key) => normalize_repo_path_filter(key, host),
        None => normalize_repo_path_filter(path, host),
    }
}

/// The volumes that a collection keeps: those of every state that is referred to, each once.
pub fn storage_gc_roots(volumes: &Vec<String>) -> (r: Vec<String>)
    ensures
        ascending(texts(r@)),
        forall|k: Seq<char>| #[trigger] texts(r@).contains(k) == texts(volumes@).contains(k),
{
    let mut out: Vec<String> = Vec::new();
    insert_keys(&mut out, volumes);
    out
}

} // verus!
