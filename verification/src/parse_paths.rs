//! The arguments of commands that name paths.
use vstd::prelude::*;

use crate::error::{pragma_fail, refused, seen, str_option, text_option, PragmaErr};
use crate::number::{parse_u64, parsed_unsigned};
use crate::spec::{
    DiffMode, RepoAddSpec, RepoDiffSpec, RepoDiffTarget, RepoTextContentSpec,
    RepoTrackedPathKind,
};
use crate::text::{
    cat2, cat3, dashed, has_prefix, is_dashed, join_from, joined, lemma_texts_push, same,
    split_whitespace, strip_prefix, texts, trim, trimmed, words,
};
use crate::words::{
    ambiguous_escape, ambiguous_message, pragma_words, reject_ambiguous_posix_path_escape,
    split_pragma_words, unterminated, Host,
};

verus! {

/// The kind that a `--kind` value names.
pub open spec fn kind_arg(value: Seq<char>) -> Result<RepoTrackedPathKind, PragmaErr<Seq<char>>> {
    if value == "sqlite"@ || value == "sqlite_database"@ || value == "sqlite-database"@ || value
        == "database"@ || value == "db"@ {
        Ok(RepoTrackedPathKind::SqliteDatabase)
    } else if value == "text"@ || value == "text_file"@ || value == "text-file"@ {
        Ok(RepoTrackedPathKind::TextFile)
    } else if value == "binary"@ || value == "binary_file"@ || value == "binary-file"@ {
        Ok(RepoTrackedPathKind::BinaryFile)
    } else {
        refused("--kind must be one of sqlite_database, text_file, or binary_file"@)
    }
}

pub fn parse_repo_tracked_path_kind_arg(value: &str) -> (r: Result<RepoTrackedPathKind, PragmaErr>)
    ensures
        match r {
            Ok(kind) => kind_arg(value@) == Ok::<_, PragmaErr<Seq<char>>>(kind),
            Err(e) => kind_arg(value@) == Err::<RepoTrackedPathKind, _>(e@),
        },
{
    if same(value, "sqlite") || same(value, "sqlite_database") || same(value, "sqlite-database")
        || same(value, "database") || same(value, "db") {
        Ok(RepoTrackedPathKind::SqliteDatabase)
    } else if same(value, "text") || same(value, "text_file") || same(value, "text-file") {
        Ok(RepoTrackedPathKind::TextFile)
    } else if same(value, "binary") || same(value, "binary_file") || same(value, "binary-file") {
        Ok(RepoTrackedPathKind::BinaryFile)
    } else {
        Err(pragma_fail("--kind must be one of sqlite_database, text_file, or binary_file"))
    }
}

/// The options of a diff command, and the words that are none.
pub struct DiffFlags {
    pub rows: bool,
    pub kind: Option<RepoTrackedPathKind>,
    pub content: bool,
    pub max: Option<u64>,
    pub root: Option<Seq<char>>,
    pub rest: Seq<Seq<char>>,
    /// Every further word belongs to a path.
    pub in_path: bool,
}

pub open spec fn no_diff_flags() -> DiffFlags {
    DiffFlags {
        rows: false,
        kind: None,
        content: false,
        max: None,
        root: None,
        rest: Seq::empty(),
        in_path: false,
    }
}

/// The options among the words from `i` on, added to `f`.
pub open spec fn diff_flags(w: Seq<Seq<char>>, i: int, f: DiffFlags) -> Result<
    DiffFlags,
    PragmaErr<Seq<char>>,
>
    decreases w.len() - i,
{
    if i >= w.len() {
        Ok(f)
    } else if f.in_path {
        diff_flags(w, i + 1, DiffFlags { rest: f.rest.push(w[i]), ..f })
    } else if w[i] == "--"@ {
        diff_flags(w, i + 1, DiffFlags { rest: f.rest.push(w[i]), in_path: true, ..f })
    } else if w[i] == "--rows"@ {
        if f.rows {
            refused("`--rows` may only be specified once"@)
        } else {
            diff_flags(w, i + 1, DiffFlags { rows: true, ..f })
        }
    } else if w[i] == "--kind"@ {
        if f.kind is Some {
            refused("diff accepts --kind only once"@)
        } else if i + 1 >= w.len() {
            refused("diff --kind requires a value"@)
        } else {
            match kind_arg(w[i + 1]) {
                Ok(kind) => diff_flags(w, i + 2, DiffFlags { kind: Some(kind), ..f }),
                Err(e) => Err(e),
            }
        }
    } else if w[i] == "--content"@ {
        if f.content {
            refused("diff accepts --content only once"@)
        } else {
            diff_flags(w, i + 1, DiffFlags { content: true, ..f })
        }
    } else if w[i] == "--max-content-bytes"@ {
        if f.max is Some {
            refused("diff accepts --max-content-bytes only once"@)
        } else if i + 1 >= w.len() {
            refused("diff --max-content-bytes requires a value"@)
        } else {
            match parsed_unsigned(w[i + 1], u64::MAX as nat) {
                Some(v) => if v == 0 {
                    refused("diff --max-content-bytes must be a positive integer"@)
                } else {
                    diff_flags(w, i + 2, DiffFlags { max: Some(v as u64), ..f })
                },
                None => refused("diff --max-content-bytes must be a positive integer"@),
            }
        }
    } else if w[i] == "--root"@ {
        if f.root is Some {
            refused("diff accepts --root only once"@)
        } else if i + 1 >= w.len() {
            refused("diff --root requires a target revision"@)
        } else {
            diff_flags(w, i + 2, DiffFlags { root: Some(w[i + 1]), ..f })
        }
    } else {
        diff_flags(w, i + 1, DiffFlags { rest: f.rest.push(w[i]), ..f })
    }
}

/// The path that the words from `i` on name.
pub open spec fn path_from(w: Seq<Seq<char>>, i: int) -> Option<Seq<char>> {
    Some(joined(w.skip(i), " "@))
}

/// Word `i` is `--` and others follow it.
pub open spec fn path_marker(w: Seq<Seq<char>>, i: int) -> bool {
    i + 1 < w.len() && w[i] == "--"@
}

pub open spec fn is_staged_flag(w: Seq<char>) -> bool {
    w == "--staged"@ || w == "--cached"@
}

/// What a diff compares: `w` are the words that are no options.
pub open spec fn diff_target(root: Option<Seq<char>>, w: Seq<Seq<char>>) -> Result<
    RepoDiffTarget<Seq<char>>,
    PragmaErr<Seq<char>>,
> {
    match root {
        Some(to) => if w.len() == 0 {
            Ok(RepoDiffTarget::Root { to, path: None })
        } else if path_marker(w, 0) {
            Ok(RepoDiffTarget::Root { to, path: path_from(w, 1) })
        } else {
            refused("diff --root accepts one target revision and an optional `-- path`"@)
        },
        None => if w.len() == 0 {
            Ok(RepoDiffTarget::Worktree { path: None })
        } else if path_marker(w, 0) {
            Ok(RepoDiffTarget::Worktree { path: path_from(w, 1) })
        } else if w.len() == 1 && is_staged_flag(w[0]) {
            Ok(RepoDiffTarget::Staged { path: None })
        } else if path_marker(w, 1) && is_staged_flag(w[0]) {
            Ok(RepoDiffTarget::Staged { path: path_from(w, 2) })
        } else if w.len() == 1 {
            Ok(RepoDiffTarget::RevisionToWorktree { rev: w[0], path: None })
        } else if path_marker(w, 1) {
            Ok(RepoDiffTarget::RevisionToWorktree { rev: w[0], path: path_from(w, 2) })
        } else if w.len() == 2 {
            Ok(RepoDiffTarget::Revisions { from: w[0], to: w[1], path: None })
        } else if path_marker(w, 2) {
            Ok(RepoDiffTarget::Revisions { from: w[0], to: w[1], path: path_from(w, 3) })
        } else {
            refused(
                "argument must be in the form: `[--rows] [--staged] [rev] [rev] [-- path]` or `--root rev [-- path]`"@,
            )
        },
    }
}

/// The target names revisions and one path.
pub open spec fn names_one_path(target: RepoDiffTarget<Seq<char>>) -> bool {
    match target {
        RepoDiffTarget::RevisionToWorktree { path: Some(p), .. } => p.len() > 0,
        RepoDiffTarget::Revisions { path: Some(p), .. } => p.len() > 0,
        RepoDiffTarget::Root { path: Some(p), .. } => p.len() > 0,
        _ => false,
    }
}

/// The diff that options and target ask for.
pub open spec fn diff_spec(f: DiffFlags, target: RepoDiffTarget<Seq<char>>) -> Result<
    RepoDiffSpec<Seq<char>>,
    PragmaErr<Seq<char>>,
> {
    if f.max is Some && !f.content {
        refused("diff --max-content-bytes requires --content"@)
    } else if f.content && f.rows {
        refused("diff --content cannot be combined with --rows"@)
    } else if f.content && f.kind is Some && f.kind != Some(RepoTrackedPathKind::TextFile) {
        refused("diff --content only supports text_file paths"@)
    } else if f.content && !names_one_path(target) {
        refused(
            "diff --content requires a source revision, an optional target revision, and one path"@,
        )
    } else {
        Ok(
            RepoDiffSpec {
                mode: if f.rows {
                    DiffMode::Rows
                } else {
                    DiffMode::Default
                },
                kind: f.kind,
                target,
                content: if f.content {
                    Some(RepoTextContentSpec { max_bytes: f.max })
                } else {
                    None
                },
                table: None,
                row_page: None,
            },
        )
    }
}

pub open spec fn diff_arg(arg: Option<Seq<char>>, host: Host) -> Result<
    RepoDiffSpec<Seq<char>>,
    PragmaErr<Seq<char>>,
> {
    match arg {
        None => diff_spec(no_diff_flags(), RepoDiffTarget::Worktree { path: None }),
        Some(a) => if ambiguous_escape(a, host) {
            refused(ambiguous_message())
        } else {
            match pragma_words(a, host) {
                None => refused(unterminated()),
                Some(w) => match diff_flags(w, 0, no_diff_flags()) {
                    Err(e) => Err(e),
                    Ok(f) => match diff_target(f.root, f.rest) {
                        Err(e) => Err(e),
                        Ok(target) => diff_spec(f, target),
                    },
                },
            }
        },
    }
}

fn is_staged_word(w: &String) -> (r: bool)
    ensures
        r == is_staged_flag(w@),
{
    same(w.as_str(), "--staged") || same(w.as_str(), "--cached")
}

fn is_path_marker(w: &Vec<String>, i: usize) -> (r: bool)
    requires
        i < usize::MAX,
    ensures
        r == path_marker(texts(w@), i as int),
{
    i + 1 < w.len() && same(w[i].as_str(), "--")
}

fn parse_diff_target(
    root: Option<String>,
    w: &Vec<String>,
) -> (r: Result<RepoDiffTarget, PragmaErr>)
    ensures
        seen(r) == diff_target(text_option(root), texts(w@)),
{
    let n: usize = w.len();
    if let Some(to) = root {
        if n == 0 {
            Ok(RepoDiffTarget::Root { to, path: None })
        } else if is_path_marker(w, 0) {
            Ok(RepoDiffTarget::Root { to, path: Some(join_from(w, 1, " ")) })
        } else {
            Err(pragma_fail("diff --root accepts one target revision and an optional `-- path`"))
        }
    } else if n == 0 {
        Ok(RepoDiffTarget::Worktree { path: None })
    } else if is_path_marker(w, 0) {
        Ok(RepoDiffTarget::Worktree { path: Some(join_from(w, 1, " ")) })
    } else if n == 1 && is_staged_word(&w[0]) {
        Ok(RepoDiffTarget::Staged { path: None })
    } else if is_path_marker(w, 1) && is_staged_word(&w[0]) {
        Ok(RepoDiffTarget::Staged { path: Some(join_from(w, 2, " ")) })
    } else if n == 1 {
        Ok(RepoDiffTarget::RevisionToWorktree { rev: w[0].clone(), path: None })
    } else if is_path_marker(w, 1) {
        Ok(
            RepoDiffTarget::RevisionToWorktree {
                rev: w[0].clone(),
                path: Some(join_from(w, 2, " ")),
            },
        )
    } else if n == 2 {
        Ok(RepoDiffTarget::Revisions { from: w[0].clone(), to: w[1].clone(), path: None })
    } else if is_path_marker(w, 2) {
        Ok(
            RepoDiffTarget::Revisions {
                from: w[0].clone(),
                to: w[1].clone(),
                path: Some(join_from(w, 3, " ")),
            },
        )
    } else {
        Err(
            pragma_fail(
                "argument must be in the form: `[--rows] [--staged] [rev] [rev] [-- path]` or `--root rev [-- path]`",
            ),
        )
    }
}

fn target_names_one_path(target: &RepoDiffTarget) -> (r: bool)
    ensures
        r == names_one_path(target@),
{
    match target {
        RepoDiffTarget::RevisionToWorktree { path: Some(p), .. } => !p.as_str().is_empty(),
        RepoDiffTarget::Revisions { path: Some(p), .. } => !p.as_str().is_empty(),
        RepoDiffTarget::Root { path: Some(p), .. } => !p.as_str().is_empty(),
        _ => false,
    }
}

pub fn parse_repo_diff_arg(arg: Option<&str>, host: Host) -> (r: Result<RepoDiffSpec, PragmaErr>)
    ensures
        seen(r) == diff_arg(str_option(arg), host),
{
    let a = match arg {
        None => {
            return Ok(
                RepoDiffSpec {
                    mode: DiffMode::Default,
                    kind: None,
                    target: RepoDiffTarget::Worktree { path: None },
                    content: None,
                    table: None,
                    row_page: None,
                },
            );
        },
        Some(arg) => arg,
    };
    match reject_ambiguous_posix_path_escape(a, host) {
        Ok(()) => {},
        Err(e) => return Err(e),
    }
    let w = match split_pragma_words(a, host) {
        Ok(w) => w,
        Err(e) => return Err(e),
    };
    let n: usize = w.len();
    let mut rows: bool = false;
    let mut kind: Option<RepoTrackedPathKind> = None;
    let mut content: bool = false;
    let mut max: Option<u64> = None;
    let mut root: Option<String> = None;
    let mut rest: Vec<String> = Vec::new();
    let mut in_path: bool = false;
    let mut i: usize = 0;
    proof {
        assert(texts(rest@) =~= Seq::<Seq<char>>::empty());
    }
    while i < n
        invariant
            i <= n,
            n == w@.len(),
            str_option(arg) == Some(a@),
            !ambiguous_escape(a@, host),
            pragma_words(a@, host) == Some(texts(w@)),
            diff_flags(texts(w@), 0, no_diff_flags()) == diff_flags(
                texts(w@),
                i as int,
                DiffFlags {
                    rows,
                    kind,
                    content,
                    max,
                    root: text_option(root),
                    rest: texts(rest@),
                    in_path,
                },
            ),
        decreases n - i,
    {
        let part = w[i].as_str();
        let ghost p = texts(w@)[i as int];
        if !in_path && same(part, "--") {
            in_path = true;
            let word = w[i].clone();
            proof {
                lemma_texts_push(rest@, word);
            }
            rest.push(word);
            i += 1;
        } else if !in_path && same(part, "--rows") {
            if rows {
                return Err(pragma_fail("`--rows` may only be specified once"));
            }
            rows = true;
            i += 1;
        } else if !in_path && same(part, "--kind") {
            if kind.is_some() {
                return Err(pragma_fail("diff accepts --kind only once"));
            }
            if i + 1 >= n {
                return Err(pragma_fail("diff --kind requires a value"));
            }
            match parse_repo_tracked_path_kind_arg(w[i + 1].as_str()) {
                Ok(k) => kind = Some(k),
                Err(e) => return Err(e),
            }
            i += 2;
        } else if !in_path && same(part, "--content") {
            if content {
                return Err(pragma_fail("diff accepts --content only once"));
            }
            content = true;
            i += 1;
        } else if !in_path && same(part, "--max-content-bytes") {
            if max.is_some() {
                return Err(pragma_fail("diff accepts --max-content-bytes only once"));
            }
            if i + 1 >= n {
                return Err(pragma_fail("diff --max-content-bytes requires a value"));
            }
            match parse_u64(w[i + 1].as_str()) {
                Some(v) => {
                    if v == 0 {
                        return Err(
                            pragma_fail("diff --max-content-bytes must be a positive integer"),
                        );
                    }
                    max = Some(v);
                },
                None => {
                    return Err(
                        pragma_fail("diff --max-content-bytes must be a positive integer"),
                    );
                },
            }
            i += 2;
        } else if !in_path && same(part, "--root") {
            if root.is_some() {
                return Err(pragma_fail("diff accepts --root only once"));
            }
            if i + 1 >= n {
                return Err(pragma_fail("diff --root requires a target revision"));
            }
            root = Some(w[i + 1].clone());
            i += 2;
        } else {
            let word = w[i].clone();
            proof {
                lemma_texts_push(rest@, word);
            }
            rest.push(word);
            i += 1;
        }
    }
    let target = match parse_diff_target(root, &rest) {
        Ok(target) => target,
        Err(e) => return Err(e),
    };
    if max.is_some() && !content {
        return Err(pragma_fail("diff --max-content-bytes requires --content"));
    }
    if content {
        if rows {
            return Err(pragma_fail("diff --content cannot be combined with --rows"));
        }
        if let Some(k) = kind {
            if k != RepoTrackedPathKind::TextFile {
                return Err(pragma_fail("diff --content only supports text_file paths"));
            }
        }
        if !target_names_one_path(&target) {
            return Err(
                pragma_fail(
                    "diff --content requires a source revision, an optional target revision, and one path",
                ),
            );
        }
    }
    Ok(
        RepoDiffSpec {
            mode: if rows {
                DiffMode::Rows
            } else {
                DiffMode::Default
            },
            kind,
            target,
            content: if content {
                Some(RepoTextContentSpec { max_bytes: max })
            } else {
                None
            },
            table: None,
            row_page: None,
        },
    )
}

/// `--all` and `--kind` among the words from `i` on.
pub open spec fn add_kind_words(
    w: Seq<Seq<char>>,
    i: int,
    all: bool,
    kind: Option<RepoTrackedPathKind>,
) -> Result<(bool, Option<RepoTrackedPathKind>), PragmaErr<Seq<char>>>
    decreases w.len() - i,
{
    if i >= w.len() {
        Ok((all, kind))
    } else if is_add_all(w[i]) {
        if all {
            refused("add accepts --all only once"@)
        } else {
            add_kind_words(w, i + 1, true, kind)
        }
    } else if w[i] == "--kind"@ {
        if kind is Some {
            refused("add accepts --kind only once"@)
        } else if i + 1 >= w.len() {
            refused("add --kind requires a value"@)
        } else {
            match kind_arg(w[i + 1]) {
                Ok(k) => add_kind_words(w, i + 2, all, Some(k)),
                Err(e) => Err(e),
            }
        }
    } else {
        refused(
            "unknown add argument `"@ + w[i] + "`; `--kind` may only be used with `--all`"@,
        )
    }
}

pub open spec fn is_add_all(w: Seq<char>) -> bool {
    w == "--all"@ || w == "-A"@
}

/// The one path after `--`.
pub open spec fn delimited_path(value: Seq<char>, operation: Seq<char>, host: Host) -> Result<
    Seq<char>,
    PragmaErr<Seq<char>>,
> {
    match pragma_words(value, host) {
        None => refused(unterminated()),
        Some(w) => if w.len() == 1 && w[0].len() > 0 {
            Ok(w[0])
        } else {
            refused(operation + " accepts exactly one path after `--`"@)
        },
    }
}

pub open spec fn add_nothing() -> RepoAddSpec<Seq<char>> {
    RepoAddSpec {
        path: None,
        force: false,
        all: false,
        kind: None,
        with_status: false,
        expected_head: None,
    }
}

pub open spec fn add_form() -> Seq<char> {
    "argument must be in the form: `[--all|-A]` or `[--force] [path]`"@
}

pub open spec fn add_path(path: Result<Seq<char>, PragmaErr<Seq<char>>>, force: bool) -> Result<
    RepoAddSpec<Seq<char>>,
    PragmaErr<Seq<char>>,
> {
    match path {
        Ok(path) => Ok(RepoAddSpec { path: Some(path), force, ..add_nothing() }),
        Err(e) => Err(e),
    }
}

/// What follows the force flag `flag` in an add command that starts with it.
pub open spec fn add_forced(a: Seq<char>, flag: Seq<char>, host: Host) -> Option<
    Result<RepoAddSpec<Seq<char>>, PragmaErr<Seq<char>>>,
> {
    if a == flag {
        Some(Ok(RepoAddSpec { force: true, ..add_nothing() }))
    } else if has_prefix(a, flag + " -- "@) {
        Some(add_path(delimited_path(a.skip(flag.len() as int + 4), "add"@, host), true))
    } else if has_prefix(a, flag + " "@) {
        let path = a.skip(flag.len() as int + 1);
        if is_add_all(path) {
            Some(refused(add_form()))
        } else {
            Some(add_path(Ok(path), true))
        }
    } else {
        None
    }
}

/// The add command with the trimmed argument `a`.
pub open spec fn add_trimmed(a: Seq<char>, host: Host) -> Result<
    RepoAddSpec<Seq<char>>,
    PragmaErr<Seq<char>>,
> {
    if a.len() == 0 {
        Ok(add_nothing())
    } else if words(a).contains("--kind"@) {
        match pragma_words(a, host) {
            None => refused(unterminated()),
            Some(w) => match add_kind_words(w, 0, false, None) {
                Err(e) => Err(e),
                Ok((all, kind)) => if all {
                    Ok(RepoAddSpec { all: true, kind, ..add_nothing() })
                } else {
                    refused("add --kind requires --all"@)
                },
            },
        }
    } else if is_add_all(a) {
        Ok(RepoAddSpec { all: true, ..add_nothing() })
    } else if add_forced(a, "--force"@, host) is Some {
        add_forced(a, "--force"@, host)->0
    } else if add_forced(a, "-f"@, host) is Some {
        add_forced(a, "-f"@, host)->0
    } else if has_prefix(a, "-- "@) {
        add_path(delimited_path(a.skip(3), "add"@, host), false)
    } else if dashed(a) {
        refused(add_form())
    } else {
        add_path(Ok(a), false)
    }
}

/// The add command: an optional leading `--with-status`, then what is added.
pub open spec fn add_arg(arg: Option<Seq<char>>, host: Host) -> Result<
    RepoAddSpec<Seq<char>>,
    PragmaErr<Seq<char>>,
> {
    match arg {
        None => Ok(add_nothing()),
        Some(a) => {
            let t = trimmed(a);
            if t == "--with-status"@ {
                Ok(RepoAddSpec { with_status: true, ..add_nothing() })
            } else if has_prefix(t, "--with-status "@) {
                match add_trimmed(trimmed(t.skip("--with-status "@.len() as int)), host) {
                    Ok(spec) => Ok(RepoAddSpec { with_status: true, ..spec }),
                    Err(e) => Err(e),
                }
            } else {
                add_trimmed(t, host)
            }
        },
    }
}

fn is_add_all_word(w: &str) -> (r: bool)
    ensures
        r == is_add_all(w@),
{
    same(w, "--all") || same(w, "-A")
}

fn parse_delimited_repo_path(value: &str, operation: &str, host: Host) -> (r: Result<
    String,
    PragmaErr,
>)
    ensures
        seen(r) == delimited_path(value@, operation@, host),
{
    let w = match split_pragma_words(value, host) {
        Ok(w) => w,
        Err(e) => return Err(e),
    };
    if w.len() == 1 && !w[0].as_str().is_empty() {
        Ok(w[0].clone())
    } else {
        Err(pragma_fail(cat2(operation, " accepts exactly one path after `--`").as_str()))
    }
}

fn has_word(w: &Vec<String>, word: &str) -> (r: bool)
    ensures
        r == texts(w@).contains(word@),
{
    let mut i: usize = 0;
    while i < w.len()
        invariant
            i <= w@.len(),
            forall|j: int| 0 <= j < i ==> #[trigger] texts(w@)[j] != word@,
        decreases w@.len() - i,
    {
        if same(w[i].as_str(), word) {
            proof {
                assert(texts(w@)[i as int] == word@);
            }
            return true;
        }
        i += 1;
    }
    false
}

fn add_of_path(path: Option<String>, force: bool) -> (r: RepoAddSpec)
    ensures
        r@ == (RepoAddSpec { path: text_option(path), force, ..add_nothing() }),
{
    RepoAddSpec { path, force, all: false, kind: None, with_status: false, expected_head: None }
}

fn parse_add_forced(a: &str, flag: &str, host: Host) -> (r: Option<Result<RepoAddSpec, PragmaErr>>)
    ensures
        match r {
            Some(answer) => add_forced(a@, flag@, host) == Some(seen(answer)),
            None => add_forced(a@, flag@, host) is None,
        },
{
    if same(a, flag) {
        return Some(Ok(add_of_path(None, true)));
    }
    let marker = cat2(flag, " -- ");
    let space = cat2(flag, " ");
    proof {
        reveal_strlit(" -- ");
        reveal_strlit(" ");
    }
    if let Some(path) = strip_prefix(a, marker.as_str()) {
        match parse_delimited_repo_path(path, "add", host) {
            Ok(path) => Some(Ok(add_of_path(Some(path), true))),
            Err(e) => Some(Err(e)),
        }
    } else if let Some(path) = strip_prefix(a, space.as_str()) {
        if is_add_all_word(path) {
            Some(
                Err(
                    pragma_fail("argument must be in the form: `[--all|-A]` or `[--force] [path]`"),
                ),
            )
        } else {
            Some(Ok(add_of_path(Some(path.to_owned()), true)))
        }
    } else {
        None
    }
}

fn parse_add_kind(a: &str, host: Host) -> (r: Result<RepoAddSpec, PragmaErr>)
    requires
        a@.len() > 0,
        words(a@).contains("--kind"@),
    ensures
        seen(r) == add_trimmed(a@, host),
{
    let w = match split_pragma_words(a, host) {
        Ok(w) => w,
        Err(e) => return Err(e),
    };
    let n: usize = w.len();
    let mut all: bool = false;
    let mut kind: Option<RepoTrackedPathKind> = None;
    let mut i: usize = 0;
    while i < n
        invariant
            i <= n,
            n == w@.len(),
            a@.len() > 0,
            words(a@).contains("--kind"@),
            pragma_words(a@, host) == Some(texts(w@)),
            add_kind_words(texts(w@), 0, false, None) == add_kind_words(
                texts(w@),
                i as int,
                all,
                kind,
            ),
        decreases n - i,
    {
        let part = w[i].as_str();
        let ghost p = texts(w@)[i as int];
        if is_add_all_word(part) {
            if all {
                return Err(pragma_fail("add accepts --all only once"));
            }
            all = true;
            i += 1;
        } else if same(part, "--kind") {
            if kind.is_some() {
                return Err(pragma_fail("add accepts --kind only once"));
            }
            if i + 1 >= n {
                return Err(pragma_fail("add --kind requires a value"));
            }
            match parse_repo_tracked_path_kind_arg(w[i + 1].as_str()) {
                Ok(k) => kind = Some(k),
                Err(e) => return Err(e),
            }
            i += 2;
        } else {
            return Err(
                pragma_fail(
                    cat3(
                        "unknown add argument `",
                        part,
                        "`; `--kind` may only be used with `--all`",
                    ).as_str(),
                ),
            );
        }
    }
    if !all {
        return Err(pragma_fail("add --kind requires --all"));
    }
    Ok(
        RepoAddSpec {
            path: None,
            force: false,
            all: true,
            kind,
            with_status: false,
            expected_head: None,
        },
    )
}

fn parse_add_trimmed(a: &str, host: Host) -> (r: Result<RepoAddSpec, PragmaErr>)
    ensures
        seen(r) == add_trimmed(a@, host),
{
    if a.is_empty() {
        return Ok(add_of_path(None, false));
    }
    if has_word(&split_whitespace(a), "--kind") {
        return parse_add_kind(a, host);
    }
    if is_add_all_word(a) {
        return Ok(
            RepoAddSpec {
                path: None,
                force: false,
                all: true,
                kind: None,
                with_status: false,
                expected_head: None,
            },
        );
    }
    if let Some(answer) = parse_add_forced(a, "--force", host) {
        return answer;
    }
    if let Some(answer) = parse_add_forced(a, "-f", host) {
        return answer;
    }
    proof {
        reveal_strlit("-- ");
    }
    if let Some(path) = strip_prefix(a, "-- ") {
        return match parse_delimited_repo_path(path, "add", host) {
            Ok(path) => Ok(add_of_path(Some(path), false)),
            Err(e) => Err(e),
        };
    }
    if is_dashed(a) {
        return Err(pragma_fail("argument must be in the form: `[--all|-A]` or `[--force] [path]`"));
    }
    Ok(add_of_path(Some(a.to_owned()), false))
}

pub fn parse_repo_add_arg(arg: Option<&str>, host: Host) -> (r: Result<RepoAddSpec, PragmaErr>)
    ensures
        seen(r) == add_arg(str_option(arg), host),
{
    let a = match arg {
        None => return Ok(add_of_path(None, false)),
        Some(arg) => trim(arg),
    };
    if same(a, "--with-status") {
        return Ok(
            RepoAddSpec {
                path: None,
                force: false,
                all: false,
                kind: None,
                with_status: true,
                expected_head: None,
            },
        );
    }
    match strip_prefix(a, "--with-status ") {
        Some(rest) => match parse_add_trimmed(trim(rest), host) {
            Ok(spec) => Ok(
                RepoAddSpec {
                    path: spec.path,
                    force: spec.force,
                    all: spec.all,
                    kind: spec.kind,
                    with_status: true,
                    expected_head: spec.expected_head,
                },
            ),
            Err(e) => Err(e),
        },
        None => parse_add_trimmed(a, host),
    }
}

} // verus!
