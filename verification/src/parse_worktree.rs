//! The arguments of commands on the worktree and the index.
use vstd::prelude::*;

use crate::error::{pragma_fail, refused, seen, str_option, text_option, PragmaErr};
use crate::number::{parse_i64, parsed_i64};
use crate::parse_paths::{kind_arg, parse_repo_tracked_path_kind_arg};
use crate::remote::is_force_flag;
use crate::spec::{
    LsFilesSpec, RepoCheckoutSpec, RepoExportSpec, RepoRemoveSpec, RepoResolveRowSpec,
    RepoResolveSpec, RepoRestoreSpec, RepoTrackedPathKind, ResolveSide, ResolveSpecView,
    RowIdentity, RowSpecView, StatusSpec,
};
use crate::text::{
    cat3, dashed, is_dashed, join_from, joined, lemma_texts_push, same, split_whitespace,
    texts, trim, trimmed, words,
};
use crate::words::{
    ambiguous_escape, ambiguous_message, pragma_words, reject_ambiguous_posix_path_escape,
    split_pragma_words, unterminated, Host,
};

verus! {

/// The path that words name: they joined by a space, or none.
pub open spec fn path_of_words(w: Seq<Seq<char>>) -> Option<Seq<char>> {
    if w.len() == 0 {
        None
    } else {
        Some(joined(w, " "@))
    }
}

fn path_from_words(w: &Vec<String>, from: usize) -> (r: Option<String>)
    requires
        from <= w@.len(),
    ensures
        text_option(r) == path_of_words(texts(w@).skip(from as int)),
{
    if from == w.len() {
        None
    } else {
        Some(join_from(w, from, " "))
    }
}

/// The flag and the path words of a remove command, from word `i` on.
pub open spec fn remove_words(w: Seq<Seq<char>>, i: int, cached: bool) -> Result<
    RepoRemoveSpec<Seq<char>>,
    PragmaErr<Seq<char>>,
>
    decreases w.len() - i,
{
    if i >= w.len() {
        Ok(RepoRemoveSpec { path: None, cached })
    } else if w[i] == "--"@ {
        Ok(RepoRemoveSpec { path: path_of_words(w.skip(i + 1)), cached })
    } else if w[i] == "--cached"@ {
        if cached {
            refused("rm accepts --cached only once"@)
        } else {
            remove_words(w, i + 1, true)
        }
    } else if dashed(w[i]) {
        refused("unknown rm argument `"@ + w[i] + "`"@)
    } else {
        Ok(RepoRemoveSpec { path: path_of_words(w.skip(i)), cached })
    }
}

pub open spec fn remove_arg(arg: Option<Seq<char>>, host: Host) -> Result<
    RepoRemoveSpec<Seq<char>>,
    PragmaErr<Seq<char>>,
> {
    match arg {
        None => Ok(RepoRemoveSpec { path: None, cached: false }),
        Some(a) => if ambiguous_escape(a, host) {
            refused(ambiguous_message())
        } else {
            match pragma_words(trimmed(a), host) {
                None => refused(unterminated()),
                Some(w) => remove_words(w, 0, false),
            }
        },
    }
}

pub fn parse_repo_remove_arg(
    arg: Option<&str>,
    host: Host,
) -> (r: Result<RepoRemoveSpec, PragmaErr>)
    ensures
        seen(r) == remove_arg(str_option(arg), host),
{
    let a = match arg {
        None => return Ok(RepoRemoveSpec { path: None, cached: false }),
        Some(a) => a,
    };
    match reject_ambiguous_posix_path_escape(a, host) {
        Ok(()) => {},
        Err(e) => return Err(e),
    }
    let w = match split_pragma_words(trim(a), host) {
        Ok(w) => w,
        Err(e) => return Err(e),
    };
    let mut cached: bool = false;
    let mut i: usize = 0;
    while i < w.len()
        invariant
            i <= w@.len(),
            remove_arg(str_option(arg), host) == remove_words(texts(w@), i as int, cached),
        decreases w@.len() - i,
    {
        let part = w[i].as_str();
        let ghost p = texts(w@)[i as int];
        if same(part, "--") {
            return Ok(RepoRemoveSpec { path: path_from_words(&w, i + 1), cached });
        } else if same(part, "--cached") {
            if cached {
                return Err(pragma_fail("rm accepts --cached only once"));
            }
            cached = true;
            i += 1;
        } else if is_dashed(part) {
            return Err(pragma_fail(cat3("unknown rm argument `", part, "`").as_str()));
        } else {
            return Ok(RepoRemoveSpec { path: path_from_words(&w, i), cached });
        }
    }
    Ok(RepoRemoveSpec { path: None, cached })
}

pub open spec fn is_source_flag(w: Seq<char>) -> bool {
    w == "--source"@ || w == "-s"@
}

pub open spec fn is_output_flag(w: Seq<char>) -> bool {
    w == "--output"@ || w == "-o"@
}

pub open spec fn restore_nothing() -> RepoRestoreSpec<Seq<char>> {
    RepoRestoreSpec {
        source: None,
        expected_head: None,
        require_clean: false,
        staged: false,
        all: false,
        kind: None,
        path: None,
    }
}

/// The options and the path of a restore command, from word `i` on, added to `f`.
pub open spec fn restore_words(w: Seq<Seq<char>>, i: int, f: RepoRestoreSpec<Seq<char>>) -> Result<
    RepoRestoreSpec<Seq<char>>,
    PragmaErr<Seq<char>>,
>
    decreases w.len() - i,
{
    if i >= w.len() {
        Ok(f)
    } else if w[i] == "--"@ {
        Ok(RepoRestoreSpec { path: path_of_words(w.skip(i + 1)), ..f })
    } else if w[i] == "--staged"@ || w[i] == "--cached"@ {
        if f.staged {
            refused("restore accepts --staged only once"@)
        } else {
            restore_words(w, i + 1, RepoRestoreSpec { staged: true, ..f })
        }
    } else if is_source_flag(w[i]) {
        if f.source is Some {
            refused("restore accepts --source only once"@)
        } else if i + 1 >= w.len() {
            refused("restore --source requires a revision"@)
        } else {
            restore_words(w, i + 2, RepoRestoreSpec { source: Some(w[i + 1]), ..f })
        }
    } else if w[i] == "--expected-head"@ {
        if f.expected_head is Some {
            refused("restore accepts --expected-head only once"@)
        } else if i + 1 >= w.len() || dashed(w[i + 1]) {
            refused("restore --expected-head requires an object id"@)
        } else {
            restore_words(w, i + 2, RepoRestoreSpec { expected_head: Some(w[i + 1]), ..f })
        }
    } else if w[i] == "--require-clean"@ {
        if f.require_clean {
            refused("restore accepts --require-clean only once"@)
        } else {
            restore_words(w, i + 1, RepoRestoreSpec { require_clean: true, ..f })
        }
    } else if w[i] == "--all"@ || w[i] == "-A"@ {
        if f.all {
            refused("restore accepts --all only once"@)
        } else {
            restore_words(w, i + 1, RepoRestoreSpec { all: true, ..f })
        }
    } else if w[i] == "--kind"@ {
        if f.kind is Some {
            refused("restore accepts --kind only once"@)
        } else if i + 1 >= w.len() {
            refused("restore --kind requires a value"@)
        } else {
            match kind_arg(w[i + 1]) {
                Ok(kind) => restore_words(w, i + 2, RepoRestoreSpec { kind: Some(kind), ..f }),
                Err(e) => Err(e),
            }
        }
    } else if dashed(w[i]) {
        refused("unknown restore argument `"@ + w[i] + "`"@)
    } else {
        Ok(RepoRestoreSpec { path: path_of_words(w.skip(i)), ..f })
    }
}

/// A restore command names a path, or all staged paths of an optional kind.
pub open spec fn restore_checked(f: RepoRestoreSpec<Seq<char>>) -> Result<
    RepoRestoreSpec<Seq<char>>,
    PragmaErr<Seq<char>>,
> {
    if f.all && !f.staged {
        refused("restore --all requires --staged"@)
    } else if f.all && f.path is Some {
        refused("restore --all does not accept a path"@)
    } else if !f.all && f.kind is Some {
        refused("restore --kind requires --all"@)
    } else if !f.all && f.path is None {
        refused(
            "argument must be in the form: `[--staged] [--source rev] path` or `--staged --all [--kind kind]`"@,
        )
    } else {
        Ok(f)
    }
}

pub open spec fn restore_arg(a: Seq<char>, host: Host) -> Result<
    RepoRestoreSpec<Seq<char>>,
    PragmaErr<Seq<char>>,
> {
    if ambiguous_escape(a, host) {
        refused(ambiguous_message())
    } else {
        match pragma_words(a, host) {
            None => refused(unterminated()),
            Some(w) => match restore_words(w, 0, restore_nothing()) {
                Err(e) => Err(e),
                Ok(f) => restore_checked(f),
            },
        }
    }
}

fn check_restore(spec: RepoRestoreSpec) -> (r: Result<RepoRestoreSpec, PragmaErr>)
    ensures
        seen(r) == restore_checked(spec@),
{
    if spec.all {
        if !spec.staged {
            return Err(pragma_fail("restore --all requires --staged"));
        }
        if spec.path.is_some() {
            return Err(pragma_fail("restore --all does not accept a path"));
        }
    } else if spec.kind.is_some() {
        return Err(pragma_fail("restore --kind requires --all"));
    } else if spec.path.is_none() {
        return Err(
            pragma_fail(
                "argument must be in the form: `[--staged] [--source rev] path` or `--staged --all [--kind kind]`",
            ),
        );
    }
    Ok(spec)
}

pub fn parse_repo_restore_arg(arg: &str, host: Host) -> (r: Result<RepoRestoreSpec, PragmaErr>)
    ensures
        seen(r) == restore_arg(arg@, host),
{
    match reject_ambiguous_posix_path_escape(arg, host) {
        Ok(()) => {},
        Err(e) => return Err(e),
    }
    let w = match split_pragma_words(arg, host) {
        Ok(w) => w,
        Err(e) => return Err(e),
    };
    let n: usize = w.len();
    let mut f = RepoRestoreSpec {
        source: None,
        expected_head: None,
        require_clean: false,
        staged: false,
        all: false,
        kind: None,
        path: None,
    };
    let mut i: usize = 0;
    while i < n
        invariant
            i <= n,
            n == w@.len(),
            f@.path is None,
            !ambiguous_escape(arg@, host),
            pragma_words(arg@, host) == Some(texts(w@)),
            restore_words(texts(w@), 0, restore_nothing()) == restore_words(
                texts(w@),
                i as int,
                f@,
            ),
        decreases n - i,
    {
        let part = w[i].as_str();
        let ghost p = texts(w@)[i as int];
        if same(part, "--") {
            f.path = path_from_words(&w, i + 1);
            return check_restore(f);
        } else if same(part, "--staged") || same(part, "--cached") {
            if f.staged {
                return Err(pragma_fail("restore accepts --staged only once"));
            }
            f.staged = true;
            i += 1;
        } else if same(part, "--source") || same(part, "-s") {
            if f.source.is_some() {
                return Err(pragma_fail("restore accepts --source only once"));
            }
            if i + 1 >= n {
                return Err(pragma_fail("restore --source requires a revision"));
            }
            f.source = Some(w[i + 1].clone());
            i += 2;
        } else if same(part, "--expected-head") {
            if f.expected_head.is_some() {
                return Err(pragma_fail("restore accepts --expected-head only once"));
            }
            if i + 1 >= n || is_dashed(w[i + 1].as_str()) {
                return Err(pragma_fail("restore --expected-head requires an object id"));
            }
            f.expected_head = Some(w[i + 1].clone());
            i += 2;
        } else if same(part, "--require-clean") {
            if f.require_clean {
                return Err(pragma_fail("restore accepts --require-clean only once"));
            }
            f.require_clean = true;
            i += 1;
        } else if same(part, "--all") || same(part, "-A") {
            if f.all {
                return Err(pragma_fail("restore accepts --all only once"));
            }
            f.all = true;
            i += 1;
        } else if same(part, "--kind") {
            if f.kind.is_some() {
                return Err(pragma_fail("restore accepts --kind only once"));
            }
            if i + 1 >= n {
                return Err(pragma_fail("restore --kind requires a value"));
            }
            match parse_repo_tracked_path_kind_arg(w[i + 1].as_str()) {
                Ok(kind) => f.kind = Some(kind),
                Err(e) => return Err(e),
            }
            i += 2;
        } else if is_dashed(part) {
            return Err(pragma_fail(cat3("unknown restore argument `", part, "`").as_str()));
        } else {
            f.path = path_from_words(&w, i);
            return check_restore(f);
        }
    }
    check_restore(f)
}

pub open spec fn checkout_arg(arg: Seq<char>) -> Result<
    RepoCheckoutSpec<Seq<char>>,
    PragmaErr<Seq<char>>,
> {
    let w = words(arg);
    if w.len() == 1 {
        Ok(RepoCheckoutSpec::Detach { rev: w[0], force: false })
    } else if w.len() == 2 && is_force_flag(w[0]) {
        Ok(RepoCheckoutSpec::Detach { rev: w[1], force: true })
    } else if w.len() > 2 && w[1] == "--"@ {
        Ok(RepoCheckoutSpec::Path { rev: w[0], path: joined(w.skip(2), " "@) })
    } else {
        refused("argument must be in the form: `[--force] rev [-- path]`"@)
    }
}

pub fn parse_repo_checkout_arg(arg: &str) -> (r: Result<RepoCheckoutSpec, PragmaErr>)
    ensures
        seen(r) == checkout_arg(arg@),
{
    let w = split_whitespace(arg);
    let n: usize = w.len();
    if n == 1 {
        Ok(RepoCheckoutSpec::Detach { rev: w[0].clone(), force: false })
    } else if n == 2 && (same(w[0].as_str(), "--force") || same(w[0].as_str(), "-f")) {
        Ok(RepoCheckoutSpec::Detach { rev: w[1].clone(), force: true })
    } else if n > 2 && same(w[1].as_str(), "--") {
        Ok(RepoCheckoutSpec::Path { rev: w[0].clone(), path: join_from(&w, 2, " ") })
    } else {
        Err(pragma_fail("argument must be in the form: `[--force] rev [-- path]`"))
    }
}

/// The options and the path words of an export command.
pub struct ExportFlags {
    pub source: Option<Seq<char>>,
    pub output: Option<Seq<char>>,
    pub path: Seq<Seq<char>>,
}

/// The options and the path words from word `i` on, added to `f`.
pub open spec fn export_words(w: Seq<Seq<char>>, i: int, f: ExportFlags) -> Result<
    ExportFlags,
    PragmaErr<Seq<char>>,
>
    decreases w.len() - i,
{
    if i >= w.len() {
        Ok(f)
    } else if is_source_flag(w[i]) {
        if f.source is Some {
            refused("export accepts only one source revision"@)
        } else if i + 1 >= w.len() {
            refused("export --source requires a revision"@)
        } else {
            export_words(w, i + 2, ExportFlags { source: Some(w[i + 1]), ..f })
        }
    } else if is_output_flag(w[i]) {
        if f.output is Some {
            refused("export accepts only one output path"@)
        } else if i + 1 >= w.len() {
            refused("export --output requires a path"@)
        } else {
            export_words(w, i + 2, ExportFlags { output: Some(w[i + 1]), ..f })
        }
    } else if w[i] == "--"@ {
        Ok(ExportFlags { path: f.path + w.skip(i + 1), ..f })
    } else if dashed(w[i]) {
        refused("unknown export option `"@ + w[i] + "`"@)
    } else {
        export_words(w, i + 1, ExportFlags { path: f.path.push(w[i]), ..f })
    }
}

pub open spec fn export_arg(a: Seq<char>, host: Host) -> Result<
    RepoExportSpec<Seq<char>>,
    PragmaErr<Seq<char>>,
> {
    if ambiguous_escape(a, host) {
        refused(ambiguous_message())
    } else {
        match pragma_words(a, host) {
            None => refused(unterminated()),
            Some(w) => match export_words(
                w,
                0,
                ExportFlags { source: None, output: None, path: Seq::empty() },
            ) {
                Err(e) => Err(e),
                Ok(f) => match f.output {
                    None => refused(
                        "argument must be in the form: `[--source rev] --output output.db [-- path]`"@,
                    ),
                    Some(output) => Ok(
                        RepoExportSpec { source: f.source, path: path_of_words(f.path), output },
                    ),
                },
            },
        }
    }
}

fn push_rest(path: &mut Vec<String>, w: &Vec<String>, from: usize)
    requires
        from <= w@.len(),
    ensures
        texts(final(path)@) == texts(old(path)@) + texts(w@).skip(from as int),
{
    let mut i: usize = from;
    proof {
        assert(texts(path@) =~= texts(old(path)@) + texts(w@).subrange(from as int, from as int));
    }
    while i < w.len()
        invariant
            from <= i <= w@.len(),
            texts(path@) == texts(old(path)@) + texts(w@).subrange(from as int, i as int),
        decreases w@.len() - i,
    {
        let word = w[i].clone();
        proof {
            lemma_texts_push(path@, word);
            assert(texts(w@).subrange(from as int, i + 1) =~= texts(w@).subrange(
                from as int,
                i as int,
            ).push(word@));
            assert((texts(old(path)@) + texts(w@).subrange(from as int, i as int)).push(word@)
                =~= texts(old(path)@) + texts(w@).subrange(from as int, i + 1));
        }
        path.push(word);
        i += 1;
    }
    proof {
        assert(texts(w@).subrange(from as int, i as int) =~= texts(w@).skip(from as int));
    }
}

pub fn parse_repo_export_arg(arg: &str, host: Host) -> (r: Result<RepoExportSpec, PragmaErr>)
    ensures
        seen(r) == export_arg(arg@, host),
{
    match reject_ambiguous_posix_path_escape(arg, host) {
        Ok(()) => {},
        Err(e) => return Err(e),
    }
    let w = match split_pragma_words(arg, host) {
        Ok(w) => w,
        Err(e) => return Err(e),
    };
    let n: usize = w.len();
    let mut source: Option<String> = None;
    let mut output: Option<String> = None;
    let mut path: Vec<String> = Vec::new();
    let mut separated: bool = false;
    let mut i: usize = 0;
    let ghost start = ExportFlags { source: None, output: None, path: Seq::empty() };
    proof {
        assert(texts(path@) =~= Seq::<Seq<char>>::empty());
    }
    while i < n && !separated
        invariant
            i <= n,
            n == w@.len(),
            !ambiguous_escape(arg@, host),
            pragma_words(arg@, host) == Some(texts(w@)),
            start == (ExportFlags { source: None, output: None, path: Seq::empty() }),
            ({
                let f = ExportFlags {
                    source: text_option(source),
                    output: text_option(output),
                    path: texts(path@),
                };
                export_words(texts(w@), 0, start) == if separated {
                    Ok(f)
                } else {
                    export_words(texts(w@), i as int, f)
                }
            }),
        decreases n - i, !separated as int,
    {
        let part = w[i].as_str();
        let ghost p = texts(w@)[i as int];
        if same(part, "--source") || same(part, "-s") {
            if source.is_some() {
                return Err(pragma_fail("export accepts only one source revision"));
            }
            if i + 1 >= n {
                return Err(pragma_fail("export --source requires a revision"));
            }
            source = Some(w[i + 1].clone());
            i += 2;
        } else if same(part, "--output") || same(part, "-o") {
            if output.is_some() {
                return Err(pragma_fail("export accepts only one output path"));
            }
            if i + 1 >= n {
                return Err(pragma_fail("export --output requires a path"));
            }
            output = Some(w[i + 1].clone());
            i += 2;
        } else if same(part, "--") {
            push_rest(&mut path, &w, i + 1);
            separated = true;
            i = n;
        } else if is_dashed(part) {
            return Err(pragma_fail(cat3("unknown export option `", part, "`").as_str()));
        } else {
            let word = w[i].clone();
            proof {
                lemma_texts_push(path@, word);
            }
            path.push(word);
            i += 1;
        }
    }
    proof {
        assert(texts(path@).skip(0) =~= texts(path@));
    }
    match output {
        None => Err(
            pragma_fail(
                "argument must be in the form: `[--source rev] --output output.db [-- path]`",
            ),
        ),
        Some(output) => Ok(RepoExportSpec { source, path: path_from_words(&path, 0), output }),
    }
}

/// What a resolve command asks for so far.
pub struct ResolveFlags {
    pub side: Option<ResolveSide>,
    pub row: Option<RowSpecView>,
    pub path: Seq<Seq<char>>,
}

pub open spec fn side_flag(w: Seq<char>) -> Option<ResolveSide> {
    if w == "--ours"@ {
        Some(ResolveSide::Ours)
    } else if w == "--theirs"@ {
        Some(ResolveSide::Theirs)
    } else if w == "--manual"@ {
        Some(ResolveSide::Manual)
    } else {
        None
    }
}

/// What the words from `i` on ask for, added to `f`.
pub open spec fn resolve_words(w: Seq<Seq<char>>, i: int, f: ResolveFlags) -> Result<
    ResolveFlags,
    PragmaErr<Seq<char>>,
>
    decreases w.len() - i,
{
    if i >= w.len() {
        Ok(f)
    } else if side_flag(w[i]) is Some {
        if f.side is Some {
            refused("resolve accepts only one side"@)
        } else {
            resolve_words(w, i + 1, ResolveFlags { side: side_flag(w[i]), ..f })
        }
    } else if w[i] == "--row"@ {
        if f.row is Some {
            refused("resolve accepts only one row selector"@)
        } else if i + 1 >= w.len() {
            refused("resolve --row requires a table name"@)
        } else if i + 2 >= w.len() {
            refused("resolve --row requires a rowid"@)
        } else {
            match parsed_i64(w[i + 2]) {
                None => refused("resolve --row rowid must be an integer"@),
                Some(rowid) => resolve_words(
                    w,
                    i + 3,
                    ResolveFlags {
                        row: Some(
                            RepoResolveRowSpec {
                                table: w[i + 1],
                                identity: RowIdentity::Rowid(rowid as i64),
                            },
                        ),
                        ..f
                    },
                ),
            }
        }
    } else if w[i] == "--path"@ {
        if i + 1 >= w.len() {
            refused("resolve --path requires a path"@)
        } else {
            resolve_words(w, i + 2, ResolveFlags { path: f.path.push(w[i + 1]), ..f })
        }
    } else {
        resolve_words(w, i + 1, ResolveFlags { path: f.path.push(w[i]), ..f })
    }
}

pub open spec fn resolve_arg(arg: Seq<char>) -> Result<ResolveSpecView, PragmaErr<Seq<char>>> {
    match resolve_words(
        words(arg),
        0,
        ResolveFlags { side: None, row: None, path: Seq::empty() },
    ) {
        Err(e) => Err(e),
        Ok(f) => match f.side {
            None => refused("argument must include `--ours`, `--theirs`, or `--manual`"@),
            Some(side) => Ok(
                RepoResolveSpec { side, path: path_of_words(f.path), row: f.row },
            ),
        },
    }
}

fn parse_side_flag(w: &str) -> (r: Option<ResolveSide>)
    ensures
        r == side_flag(w@),
{
    if same(w, "--ours") {
        Some(ResolveSide::Ours)
    } else if same(w, "--theirs") {
        Some(ResolveSide::Theirs)
    } else if same(w, "--manual") {
        Some(ResolveSide::Manual)
    } else {
        None
    }
}

pub open spec fn row_option(row: Option<RepoResolveRowSpec>) -> Option<RowSpecView> {
    match row {
        Some(row) => Some(row@),
        None => None,
    }
}

pub fn parse_repo_resolve_arg(arg: &str) -> (r: Result<RepoResolveSpec, PragmaErr>)
    ensures
        seen(r) == resolve_arg(arg@),
{
    let w = split_whitespace(arg);
    let n: usize = w.len();
    let mut side: Option<ResolveSide> = None;
    let mut row: Option<RepoResolveRowSpec> = None;
    let mut path: Vec<String> = Vec::new();
    let mut i: usize = 0;
    let ghost start = ResolveFlags { side: None, row: None, path: Seq::empty() };
    proof {
        assert(texts(path@) =~= Seq::<Seq<char>>::empty());
    }
    while i < n
        invariant
            i <= n,
            n == w@.len(),
            words(arg@) == texts(w@),
            start == (ResolveFlags { side: None, row: None, path: Seq::empty() }),
            resolve_words(texts(w@), 0, start) == resolve_words(
                texts(w@),
                i as int,
                ResolveFlags { side, row: row_option(row), path: texts(path@) },
            ),
        decreases n - i,
    {
        let part = w[i].as_str();
        let ghost p = texts(w@)[i as int];
        if let Some(named) = parse_side_flag(part) {
            if side.is_some() {
                return Err(pragma_fail("resolve accepts only one side"));
            }
            side = Some(named);
            i += 1;
        } else if same(part, "--row") {
            if row.is_some() {
                return Err(pragma_fail("resolve accepts only one row selector"));
            }
            if n - i <= 1 {
                return Err(pragma_fail("resolve --row requires a table name"));
            }
            if n - i <= 2 {
                return Err(pragma_fail("resolve --row requires a rowid"));
            }
            match parse_i64(w[i + 2].as_str()) {
                None => return Err(pragma_fail("resolve --row rowid must be an integer")),
                Some(rowid) => {
                    row = Some(
                        RepoResolveRowSpec {
                            table: w[i + 1].clone(),
                            identity: RowIdentity::Rowid(rowid),
                        },
                    );
                },
            }
            i += 3;
        } else if same(part, "--path") {
            if i + 1 >= n {
                return Err(pragma_fail("resolve --path requires a path"));
            }
            let word = w[i + 1].clone();
            proof {
                lemma_texts_push(path@, word);
            }
            path.push(word);
            i += 2;
        } else {
            let word = w[i].clone();
            proof {
                lemma_texts_push(path@, word);
            }
            path.push(word);
            i += 1;
        }
    }
    proof {
        assert(texts(path@).skip(0) =~= texts(path@));
    }
    match side {
        None => Err(pragma_fail("argument must include `--ours`, `--theirs`, or `--manual`")),
        Some(side) => Ok(RepoResolveSpec { side, path: path_from_words(&path, 0), row }),
    }
}

/// The kind that the words of a status command name, from word `i` on.
pub open spec fn status_words(
    w: Seq<Seq<char>>,
    i: int,
    kind: Option<RepoTrackedPathKind>,
) -> Result<StatusSpec, PragmaErr<Seq<char>>>
    decreases w.len() - i,
{
    if i >= w.len() {
        Ok(StatusSpec { kind })
    } else if w[i] == "--kind"@ {
        if kind is Some {
            refused("status accepts --kind only once"@)
        } else if i + 1 >= w.len() {
            refused("status --kind requires a value"@)
        } else {
            match kind_arg(w[i + 1]) {
                Ok(k) => status_words(w, i + 2, Some(k)),
                Err(e) => Err(e),
            }
        }
    } else {
        refused("unknown status argument `"@ + w[i] + "`; expected `--kind <kind>`"@)
    }
}

pub open spec fn status_arg(arg: Option<Seq<char>>, host: Host) -> Result<
    StatusSpec,
    PragmaErr<Seq<char>>,
> {
    match arg {
        None => Ok(StatusSpec { kind: None }),
        Some(a) => match pragma_words(a, host) {
            None => refused(unterminated()),
            Some(w) => status_words(w, 0, None),
        },
    }
}

pub fn parse_status_arg(arg: Option<&str>, host: Host) -> (r: Result<StatusSpec, PragmaErr>)
    ensures
        match r {
            Ok(spec) => status_arg(str_option(arg), host) == Ok::<_, PragmaErr<Seq<char>>>(spec),
            Err(e) => status_arg(str_option(arg), host) == Err::<StatusSpec, _>(e@),
        },
{
    let a = match arg {
        None => return Ok(StatusSpec { kind: None }),
        Some(a) => a,
    };
    let w = match split_pragma_words(a, host) {
        Ok(w) => w,
        Err(e) => return Err(e),
    };
    let n: usize = w.len();
    let mut kind: Option<RepoTrackedPathKind> = None;
    let mut i: usize = 0;
    while i < n
        invariant
            i <= n,
            n == w@.len(),
            status_arg(str_option(arg), host) == status_words(texts(w@), i as int, kind),
        decreases n - i,
    {
        let part = w[i].as_str();
        let ghost p = texts(w@)[i as int];
        if same(part, "--kind") {
            if kind.is_some() {
                return Err(pragma_fail("status accepts --kind only once"));
            }
            if i + 1 >= n {
                return Err(pragma_fail("status --kind requires a value"));
            }
            match parse_repo_tracked_path_kind_arg(w[i + 1].as_str()) {
                Ok(k) => kind = Some(k),
                Err(e) => return Err(e),
            }
            i += 2;
        } else {
            return Err(
                pragma_fail(
                    cat3(
                        "unknown status argument `",
                        part,
                        "`; expected `--kind <kind>`",
                    ).as_str(),
                ),
            );
        }
    }
    Ok(StatusSpec { kind })
}

/// The options of an ls-files command, from word `i` on, added to `f`.
pub open spec fn ls_files_words(w: Seq<Seq<char>>, i: int, f: LsFilesSpec) -> Result<
    LsFilesSpec,
    PragmaErr<Seq<char>>,
>
    decreases w.len() - i,
{
    if i >= w.len() {
        Ok(f)
    } else if w[i] == "--stage"@ || w[i] == "-s"@ {
        if f.stage {
            refused("ls-files accepts --stage only once"@)
        } else {
            ls_files_words(w, i + 1, LsFilesSpec { stage: true, ..f })
        }
    } else if w[i] == "--details"@ {
        if f.details {
            refused("ls-files accepts --details only once"@)
        } else {
            ls_files_words(w, i + 1, LsFilesSpec { details: true, ..f })
        }
    } else if w[i] == "--others"@ {
        if f.others {
            refused("ls-files accepts --others only once"@)
        } else {
            ls_files_words(w, i + 1, LsFilesSpec { others: true, ..f })
        }
    } else if w[i] == "--kind"@ {
        if f.kind is Some {
            refused("ls-files accepts --kind only once"@)
        } else if i + 1 >= w.len() {
            refused("ls-files --kind requires a value"@)
        } else {
            match kind_arg(w[i + 1]) {
                Ok(k) => ls_files_words(w, i + 2, LsFilesSpec { kind: Some(k), ..f }),
                Err(e) => Err(e),
            }
        }
    } else {
        refused(
            "unknown ls-files argument `"@ + w[i]
                + "`; expected `--stage`, `--details`, `--others`, or `--kind <kind>`"@,
        )
    }
}

/// At most one of `--stage`, `--details` and `--others` is given.
pub open spec fn ls_files_checked(f: LsFilesSpec) -> Result<LsFilesSpec, PragmaErr<Seq<char>>> {
    if f.stage && f.details {
        refused("ls-files --details cannot be used with --stage"@)
    } else if f.others && f.stage {
        refused("ls-files --others cannot be used with --stage"@)
    } else if f.others && f.details {
        refused("ls-files --others cannot be used with --details"@)
    } else {
        Ok(f)
    }
}

pub open spec fn ls_files_nothing() -> LsFilesSpec {
    LsFilesSpec { stage: false, details: false, others: false, kind: None }
}

pub open spec fn ls_files_arg(arg: Option<Seq<char>>, host: Host) -> Result<
    LsFilesSpec,
    PragmaErr<Seq<char>>,
> {
    match arg {
        None => Ok(ls_files_nothing()),
        Some(a) => match pragma_words(a, host) {
            None => refused(unterminated()),
            Some(w) => match ls_files_words(w, 0, ls_files_nothing()) {
                Err(e) => Err(e),
                Ok(f) => ls_files_checked(f),
            },
        },
    }
}

pub fn parse_ls_files_arg(arg: Option<&str>, host: Host) -> (r: Result<LsFilesSpec, PragmaErr>)
    ensures
        match r {
            Ok(spec) => ls_files_arg(str_option(arg), host) == Ok::<_, PragmaErr<Seq<char>>>(spec),
            Err(e) => ls_files_arg(str_option(arg), host) == Err::<LsFilesSpec, _>(e@),
        },
{
    let mut f = LsFilesSpec { stage: false, details: false, others: false, kind: None };
    let a = match arg {
        None => return Ok(f),
        Some(a) => a,
    };
    let w = match split_pragma_words(a, host) {
        Ok(w) => w,
        Err(e) => return Err(e),
    };
    let n: usize = w.len();
    let mut i: usize = 0;
    while i < n
        invariant
            i <= n,
            n == w@.len(),
            str_option(arg) == Some(a@),
            pragma_words(a@, host) == Some(texts(w@)),
            ls_files_words(texts(w@), 0, ls_files_nothing()) == ls_files_words(
                texts(w@),
                i as int,
                f,
            ),
        decreases n - i,
    {
        let part = w[i].as_str();
        let ghost p = texts(w@)[i as int];
        if same(part, "--stage") || same(part, "-s") {
            if f.stage {
                return Err(pragma_fail("ls-files accepts --stage only once"));
            }
            f.stage = true;
            i += 1;
        } else if same(part, "--details") {
            if f.details {
                return Err(pragma_fail("ls-files accepts --details only once"));
            }
            f.details = true;
            i += 1;
        } else if same(part, "--others") {
            if f.others {
                return Err(pragma_fail("ls-files accepts --others only once"));
            }
            f.others = true;
            i += 1;
        } else if same(part, "--kind") {
            if f.kind.is_some() {
                return Err(pragma_fail("ls-files accepts --kind only once"));
            }
            if i + 1 >= n {
                return Err(pragma_fail("ls-files --kind requires a value"));
            }
            match parse_repo_tracked_path_kind_arg(w[i + 1].as_str()) {
                Ok(k) => f.kind = Some(k),
                Err(e) => return Err(e),
            }
            i += 2;
        } else {
            return Err(
                pragma_fail(
                    cat3(
                        "unknown ls-files argument `",
                        part,
                        "`; expected `--stage`, `--details`, `--others`, or `--kind <kind>`",
                    ).as_str(),
                ),
            );
        }
    }
    if f.stage && f.details {
        return Err(pragma_fail("ls-files --details cannot be used with --stage"));
    }
    if f.others && f.stage {
        return Err(pragma_fail("ls-files --others cannot be used with --stage"));
    }
    if f.others && f.details {
        return Err(pragma_fail("ls-files --others cannot be used with --details"));
    }
    Ok(f)
}

} // verus!
