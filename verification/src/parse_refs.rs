//! The arguments of commands on branches, tags, configuration, payloads and history.
use vstd::prelude::*;

use crate::error::{pragma_fail, refused, seen, str_option, text_option, PragmaErr};
use crate::number::{parse_usize, parsed_unsigned};
use crate::remote::{is_force_flag, parse_remote_branch_arg, remote_branch_arg};
use crate::spec::{
    BranchListMode, DiffMode, JsonConfigListMode, JsonFetchAsyncMode, JsonLogMode, JsonLogSpec,
    JsonTagsMode, LargeFileFetchSpec, LargeFilePruneSpec, LargeFileStatusSpec, RemoteBranchArg,
    RepoAuditSpec, ResetMode, StorageGcSpec,
};
use crate::text::{
    cat3, cut, cut_white, dashed, has_prefix, is_dashed, join, joined, lemma_texts_push, parts,
    same, split, split_once, split_once_white, split_whitespace, starts_with, strip_prefix,
    texts, trim, trimmed, words,
};
use crate::words::{pragma_words, split_pragma_words, unterminated, Host};

verus! {

/// The words of an optional argument that is trimmed first; none where it is missing.
pub open spec fn option_words(arg: Option<Seq<char>>, host: Host) -> Option<Seq<Seq<char>>> {
    match arg {
        None => Some(Seq::empty()),
        Some(a) => pragma_words(trimmed(a), host),
    }
}

fn split_option_words(arg: Option<&str>, host: Host) -> (r: Result<Vec<String>, PragmaErr>)
    ensures
        match r {
            Ok(w) => option_words(str_option(arg), host) == Some(texts(w@)),
            Err(e) => option_words(str_option(arg), host) is None && e@ == PragmaErr::Fail(
                Some(unterminated()),
            ),
        },
{
    match arg {
        None => {
            let w: Vec<String> = Vec::new();
            proof {
                assert(texts(w@) =~= Seq::<Seq<char>>::empty());
            }
            Ok(w)
        },
        Some(a) => split_pragma_words(trim(a), host),
    }
}

/// The options of an audit command, from word `i` on.
pub open spec fn audit_words(
    w: Seq<Seq<char>>,
    i: int,
    repair: bool,
    remote: Option<Seq<char>>,
) -> Result<RepoAuditSpec<Seq<char>>, PragmaErr<Seq<char>>>
    decreases w.len() - i,
{
    if i >= w.len() {
        if remote is Some && !repair {
            refused("audit remote requires --repair"@)
        } else {
            Ok(RepoAuditSpec { repair, remote })
        }
    } else if w[i] == "--repair"@ {
        if repair {
            refused("audit accepts --repair only once"@)
        } else {
            audit_words(w, i + 1, true, remote)
        }
    } else if dashed(w[i]) {
        refused("unknown audit argument `"@ + w[i] + "`"@)
    } else if remote is Some {
        refused("audit --repair accepts at most one remote"@)
    } else {
        audit_words(w, i + 1, repair, Some(w[i]))
    }
}

pub open spec fn audit_arg(arg: Option<Seq<char>>, host: Host) -> Result<
    RepoAuditSpec<Seq<char>>,
    PragmaErr<Seq<char>>,
> {
    match option_words(arg, host) {
        None => refused(unterminated()),
        Some(w) => audit_words(w, 0, false, None),
    }
}

pub fn parse_repo_audit_arg(arg: Option<&str>, host: Host) -> (r: Result<RepoAuditSpec, PragmaErr>)
    ensures
        seen(r) == audit_arg(str_option(arg), host),
{
    let w = match split_option_words(arg, host) {
        Ok(w) => w,
        Err(e) => return Err(e),
    };
    let mut repair: bool = false;
    let mut remote: Option<String> = None;
    let mut i: usize = 0;
    while i < w.len()
        invariant
            i <= w@.len(),
            audit_arg(str_option(arg), host) == audit_words(
                texts(w@),
                i as int,
                repair,
                text_option(remote),
            ),
        decreases w@.len() - i,
    {
        let part = w[i].as_str();
        let ghost p = texts(w@)[i as int];
        if same(part, "--repair") {
            if repair {
                return Err(pragma_fail("audit accepts --repair only once"));
            }
            repair = true;
        } else if is_dashed(part) {
            return Err(pragma_fail(cat3("unknown audit argument `", part, "`").as_str()));
        } else {
            if remote.is_some() {
                return Err(pragma_fail("audit --repair accepts at most one remote"));
            }
            remote = Some(w[i].clone());
        }
        i += 1;
    }
    if remote.is_some() && !repair {
        return Err(pragma_fail("audit remote requires --repair"));
    }
    Ok(RepoAuditSpec { repair, remote })
}

/// The options of a payload fetch, from word `i` on, added to `f`.
pub open spec fn lfs_fetch_words(
    w: Seq<Seq<char>>,
    i: int,
    f: LargeFileFetchSpec<Seq<char>>,
) -> Result<LargeFileFetchSpec<Seq<char>>, PragmaErr<Seq<char>>>
    decreases w.len() - i,
{
    if i >= w.len() {
        Ok(f)
    } else if w[i] == "--remote"@ {
        if f.remote is Some {
            refused("payload fetch accepts --remote only once"@)
        } else if i + 1 >= w.len() || dashed(w[i + 1]) {
            refused("payload fetch --remote requires a remote name"@)
        } else {
            lfs_fetch_words(w, i + 2, LargeFileFetchSpec { remote: Some(w[i + 1]), ..f })
        }
    } else if dashed(w[i]) {
        refused("unknown payload fetch argument `"@ + w[i] + "`"@)
    } else if f.rev is Some {
        refused("payload fetch accepts at most one revision"@)
    } else {
        lfs_fetch_words(w, i + 1, LargeFileFetchSpec { rev: Some(w[i]), ..f })
    }
}

pub open spec fn lfs_fetch_arg(arg: Option<Seq<char>>, host: Host) -> Result<
    LargeFileFetchSpec<Seq<char>>,
    PragmaErr<Seq<char>>,
> {
    match option_words(arg, host) {
        None => refused(unterminated()),
        Some(w) => lfs_fetch_words(w, 0, LargeFileFetchSpec { remote: None, rev: None }),
    }
}

pub fn parse_lfs_fetch_arg(arg: Option<&str>, host: Host) -> (r: Result<
    LargeFileFetchSpec,
    PragmaErr,
>)
    ensures
        seen(r) == lfs_fetch_arg(str_option(arg), host),
{
    let w = match split_option_words(arg, host) {
        Ok(w) => w,
        Err(e) => return Err(e),
    };
    let n: usize = w.len();
    let mut f = LargeFileFetchSpec { remote: None, rev: None };
    let mut i: usize = 0;
    while i < n
        invariant
            i <= n,
            n == w@.len(),
            lfs_fetch_arg(str_option(arg), host) == lfs_fetch_words(texts(w@), i as int, f@),
        decreases n - i,
    {
        let part = w[i].as_str();
        let ghost p = texts(w@)[i as int];
        if same(part, "--remote") {
            if f.remote.is_some() {
                return Err(pragma_fail("payload fetch accepts --remote only once"));
            }
            if i + 1 >= n || is_dashed(w[i + 1].as_str()) {
                return Err(pragma_fail("payload fetch --remote requires a remote name"));
            }
            f.remote = Some(w[i + 1].clone());
            i += 2;
        } else if is_dashed(part) {
            return Err(pragma_fail(cat3("unknown payload fetch argument `", part, "`").as_str()));
        } else {
            if f.rev.is_some() {
                return Err(pragma_fail("payload fetch accepts at most one revision"));
            }
            f.rev = Some(w[i].clone());
            i += 1;
        }
    }
    Ok(f)
}

pub open spec fn lfs_status_arg(arg: Option<Seq<char>>, host: Host) -> Result<
    LargeFileStatusSpec<Seq<char>>,
    PragmaErr<Seq<char>>,
> {
    match option_words(arg, host) {
        None => refused(unterminated()),
        Some(w) => if w.len() == 0 {
            Ok(LargeFileStatusSpec { rev: None })
        } else if w.len() > 1 {
            refused("payload status accepts at most one revision"@)
        } else if dashed(w[0]) {
            refused("unknown payload status argument `"@ + w[0] + "`"@)
        } else {
            Ok(LargeFileStatusSpec { rev: Some(w[0]) })
        },
    }
}

pub fn parse_lfs_status_arg(arg: Option<&str>, host: Host) -> (r: Result<
    LargeFileStatusSpec,
    PragmaErr,
>)
    ensures
        seen(r) == lfs_status_arg(str_option(arg), host),
{
    let w = match split_option_words(arg, host) {
        Ok(w) => w,
        Err(e) => return Err(e),
    };
    if w.len() == 0 {
        return Ok(LargeFileStatusSpec { rev: None });
    }
    if w.len() > 1 {
        return Err(pragma_fail("payload status accepts at most one revision"));
    }
    if is_dashed(w[0].as_str()) {
        return Err(
            pragma_fail(cat3("unknown payload status argument `", w[0].as_str(), "`").as_str()),
        );
    }
    Ok(LargeFileStatusSpec { rev: Some(w[0].clone()) })
}

/// What is said of the mode flags of a command that can run dry.
pub struct ModeWords<S = &'static str> {
    pub twice: S,
    pub unknown: S,
}

/// Whether the command runs dry: it does unless `--force` is given.
pub open spec fn mode_words(
    w: Seq<Seq<char>>,
    i: int,
    dry_run: Option<bool>,
    say: ModeWords<Seq<char>>,
) -> Result<bool, PragmaErr<Seq<char>>>
    decreases w.len() - i,
{
    if i >= w.len() {
        Ok(dry_run != Some(false))
    } else if w[i] == "--dry-run"@ || w[i] == "--force"@ {
        if dry_run is Some {
            refused(say.twice)
        } else {
            mode_words(w, i + 1, Some(w[i] == "--dry-run"@), say)
        }
    } else {
        refused(say.unknown + w[i] + "`; expected `--dry-run` or `--force`"@)
    }
}

pub open spec fn mode_arg(arg: Option<Seq<char>>, host: Host, say: ModeWords<Seq<char>>) -> Result<
    bool,
    PragmaErr<Seq<char>>,
> {
    match option_words(arg, host) {
        None => refused(unterminated()),
        Some(w) => mode_words(w, 0, None, say),
    }
}

pub open spec fn prune_mode_words() -> ModeWords<Seq<char>> {
    ModeWords {
        twice: "payload prune accepts only one mode flag"@,
        unknown: "unknown payload prune argument `"@,
    }
}

pub open spec fn gc_mode_words() -> ModeWords<Seq<char>> {
    ModeWords { twice: "gc accepts only one mode flag"@, unknown: "unknown gc argument `"@ }
}

fn parse_mode(arg: Option<&str>, host: Host, twice: &str, unknown: &str) -> (r: Result<
    bool,
    PragmaErr,
>)
    ensures
        seen(r) == mode_arg(
            str_option(arg),
            host,
            ModeWords { twice: twice@, unknown: unknown@ },
        ),
{
    let w = match split_option_words(arg, host) {
        Ok(w) => w,
        Err(e) => return Err(e),
    };
    let ghost say = ModeWords { twice: twice@, unknown: unknown@ };
    let mut dry_run: Option<bool> = None;
    let mut i: usize = 0;
    while i < w.len()
        invariant
            i <= w@.len(),
            say == (ModeWords { twice: twice@, unknown: unknown@ }),
            mode_arg(str_option(arg), host, say) == mode_words(texts(w@), i as int, dry_run, say),
        decreases w@.len() - i,
    {
        let part = w[i].as_str();
        let ghost p = texts(w@)[i as int];
        if same(part, "--dry-run") {
            if dry_run.is_some() {
                return Err(pragma_fail(twice));
            }
            dry_run = Some(true);
        } else if same(part, "--force") {
            if dry_run.is_some() {
                return Err(pragma_fail(twice));
            }
            dry_run = Some(false);
        } else {
            return Err(
                pragma_fail(cat3(unknown, part, "`; expected `--dry-run` or `--force`").as_str()),
            );
        }
        i += 1;
    }
    match dry_run {
        Some(dry) => Ok(dry),
        None => Ok(true),
    }
}

pub fn parse_lfs_prune_arg(arg: Option<&str>, host: Host) -> (r: Result<
    LargeFilePruneSpec,
    PragmaErr,
>)
    ensures
        match r {
            Ok(spec) => mode_arg(str_option(arg), host, prune_mode_words()) == Ok::<
                _,
                PragmaErr<Seq<char>>,
            >(spec.dry_run),
            Err(e) => mode_arg(str_option(arg), host, prune_mode_words()) == Err::<bool, _>(e@),
        },
{
    match parse_mode(
        arg,
        host,
        "payload prune accepts only one mode flag",
        "unknown payload prune argument `",
    ) {
        Ok(dry_run) => Ok(LargeFilePruneSpec { dry_run }),
        Err(e) => Err(e),
    }
}

pub fn parse_storage_gc_arg(arg: Option<&str>, host: Host) -> (r: Result<StorageGcSpec, PragmaErr>)
    ensures
        match r {
            Ok(spec) => mode_arg(str_option(arg), host, gc_mode_words()) == Ok::<
                _,
                PragmaErr<Seq<char>>,
            >(spec.dry_run),
            Err(e) => mode_arg(str_option(arg), host, gc_mode_words()) == Err::<bool, _>(e@),
        },
{
    match parse_mode(arg, host, "gc accepts only one mode flag", "unknown gc argument `") {
        Ok(dry_run) => Ok(StorageGcSpec { dry_run }),
        Err(e) => Err(e),
    }
}

pub open spec fn config_parts(key: Seq<char>, value: Seq<char>) -> Result<
    (Seq<char>, Seq<char>),
    PragmaErr<Seq<char>>,
> {
    if trimmed(key).len() == 0 || trimmed(value).len() == 0 {
        refused("argument must be in the form: `key -- value`"@)
    } else {
        Ok((trimmed(key), trimmed(value)))
    }
}

/// The key and the value of `key -- value`, or of `key value`.
pub open spec fn config_set_arg(arg: Seq<char>) -> Result<
    (Seq<char>, Seq<char>),
    PragmaErr<Seq<char>>,
> {
    let a = trimmed(arg);
    match cut(a, " --"@) {
        Some((key, value)) => config_parts(key, value),
        None => match cut_white(a) {
            Some((key, value)) => config_parts(key, value),
            None => config_parts(a, ""@),
        },
    }
}

pub fn config_set_parts(key: &str, value: &str) -> (r: Result<(String, String), PragmaErr>)
    ensures
        seen(r) == config_parts(key@, value@),
{
    let key = trim(key);
    let value = trim(value);
    if key.is_empty() || value.is_empty() {
        return Err(pragma_fail("argument must be in the form: `key -- value`"));
    }
    Ok((key.to_owned(), value.to_owned()))
}

pub fn parse_repo_config_set_arg(arg: &str) -> (r: Result<(String, String), PragmaErr>)
    ensures
        seen(r) == config_set_arg(arg@),
{
    let a = trim(arg);
    match split_once(a, " --") {
        Some((key, value)) => config_set_parts(key, value),
        None => match split_once_white(a) {
            Some((key, value)) => config_set_parts(key, value),
            None => config_set_parts(a, ""),
        },
    }
}

/// The options of a JSON log command, from word `i` on, added to `f`.
pub open spec fn json_log_words(w: Seq<Seq<char>>, i: int, f: JsonLogSpec<Seq<char>>) -> Result<
    JsonLogSpec<Seq<char>>,
    PragmaErr<Seq<char>>,
>
    decreases w.len() - i,
{
    if i >= w.len() {
        if f.after is Some && f.limit is None {
            refused("json_log --after requires --limit"@)
        } else {
            Ok(f)
        }
    } else if w[i] == "--with-status"@ && f.mode == JsonLogMode::LegacyArray {
        json_log_words(w, i + 1, JsonLogSpec { mode: JsonLogMode::WithStatus, ..f })
    } else if w[i] == "--limit"@ && f.limit is None {
        if i + 1 >= w.len() {
            refused("json_log --limit requires a positive integer"@)
        } else {
            match parsed_unsigned(w[i + 1], usize::MAX as nat) {
                None => refused("json_log --limit requires a positive integer"@),
                Some(v) => if v == 0 {
                    refused("json_log --limit requires a positive integer"@)
                } else {
                    json_log_words(w, i + 2, JsonLogSpec { limit: Some(v as usize), ..f })
                },
            }
        }
    } else if w[i] == "--after"@ && f.after is None {
        if i + 1 >= w.len() || has_prefix(w[i + 1], "--"@) {
            refused("json_log --after requires a commit id"@)
        } else {
            json_log_words(w, i + 2, JsonLogSpec { after: Some(w[i + 1]), ..f })
        }
    } else {
        refused("argument must use: `[--with-status] [--limit n] [--after oid]`"@)
    }
}

pub open spec fn json_log_nothing() -> JsonLogSpec<Seq<char>> {
    JsonLogSpec { mode: JsonLogMode::LegacyArray, limit: None, after: None }
}

pub open spec fn json_log_arg(arg: Option<Seq<char>>, host: Host) -> Result<
    JsonLogSpec<Seq<char>>,
    PragmaErr<Seq<char>>,
> {
    match arg {
        None => Ok(json_log_nothing()),
        Some(a) => match pragma_words(a, host) {
            None => refused(unterminated()),
            Some(w) => json_log_words(w, 0, json_log_nothing()),
        },
    }
}

pub fn parse_json_log_arg(arg: Option<&str>, host: Host) -> (r: Result<JsonLogSpec, PragmaErr>)
    ensures
        seen(r) == json_log_arg(str_option(arg), host),
{
    let mut f = JsonLogSpec { mode: JsonLogMode::LegacyArray, limit: None, after: None };
    let a = match arg {
        None => return Ok(f),
        Some(a) => a,
    };
    let w = match split_pragma_words(a, host) {
        Ok(w) => w,
        Err(e) => return Err(e),
    };
    let n: usize = w.len();
    let mut i: usize = 0;
    while i < n
        invariant
            i <= n,
            n == w@.len(),
            json_log_arg(str_option(arg), host) == json_log_words(texts(w@), i as int, f@),
        decreases n - i,
    {
        let part = w[i].as_str();
        let ghost p = texts(w@)[i as int];
        if same(part, "--with-status") && f.mode == JsonLogMode::LegacyArray {
            f.mode = JsonLogMode::WithStatus;
            i += 1;
        } else if same(part, "--limit") && f.limit.is_none() {
            if i + 1 >= n {
                return Err(pragma_fail("json_log --limit requires a positive integer"));
            }
            match parse_usize(w[i + 1].as_str()) {
                None => return Err(pragma_fail("json_log --limit requires a positive integer")),
                Some(v) => {
                    if v == 0 {
                        return Err(pragma_fail("json_log --limit requires a positive integer"));
                    }
                    f.limit = Some(v);
                },
            }
            i += 2;
        } else if same(part, "--after") && f.after.is_none() {
            if i + 1 >= n || starts_with(w[i + 1].as_str(), "--") {
                return Err(pragma_fail("json_log --after requires a commit id"));
            }
            f.after = Some(w[i + 1].clone());
            i += 2;
        } else {
            return Err(
                pragma_fail("argument must use: `[--with-status] [--limit n] [--after oid]`"),
            );
        }
    }
    if f.after.is_some() && f.limit.is_none() {
        return Err(pragma_fail("json_log --after requires --limit"));
    }
    Ok(f)
}

/// Whether an optional argument is `--with-status`, the only word it may hold.
pub open spec fn with_status_arg(arg: Option<Seq<char>>, host: Host) -> Result<
    bool,
    PragmaErr<Seq<char>>,
> {
    match arg {
        None => Ok(false),
        Some(a) => match pragma_words(a, host) {
            None => refused(unterminated()),
            Some(w) => if w.len() == 0 {
                Ok(false)
            } else if w.len() == 1 && w[0] == "--with-status"@ {
                Ok(true)
            } else {
                refused("argument must be empty or in the form: `--with-status`"@)
            },
        },
    }
}

fn parse_with_status(arg: Option<&str>, host: Host) -> (r: Result<bool, PragmaErr>)
    ensures
        seen(r) == with_status_arg(str_option(arg), host),
{
    let a = match arg {
        None => return Ok(false),
        Some(a) => a,
    };
    let w = match split_pragma_words(a, host) {
        Ok(w) => w,
        Err(e) => return Err(e),
    };
    if w.len() == 0 {
        Ok(false)
    } else if w.len() == 1 && same(w[0].as_str(), "--with-status") {
        Ok(true)
    } else {
        Err(pragma_fail("argument must be empty or in the form: `--with-status`"))
    }
}

pub fn parse_json_config_list_arg(arg: Option<&str>, host: Host) -> (r: Result<
    JsonConfigListMode,
    PragmaErr,
>)
    ensures
        match r {
            Ok(mode) => with_status_arg(str_option(arg), host) == Ok::<_, PragmaErr<Seq<char>>>(
                mode == JsonConfigListMode::WithStatus,
            ),
            Err(e) => with_status_arg(str_option(arg), host) == Err::<bool, _>(e@),
        },
{
    match parse_with_status(arg, host) {
        Ok(true) => Ok(JsonConfigListMode::WithStatus),
        Ok(false) => Ok(JsonConfigListMode::LegacyArray),
        Err(e) => Err(e),
    }
}

pub fn parse_json_tags_arg(arg: Option<&str>, host: Host) -> (r: Result<JsonTagsMode, PragmaErr>)
    ensures
        match r {
            Ok(mode) => with_status_arg(str_option(arg), host) == Ok::<_, PragmaErr<Seq<char>>>(
                mode == JsonTagsMode::WithStatus,
            ),
            Err(e) => with_status_arg(str_option(arg), host) == Err::<bool, _>(e@),
        },
{
    match parse_with_status(arg, host) {
        Ok(true) => Ok(JsonTagsMode::WithStatus),
        Ok(false) => Ok(JsonTagsMode::LegacyArray),
        Err(e) => Err(e),
    }
}

/// The words other than `--with-status` from `i` on, and whether that flag is among them.
pub open spec fn fetch_async_words(
    w: Seq<Seq<char>>,
    i: int,
    with_status: bool,
    rest: Seq<Seq<char>>,
) -> Result<(bool, Seq<Seq<char>>), PragmaErr<Seq<char>>>
    decreases w.len() - i,
{
    if i >= w.len() {
        Ok((with_status, rest))
    } else if w[i] == "--with-status"@ {
        if with_status {
            refused("argument contains duplicate `--with-status`"@)
        } else {
            fetch_async_words(w, i + 1, true, rest)
        }
    } else {
        fetch_async_words(w, i + 1, with_status, rest.push(w[i]))
    }
}

pub open spec fn fetch_async_arg(arg: Option<Seq<char>>, host: Host) -> Result<
    (RemoteBranchArg<Seq<char>>, JsonFetchAsyncMode),
    PragmaErr<Seq<char>>,
> {
    let words = match arg {
        None => Some(Seq::empty()),
        Some(a) => pragma_words(a, host),
    };
    match words {
        None => refused(unterminated()),
        Some(w) => match fetch_async_words(w, 0, false, Seq::empty()) {
            Err(e) => Err(e),
            Ok((with_status, rest)) => {
                let mode = if with_status {
                    JsonFetchAsyncMode::WithStatus
                } else {
                    JsonFetchAsyncMode::LegacyId
                };
                let remote = if rest.len() == 0 {
                    None
                } else {
                    Some(joined(rest, " "@))
                };
                match remote_branch_arg(remote) {
                    Ok(found) => Ok((found, mode)),
                    Err(e) => Err(e),
                }
            },
        },
    }
}

pub fn parse_json_fetch_async_arg(arg: Option<&str>, host: Host) -> (r: Result<
    (RemoteBranchArg, JsonFetchAsyncMode),
    PragmaErr,
>)
    ensures
        match r {
            Ok((found, mode)) => fetch_async_arg(str_option(arg), host) == Ok::<
                _,
                PragmaErr<Seq<char>>,
            >((found@, mode)),
            Err(e) => fetch_async_arg(str_option(arg), host) == Err::<
                (RemoteBranchArg<Seq<char>>, JsonFetchAsyncMode),
                _,
            >(e@),
        },
{
    let w: Vec<String> = match arg {
        None => Vec::new(),
        Some(a) => match split_pragma_words(a, host) {
            Ok(w) => w,
            Err(e) => return Err(e),
        },
    };
    let ghost line = match str_option(arg) {
        None => Some(Seq::empty()),
        Some(a) => pragma_words(a, host),
    };
    let mut mode = JsonFetchAsyncMode::LegacyId;
    let mut rest: Vec<String> = Vec::new();
    let mut i: usize = 0;
    proof {
        assert(texts(rest@) =~= Seq::<Seq<char>>::empty());
        assert(line == Some(texts(w@))) by {
            if arg is None {
                assert(texts(w@) =~= Seq::<Seq<char>>::empty());
            }
        }
    }
    while i < w.len()
        invariant
            i <= w@.len(),
            line == match str_option(arg) {
                None => Some(Seq::empty()),
                Some(a) => pragma_words(a, host),
            },
            line == Some(texts(w@)),
            fetch_async_words(texts(w@), 0, false, Seq::empty()) == fetch_async_words(
                texts(w@),
                i as int,
                mode == JsonFetchAsyncMode::WithStatus,
                texts(rest@),
            ),
        decreases w@.len() - i,
    {
        let ghost p = texts(w@)[i as int];
        if same(w[i].as_str(), "--with-status") {
            if mode == JsonFetchAsyncMode::WithStatus {
                return Err(pragma_fail("argument contains duplicate `--with-status`"));
            }
            mode = JsonFetchAsyncMode::WithStatus;
        } else {
            let word = w[i].clone();
            proof {
                lemma_texts_push(rest@, word);
            }
            rest.push(word);
        }
        i += 1;
    }
    let found = if rest.len() == 0 {
        parse_remote_branch_arg(None)
    } else {
        let line = join(&rest, " ");
        parse_remote_branch_arg(Some(line.as_str()))
    };
    match found {
        Ok(found) => Ok((found, mode)),
        Err(e) => Err(e),
    }
}

pub open spec fn branch_delete_arg(arg: Seq<char>) -> Result<
    (Seq<char>, bool),
    PragmaErr<Seq<char>>,
> {
    let w = words(arg);
    if w.len() == 1 {
        Ok((w[0], false))
    } else if w.len() == 2 && (w[0] == "--force"@ || w[0] == "-D"@ || w[0] == "-f"@) {
        Ok((w[1], true))
    } else {
        refused("argument must be in the form: `[--force] name`"@)
    }
}

pub fn parse_branch_delete_arg(arg: &str) -> (r: Result<(String, bool), PragmaErr>)
    ensures
        seen(r) == branch_delete_arg(arg@),
{
    let w = split_whitespace(arg);
    if w.len() == 1 {
        Ok((w[0].clone(), false))
    } else if w.len() == 2 && (same(w[0].as_str(), "--force") || same(w[0].as_str(), "-D") || same(
        w[0].as_str(),
        "-f",
    )) {
        Ok((w[1].clone(), true))
    } else {
        Err(pragma_fail("argument must be in the form: `[--force] name`"))
    }
}

pub open spec fn branch_list_mode(arg: Option<Seq<char>>) -> Result<
    BranchListMode,
    PragmaErr<Seq<char>>,
> {
    match arg {
        None => Ok(BranchListMode::Local),
        Some(a) => {
            let t = trimmed(a);
            if t.len() == 0 {
                Ok(BranchListMode::Local)
            } else if t == "-r"@ || t == "--remote"@ || t == "--remotes"@ {
                Ok(BranchListMode::Remote)
            } else if t == "-a"@ || t == "--all"@ {
                Ok(BranchListMode::All)
            } else {
                refused("argument must be one of: `--remote`, `-r`, `--all`, `-a`"@)
            }
        },
    }
}

pub fn parse_branch_list_mode(arg: Option<&str>) -> (r: Result<BranchListMode, PragmaErr>)
    ensures
        match r {
            Ok(mode) => branch_list_mode(str_option(arg)) == Ok::<_, PragmaErr<Seq<char>>>(mode),
            Err(e) => branch_list_mode(str_option(arg)) == Err::<BranchListMode, _>(e@),
        },
{
    let t = match arg {
        None => return Ok(BranchListMode::Local),
        Some(a) => trim(a),
    };
    if t.is_empty() {
        Ok(BranchListMode::Local)
    } else if same(t, "-r") || same(t, "--remote") || same(t, "--remotes") {
        Ok(BranchListMode::Remote)
    } else if same(t, "-a") || same(t, "--all") {
        Ok(BranchListMode::All)
    } else {
        Err(pragma_fail("argument must be one of: `--remote`, `-r`, `--all`, `-a`"))
    }
}

pub open spec fn is_rename_force(w: Seq<char>) -> bool {
    w == "--force"@ || w == "-M"@ || w == "-f"@
}

/// The old name, the new name, and whether the rename is forced.
pub open spec fn branch_rename_arg(arg: Seq<char>) -> Result<
    (Option<Seq<char>>, Seq<char>, bool),
    PragmaErr<Seq<char>>,
> {
    let w = words(arg);
    if w.len() == 1 {
        Ok((None, w[0], false))
    } else if w.len() == 2 && is_rename_force(w[0]) {
        Ok((None, w[1], true))
    } else if w.len() == 3 && is_rename_force(w[0]) {
        Ok((Some(w[1]), w[2], true))
    } else if w.len() == 2 {
        Ok((Some(w[0]), w[1], false))
    } else {
        refused("argument must be in the form: `[--force] [old] new`"@)
    }
}

pub fn parse_branch_rename_arg(arg: &str) -> (r: Result<(Option<String>, String, bool), PragmaErr>)
    ensures
        match r {
            Ok((old_name, new, force)) => branch_rename_arg(arg@) == Ok::<_, PragmaErr<Seq<char>>>(
                (text_option(old_name), new@, force),
            ),
            Err(e) => branch_rename_arg(arg@) == Err::<(Option<Seq<char>>, Seq<char>, bool), _>(e@),
        },
{
    let w = split_whitespace(arg);
    let n: usize = w.len();
    let forced: bool = n >= 1 && (same(w[0].as_str(), "--force") || same(w[0].as_str(), "-M")
        || same(w[0].as_str(), "-f"));
    proof {
        if n >= 1 {
            assert(texts(w@)[0] == w@[0]@);
        }
    }
    if n == 1 {
        Ok((None, w[0].clone(), false))
    } else if n == 2 && forced {
        Ok((None, w[1].clone(), true))
    } else if n == 3 && forced {
        Ok((Some(w[1].clone()), w[2].clone(), true))
    } else if n == 2 {
        Ok((Some(w[0].clone()), w[1].clone(), false))
    } else {
        Err(pragma_fail("argument must be in the form: `[--force] [old] new`"))
    }
}

/// The remote and the branch of `remote/branch`.
pub open spec fn remote_branch_ref(value: Seq<char>) -> Result<
    (Seq<char>, Seq<char>),
    PragmaErr<Seq<char>>,
> {
    match cut(value, "/"@) {
        Some((remote, branch)) => if remote.len() == 0 || branch.len() == 0 {
            refused("upstream must be in the form: `remote/branch`"@)
        } else {
            Ok((remote, branch))
        },
        None => refused("upstream must be in the form: `remote/branch`"@),
    }
}

pub fn parse_remote_branch_ref(value: &str) -> (r: Result<(String, String), PragmaErr>)
    ensures
        seen(r) == remote_branch_ref(value@),
{
    match split_once(value, "/") {
        Some((remote, branch)) => {
            if remote.is_empty() || branch.is_empty() {
                Err(pragma_fail("upstream must be in the form: `remote/branch`"))
            } else {
                Ok((remote.to_owned(), branch.to_owned()))
            }
        },
        None => Err(pragma_fail("upstream must be in the form: `remote/branch`")),
    }
}

/// The branch, its remote and its remote branch.
pub open spec fn branch_upstream_arg(arg: Seq<char>) -> Result<
    (Option<Seq<char>>, Seq<char>, Seq<char>),
    PragmaErr<Seq<char>>,
> {
    let w = words(arg);
    if w.len() == 1 || w.len() == 2 {
        match remote_branch_ref(w.last()) {
            Ok((remote, remote_branch)) => Ok(
                (
                    if w.len() == 1 {
                        None
                    } else {
                        Some(w[0])
                    },
                    remote,
                    remote_branch,
                ),
            ),
            Err(e) => Err(e),
        }
    } else {
        refused("argument must be in the form: `[branch] remote/branch`"@)
    }
}

pub fn parse_branch_upstream_arg(arg: &str) -> (r: Result<
    (Option<String>, String, String),
    PragmaErr,
>)
    ensures
        match r {
            Ok((branch, remote, remote_branch)) => branch_upstream_arg(arg@) == Ok::<
                _,
                PragmaErr<Seq<char>>,
            >((text_option(branch), remote@, remote_branch@)),
            Err(e) => branch_upstream_arg(arg@) == Err::<
                (Option<Seq<char>>, Seq<char>, Seq<char>),
                _,
            >(e@),
        },
{
    let w = split_whitespace(arg);
    if w.len() == 1 {
        match parse_remote_branch_ref(w[0].as_str()) {
            Ok((remote, remote_branch)) => Ok((None, remote, remote_branch)),
            Err(e) => Err(e),
        }
    } else if w.len() == 2 {
        match parse_remote_branch_ref(w[1].as_str()) {
            Ok((remote, remote_branch)) => Ok((Some(w[0].clone()), remote, remote_branch)),
            Err(e) => Err(e),
        }
    } else {
        Err(pragma_fail("argument must be in the form: `[branch] remote/branch`"))
    }
}

/// A name and an optional second word.
pub open spec fn one_or_two(arg: Seq<char>, form: Seq<char>) -> Result<
    (Seq<char>, Option<Seq<char>>),
    PragmaErr<Seq<char>>,
> {
    let w = words(arg);
    if w.len() == 1 {
        Ok((w[0], None))
    } else if w.len() == 2 {
        Ok((w[0], Some(w[1])))
    } else {
        refused(form)
    }
}

fn parse_one_or_two(arg: &str, form: &str) -> (r: Result<(String, Option<String>), PragmaErr>)
    ensures
        match r {
            Ok((name, second)) => one_or_two(arg@, form@) == Ok::<_, PragmaErr<Seq<char>>>(
                (name@, text_option(second)),
            ),
            Err(e) => one_or_two(arg@, form@) == Err::<(Seq<char>, Option<Seq<char>>), _>(e@),
        },
{
    let w = split_whitespace(arg);
    if w.len() == 1 {
        Ok((w[0].clone(), None))
    } else if w.len() == 2 {
        Ok((w[0].clone(), Some(w[1].clone())))
    } else {
        Err(pragma_fail(form))
    }
}

pub open spec fn branch_create_arg(arg: Seq<char>) -> Result<
    (Seq<char>, Option<Seq<char>>),
    PragmaErr<Seq<char>>,
> {
    one_or_two(arg, "argument must be in the form: `name [start-point]`"@)
}

pub fn parse_branch_create_arg(arg: &str) -> (r: Result<(String, Option<String>), PragmaErr>)
    ensures
        match r {
            Ok((name, start)) => branch_create_arg(arg@) == Ok::<_, PragmaErr<Seq<char>>>(
                (name@, text_option(start)),
            ),
            Err(e) => branch_create_arg(arg@) == Err::<(Seq<char>, Option<Seq<char>>), _>(e@),
        },
{
    parse_one_or_two(arg, "argument must be in the form: `name [start-point]`")
}

pub open spec fn switch_branch_arg(arg: Seq<char>) -> Result<
    (Seq<char>, bool),
    PragmaErr<Seq<char>>,
> {
    let w = words(arg);
    if w.len() == 1 {
        Ok((w[0], false))
    } else if w.len() == 2 && is_force_flag(w[0]) {
        Ok((w[1], true))
    } else {
        refused("argument must be in the form: `[--force] name`"@)
    }
}

pub fn parse_switch_branch_arg(arg: &str) -> (r: Result<(String, bool), PragmaErr>)
    ensures
        seen(r) == switch_branch_arg(arg@),
{
    let w = split_whitespace(arg);
    if w.len() == 1 {
        Ok((w[0].clone(), false))
    } else if w.len() == 2 && (same(w[0].as_str(), "--force") || same(w[0].as_str(), "-f")) {
        Ok((w[1].clone(), true))
    } else {
        Err(pragma_fail("argument must be in the form: `[--force] name`"))
    }
}

/// The name of the new branch, where it starts, and whether the switch is forced.
pub open spec fn switch_create_arg(arg: Seq<char>) -> Result<
    (Seq<char>, Option<Seq<char>>, bool),
    PragmaErr<Seq<char>>,
> {
    let w = words(arg);
    if w.len() == 1 {
        Ok((w[0], None, false))
    } else if w.len() == 2 && is_force_flag(w[0]) {
        Ok((w[1], None, true))
    } else if w.len() == 3 && is_force_flag(w[0]) {
        Ok((w[1], Some(w[2]), true))
    } else if w.len() == 2 {
        Ok((w[0], Some(w[1]), false))
    } else {
        refused("argument must be in the form: `[--force] name [start-point]`"@)
    }
}

pub fn parse_switch_create_arg(arg: &str) -> (r: Result<(String, Option<String>, bool), PragmaErr>)
    ensures
        match r {
            Ok((name, start, force)) => switch_create_arg(arg@) == Ok::<_, PragmaErr<Seq<char>>>(
                (name@, text_option(start), force),
            ),
            Err(e) => switch_create_arg(arg@) == Err::<(Seq<char>, Option<Seq<char>>, bool), _>(e@),
        },
{
    let w = split_whitespace(arg);
    let n: usize = w.len();
    let forced: bool = n >= 1 && (same(w[0].as_str(), "--force") || same(w[0].as_str(), "-f"));
    proof {
        if n >= 1 {
            assert(texts(w@)[0] == w@[0]@);
        }
    }
    if n == 1 {
        Ok((w[0].clone(), None, false))
    } else if n == 2 && forced {
        Ok((w[1].clone(), None, true))
    } else if n == 3 && forced {
        Ok((w[1].clone(), Some(w[2].clone()), true))
    } else if n == 2 {
        Ok((w[0].clone(), Some(w[1].clone()), false))
    } else {
        Err(pragma_fail("argument must be in the form: `[--force] name [start-point]`"))
    }
}

pub open spec fn annotated_form() -> Seq<char> {
    "annotated tag argument must be in the form: `--annotated name [rev] -- message`"@
}

/// The name, the target and the message of an annotated tag, after its flag.
pub open spec fn annotated_tag(rest: Seq<char>) -> Result<
    (Seq<char>, Option<Seq<char>>, Option<Seq<char>>),
    PragmaErr<Seq<char>>,
> {
    match cut(rest, " -- "@) {
        None => refused(annotated_form()),
        Some((spec, message)) => if trimmed(message).len() == 0 {
            refused("annotated tag message cannot be empty"@)
        } else {
            match one_or_two(spec, annotated_form()) {
                Ok((name, target)) => Ok((name, target, Some(trimmed(message)))),
                Err(e) => Err(e),
            }
        },
    }
}

pub open spec fn tag_create_arg(arg: Seq<char>) -> Result<
    (Seq<char>, Option<Seq<char>>, Option<Seq<char>>),
    PragmaErr<Seq<char>>,
> {
    let a = trimmed(arg);
    if has_prefix(a, "--annotated "@) {
        annotated_tag(a.skip("--annotated "@.len() as int))
    } else if has_prefix(a, "-a "@) {
        annotated_tag(a.skip("-a "@.len() as int))
    } else {
        match one_or_two(a, "argument must be in the form: `name [rev]`"@) {
            Ok((name, target)) => Ok((name, target, None)),
            Err(e) => Err(e),
        }
    }
}

pub type TagArg = (String, Option<String>, Option<String>);

fn parse_annotated_tag(rest: &str) -> (r: Result<TagArg, PragmaErr>)
    ensures
        match r {
            Ok((name, target, message)) => annotated_tag(rest@) == Ok::<_, PragmaErr<Seq<char>>>(
                (name@, text_option(target), text_option(message)),
            ),
            Err(e) => annotated_tag(rest@) == Err::<
                (Seq<char>, Option<Seq<char>>, Option<Seq<char>>),
                _,
            >(e@),
        },
{
    let (spec, message) = match split_once(rest, " -- ") {
        Some(pair) => pair,
        None => {
            return Err(
                pragma_fail(
                    "annotated tag argument must be in the form: `--annotated name [rev] -- message`",
                ),
            );
        },
    };
    let message = trim(message);
    if message.is_empty() {
        return Err(pragma_fail("annotated tag message cannot be empty"));
    }
    match parse_one_or_two(
        spec,
        "annotated tag argument must be in the form: `--annotated name [rev] -- message`",
    ) {
        Ok((name, target)) => Ok((name, target, Some(message.to_owned()))),
        Err(e) => Err(e),
    }
}

pub fn parse_tag_create_arg(arg: &str) -> (r: Result<TagArg, PragmaErr>)
    ensures
        match r {
            Ok((name, target, message)) => tag_create_arg(arg@) == Ok::<_, PragmaErr<Seq<char>>>(
                (name@, text_option(target), text_option(message)),
            ),
            Err(e) => tag_create_arg(arg@) == Err::<
                (Seq<char>, Option<Seq<char>>, Option<Seq<char>>),
                _,
            >(e@),
        },
{
    let a = trim(arg);
    if let Some(rest) = strip_prefix(a, "--annotated ") {
        parse_annotated_tag(rest)
    } else if let Some(rest) = strip_prefix(a, "-a ") {
        parse_annotated_tag(rest)
    } else {
        match parse_one_or_two(a, "argument must be in the form: `name [rev]`") {
            Ok((name, target)) => Ok((name, target, None)),
            Err(e) => Err(e),
        }
    }
}

/// The mode and the revision of a reset command.
pub open spec fn reset_arg(arg: Seq<char>) -> Result<
    (ResetMode, Seq<char>),
    PragmaErr<Seq<char>>,
> {
    let w = words(arg);
    if w.len() == 1 {
        Ok((ResetMode::Mixed, w[0]))
    } else if w.len() == 2 && w[0] == "--soft"@ {
        Ok((ResetMode::Soft, w[1]))
    } else if w.len() == 2 && w[0] == "--mixed"@ {
        Ok((ResetMode::Mixed, w[1]))
    } else if w.len() == 2 && w[0] == "--hard"@ {
        Ok((ResetMode::Hard, w[1]))
    } else {
        refused("argument must be in the form: `[--soft|--mixed|--hard] rev`"@)
    }
}

pub fn parse_repo_reset_arg(arg: &str) -> (r: Result<(ResetMode, String), PragmaErr>)
    ensures
        match r {
            Ok((mode, rev)) => reset_arg(arg@) == Ok::<_, PragmaErr<Seq<char>>>((mode, rev@)),
            Err(e) => reset_arg(arg@) == Err::<(ResetMode, Seq<char>), _>(e@),
        },
{
    let w = split_whitespace(arg);
    if w.len() == 1 {
        Ok((ResetMode::Mixed, w[0].clone()))
    } else if w.len() == 2 && same(w[0].as_str(), "--soft") {
        Ok((ResetMode::Soft, w[1].clone()))
    } else if w.len() == 2 && same(w[0].as_str(), "--mixed") {
        Ok((ResetMode::Mixed, w[1].clone()))
    } else if w.len() == 2 && same(w[0].as_str(), "--hard") {
        Ok((ResetMode::Hard, w[1].clone()))
    } else {
        Err(pragma_fail("argument must be in the form: `[--soft|--mixed|--hard] rev`"))
    }
}

/// The two positions, as they are written, and the mode of `from_lsn,to_lsn[,mode]`.
pub open spec fn volume_diff_arg(arg: Seq<char>) -> Result<
    (Seq<char>, Seq<char>, DiffMode),
    PragmaErr<Seq<char>>,
> {
    let p = parts(arg, ',');
    if p.len() < 2 || p.len() > 3 {
        refused("argument must be in the form: `from_lsn,to_lsn[,mode]`"@)
    } else if p.len() == 3 && p[2] != "rows"@ {
        refused("mode must be 'rows' or omitted"@)
    } else {
        Ok(
            (
                p[0],
                p[1],
                if p.len() == 3 {
                    DiffMode::Rows
                } else {
                    DiffMode::Default
                },
            ),
        )
    }
}

/// The positions are handed on as they are written: the storage engine reads them.
pub fn parse_volume_diff_arg(arg: &str) -> (r: Result<(String, String, DiffMode), PragmaErr>)
    ensures
        match r {
            Ok((from, to, mode)) => volume_diff_arg(arg@) == Ok::<_, PragmaErr<Seq<char>>>(
                (from@, to@, mode),
            ),
            Err(e) => volume_diff_arg(arg@) == Err::<(Seq<char>, Seq<char>, DiffMode), _>(e@),
        },
{
    let p = split(arg, ',');
    let n: usize = p.len();
    if n < 2 || n > 3 {
        return Err(pragma_fail("argument must be in the form: `from_lsn,to_lsn[,mode]`"));
    }
    let mut mode = DiffMode::Default;
    if n == 3 {
        if !same(p[2].as_str(), "rows") {
            return Err(pragma_fail("mode must be 'rows' or omitted"));
        }
        mode = DiffMode::Rows;
    }
    Ok((p[0].clone(), p[1].clone(), mode))
}

pub open spec fn debug_diff_arg(arg: Seq<char>) -> Result<
    (Seq<char>, Seq<char>),
    PragmaErr<Seq<char>>,
> {
    let w = words(arg);
    if w.len() == 2 {
        Ok((w[0], w[1]))
    } else {
        refused("argument must be in the form: `from_log:from_lsn to_log:to_lsn`"@)
    }
}

/// The log references are handed on as they are written: the storage engine reads them.
pub fn parse_debug_diff_lsn_arg(arg: &str) -> (r: Result<(String, String), PragmaErr>)
    ensures
        seen(r) == debug_diff_arg(arg@),
{
    let w = split_whitespace(arg);
    if w.len() == 2 {
        Ok((w[0].clone(), w[1].clone()))
    } else {
        Err(pragma_fail("argument must be in the form: `from_log:from_lsn to_log:to_lsn`"))
    }
}

} // verus!
