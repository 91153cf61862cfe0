//! Remote URIs and the arguments of remote commands.
use vstd::prelude::*;

use crate::error::{pragma_fail, refused, seen, str_option, text_option, PragmaErr};
use crate::spec::{RemoteBranchArg, RemoteConfig, RepoCloneSpec, RepoInitSpec};
use crate::text::{
    cat2, cat3, cat4, contains, cut, cut_white, find_from, has_prefix, lacks, lemma_cut_absent,
    lemma_cut_char, lemma_cut_found, lemma_has_prefix, lemma_parts_lack, lemma_parts_single,
    parts, same, split, split_once, split_once_white, split_whitespace, starts_with,
    strip_prefix, texts, trim, trimmed, words,
};
use crate::words::{pragma_words, split_pragma_words, unterminated, Host};

verus! {

/// The key and the value of a query part; a part without `=` has an empty value.
pub open spec fn query_pair(part: Seq<char>) -> (Seq<char>, Seq<char>) {
    match cut(part, "="@) {
        Some(pair) => pair,
        None => (part, ""@),
    }
}

/// What is said about the one parameter that a query may hold.
pub struct QueryWords<S = &'static str> {
    pub key: S,
    pub empty: S,
    pub twice: S,
    pub unknown: S,
}

impl View for QueryWords<&'static str> {
    type V = QueryWords<Seq<char>>;

    open spec fn view(&self) -> QueryWords<Seq<char>> {
        QueryWords {
            key: self.key@,
            empty: self.empty@,
            twice: self.twice@,
            unknown: self.unknown@,
        }
    }
}

/// The value of the one parameter in the query parts from `i` on, `found` being the value before.
pub open spec fn query_from(
    ps: Seq<Seq<char>>,
    i: int,
    w: QueryWords<Seq<char>>,
    found: Option<Seq<char>>,
) -> Result<Option<Seq<char>>, PragmaErr<Seq<char>>>
    decreases ps.len() - i,
{
    if i >= ps.len() {
        Ok(found)
    } else if ps[i].len() == 0 {
        query_from(ps, i + 1, w, found)
    } else {
        let (key, value) = query_pair(ps[i]);
        if key != w.key {
            refused(w.unknown + key + "`"@)
        } else if value.len() == 0 {
            refused(w.empty)
        } else if found is Some {
            refused(w.twice)
        } else {
            query_from(ps, i + 1, w, Some(value))
        }
    }
}

/// The path and the query of a URI.
pub open spec fn path_and_query(uri: Seq<char>) -> (Seq<char>, Seq<char>) {
    match cut(uri, "?"@) {
        Some(pair) => pair,
        None => (uri, ""@),
    }
}

pub open spec fn query_value(query: Seq<char>, w: QueryWords<Seq<char>>) -> Result<
    Option<Seq<char>>,
    PragmaErr<Seq<char>>,
> {
    if query.len() == 0 {
        Ok(None)
    } else {
        query_from(parts(query, '&'), 0, w, None)
    }
}

pub open spec fn s3_words() -> QueryWords<Seq<char>> {
    QueryWords {
        key: "endpoint"@,
        empty: "S3 remote endpoint must not be empty"@,
        twice: "S3 remote endpoint specified more than once"@,
        unknown: "unsupported S3 remote URI query parameter `"@,
    }
}

pub open spec fn http_words() -> QueryWords<Seq<char>> {
    QueryWords {
        key: "token_env"@,
        empty: "Graft HTTP remote token_env must not be empty"@,
        twice: "Graft HTTP remote token_env specified more than once"@,
        unknown: "unsupported Graft HTTP remote URI query parameter `"@,
    }
}

pub open spec fn s3_remote(rest: Seq<char>) -> Result<
    RemoteConfig<Seq<char>>,
    PragmaErr<Seq<char>>,
> {
    let (path, query) = path_and_query(rest);
    match query_value(query, s3_words()) {
        Err(e) => Err(e),
        Ok(endpoint) => {
            let (bucket, prefix) = match cut(path, "/"@) {
                Some((bucket, prefix)) => (
                    bucket,
                    if prefix.len() == 0 {
                        None
                    } else {
                        Some(prefix)
                    },
                ),
                None => (path, None),
            };
            if bucket.len() == 0 {
                refused("S3 remote URI must include a bucket"@)
            } else {
                Ok(RemoteConfig::S3Compatible { bucket, prefix, endpoint })
            }
        },
    }
}

pub open spec fn http_remote(scheme: Seq<char>, rest: Seq<char>) -> Result<
    RemoteConfig<Seq<char>>,
    PragmaErr<Seq<char>>,
> {
    let (path, query) = path_and_query(rest);
    if path.len() == 0 {
        refused("Graft HTTP remote URI must include a host and path"@)
    } else {
        match query_value(query, http_words()) {
            Err(e) => Err(e),
            Ok(token_env) => Ok(RemoteConfig::Http { url: scheme + path, token_env }),
        }
    }
}

pub open spec fn after_prefix(s: Seq<char>, p: Seq<char>) -> Seq<char> {
    s.skip(p.len() as int)
}

/// The remote that a URI names.
pub open spec fn remote_of_uri(uri: Seq<char>) -> Result<
    RemoteConfig<Seq<char>>,
    PragmaErr<Seq<char>>,
> {
    if uri.len() == 0 {
        refused("remote URI must not be empty"@)
    } else if uri == "memory"@ {
        Ok(RemoteConfig::Memory)
    } else if has_prefix(uri, "fs://"@) {
        Ok(RemoteConfig::Fs { root: after_prefix(uri, "fs://"@) })
    } else if has_prefix(uri, "s3://"@) {
        s3_remote(after_prefix(uri, "s3://"@))
    } else if has_prefix(uri, "s3_compatible://"@) {
        s3_remote(after_prefix(uri, "s3_compatible://"@))
    } else if has_prefix(uri, "graft+https://"@) {
        http_remote("https://"@, after_prefix(uri, "graft+https://"@))
    } else if has_prefix(uri, "graft+http://"@) {
        http_remote("http://"@, after_prefix(uri, "graft+http://"@))
    } else {
        refused(
            "remote URI must start with memory, fs://, s3://, s3_compatible://, graft+https://, or graft+http://"@,
        )
    }
}

/// The URI of a remote.
pub open spec fn uri_of(config: RemoteConfig<Seq<char>>) -> Seq<char> {
    match config {
        RemoteConfig::Memory => "memory"@,
        RemoteConfig::Fs { root } => "fs://"@ + root,
        RemoteConfig::S3Compatible { bucket, prefix, endpoint } => {
            let path = match prefix {
                Some(prefix) => "s3://"@ + bucket + "/"@ + prefix,
                None => "s3://"@ + bucket,
            };
            match endpoint {
                Some(endpoint) => path + "?endpoint="@ + endpoint,
                None => path,
            }
        },
        RemoteConfig::Http { url, token_env } => {
            let path = if has_prefix(url, "https://"@) {
                "graft+https://"@ + after_prefix(url, "https://"@)
            } else if has_prefix(url, "http://"@) {
                "graft+http://"@ + after_prefix(url, "http://"@)
            } else {
                url
            };
            match token_env {
                Some(token_env) => path + "?token_env="@ + token_env,
                None => path,
            }
        },
    }
}

fn query_parameter(query: &str, w: &QueryWords) -> (r: Result<Option<String>, PragmaErr>)
    ensures
        match r {
            Ok(v) => query_value(query@, w@) == Ok::<_, PragmaErr<Seq<char>>>(text_option(v)),
            Err(e) => query_value(query@, w@) == Err::<Option<Seq<char>>, _>(e@),
        },
{
    if query.is_empty() {
        return Ok(None);
    }
    let ps = split(query, '&');
    let mut found: Option<String> = None;
    let mut i: usize = 0;
    while i < ps.len()
        invariant
            i <= ps@.len(),
            texts(ps@) == parts(query@, '&'),
            query@.len() > 0,
            query_value(query@, w@) == query_from(texts(ps@), i as int, w@, text_option(found)),
        decreases ps@.len() - i,
    {
        let part = ps[i].as_str();
        proof {
            assert(texts(ps@)[i as int] == part@);
        }
        if !part.is_empty() {
            let (key, value) = match split_once(part, "=") {
                Some(pair) => pair,
                None => (part, ""),
            };
            if !same(key, w.key) {
                return Err(pragma_fail(cat3(w.unknown, key, "`").as_str()));
            }
            if value.is_empty() {
                return Err(pragma_fail(w.empty));
            }
            if found.is_some() {
                return Err(pragma_fail(w.twice));
            }
            found = Some(value.to_owned());
        }
        i += 1;
    }
    Ok(found)
}

fn split_query(uri: &str) -> (r: (&str, &str))
    ensures
        path_and_query(uri@) == (r.0@, r.1@),
{
    match split_once(uri, "?") {
        Some(pair) => pair,
        None => (uri, ""),
    }
}

/// The path and the endpoint of an S3 URI without its scheme.
pub fn parse_s3_remote_uri_query(uri: &str) -> (r: Result<(&str, Option<String>), PragmaErr>)
    ensures
        match r {
            Ok((path, endpoint)) => path@ == path_and_query(uri@).0 && query_value(
                path_and_query(uri@).1,
                s3_words(),
            ) == Ok::<_, PragmaErr<Seq<char>>>(text_option(endpoint)),
            Err(e) => query_value(path_and_query(uri@).1, s3_words()) == Err::<
                Option<Seq<char>>,
                _,
            >(e@),
        },
{
    let (path, query) = split_query(uri);
    let w = QueryWords {
        key: "endpoint",
        empty: "S3 remote endpoint must not be empty",
        twice: "S3 remote endpoint specified more than once",
        unknown: "unsupported S3 remote URI query parameter `",
    };
    match query_parameter(query, &w) {
        Ok(endpoint) => Ok((path, endpoint)),
        Err(e) => Err(e),
    }
}

/// The path and the token variable of an HTTP URI without its scheme.
pub fn parse_http_remote_uri_query(uri: &str) -> (r: Result<(&str, Option<String>), PragmaErr>)
    ensures
        ({
            let (p, q) = path_and_query(uri@);
            match r {
                Ok((path, token_env)) => p.len() > 0 && path@ == p && query_value(q, http_words())
                    == Ok::<_, PragmaErr<Seq<char>>>(text_option(token_env)),
                Err(e) => if p.len() == 0 {
                    e@ == PragmaErr::Fail(
                        Some("Graft HTTP remote URI must include a host and path"@),
                    )
                } else {
                    query_value(q, http_words()) == Err::<Option<Seq<char>>, _>(e@)
                },
            }
        }),
{
    let (path, query) = split_query(uri);
    if path.is_empty() {
        return Err(pragma_fail("Graft HTTP remote URI must include a host and path"));
    }
    let w = QueryWords {
        key: "token_env",
        empty: "Graft HTTP remote token_env must not be empty",
        twice: "Graft HTTP remote token_env specified more than once",
        unknown: "unsupported Graft HTTP remote URI query parameter `",
    };
    match query_parameter(query, &w) {
        Ok(token_env) => Ok((path, token_env)),
        Err(e) => Err(e),
    }
}

fn parse_s3_remote(rest: &str) -> (r: Result<RemoteConfig, PragmaErr>)
    ensures
        seen(r) == s3_remote(rest@),
{
    let (path, endpoint) = match parse_s3_remote_uri_query(rest) {
        Ok(pair) => pair,
        Err(e) => return Err(e),
    };
    let (bucket, prefix) = match split_once(path, "/") {
        Some((bucket, prefix)) => (
            bucket,
            if prefix.is_empty() {
                None
            } else {
                Some(prefix.to_owned())
            },
        ),
        None => (path, None),
    };
    if bucket.is_empty() {
        return Err(pragma_fail("S3 remote URI must include a bucket"));
    }
    Ok(RemoteConfig::S3Compatible { bucket: bucket.to_owned(), prefix, endpoint })
}

fn parse_http_remote(scheme: &str, rest: &str) -> (r: Result<RemoteConfig, PragmaErr>)
    ensures
        seen(r) == http_remote(scheme@, rest@),
{
    match parse_http_remote_uri_query(rest) {
        Ok((path, token_env)) => Ok(RemoteConfig::Http { url: cat2(scheme, path), token_env }),
        Err(e) => Err(e),
    }
}

/// The remote that a URI names.
pub fn parse_remote_config_uri(uri: &str) -> (r: Result<RemoteConfig, PragmaErr>)
    ensures
        seen(r) == remote_of_uri(uri@),
{
    if uri.is_empty() {
        return Err(pragma_fail("remote URI must not be empty"));
    }
    if same(uri, "memory") {
        Ok(RemoteConfig::Memory)
    } else if let Some(root) = strip_prefix(uri, "fs://") {
        Ok(RemoteConfig::Fs { root: root.to_owned() })
    } else if let Some(rest) = strip_prefix(uri, "s3://") {
        parse_s3_remote(rest)
    } else if let Some(rest) = strip_prefix(uri, "s3_compatible://") {
        parse_s3_remote(rest)
    } else if let Some(rest) = strip_prefix(uri, "graft+https://") {
        parse_http_remote("https://", rest)
    } else if let Some(rest) = strip_prefix(uri, "graft+http://") {
        parse_http_remote("http://", rest)
    } else {
        Err(
            pragma_fail(
                "remote URI must start with memory, fs://, s3://, s3_compatible://, graft+https://, or graft+http://",
            ),
        )
    }
}

/// The URI of a remote.
pub fn remote_config_uri(config: &RemoteConfig) -> (r: String)
    ensures
        r@ == uri_of(config@),
{
    match config {
        RemoteConfig::Memory => "memory".to_owned(),
        RemoteConfig::Fs { root } => cat2("fs://", root.as_str()),
        RemoteConfig::S3Compatible { bucket, prefix, endpoint } => {
            let path = match prefix {
                Some(prefix) => cat4("s3://", bucket.as_str(), "/", prefix.as_str()),
                None => cat2("s3://", bucket.as_str()),
            };
            match endpoint {
                Some(endpoint) => cat3(path.as_str(), "?endpoint=", endpoint.as_str()),
                None => path,
            }
        },
        RemoteConfig::Http { url, token_env } => {
            let path = if let Some(rest) = strip_prefix(url.as_str(), "https://") {
                cat2("graft+https://", rest)
            } else if let Some(rest) = strip_prefix(url.as_str(), "http://") {
                cat2("graft+http://", rest)
            } else {
                url.clone()
            };
            match token_env {
                Some(token_env) => cat3(path.as_str(), "?token_env=", token_env.as_str()),
                None => path,
            }
        },
    }
}

/// The name and the remote of `name remote-uri`.
pub open spec fn remote_add_arg(arg: Seq<char>) -> Result<
    (Seq<char>, RemoteConfig<Seq<char>>),
    PragmaErr<Seq<char>>,
> {
    match cut_white(arg) {
        None => refused("argument must be in the form: `name remote-uri`"@),
        Some((name, uri)) => match remote_of_uri(trimmed(uri)) {
            Ok(config) => Ok((trimmed(name), config)),
            Err(e) => Err(e),
        },
    }
}

pub fn parse_remote_add(arg: &str) -> (r: Result<(String, RemoteConfig), PragmaErr>)
    ensures
        seen(r) == remote_add_arg(arg@),
{
    match split_once_white(arg) {
        None => Err(pragma_fail("argument must be in the form: `name remote-uri`")),
        Some((name, uri)) => match parse_remote_config_uri(trim(uri)) {
            Ok(config) => Ok((trim(name).to_owned(), config)),
            Err(e) => Err(e),
        },
    }
}

pub open spec fn remote_rename_arg(arg: Seq<char>) -> Result<
    (Seq<char>, Seq<char>),
    PragmaErr<Seq<char>>,
> {
    let w = words(arg);
    if w.len() == 2 {
        Ok((w[0], w[1]))
    } else {
        refused("argument must be in the form: `old new`"@)
    }
}

pub fn parse_remote_rename(arg: &str) -> (r: Result<(String, String), PragmaErr>)
    ensures
        seen(r) == remote_rename_arg(arg@),
{
    let w = split_whitespace(arg);
    if w.len() == 2 {
        Ok((w[0].clone(), w[1].clone()))
    } else {
        Err(pragma_fail("argument must be in the form: `old new`"))
    }
}

pub open spec fn is_branch_flag(w: Seq<char>) -> bool {
    w == "--branch"@ || w == "-b"@
}

/// The worktree, the URI and the branch that the words of a clone command name.
pub open spec fn clone_words(w: Seq<Seq<char>>) -> Option<
    (Option<Seq<char>>, Seq<char>, Option<Seq<char>>),
> {
    if w.len() == 1 {
        Some((None, w[0], None))
    } else if w.len() == 2 {
        Some((None, w[0], Some(w[1])))
    } else if w.len() == 3 && is_branch_flag(w[0]) {
        Some((None, w[2], Some(w[1])))
    } else if w.len() == 3 && w[0] == "--worktree"@ {
        Some((Some(w[1]), w[2], None))
    } else if w.len() == 4 && w[0] == "--worktree"@ {
        Some((Some(w[1]), w[2], Some(w[3])))
    } else if w.len() == 5 && w[0] == "--worktree"@ && is_branch_flag(w[2]) {
        Some((Some(w[1]), w[4], Some(w[3])))
    } else if w.len() == 5 && is_branch_flag(w[0]) && w[2] == "--worktree"@ {
        Some((Some(w[3]), w[4], Some(w[1])))
    } else {
        None
    }
}

pub open spec fn clone_arg(arg: Seq<char>) -> Result<
    RepoCloneSpec<Seq<char>>,
    PragmaErr<Seq<char>>,
> {
    match clone_words(words(arg)) {
        None => refused(
            "argument must be in the form: `[--worktree path] remote-uri [branch]` or `[--worktree path] --branch branch remote-uri`"@,
        ),
        Some((worktree, uri, branch)) => match remote_of_uri(uri) {
            Ok(config) => Ok(RepoCloneSpec { config, branch, worktree }),
            Err(e) => Err(e),
        },
    }
}

fn is_branch_word(w: &String) -> (r: bool)
    ensures
        r == is_branch_flag(w@),
{
    same(w.as_str(), "--branch") || same(w.as_str(), "-b")
}

pub fn parse_repo_clone_arg(arg: &str) -> (r: Result<RepoCloneSpec, PragmaErr>)
    ensures
        seen(r) == clone_arg(arg@),
{
    let w = split_whitespace(arg);
    let n: usize = w.len();
    proof {
        assert forall|i: int| 0 <= i < n implies #[trigger] w@[i]@ == words(arg@)[i] by {
            assert(texts(w@)[i] == w@[i]@);
        }
    }
    let (worktree, uri, branch): (Option<String>, String, Option<String>) = if n == 1 {
        (None, w[0].clone(), None)
    } else if n == 2 {
        (None, w[0].clone(), Some(w[1].clone()))
    } else if n == 3 && is_branch_word(&w[0]) {
        (None, w[2].clone(), Some(w[1].clone()))
    } else if n == 3 && same(w[0].as_str(), "--worktree") {
        (Some(w[1].clone()), w[2].clone(), None)
    } else if n == 4 && same(w[0].as_str(), "--worktree") {
        (Some(w[1].clone()), w[2].clone(), Some(w[3].clone()))
    } else if n == 5 && same(w[0].as_str(), "--worktree") && is_branch_word(&w[2]) {
        (Some(w[1].clone()), w[4].clone(), Some(w[3].clone()))
    } else if n == 5 && is_branch_word(&w[0]) && same(w[2].as_str(), "--worktree") {
        (Some(w[3].clone()), w[4].clone(), Some(w[1].clone()))
    } else {
        return Err(
            pragma_fail(
                "argument must be in the form: `[--worktree path] remote-uri [branch]` or `[--worktree path] --branch branch remote-uri`",
            ),
        );
    };
    match parse_remote_config_uri(uri.as_str()) {
        Ok(config) => Ok(RepoCloneSpec { config, branch, worktree }),
        Err(e) => Err(e),
    }
}

pub open spec fn init_arg(arg: Option<Seq<char>>, host: Host) -> Result<
    RepoInitSpec<Seq<char>>,
    PragmaErr<Seq<char>>,
> {
    match arg {
        None => Ok(RepoInitSpec { worktree: None }),
        Some(a) => if trimmed(a).len() == 0 {
            Ok(RepoInitSpec { worktree: None })
        } else {
            match pragma_words(trimmed(a), host) {
                None => refused(unterminated()),
                Some(w) => if w.len() == 1 {
                    Ok(RepoInitSpec { worktree: Some(w[0]) })
                } else if w.len() == 2 && w[0] == "--worktree"@ {
                    Ok(RepoInitSpec { worktree: Some(w[1]) })
                } else {
                    refused("argument must be empty or in the form: `[--worktree] path`"@)
                },
            }
        },
    }
}

pub fn parse_repo_init_arg(arg: Option<&str>, host: Host) -> (r: Result<RepoInitSpec, PragmaErr>)
    ensures
        seen(r) == init_arg(str_option(arg), host),
{
    let arg = match arg {
        None => return Ok(RepoInitSpec { worktree: None }),
        Some(arg) => trim(arg),
    };
    if arg.is_empty() {
        return Ok(RepoInitSpec { worktree: None });
    }
    let w = match split_pragma_words(arg, host) {
        Ok(w) => w,
        Err(e) => return Err(e),
    };
    if w.len() == 1 {
        Ok(RepoInitSpec { worktree: Some(w[0].clone()) })
    } else if w.len() == 2 && same(w[0].as_str(), "--worktree") {
        Ok(RepoInitSpec { worktree: Some(w[1].clone()) })
    } else {
        Err(pragma_fail("argument must be empty or in the form: `[--worktree] path`"))
    }
}

/// A name that can only be a refspec.
pub open spec fn refspec_like(value: Seq<char>) -> bool {
    let v = if has_prefix(value, "+"@) {
        after_prefix(value, "+"@)
    } else {
        value
    };
    find_from(v, ":"@, 0) is Some || find_from(v, "*"@, 0) is Some || has_prefix(v, "refs/"@)
}

pub fn looks_like_refspec(value: &str) -> (r: bool)
    ensures
        r == refspec_like(value@),
{
    let v = match strip_prefix(value, "+") {
        Some(rest) => rest,
        None => value,
    };
    contains(v, ":") || contains(v, "*") || starts_with(v, "refs/")
}

pub open spec fn is_all_flag(w: Seq<char>) -> bool {
    w == "--all"@
}

pub open spec fn is_force_flag(w: Seq<char>) -> bool {
    w == "--force"@ || w == "-f"@
}

/// The words that are neither `--all` nor a force flag.
pub open spec fn positional(w: Seq<Seq<char>>) -> Seq<Seq<char>> {
    w.filter(|x: Seq<char>| !is_all_flag(x) && !is_force_flag(x))
}

pub open spec fn any_all(w: Seq<Seq<char>>) -> bool {
    exists|i: int| 0 <= i < w.len() && is_all_flag(#[trigger] w[i])
}

pub open spec fn any_force(w: Seq<Seq<char>>) -> bool {
    exists|i: int| 0 <= i < w.len() && is_force_flag(#[trigger] w[i])
}

/// The remote, branch and refspec that the words of a remote command name.
pub open spec fn remote_branch_arg(arg: Option<Seq<char>>) -> Result<
    RemoteBranchArg<Seq<char>>,
    PragmaErr<Seq<char>>,
> {
    let form =
        "argument must be in the form: `[--force] [remote] [branch]` or `[--force] --all [remote]`"@;
    match arg {
        None => Ok(
            RemoteBranchArg {
                remote: None,
                branch: None,
                refspec: None,
                all: false,
                force: false,
            },
        ),
        Some(a) => {
            let all = any_all(words(a));
            let force = any_force(words(a));
            let p = positional(words(a));
            let none = RemoteBranchArg { remote: None, branch: None, refspec: None, all, force };
            if p.len() == 0 {
                Ok(none)
            } else if p.len() == 1 && !all && refspec_like(p[0]) {
                Ok(RemoteBranchArg { refspec: Some(p[0]), ..none })
            } else if p.len() == 1 {
                Ok(RemoteBranchArg { remote: Some(p[0]), ..none })
            } else if p.len() == 2 && !all && refspec_like(p[1]) {
                Ok(RemoteBranchArg { remote: Some(p[0]), refspec: Some(p[1]), ..none })
            } else if p.len() == 2 && !all {
                Ok(RemoteBranchArg { remote: Some(p[0]), branch: Some(p[1]), ..none })
            } else {
                refused(form)
            }
        },
    }
}

pub fn parse_remote_branch_arg(arg: Option<&str>) -> (r: Result<RemoteBranchArg, PragmaErr>)
    ensures
        seen(r) == remote_branch_arg(str_option(arg)),
{
    let arg = match arg {
        None => {
            return Ok(
                RemoteBranchArg {
                    remote: None,
                    branch: None,
                    refspec: None,
                    all: false,
                    force: false,
                },
            );
        },
        Some(arg) => arg,
    };
    let w = split_whitespace(arg);
    let mut all: bool = false;
    let mut force: bool = false;
    let mut p: Vec<String> = Vec::new();
    let mut i: usize = 0;
    let ghost ws = words(arg@);
    let ghost keep = |x: Seq<char>| !is_all_flag(x) && !is_force_flag(x);
    proof {
        assert(ws.take(0) =~= Seq::empty());
        assert(texts(p@) =~= Seq::<Seq<char>>::empty().filter(keep)) by {
            reveal(Seq::filter);
        }
    }
    while i < w.len()
        invariant
            i <= w@.len(),
            texts(w@) == ws,
            keep == (|x: Seq<char>| !is_all_flag(x) && !is_force_flag(x)),
            all == any_all(ws.take(i as int)),
            force == any_force(ws.take(i as int)),
            texts(p@) == ws.take(i as int).filter(keep),
        decreases w@.len() - i,
    {
        let ghost now = ws.take(i as int);
        let ghost next = ws.take(i + 1);
        proof {
            assert(ws[i as int] == w@[i as int]@);
            assert(next.drop_last() =~= now);
            assert(next.last() == w@[i as int]@);
            reveal(Seq::filter);
            assert(forall|j: int| 0 <= j < i ==> now[j] == next[j]);
            assert(any_all(next) == (any_all(now) || is_all_flag(next.last()))) by {
                if any_all(now) {
                    let j = choose|j: int| 0 <= j < now.len() && is_all_flag(#[trigger] now[j]);
                    assert(is_all_flag(next[j]));
                }
            }
            assert(any_force(next) == (any_force(now) || is_force_flag(next.last()))) by {
                if any_force(now) {
                    let j = choose|j: int| 0 <= j < now.len() && is_force_flag(#[trigger] now[j]);
                    assert(is_force_flag(next[j]));
                }
            }
        }
        let part = w[i].as_str();
        if same(part, "--all") {
            all = true;
            proof {
                reveal_strlit("--all");
                reveal_strlit("--force");
                reveal_strlit("-f");
                assert(part@.len() == 5);
            }
        } else if same(part, "--force") || same(part, "-f") {
            force = true;
        } else {
            let word = w[i].clone();
            proof {
                crate::text::lemma_texts_push(p@, word);
            }
            p.push(word);
        }
        i += 1;
    }
    proof {
        assert(ws.take(i as int) =~= ws);
        assert forall|j: int| 0 <= j < p@.len() implies #[trigger] p@[j]@ == positional(ws)[j] by {
            assert(texts(p@)[j] == p@[j]@);
        }
    }
    if p.len() == 0 {
        Ok(RemoteBranchArg { remote: None, branch: None, refspec: None, all, force })
    } else if p.len() == 1 && !all && looks_like_refspec(p[0].as_str()) {
        Ok(
            RemoteBranchArg {
                remote: None,
                branch: None,
                refspec: Some(p[0].clone()),
                all,
                force,
            },
        )
    } else if p.len() == 1 {
        Ok(
            RemoteBranchArg {
                remote: Some(p[0].clone()),
                branch: None,
                refspec: None,
                all,
                force,
            },
        )
    } else if p.len() == 2 && !all && looks_like_refspec(p[1].as_str()) {
        Ok(
            RemoteBranchArg {
                remote: Some(p[0].clone()),
                branch: None,
                refspec: Some(p[1].clone()),
                all,
                force,
            },
        )
    } else if p.len() == 2 && !all {
        Ok(
            RemoteBranchArg {
                remote: Some(p[0].clone()),
                branch: Some(p[1].clone()),
                refspec: None,
                all,
                force,
            },
        )
    } else {
        Err(
            pragma_fail(
                "argument must be in the form: `[--force] [remote] [branch]` or `[--force] --all [remote]`",
            ),
        )
    }
}

/// A value that a query gives is not empty and holds no `&`.
proof fn lemma_query_value(
    ps: Seq<Seq<char>>,
    i: int,
    w: QueryWords<Seq<char>>,
    found: Option<Seq<char>>,
)
    requires
        0 <= i,
        forall|k: int| 0 <= k < ps.len() ==> lacks(#[trigger] ps[k], '&'),
        found matches Some(v) ==> v.len() > 0 && lacks(v, '&'),
    ensures
        query_from(ps, i, w, found) matches Ok(Some(v)) ==> v.len() > 0 && lacks(v, '&'),
    decreases ps.len() - i,
{
    if i < ps.len() {
        if ps[i].len() == 0 {
            lemma_query_value(ps, i + 1, w, found);
        } else {
            let (key, value) = query_pair(ps[i]);
            reveal_strlit("=");
            assert("="@ =~= seq!['=']);
            lemma_cut_char(ps[i], '=');
            if cut(ps[i], "="@) is Some {
                assert forall|k: int| 0 <= k < value.len() implies #[trigger] value[k] != '&' by {
                    assert(ps[i][key.len() + 1 + k] == value[k]);
                }
            } else {
                reveal_strlit("");
            }
            if key == w.key && value.len() > 0 && found is None {
                lemma_query_value(ps, i + 1, w, Some(value));
            }
        }
    }
}

/// A query that was printed gives its value back.
proof fn lemma_query_printed(w: QueryWords<Seq<char>>, v: Seq<char>)
    requires
        lacks(w.key, '&'),
        lacks(w.key, '='),
        v.len() > 0,
        lacks(v, '&'),
    ensures
        query_value(w.key + seq!['='] + v, w) == Ok::<_, PragmaErr<Seq<char>>>(Some(v)),
{
    let q = w.key + seq!['='] + v;
    reveal_strlit("=");
    assert("="@ =~= seq!['=']);
    lemma_parts_single(q, '&', Seq::empty());
    assert(Seq::<char>::empty() + q =~= q);
    lemma_cut_found(w.key, '=', v);
    let ps = parts(q, '&');
    assert(ps[0] == q);
    reveal_with_fuel(query_from, 2);
}

/// A path without `?` and a printed query read back.
proof fn lemma_printed_query(path: Seq<char>, q: Seq<char>)
    requires
        lacks(path, '?'),
    ensures
        path_and_query(path) == (path, ""@),
        path_and_query(path + seq!['?'] + q) == (path, q),
{
    reveal_strlit("?");
    assert("?"@ =~= seq!['?']);
    lemma_cut_absent(path, '?');
    lemma_cut_found(path, '?', q);
}

proof fn lemma_query_of(q: Seq<char>, w: QueryWords<Seq<char>>)
    ensures
        query_value(q, w) matches Ok(Some(v)) ==> v.len() > 0 && lacks(v, '&'),
{
    if q.len() > 0 {
        lemma_parts_lack(q, '&', Seq::empty());
        lemma_query_value(parts(q, '&'), 0, w, None);
    }
}

proof fn lemma_s3_round_trip(rest: Seq<char>)
    ensures
        s3_remote(rest) matches Ok(c) ==> remote_of_uri(uri_of(c)) == Ok::<
            _,
            PragmaErr<Seq<char>>,
        >(c),
{
    if let Ok(RemoteConfig::S3Compatible { bucket, prefix, endpoint }) = s3_remote(rest) {
        let c = RemoteConfig::S3Compatible { bucket, prefix, endpoint };
        let (path, query) = path_and_query(rest);
        reveal_strlit("?");
        reveal_strlit("/");
        reveal_strlit("s3://");
        reveal_strlit("fs://");
        reveal_strlit("memory");
        reveal_strlit("?endpoint=");
        reveal_strlit("endpoint");
        reveal_strlit("");
        assert("?"@ =~= seq!['?']);
        assert("/"@ =~= seq!['/']);
        lemma_cut_char(rest, '?');
        lemma_cut_char(path, '/');
        lemma_query_of(query, s3_words());
        let shown = match prefix {
            Some(prefix) => bucket + seq!['/'] + prefix,
            None => bucket,
        };
        assert(lacks(shown, '?')) by {
            match cut(path, "/"@) {
                Some((b, p)) => {
                    assert(path =~= b + seq!['/'] + p);
                    assert forall|i: int| 0 <= i < shown.len() implies #[trigger] shown[i]
                        != '?' by {
                        assert(shown[i] == path[i]);
                    }
                },
                None => {},
            }
        }
        assert(lacks(bucket, '/'));
        assert(cut(shown, "/"@) == match prefix {
            Some(prefix) => Some((bucket, prefix)),
            None => None,
        }) by {
            match prefix {
                Some(prefix) => lemma_cut_found(bucket, '/', prefix),
                None => lemma_cut_absent(bucket, '/'),
            }
        }
        match endpoint {
            Some(v) => {
                let q = "endpoint"@ + seq!['='] + v;
                let printed = shown + seq!['?'] + q;
                assert(uri_of(c) =~= "s3://"@ + printed);
                lemma_has_prefix("s3://"@, printed);
                lemma_printed_query(shown, q);
                lemma_query_printed(s3_words(), v);
            },
            None => {
                assert(uri_of(c) =~= "s3://"@ + shown);
                lemma_has_prefix("s3://"@, shown);
                lemma_printed_query(shown, Seq::empty());
            },
        }
        let uri = uri_of(c);
        assert(uri[0] == 's');
        assert("fs://"@[0] == 'f');
        assert("memory"@[0] == 'm');
        assert(uri.take(5)[0] == 's');
        assert(!has_prefix(uri, "fs://"@));
    }
}

proof fn lemma_http_round_trip(secure: bool, rest: Seq<char>)
    ensures
        ({
            let scheme = if secure {
                "https://"@
            } else {
                "http://"@
            };
            http_remote(scheme, rest) matches Ok(c) ==> remote_of_uri(uri_of(c)) == Ok::<
                _,
                PragmaErr<Seq<char>>,
            >(c)
        }),
{
    let scheme = if secure {
        "https://"@
    } else {
        "http://"@
    };
    if let Ok(RemoteConfig::Http { url, token_env }) = http_remote(scheme, rest) {
        let c = RemoteConfig::Http { url, token_env };
        let (path, query) = path_and_query(rest);
        reveal_strlit("?");
        reveal_strlit("https://");
        reveal_strlit("http://");
        reveal_strlit("graft+https://");
        reveal_strlit("graft+http://");
        reveal_strlit("s3://");
        reveal_strlit("s3_compatible://");
        reveal_strlit("fs://");
        reveal_strlit("memory");
        reveal_strlit("?token_env=");
        reveal_strlit("token_env");
        reveal_strlit("");
        assert("?"@ =~= seq!['?']);
        lemma_cut_char(rest, '?');
        lemma_query_of(query, http_words());
        lemma_has_prefix(scheme, path);
        let outer = if secure {
            "graft+https://"@
        } else {
            "graft+http://"@
        };
        if !secure {
            assert(url[4] == ':');
            assert("https://"@[4] == 's');
            assert(url.take(8)[4] == url[4]);
            assert(!has_prefix(url, "https://"@));
        }
        let printed = match token_env {
            Some(v) => {
                let q = "token_env"@ + seq!['='] + v;
                lemma_printed_query(path, q);
                lemma_query_printed(http_words(), v);
                path + seq!['?'] + q
            },
            None => {
                lemma_printed_query(path, Seq::empty());
                path
            },
        };
        let uri = uri_of(c);
        assert(uri =~= outer + printed);
        lemma_has_prefix(outer, printed);
        assert(uri[0] == 'g');
        assert(uri.take(5)[0] == 'g' && uri.take(6)[0] == 'g');
        assert("memory"@[0] == 'm');
        assert(!has_prefix(uri, "fs://"@) && !has_prefix(uri, "s3://"@)) by {
            assert("fs://"@[0] == 'f');
            assert("s3://"@[0] == 's');
        }
        assert(!has_prefix(uri, "s3_compatible://"@)) by {
            assert("s3_compatible://"@[0] == 's');
            if uri.len() >= 16 {
                assert(uri.take(16)[0] == 'g');
            }
        }
        if !secure {
            assert(!has_prefix(uri, "graft+https://"@)) by {
                assert("graft+https://"@[10] == 's');
                if uri.len() >= 14 {
                    assert(uri[10] == outer[10]);
                    assert(uri.take(14)[10] == ':');
                }
            }
        }
    }
}

/// Printing the remote that a URI names and reading it again gives the same remote.
pub proof fn law_remote_uri_round_trip(uri: Seq<char>)
    ensures
        remote_of_uri(uri) matches Ok(c) ==> remote_of_uri(uri_of(c)) == Ok::<
            _,
            PragmaErr<Seq<char>>,
        >(c),
{
    if uri.len() == 0 {
    } else if uri == "memory"@ {
    } else if has_prefix(uri, "fs://"@) {
        let root = after_prefix(uri, "fs://"@);
        assert("fs://"@ + root =~= uri);
    } else if has_prefix(uri, "s3://"@) {
        lemma_s3_round_trip(after_prefix(uri, "s3://"@));
    } else if has_prefix(uri, "s3_compatible://"@) {
        lemma_s3_round_trip(after_prefix(uri, "s3_compatible://"@));
    } else if has_prefix(uri, "graft+https://"@) {
        lemma_http_round_trip(true, after_prefix(uri, "graft+https://"@));
    } else if has_prefix(uri, "graft+http://"@) {
        lemma_http_round_trip(false, after_prefix(uri, "graft+http://"@));
    }
}

} // verus!
