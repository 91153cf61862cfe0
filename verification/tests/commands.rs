use graft_sqlite::command::{GraftCommand, Pragma};
use graft_sqlite::error::{CommandError, PragmaErr};
use graft_sqlite::eval::{
    guard_work_in_progress, repository_use, sync_route, AnswerForm, Operation, Refusal, RepositoryUse, SyncRoute,
};
use graft_sqlite::labels::repo_artifact_state_label;
use graft_sqlite::model::CommitArtifactState;
use graft_sqlite::parse_refs::{parse_debug_diff_lsn_arg, parse_volume_diff_arg};
use graft_sqlite::remote::{parse_remote_config_uri, remote_config_uri};
use graft_sqlite::spec::{
    DiffMode, JsonLogMode, RemoteConfig, RepoAddSpec, RepoCheckoutSpec, RepoDiffSpec, RepoDiffTarget, RepoRestoreSpec,
    RepoTrackedPathKind, ResetMode, ResolveSide, StatusSpec,
};
use graft_sqlite::words::{reject_ambiguous_posix_path_escape, split_pragma_words, Host};

fn parse(name: &str, arg: Option<&str>) -> Result<GraftCommand, PragmaErr> {
    GraftCommand::parse(&Pragma { name, arg }, Host::Posix)
}

fn fails(name: &str, arg: Option<&str>) -> String {
    match parse(name, arg) {
        Err(PragmaErr::Fail(Some(message))) => message,
        other => panic!("{name}: {other:?}"),
    }
}

fn text(s: &str) -> String {
    s.to_string()
}

#[test]
fn names_are_looked_up_behind_their_prefix() {
    assert_eq!(
        parse("graft_status", None),
        Ok(GraftCommand::Status { spec: StatusSpec { kind: None } })
    );
    assert_eq!(
        fails("graft_nothing", None),
        "invalid graft pragma `graft_nothing`"
    );
    assert_eq!(parse("status", None), Err(PragmaErr::NotFound));
    assert_eq!(parse("other_status", None), Err(PragmaErr::NotFound));
    assert_eq!(
        GraftCommand::parse_repository("tags", None, Host::Posix),
        Ok(GraftCommand::Tags)
    );
    assert_eq!(
        GraftCommand::parse_repository("nothing", None, Host::Posix),
        Err(CommandError::InvalidCommand(text(
            "invalid graft pragma `graft_nothing`"
        )))
    );
    assert_eq!(
        GraftCommand::parse_repository("commit", None, Host::Posix),
        Err(CommandError::InvalidCommand(text(
            "command `graft_commit` requires an argument"
        )))
    );
}

#[test]
fn diffs_name_what_they_compare() {
    let spec = |target| RepoDiffSpec {
        mode: DiffMode::Default,
        kind: None,
        target,
        content: None,
        table: None,
        row_page: None,
    };
    assert_eq!(
        parse("graft_diff", None),
        Ok(GraftCommand::RepoDiff { spec: spec(RepoDiffTarget::Worktree { path: None }) })
    );
    assert_eq!(
        parse("graft_diff", Some("--staged -- a b")),
        Ok(GraftCommand::RepoDiff {
            spec: spec(RepoDiffTarget::Staged { path: Some(text("a b")) })
        })
    );
    assert_eq!(
        parse("graft_diff", Some("main topic")),
        Ok(GraftCommand::RepoDiff {
            spec: spec(RepoDiffTarget::Revisions { from: text("main"), to: text("topic"), path: None })
        })
    );
    assert_eq!(
        fails("graft_diff", Some("--rows --rows")),
        "`--rows` may only be specified once"
    );
    assert_eq!(
        fails("graft_diff", Some("--root")),
        "diff --root requires a target revision"
    );
    assert_eq!(
        fails("graft_diff", Some("--max-content-bytes 0")),
        "diff --max-content-bytes must be a positive integer"
    );
}

#[test]
fn adds_take_a_path_or_everything() {
    let all = RepoAddSpec {
        path: None,
        force: false,
        all: true,
        kind: Some(RepoTrackedPathKind::TextFile),
        with_status: false,
        expected_head: None,
    };
    assert_eq!(
        parse("graft_add", Some("--all --kind text")),
        Ok(GraftCommand::Add { spec: all })
    );
    let path = RepoAddSpec {
        path: Some(text("notes.txt")),
        force: true,
        all: false,
        kind: None,
        with_status: false,
        expected_head: None,
    };
    assert_eq!(
        parse("graft_add", Some("--force notes.txt")),
        Ok(GraftCommand::Add { spec: path })
    );
    assert_eq!(
        fails("graft_add", Some("--kind text")),
        "add --kind requires --all"
    );
}

#[test]
fn restores_and_checkouts() {
    assert_eq!(
        parse("graft_restore", Some("--staged --source main a.db")),
        Ok(GraftCommand::Restore {
            spec: RepoRestoreSpec {
                source: Some(text("main")),
                expected_head: None,
                require_clean: false,
                staged: true,
                all: false,
                kind: None,
                path: Some(text("a.db")),
            }
        })
    );
    assert_eq!(
        fails("graft_restore", Some("--all")),
        "restore --all requires --staged"
    );
    assert_eq!(
        parse("graft_checkout", Some("-f main")),
        Ok(GraftCommand::RepoCheckout {
            spec: RepoCheckoutSpec::Detach { rev: text("main"), force: true }
        })
    );
    assert_eq!(
        parse("graft_json_checkout", Some("main -- a.db")),
        Ok(GraftCommand::JsonRepoCheckout {
            spec: RepoCheckoutSpec::Path { rev: text("main"), path: text("a.db") }
        })
    );
}

#[test]
fn logs_are_paged() {
    match parse("graft_json_log", Some("--with-status --limit 5 --after abc")) {
        Ok(GraftCommand::JsonLog { spec }) => {
            assert_eq!(spec.mode, JsonLogMode::WithStatus);
            assert_eq!(spec.limit, Some(5));
            assert_eq!(spec.after, Some(text("abc")));
        }
        other => panic!("{other:?}"),
    }
    assert_eq!(
        fails("graft_json_log", Some("--after abc")),
        "json_log --after requires --limit"
    );
    assert_eq!(
        fails("graft_json_log", Some("--limit 0")),
        "json_log --limit requires a positive integer"
    );
}

#[test]
fn remote_addresses_read_back() {
    for uri in [
        "memory",
        "fs:///srv/graft",
        "s3://bucket",
        "s3://bucket/prefix/x",
        "s3://bucket/prefix?endpoint=http://localhost:9000",
        "graft+https://host/repo",
        "graft+http://host/repo?token_env=TOKEN",
    ] {
        let config = parse_remote_config_uri(uri).unwrap();
        assert_eq!(remote_config_uri(&config), uri);
    }
    assert_eq!(
        parse_remote_config_uri("s3_compatible://bucket"),
        Ok(RemoteConfig::S3Compatible { bucket: text("bucket"), prefix: None, endpoint: None })
    );
    let message = |uri: &str| match parse_remote_config_uri(uri) {
        Err(PragmaErr::Fail(Some(m))) => m,
        other => panic!("{other:?}"),
    };
    assert_eq!(message(""), "remote URI must not be empty");
    assert_eq!(message("s3://"), "S3 remote URI must include a bucket");
    assert_eq!(
        message("s3://b?endpoint=a&endpoint=b"),
        "S3 remote endpoint specified more than once"
    );
    assert_eq!(
        message("s3://b?region=x"),
        "unsupported S3 remote URI query parameter `region`"
    );
    assert_eq!(
        message("ftp://x"),
        "remote URI must start with memory, fs://, s3://, s3_compatible://, graft+https://, or graft+http://"
    );
}

#[test]
fn words_keep_quoted_spaces() {
    let words = |s: &str| split_pragma_words(s, Host::Posix).unwrap();
    assert_eq!(words("a 'b c' \"d e\""), vec!["a", "b c", "d e"]);
    assert_eq!(words("  "), Vec::<String>::new());
    assert_eq!(
        split_pragma_words("'open", Host::Posix),
        Err(PragmaErr::Fail(Some(text("unterminated quoted argument"))))
    );
    assert!(reject_ambiguous_posix_path_escape("plain/path", Host::Posix).is_ok());
}

#[test]
fn an_open_transaction_stops_what_changes_the_repository() {
    let commit = parse("graft_commit", Some("first")).unwrap();
    assert_eq!(
        commit.clone().eval(false),
        Err(Refusal {
            error: CommandError::InvalidCommand(text(
                "cannot commit while there is an open transaction"
            )),
            after_open: false,
        })
    );
    assert_eq!(
        commit.eval(true),
        Ok((Operation::Commit { message: text("first") }, AnswerForm::Report))
    );
    assert_eq!(
        parse("graft_json_commit", Some("first")).unwrap().eval(true),
        Ok((
            Operation::Commit { message: text("first") },
            AnswerForm::Json { operation: Some(text("commit")) }
        ))
    );
    let gc = parse("graft_json_gc", None).unwrap();
    match gc.eval(false) {
        Err(refusal) => assert!(refusal.after_open),
        other => panic!("{other:?}"),
    }
    let status = parse("graft_status", None).unwrap();
    assert!(status.eval(false).is_ok());
}

#[test]
fn some_arguments_are_refused_at_any_time() {
    let pull = parse("graft_pull", Some("--all origin")).unwrap();
    assert_eq!(
        pull.eval(true),
        Err(Refusal {
            error: CommandError::InvalidCommand(text(
                "pull does not support --all; fetch --all first, then pull one branch"
            )),
            after_open: true,
        })
    );
    let diff = parse("graft_diff", Some("--content main -- notes.txt")).unwrap();
    assert_eq!(
        diff.eval(true),
        Err(Refusal {
            error: CommandError::InvalidCommand(text(
                "diff --content is only available through graft_json_diff"
            )),
            after_open: false,
        })
    );
}

#[test]
fn twins_do_the_same() {
    for (words, json, arg) in [
        ("graft_status", "graft_json_status", None),
        ("graft_reset", "graft_json_reset", Some("--hard main")),
        ("graft_rm", "graft_json_rm", Some("--cached a.db")),
        ("graft_fetch", "graft_json_fetch", Some("origin main")),
    ] {
        let (operation, form) = parse(words, arg).unwrap().eval(true).unwrap();
        let (json_operation, json_form) = parse(json, arg).unwrap().eval(true).unwrap();
        assert_eq!(operation, json_operation);
        assert_eq!(form, AnswerForm::Report);
        assert!(matches!(json_form, AnswerForm::Json { .. }));
    }
    assert_eq!(
        parse("graft_reset", Some("--hard main")),
        Ok(GraftCommand::Reset { rev: text("main"), mode: ResetMode::Hard })
    );
}

#[test]
fn work_in_progress_is_kept_without_force() {
    assert_eq!(guard_work_in_progress("merge", false, false), Ok(false));
    assert_eq!(guard_work_in_progress("checkout", true, true), Ok(true));
    assert_eq!(
        guard_work_in_progress("switch branches", true, false),
        Err(CommandError::InvalidCommand(text(
            "cannot switch branches with staged or unstaged changes"
        )))
    );
}

#[test]
fn refspecs_come_before_all_branches() {
    assert_eq!(sync_route(&Some(text("a:b")), true), SyncRoute::Refspec);
    assert_eq!(sync_route(&None, true), SyncRoute::All);
    assert_eq!(sync_route(&None, false), SyncRoute::OneBranch);
    assert_eq!(ResolveSide::Ours.label(), "ours");
}

#[test]
fn storage_positions_are_handed_on() {
    let fail = |message: &str| PragmaErr::Fail(Some(message.to_string()));
    let pair = |from: &str, to: &str| (from.to_string(), to.to_string());
    let (from, to) = pair("1", "2");
    assert_eq!(parse_volume_diff_arg("1,2"), Ok((from.clone(), to.clone(), DiffMode::Default)));
    assert_eq!(parse_volume_diff_arg("1,2,rows"), Ok((from, to, DiffMode::Rows)));
    assert_eq!(
        parse_volume_diff_arg("1"),
        Err(fail("argument must be in the form: `from_lsn,to_lsn[,mode]`"))
    );
    assert_eq!(parse_volume_diff_arg("1,2,x"), Err(fail("mode must be 'rows' or omitted")));
    assert_eq!(parse_debug_diff_lsn_arg(" a:1  b:2 "), Ok(pair("a:1", "b:2")));
    assert_eq!(
        parse_debug_diff_lsn_arg("a:1"),
        Err(fail("argument must be in the form: `from_log:from_lsn to_log:to_lsn`"))
    );
}

#[test]
fn ordinary_files_say_where_they_are_kept() {
    let artifact = |large: bool| CommitArtifactState {
        large,
        kind: RepoTrackedPathKind::TextFile,
        oid: "o".to_string(),
        size: 1,
        content_hash: "h".to_string(),
    };
    assert_eq!(repo_artifact_state_label(&artifact(true)), "external payload");
    assert_eq!(repo_artifact_state_label(&artifact(false)), "file");
}

#[test]
fn both_forms_read_their_argument_alike() {
    let both = |name: &str, arg: Option<&str>| (parse(&format!("graft_{name}"), arg), parse(&format!("graft_json_{name}"), arg));
    for (name, arg) in [
        ("checkout", Some("--force main")),
        ("add", Some("--kind text_file --all")),
        ("diff", Some("--rows a b -- p")),
        ("reset", Some("--soft HEAD")),
        ("pull", Some("origin main")),
        ("merge", None),
        ("pull", Some("--force")),
        ("diff", Some("--kind")),
    ] {
        let (plain, json) = both(name, arg);
        assert_eq!(plain.is_ok(), json.is_ok(), "{name} {arg:?}");
    }
    let (plain, json) = both("commit", Some("first"));
    assert_eq!(plain, Ok(GraftCommand::Commit { message: text("first") }));
    assert_eq!(json, Ok(GraftCommand::JsonCommit { message: text("first") }));
    let (plain, json) = both("payload_prune", Some("--dry-run"));
    match (plain, json) {
        (
            Ok(GraftCommand::LargeFilePrune { spec }),
            Ok(GraftCommand::JsonLargeFilePrune { spec: same, operation }),
        ) => {
            assert_eq!(spec, same);
            assert_eq!(operation, "payload_prune");
        }
        other => panic!("{other:?}"),
    }
}

#[test]
fn operations_find_the_repository_in_their_time() {
    assert_eq!(repository_use(&Operation::JobResult { id: text("1") }), RepositoryUse::Never);
    assert_eq!(repository_use(&Operation::Merge { rev: text("main") }), RepositoryUse::AmongSteps);
    assert_eq!(repository_use(&Operation::Commit { message: text("m") }), RepositoryUse::First);
}

#[test]
fn quoted_words_are_read_back() {
    let quoted = |word: &str| format!("\"{}\"", word.replace('\\', "\\\\").replace('"', "\\\""));
    for words in [
        vec![],
        vec![""],
        vec!["", "a b", "\t", ""],
        vec!["say \"hi\"", "back\\slash", "\\", "\"", "it's"],
    ] {
        let line: Vec<String> = words.iter().map(|word| quoted(word)).collect();
        assert_eq!(split_pragma_words(&line.join(" "), Host::Posix), Ok(words.iter().map(|w| text(w)).collect()));
    }
    for open in ["\"a", "a '", "\"a\\\"", "'a\" b"] {
        assert_eq!(
            split_pragma_words(open, Host::Posix),
            Err(PragmaErr::Fail(Some(text("unterminated quoted argument"))))
        );
    }
}
