//! Jobs that run beside the session.
use vstd::prelude::*;
use vstd::string::*;

use crate::document::{
    json_document, json_document_of, member_names, object_text, print_object, JsonField,
    JsonFieldView, JsonMember, JsonMemberView,
};
use crate::error::{seen, text_option, CommandError};
use crate::number::{decimal, law_decimal_round_trip, show_u64};
use crate::order::{ascending, before, KeyMap};
use crate::show::views;
use crate::text::{cat2, cat3, cat4};

verus! {

/// The form of the result of a job.
#[derive(Debug, Clone, Copy, PartialEq, Eq, Structural)]
pub enum AsyncJobResultFormat {
    Text,
    Json,
}

impl AsyncJobResultFormat {
    pub open spec fn name(self) -> Seq<char> {
        match self {
            AsyncJobResultFormat::Text => "text"@,
            AsyncJobResultFormat::Json => "json"@,
        }
    }

    pub fn as_str(self) -> (r: &'static str)
        ensures
            r@ == self.name(),
    {
        match self {
            AsyncJobResultFormat::Text => "text",
            AsyncJobResultFormat::Json => "json",
        }
    }
}

#[derive(Debug, Clone, Copy, PartialEq, Eq, Structural)]
pub enum AsyncJobState {
    Running,
    Done,
    Failed,
}

impl AsyncJobState {
    pub open spec fn name(self) -> Seq<char> {
        match self {
            AsyncJobState::Running => "running"@,
            AsyncJobState::Done => "done"@,
            AsyncJobState::Failed => "failed"@,
        }
    }

    pub fn as_str(self) -> (r: &'static str)
        ensures
            r@ == self.name(),
    {
        match self {
            AsyncJobState::Running => "running",
            AsyncJobState::Done => "done",
            AsyncJobState::Failed => "failed",
        }
    }
}

/// A job: a result belongs to one that is done, an error to one that failed.
#[derive(Debug, Clone, PartialEq, Eq)]
pub struct AsyncJob<S = String> {
    pub kind: S,
    pub format: AsyncJobResultFormat,
    pub state: AsyncJobState,
    pub result: Option<S>,
    pub error: Option<S>,
}

pub type AsyncJobView = AsyncJob<Seq<char>>;

impl View for AsyncJob<String> {
    type V = AsyncJobView;

    open spec fn view(&self) -> AsyncJobView {
        AsyncJob {
            kind: self.kind@,
            format: self.format,
            state: self.state,
            result: text_option(self.result),
            error: text_option(self.error),
        }
    }
}

/// A job that has just been started.
pub open spec fn started(kind: Seq<char>, format: AsyncJobResultFormat) -> AsyncJobView {
    AsyncJob { kind, format, state: AsyncJobState::Running, result: None, error: None }
}

/// A job after it came to its end.
pub open spec fn ended(job: AsyncJobView, result: Result<Seq<char>, Seq<char>>) -> AsyncJobView {
    match result {
        Ok(text) => AsyncJob { state: AsyncJobState::Done, result: Some(text), error: None, ..job },
        Err(e) => AsyncJob { state: AsyncJobState::Failed, result: None, error: Some(e), ..job },
    }
}

/// A text or null.
pub open spec fn text_field(s: Option<Seq<char>>) -> JsonFieldView {
    match s {
        Some(t) => JsonField::Text(t),
        None => JsonField::Null,
    }
}

/// The result of a job as it stands in its JSON status: a document where the job answers in JSON
/// and the result is JSON, and a text otherwise.
pub open spec fn result_field(job: AsyncJobView) -> JsonFieldView {
    match job.result {
        None => JsonField::Null,
        Some(t) => if job.format == AsyncJobResultFormat::Json && json_document_of(t) is Some {
            JsonField::Document(t)
        } else {
            JsonField::Text(t)
        },
    }
}

/// The members of the status of a job.
pub open spec fn status_members(job: AsyncJobView, id: Seq<char>) -> Seq<JsonMemberView> {
    seq![
        JsonMember { name: "error"@, value: text_field(job.error) },
        JsonMember { name: "id"@, value: JsonField::Text(id) },
        JsonMember { name: "kind"@, value: JsonField::Text(job.kind) },
        JsonMember { name: "result"@, value: text_field(job.result) },
        JsonMember { name: "state"@, value: JsonField::Text(job.state.name()) },
    ]
}

/// The members of the JSON status of a job.
pub open spec fn json_status_members(job: AsyncJobView, id: Seq<char>) -> Seq<JsonMemberView> {
    seq![
        JsonMember { name: "error"@, value: text_field(job.error) },
        JsonMember { name: "id"@, value: JsonField::Text(id) },
        JsonMember { name: "kind"@, value: JsonField::Text(job.kind) },
        JsonMember { name: "result"@, value: result_field(job) },
        JsonMember { name: "result_format"@, value: JsonField::Text(job.format.name()) },
        JsonMember { name: "state"@, value: JsonField::Text(job.state.name()) },
    ]
}

proof fn lemma_status_names()
    ensures
        ascending(seq!["error"@, "id"@, "kind"@, "result"@, "state"@]),
        ascending(seq!["error"@, "id"@, "kind"@, "result"@, "result_format"@, "state"@]),
{
    reveal_strlit("error");
    reveal_strlit("id");
    reveal_strlit("kind");
    reveal_strlit("result");
    reveal_strlit("result_format");
    reveal_strlit("state");
    reveal_with_fuel(before, 8);
    assert(before("error"@, "id"@));
    assert(before("id"@, "kind"@));
    assert(before("kind"@, "result"@));
    assert(before("result"@, "state"@));
    assert(before("error"@, "kind"@) && before("error"@, "result"@) && before("error"@, "state"@));
    assert(before("id"@, "result"@) && before("id"@, "state"@) && before("kind"@, "state"@));
    assert("result_format"@.skip(6)[0] == '_');
}

pub fn member(name: &str, value: JsonField) -> (r: JsonMember)
    ensures
        r@ == (JsonMember { name: name@, value: value@ }),
{
    JsonMember { name: name.to_owned(), value }
}

pub fn field_of(s: &Option<String>) -> (r: JsonField)
    ensures
        r@ == text_field(text_option(*s)),
{
    match s {
        Some(t) => JsonField::Text(t.clone()),
        None => JsonField::Null,
    }
}

impl AsyncJob<String> {
    pub fn running(kind: &str, format: AsyncJobResultFormat) -> (r: AsyncJob)
        ensures
            r@ == started(kind@, format),
    {
        AsyncJob {
            kind: kind.to_owned(),
            format,
            state: AsyncJobState::Running,
            result: None,
            error: None,
        }
    }

    pub fn finish(&mut self, result: String)
        ensures
            final(self)@ == ended(old(self)@, Ok(result@)),
    {
        self.state = AsyncJobState::Done;
        self.result = Some(result);
        self.error = None;
    }

    pub fn fail(&mut self, error: String)
        ensures
            final(self)@ == ended(old(self)@, Err(error@)),
    {
        self.state = AsyncJobState::Failed;
        self.result = None;
        self.error = Some(error);
    }

    /// The status with the result as a text.
    pub fn status_json(&self, id: &str) -> (r: String)
        ensures
            r@ == object_text(status_members(self@, id@)),
    {
        let members = vec![
            member("error", field_of(&self.error)),
            member("id", JsonField::Text(id.to_owned())),
            member("kind", JsonField::Text(self.kind.clone())),
            member("result", field_of(&self.result)),
            member("state", JsonField::Text(self.state.as_str().to_owned())),
        ];
        proof {
            assert(views(members@) =~= status_members(self@, id@));
            lemma_status_names();
            assert(member_names(views(members@)) =~= seq![
                "error"@,
                "id"@,
                "kind"@,
                "result"@,
                "state"@,
            ]);
        }
        print_object(&members)
    }

    /// The status with the result as JSON, where it is JSON.
    pub fn json_status(&self, id: &str) -> (r: String)
        ensures
            r@ == object_text(json_status_members(self@, id@)),
    {
        let result = match (&self.result, self.format) {
            (Some(result), AsyncJobResultFormat::Json) => match json_document(result.as_str()) {
                Some(_) => JsonField::Document(result.clone()),
                None => JsonField::Text(result.clone()),
            },
            (Some(result), AsyncJobResultFormat::Text) => JsonField::Text(result.clone()),
            (None, _) => JsonField::Null,
        };
        let members = vec![
            member("error", field_of(&self.error)),
            member("id", JsonField::Text(id.to_owned())),
            member("kind", JsonField::Text(self.kind.clone())),
            member("result", result),
            member("result_format", JsonField::Text(self.format.as_str().to_owned())),
            member("state", JsonField::Text(self.state.as_str().to_owned())),
        ];
        proof {
            assert(views(members@) =~= json_status_members(self@, id@));
            lemma_status_names();
            assert(member_names(views(members@)) =~= seq![
                "error"@,
                "id"@,
                "kind"@,
                "result"@,
                "result_format"@,
                "state"@,
            ]);
        }
        print_object(&members)
    }
}

/// The id of the job with a number.
pub open spec fn job_id(n: u64) -> Seq<char> {
    "graft-job-"@ + decimal(n as nat)
}

/// Jobs with different numbers have different ids.
pub proof fn law_job_ids_differ(m: u64, n: u64)
    requires
        m != n,
    ensures
        job_id(m) != job_id(n),
{
    let p = "graft-job-"@;
    if job_id(m) == job_id(n) {
        assert(job_id(m).skip(p.len() as int) =~= decimal(m as nat));
        assert(job_id(n).skip(p.len() as int) =~= decimal(n as nat));
        law_decimal_round_trip(m as nat);
        law_decimal_round_trip(n as nat);
    }
}

/// What is known of jobs, by their ids.
pub open spec fn known_jobs(m: Map<Seq<char>, AsyncJob>) -> Map<Seq<char>, AsyncJobView> {
    Map::new(|k: Seq<char>| m.contains_key(k), |k: Seq<char>| m[k]@)
}

/// What a job is asked for fails with where there is no such job.
pub open spec fn unknown_job_error(id: Seq<char>) -> CommandError<Seq<char>> {
    CommandError::InvalidCommand("unknown job `"@ + id + "`"@)
}

pub fn unknown_job(id: &str) -> (r: CommandError)
    ensures
        r@ == unknown_job_error(id@),
{
    CommandError::InvalidCommand(cat3("unknown job `", id, "`"))
}

/// The result of a job: its text once it is done, and otherwise why there is none.
pub open spec fn job_result(jobs: Map<Seq<char>, AsyncJobView>, id: Seq<char>) -> Result<
    Seq<char>,
    CommandError<Seq<char>>,
> {
    if !jobs.contains_key(id) {
        Err(unknown_job_error(id))
    } else {
        let job = jobs[id];
        match job.state {
            AsyncJobState::Running => Err(
                CommandError::InvalidCommand("job `"@ + id + "` is still running"@),
            ),
            AsyncJobState::Done => Ok(
                match job.result {
                    Some(text) => text,
                    None => Seq::empty(),
                },
            ),
            AsyncJobState::Failed => Err(
                CommandError::InvalidCommand(
                    "job `"@ + id + "` failed: "@ + match job.error {
                        Some(e) => e,
                        None => "unknown error"@,
                    },
                ),
            ),
        }
    }
}

/// The jobs of a process; `next` numbers the next one.
#[derive(Debug)]
pub struct AsyncJobRegistry {
    pub jobs: KeyMap<AsyncJob>,
    pub next: u64,
}

impl AsyncJobRegistry {
    pub open spec fn wf(&self) -> bool {
        self.jobs.wf()
    }

    /// The jobs by their ids.
    pub open spec fn known(&self) -> Map<Seq<char>, AsyncJobView> {
        known_jobs(self.jobs@)
    }

    pub fn new() -> (r: AsyncJobRegistry)
        ensures
            r.wf(),
            r.known() == Map::<Seq<char>, AsyncJobView>::empty(),
            r.next == 1,
    {
        let r = AsyncJobRegistry { jobs: KeyMap::new(), next: 1 };
        proof {
            assert(r.known() =~= Map::<Seq<char>, AsyncJobView>::empty());
        }
        r
    }

    /// Enters a running fetch and returns its id.
    pub fn spawn_fetch(&mut self, format: AsyncJobResultFormat) -> (r: String)
        requires
            old(self).wf(),
        ensures
            final(self).wf(),
            r@ == job_id(old(self).next),
            final(self).known() == old(self).known().insert(r@, started("fetch"@, format)),
            final(self).next as int == (old(self).next + 1) % 0x1_0000_0000_0000_0000,
    {
        let id = cat2("graft-job-", show_u64(self.next).as_str());
        self.next = self.next.wrapping_add(1);
        self.jobs.put(id.as_str(), AsyncJob::running("fetch", format));
        proof {
            assert(self.known() =~= old(self).known().insert(id@, started("fetch"@, format)));
        }
        id
    }

    /// Records how a job ended; a job that is not known is left out.
    pub fn finish(&mut self, id: &str, result: Result<String, String>)
        requires
            old(self).wf(),
        ensures
            final(self).wf(),
            final(self).next == old(self).next,
            final(self).known() == if old(self).known().contains_key(id@) {
                old(self).known().insert(id@, ended(old(self).known()[id@], seen(result)))
            } else {
                old(self).known()
            },
    {
        match self.jobs.take(id) {
            Some(mut job) => {
                match result {
                    Ok(text) => job.finish(text),
                    Err(error) => job.fail(error),
                }
                self.jobs.put(id, job);
                proof {
                    assert(self.known() =~= old(self).known().insert(
                        id@,
                        ended(old(self).known()[id@], seen(result)),
                    ));
                }
            },
            None => {
                proof {
                    assert(self.known() =~= old(self).known());
                }
            },
        }
    }

    pub fn status_json(&self, id: &str) -> (r: Result<String, CommandError>)
        requires
            self.wf(),
        ensures
            seen(r) == if self.known().contains_key(id@) {
                Ok(object_text(status_members(self.known()[id@], id@)))
            } else {
                Err(unknown_job_error(id@))
            },
    {
        match self.jobs.get(id) {
            Some(job) => Ok(job.status_json(id)),
            None => Err(unknown_job(id)),
        }
    }

    pub fn json_status(&self, id: &str) -> (r: Result<String, CommandError>)
        requires
            self.wf(),
        ensures
            seen(r) == if self.known().contains_key(id@) {
                Ok(object_text(json_status_members(self.known()[id@], id@)))
            } else {
                Err(unknown_job_error(id@))
            },
    {
        match self.jobs.get(id) {
            Some(job) => Ok(job.json_status(id)),
            None => Err(unknown_job(id)),
        }
    }

    pub fn result(&self, id: &str) -> (r: Result<String, CommandError>)
        requires
            self.wf(),
        ensures
            seen(r) == job_result(self.known(), id@),
    {
        let job = match self.jobs.get(id) {
            Some(job) => job,
            None => return Err(unknown_job(id)),
        };
        match job.state {
            AsyncJobState::Running => Err(
                CommandError::InvalidCommand(cat3("job `", id, "` is still running")),
            ),
            AsyncJobState::Done => Ok(
                match &job.result {
                    Some(text) => text.clone(),
                    None => String::new(),
                },
            ),
            AsyncJobState::Failed => {
                let error = match &job.error {
                    Some(e) => e.as_str(),
                    None => "unknown error",
                };
                Err(CommandError::InvalidCommand(cat4("job `", id, "` failed: ", error)))
            },
        }
    }
}

/// What a job ended with is what its result is.
pub proof fn law_result_is_what_the_job_ended_with(
    jobs: Map<Seq<char>, AsyncJobView>,
    id: Seq<char>,
    result: Result<Seq<char>, Seq<char>>,
)
    requires
        jobs.contains_key(id),
    ensures
        job_result(jobs.insert(id, ended(jobs[id], result)), id) == match result {
            Ok(text) => Ok::<_, CommandError<Seq<char>>>(text),
            Err(e) => Err(CommandError::InvalidCommand("job `"@ + id + "` failed: "@ + e)),
        },
{
}

/// A job that runs has neither result nor error, one that is done has a result, and one that failed
/// has an error.
pub open spec fn consistent(job: AsyncJobView) -> bool {
    match job.state {
        AsyncJobState::Running => job.result is None && job.error is None,
        AsyncJobState::Done => job.result is Some && job.error is None,
        AsyncJobState::Failed => job.result is None && job.error is Some,
    }
}

/// Jobs are consistent when they start and stay so when they end.
pub proof fn law_jobs_stay_consistent(
    kind: Seq<char>,
    format: AsyncJobResultFormat,
    job: AsyncJobView,
    result: Result<Seq<char>, Seq<char>>,
)
    ensures
        consistent(started(kind, format)),
        consistent(ended(job, result)),
{
}

/// The end of one job changes nothing about another.
pub proof fn law_jobs_end_apart(
    jobs: Map<Seq<char>, AsyncJobView>,
    id: Seq<char>,
    other: Seq<char>,
    result: Result<Seq<char>, Seq<char>>,
)
    requires
        jobs.contains_key(id),
        id != other,
    ensures
        job_result(jobs.insert(id, ended(jobs[id], result)), other) == job_result(jobs, other),
{
}

} // verus!
