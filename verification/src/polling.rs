//! Driving a remote generation job to its end: submit, then read the
//! job's status at a fixed interval until it ends or the permitted number
//! of reads is used up.
//!
//! The requests themselves are made by the caller. This module decides
//! what each answer means and what is to be done next.

use vstd::prelude::*;
use crate::error::{PollError, PollFailure};
use crate::text::{
    chars_of, extend, same_text, string_of, trailing_start, without_trailing,
};

verus! {

/// How often and how long a job is polled.
#[derive(Debug, Clone, Copy, PartialEq, Eq, Structural)]
pub struct PollConfig {
    /// Seconds to wait before each status read.
    pub interval_secs: u64,
    /// The number of status reads after which a job still in progress is
    /// given up.
    pub max_attempts: u32,
}

/// The answer to a request that creates a job.
#[derive(Debug, Clone, PartialEq, Eq)]
pub struct SubmitResponse {
    /// The HTTP status code, or nothing where no answer came.
    pub http_code: Option<u16>,
    /// The job identifier found in the body, if any.
    pub request_id: Option<String>,
}

/// The answer to one status read.
#[derive(Debug, Clone, PartialEq, Eq)]
pub struct StatusResponse {
    /// The HTTP status code, or nothing where no answer came.
    pub http_code: Option<u16>,
    /// The status named in the body, if any.
    pub status: Option<String>,
    /// The result items of the body, base64-encoded; empty where it has
    /// none.
    pub images: Vec<String>,
}

/// A `StatusResponse` as a mathematical value.
pub struct StatusReport {
    pub http_code: Option<u16>,
    pub status: Option<Seq<char>>,
    pub images: Seq<Seq<char>>,
}

impl View for StatusResponse {
    type V = StatusReport;

    open spec fn view(&self) -> StatusReport {
        StatusReport {
            http_code: self.http_code,
            status: match self.status {
                Some(s) => Some(s@),
                None => None,
            },
            images: Seq::new(self.images@.len(), |i: int| self.images@[i]@),
        }
    }
}

/// The view of each response.
pub open spec fn reports(responses: Seq<StatusResponse>) -> Seq<StatusReport> {
    Seq::new(responses.len(), |i: int| responses[i]@)
}

/// An HTTP status code of the success class.
pub open spec fn is_success_code(code: Option<u16>) -> bool {
    code is Some && 200 <= code->0 < 300
}

pub fn http_success(code: Option<u16>) -> (b: bool)
    ensures
        b == is_success_code(code),
{
    match code {
        Some(c) => 200 <= c && c < 300,
        None => false,
    }
}

/// What a status says of the job.
#[derive(Debug, Clone, Copy, PartialEq, Eq, Structural)]
pub enum StatusKind {
    /// The job is still at work.
    InProgress,
    /// The job ended with a result.
    Succeeded,
    /// Anything else: the job ended without one.
    Other,
}

/// `PENDING`, `STARTED` and `RUNNING` are in progress, `SUCCESS` is success,
/// and every other status is the end of the job without a result.
pub open spec fn status_kind(status: Seq<char>) -> StatusKind {
    if status == "PENDING"@ || status == "STARTED"@ || status == "RUNNING"@ {
        StatusKind::InProgress
    } else if status == "SUCCESS"@ {
        StatusKind::Succeeded
    } else {
        StatusKind::Other
    }
}

/// Sorts a status into in progress, success, or anything else.
pub fn classify_status(status: &str) -> (kind: StatusKind)
    ensures
        kind == status_kind(status@),
{
    if same_text(status, "PENDING") || same_text(status, "STARTED") || same_text(
        status,
        "RUNNING",
    ) {
        StatusKind::InProgress
    } else if same_text(status, "SUCCESS") {
        StatusKind::Succeeded
    } else {
        StatusKind::Other
    }
}

/// What one status read settles.
#[derive(Debug, Clone, PartialEq, Eq)]
pub enum ReadOutcome {
    /// Nothing yet: the job is still in progress.
    InProgress,
    /// The job's result.
    Done(String),
    /// The job, or the read, failed.
    Failed(PollError),
}

/// A `ReadOutcome` as a mathematical value.
pub enum Settled {
    InProgress,
    Done(Seq<char>),
    Failed(PollFailure),
}

impl View for ReadOutcome {
    type V = Settled;

    open spec fn view(&self) -> Settled {
        match self {
            ReadOutcome::InProgress => Settled::InProgress,
            ReadOutcome::Done(result) => Settled::Done(result@),
            ReadOutcome::Failed(e) => Settled::Failed(e@),
        }
    }
}

/// What a status read settles. A read that was not answered with success
/// is a failed request. A status in progress settles nothing. Success hands
/// out the first result item and fails as `EmptyResult` without one. Any
/// other status is the job's failure and is carried along. A body without
/// a status counts as success where it has a result item, and is malformed
/// where it has none.
pub open spec fn settled_by(report: StatusReport) -> Settled {
    if !is_success_code(report.http_code) {
        Settled::Failed(PollFailure::SubmissionFailed)
    } else {
        match report.status {
            None => if report.images.len() > 0 {
                Settled::Done(report.images[0])
            } else {
                Settled::Failed(PollFailure::MalformedResponse)
            },
            Some(status) => match status_kind(status) {
                StatusKind::InProgress => Settled::InProgress,
                StatusKind::Succeeded => if report.images.len() > 0 {
                    Settled::Done(report.images[0])
                } else {
                    Settled::Failed(PollFailure::EmptyResult)
                },
                StatusKind::Other => Settled::Failed(PollFailure::RemoteJobFailed(status)),
            },
        }
    }
}

/// Reads what one status response settles.
pub fn read_outcome(response: &StatusResponse) -> (outcome: ReadOutcome)
    ensures
        outcome@ == settled_by(response@),
{
    if !http_success(response.http_code) {
        return ReadOutcome::Failed(PollError::SubmissionFailed);
    }
    match &response.status {
        None => {
            if response.images.len() > 0 {
                ReadOutcome::Done(response.images[0].clone())
            } else {
                ReadOutcome::Failed(PollError::MalformedResponse)
            }
        },
        Some(status) => {
            match classify_status(status.as_str()) {
                StatusKind::InProgress => ReadOutcome::InProgress,
                StatusKind::Succeeded => {
                    if response.images.len() > 0 {
                        ReadOutcome::Done(response.images[0].clone())
                    } else {
                        ReadOutcome::Failed(PollError::EmptyResult)
                    }
                },
                StatusKind::Other => ReadOutcome::Failed(
                    PollError::RemoteJobFailed(status.clone()),
                ),
            }
        },
    }
}

/// What is to be done next for a job.
#[derive(Debug, PartialEq, Eq)]
pub enum PollAction {
    /// Wait this many seconds, then read the status again.
    ReadAfter(u64),
    /// Stop: the job's result, or why there is none.
    Finish(Result<String, PollError>),
}

/// A `PollAction` as a mathematical value.
pub enum Next {
    ReadAfter(u64),
    Finish(Result<Seq<char>, PollFailure>),
}

impl View for PollAction {
    type V = Next;

    open spec fn view(&self) -> Next {
        match self {
            PollAction::ReadAfter(secs) => Next::ReadAfter(*secs),
            PollAction::Finish(Ok(result)) => Next::Finish(Ok(result@)),
            PollAction::Finish(Err(e)) => Next::Finish(Err(e@)),
        }
    }
}

/// What to do before the first read: with no read permitted the job is
/// given up at once.
pub open spec fn first_action(config: PollConfig) -> Next {
    if config.max_attempts == 0 {
        Next::Finish(Err(PollFailure::PollingTimedOut))
    } else {
        Next::ReadAfter(config.interval_secs)
    }
}

/// What to do after the read numbered `reads`, counted from one, settled
/// `settled`: a result or a failure ends the job; a job in progress is read
/// again after the interval, unless this was the last permitted read.
pub open spec fn next_after(config: PollConfig, reads: nat, settled: Settled) -> Next {
    match settled {
        Settled::Done(result) => Next::Finish(Ok(result)),
        Settled::Failed(e) => Next::Finish(Err(e)),
        Settled::InProgress => if reads >= config.max_attempts {
            Next::Finish(Err(PollFailure::PollingTimedOut))
        } else {
            Next::ReadAfter(config.interval_secs)
        },
    }
}

impl PollConfig {
    /// What to do before the first status read.
    pub fn begin(&self) -> (action: PollAction)
        ensures
            action@ == first_action(*self),
    {
        if self.max_attempts == 0 {
            PollAction::Finish(Err(PollError::PollingTimedOut))
        } else {
            PollAction::ReadAfter(self.interval_secs)
        }
    }

    /// What to do after a status read. `reads` counts the reads made so
    /// far, this one included.
    pub fn poll_step(&self, reads: u32, response: &StatusResponse) -> (action: PollAction)
        ensures
            action@ == next_after(*self, reads as nat, settled_by(response@)),
    {
        match read_outcome(response) {
            ReadOutcome::Done(result) => PollAction::Finish(Ok(result)),
            ReadOutcome::Failed(e) => PollAction::Finish(Err(e)),
            ReadOutcome::InProgress => {
                if reads >= self.max_attempts {
                    PollAction::Finish(Err(PollError::PollingTimedOut))
                } else {
                    PollAction::ReadAfter(self.interval_secs)
                }
            },
        }
    }
}

/// How polling went over a given run of answers.
#[derive(Debug, PartialEq, Eq)]
pub struct PollRun {
    /// How the job ended, or nothing where the answers ran out with the
    /// job still in progress and reads still permitted.
    pub outcome: Option<Result<String, PollError>>,
    /// The number of status reads that were made.
    pub reads: usize,
}

/// A `PollRun` as a mathematical value.
pub struct Run {
    pub outcome: Option<Result<Seq<char>, PollFailure>>,
    pub reads: nat,
}

impl View for PollRun {
    type V = Run;

    open spec fn view(&self) -> Run {
        Run {
            outcome: match self.outcome {
                Some(Ok(result)) => Some(Ok(result@)),
                Some(Err(e)) => Some(Err(e@)),
                None => None,
            },
            reads: self.reads as nat,
        }
    }
}

/// Polling from the point where `k` reads were made and all of them found
/// the job in progress.
pub open spec fn run_from(config: PollConfig, answers: Seq<StatusReport>, k: nat) -> Run
    decreases answers.len() - k,
{
    if k >= config.max_attempts {
        Run { outcome: Some(Err(PollFailure::PollingTimedOut)), reads: k }
    } else if k >= answers.len() {
        Run { outcome: None, reads: k }
    } else {
        match settled_by(answers[k as int]) {
            Settled::InProgress => run_from(config, answers, k + 1),
            Settled::Done(result) => Run { outcome: Some(Ok(result)), reads: k + 1 },
            Settled::Failed(e) => Run { outcome: Some(Err(e)), reads: k + 1 },
        }
    }
}

/// Polling a job whose status reads are answered by `answers`, in order.
pub open spec fn run_of(config: PollConfig, answers: Seq<StatusReport>) -> Run {
    run_from(config, answers, 0)
}

/// Polls a job over the given answers to its status reads: reads until an
/// answer ends the job, the permitted number of reads is used up, or the
/// answers run out.
pub fn await_result(config: &PollConfig, responses: &Vec<StatusResponse>) -> (run: PollRun)
    ensures
        run@ == run_of(*config, reports(responses@)),
{
    match config.begin() {
        PollAction::Finish(result) => {
            return PollRun { outcome: Some(result), reads: 0 };
        },
        PollAction::ReadAfter(_) => {},
    }
    let mut k: usize = 0;
    while k < responses.len()
        invariant
            k <= responses.len(),
            k < config.max_attempts,
            run_of(*config, reports(responses@)) == run_from(
                *config,
                reports(responses@),
                k as nat,
            ),
        decreases responses.len() - k,
    {
        assert(reports(responses@)[k as int] == responses@[k as int]@);
        let action = config.poll_step((k + 1) as u32, &responses[k]);
        assert(settled_by(responses@[k as int]@) is InProgress && k + 1 >= config.max_attempts
            ==> run_from(*config, reports(responses@), (k + 1) as nat) == (Run {
            outcome: Some(Err(PollFailure::PollingTimedOut)),
            reads: (k + 1) as nat,
        }));
        match action {
            PollAction::Finish(result) => {
                return PollRun { outcome: Some(result), reads: k + 1 };
            },
            PollAction::ReadAfter(_) => {
                k += 1;
            },
        }
    }
    PollRun { outcome: None, reads: k }
}

/// The job identifier that an answer to a submission hands out. An answer
/// without success is a failed submission; a successful one without an
/// identifier is malformed.
pub open spec fn submitted_job(
    http_code: Option<u16>,
    request_id: Option<Seq<char>>,
) -> Result<Seq<char>, PollFailure> {
    if !is_success_code(http_code) {
        Err(PollFailure::SubmissionFailed)
    } else {
        match request_id {
            Some(id) => Ok(id),
            None => Err(PollFailure::MalformedResponse),
        }
    }
}

impl SubmitResponse {
    /// The job identifier in the body, as a mathematical value.
    pub open spec fn id_text(&self) -> Option<Seq<char>> {
        match self.request_id {
            Some(id) => Some(id@),
            None => None,
        }
    }
}

/// Submitting, then polling: a failed submission makes no read.
pub open spec fn generation_of(
    config: PollConfig,
    http_code: Option<u16>,
    request_id: Option<Seq<char>>,
    answers: Seq<StatusReport>,
) -> Run {
    match submitted_job(http_code, request_id) {
        Err(e) => Run { outcome: Some(Err(e)), reads: 0 },
        Ok(_) => run_of(config, answers),
    }
}

/// The address of a generation service, the key to it, and how its jobs
/// are polled.
#[derive(Debug, Clone)]
pub struct FalClient {
    pub endpoint: String,
    pub api_key: String,
    pub config: PollConfig,
}

/// Three seconds between reads, thirty reads at most.
pub open spec fn default_config() -> PollConfig {
    PollConfig { interval_secs: 3, max_attempts: 30 }
}

impl FalClient {
    /// A client for `endpoint` with the default polling.
    pub fn new(endpoint: &str, api_key: &str) -> (client: FalClient)
        ensures
            client.endpoint@ == endpoint@,
            client.api_key@ == api_key@,
            client.config == default_config(),
    {
        FalClient {
            endpoint: endpoint.to_owned(),
            api_key: api_key.to_owned(),
            config: PollConfig { interval_secs: 3, max_attempts: 30 },
        }
    }

    /// A client for `endpoint` that polls as `config` says.
    pub fn with_config(endpoint: &str, api_key: &str, config: PollConfig) -> (client: FalClient)
        ensures
            client.endpoint@ == endpoint@,
            client.api_key@ == api_key@,
            client.config == config,
    {
        FalClient { endpoint: endpoint.to_owned(), api_key: api_key.to_owned(), config }
    }

    /// The value of the authorization header of every request.
    pub fn authorization(&self) -> (header: String)
        ensures
            header@ == "Key "@ + self.api_key@,
    {
        let mut v = chars_of("Key ");
        extend(&mut v, &chars_of(self.api_key.as_str()));
        string_of(&v)
    }

    /// Where the status of the job `request_id` is read.
    pub fn status_url(&self, request_id: &str) -> (url: String)
        ensures
            url@ == without_trailing(self.endpoint@, '/') + "/requests/"@ + request_id@,
    {
        let base = chars_of(self.endpoint.as_str());
        let end = trailing_start(&base, '/');
        let mut v: Vec<char> = Vec::new();
        let mut i: usize = 0;
        while i < end
            invariant
                i <= end <= base.len(),
                v@ == base@.take(i as int),
            decreases end - i,
        {
            v.push(base[i]);
            assert(base@.take(i + 1) =~= base@.take(i as int).push(base@[i as int]));
            i += 1;
        }
        extend(&mut v, &chars_of("/requests/"));
        extend(&mut v, &chars_of(request_id));
        string_of(&v)
    }

    /// Reads the job identifier out of the answer to a submission.
    pub fn start_generation(&self, response: &SubmitResponse) -> (r: Result<String, PollError>)
        ensures
            match r {
                Ok(id) => submitted_job(response.http_code, response.id_text()) == Ok::<
                    Seq<char>,
                    PollFailure,
                >(id@),
                Err(e) => submitted_job(response.http_code, response.id_text()) == Err::<
                    Seq<char>,
                    PollFailure,
                >(e@),
            },
    {
        if !http_success(response.http_code) {
            return Err(PollError::SubmissionFailed);
        }
        match &response.request_id {
            Some(id) => Ok(id.clone()),
            None => Err(PollError::MalformedResponse),
        }
    }

    /// Polls a job over the given answers to its status reads.
    pub fn poll_for_image(&self, responses: &Vec<StatusResponse>) -> (run: PollRun)
        ensures
            run@ == run_of(self.config, reports(responses@)),
    {
        await_result(&self.config, responses)
    }

    /// One generation: the submission, then the polling of the one job it
    /// created.
    pub fn generate_image(
        &self,
        submitted: &SubmitResponse,
        responses: &Vec<StatusResponse>,
    ) -> (run: PollRun)
        ensures
            run@ == generation_of(
                self.config,
                submitted.http_code,
                submitted.id_text(),
                reports(responses@),
            ),
    {
        match self.start_generation(submitted) {
            Err(e) => PollRun { outcome: Some(Err(e)), reads: 0 },
            Ok(_) => self.poll_for_image(responses),
        }
    }
}

/// Polling never makes more reads than are permitted, nor more than there
/// are answers.
pub proof fn lemma_reads_are_bounded(config: PollConfig, answers: Seq<StatusReport>, k: nat)
    requires
        k <= config.max_attempts,
        k <= answers.len(),
    ensures
        k <= run_from(config, answers, k).reads <= config.max_attempts,
        run_from(config, answers, k).reads <= answers.len(),
    decreases answers.len() - k,
{
    if k < config.max_attempts && k < answers.len() {
        if settled_by(answers[k as int]) is InProgress {
            lemma_reads_are_bounded(config, answers, k + 1);
        }
    }
}

/// Where the first `n` reads find the job in progress and the next one
/// finds its result, with that read still permitted, polling hands out
/// that result after exactly `n + 1` reads.
pub proof fn lemma_result_after_waiting(
    config: PollConfig,
    answers: Seq<StatusReport>,
    n: nat,
    result: Seq<char>,
)
    requires
        n < config.max_attempts,
        n < answers.len(),
        forall|i: int| 0 <= i < n ==> settled_by(#[trigger] answers[i]) is InProgress,
        settled_by(answers[n as int]) == Settled::Done(result),
    ensures
        run_of(config, answers) == (Run { outcome: Some(Ok(result)), reads: n + 1 }),
{
    lemma_skips_reads_in_progress(config, answers, 0, n);
}

/// Where the permitted number of reads all find the job in progress,
/// polling fails as timed out after exactly that many reads.
pub proof fn lemma_times_out(config: PollConfig, answers: Seq<StatusReport>)
    requires
        config.max_attempts <= answers.len(),
        forall|i: int|
            0 <= i < config.max_attempts ==> settled_by(#[trigger] answers[i]) is InProgress,
    ensures
        run_of(config, answers) == (Run {
            outcome: Some(Err(PollFailure::PollingTimedOut)),
            reads: config.max_attempts as nat,
        }),
{
    lemma_skips_reads_in_progress(config, answers, 0, config.max_attempts as nat);
}

/// Where the first read is answered with success and a status that is
/// neither in progress nor success, polling fails at once with that status,
/// after one read.
pub proof fn lemma_failure_ends_polling(
    config: PollConfig,
    answers: Seq<StatusReport>,
    status: Seq<char>,
)
    requires
        config.max_attempts >= 1,
        answers.len() >= 1,
        is_success_code(answers[0].http_code),
        answers[0].status == Some(status),
        status_kind(status) == StatusKind::Other,
    ensures
        run_of(config, answers) == (Run {
            outcome: Some(Err(PollFailure::RemoteJobFailed(status))),
            reads: 1,
        }),
{
}

/// Reads that find the job in progress are passed over.
proof fn lemma_skips_reads_in_progress(
    config: PollConfig,
    answers: Seq<StatusReport>,
    k: nat,
    n: nat,
)
    requires
        k <= n <= config.max_attempts,
        n <= answers.len(),
        forall|i: int| k <= i < n ==> settled_by(#[trigger] answers[i]) is InProgress,
    ensures
        run_from(config, answers, k) == run_from(config, answers, n),
    decreases n - k,
{
    if k < n {
        lemma_skips_reads_in_progress(config, answers, k + 1, n);
    }
}

} // verus!
