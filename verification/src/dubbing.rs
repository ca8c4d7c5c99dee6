use vstd::prelude::*;
use crate::gpu::adaptive_interval;
use crate::gpu::get_adaptive_interval;
use crate::text::{
    chars_of, str_eq, string_from_chars, copy_str, starts_with, starts_with_exec, find_from,
    find_from_exec, lemma_find_from_bounds, sub_chars, append_chars, signed_decimal, i64_decimal,
    chars_eq,
};

verus! {

/// The part of the pipeline a step belongs to.
#[derive(Clone, Copy, Debug, PartialEq, Eq, Structural)]
pub enum PipelineStage {
    Preparation,
    Finalization,
}

pub open spec fn stage_name(s: PipelineStage) -> Seq<char> {
    match s {
        PipelineStage::Preparation => "preparation"@,
        PipelineStage::Finalization => "finalization"@,
    }
}

impl PipelineStage {
    /// The stage's name as shown to clients.
    pub fn as_str(&self) -> (res: &'static str)
        ensures
            res@ == stage_name(*self),
    {
        match self {
            PipelineStage::Preparation => "preparation",
            PipelineStage::Finalization => "finalization",
        }
    }
}

/// The stage of a step that the backend itself reports, by its description.
pub open spec fn backend_step_stage(d: Seq<char>) -> Option<PipelineStage> {
    if d == "Preparing pipeline..."@ || d == "Setting up technical environment..."@ || d
        == "Resurrecting system components..."@ || d == "Warming up GPUs..."@ || d
        == "Checking technical readiness..."@ || d == "Launching processing pipeline..."@ {
        Some(PipelineStage::Preparation)
    } else if d == "Retrieving result urls..."@ || d
        == "Processing pipeline successfully completed!"@ {
        Some(PipelineStage::Finalization)
    } else {
        None
    }
}

fn backend_step_stage_exec(d: &str) -> (res: Option<PipelineStage>)
    ensures
        res == backend_step_stage(d@),
{
    if str_eq(d, "Preparing pipeline...") || str_eq(d, "Setting up technical environment...")
        || str_eq(d, "Resurrecting system components...") || str_eq(d, "Warming up GPUs...")
        || str_eq(d, "Checking technical readiness...") || str_eq(
        d,
        "Launching processing pipeline...",
    ) {
        Some(PipelineStage::Preparation)
    } else if str_eq(d, "Retrieving result urls...") || str_eq(
        d,
        "Processing pipeline successfully completed!",
    ) {
        Some(PipelineStage::Finalization)
    } else {
        None
    }
}

/// Where `d` first stands among `steps`.
pub open spec fn step_position(steps: Seq<String>, d: Seq<char>) -> Option<int>
    decreases steps.len(),
{
    if steps.len() == 0 {
        None
    } else if steps[0]@ == d {
        Some(0)
    } else {
        match step_position(steps.subrange(1, steps.len() as int), d) {
            Some(p) => Some(p + 1),
            None => None,
        }
    }
}

pub proof fn lemma_step_position(steps: Seq<String>, d: Seq<char>)
    ensures
        match step_position(steps, d) {
            Some(p) => 0 <= p < steps.len() && steps[p]@ == d && forall|j: int|
                0 <= j < p ==> steps[j]@ != d,
            None => forall|j: int| 0 <= j < steps.len() ==> steps[j]@ != d,
        },
    decreases steps.len(),
{
    if steps.len() > 0 && steps[0]@ != d {
        let rest = steps.subrange(1, steps.len() as int);
        lemma_step_position(rest, d);
        assert forall|j: int| 1 <= j < steps.len() implies steps[j] == rest[j - 1] by {}
    }
}

fn find_step(steps: &Vec<String>, d: &str) -> (res: Option<usize>)
    ensures
        match res {
            Some(p) => step_position(steps@, d@) == Some(p as int),
            None => step_position(steps@, d@) is None,
        },
{
    proof {
        lemma_step_position(steps@, d@);
    }
    let mut k: usize = 0;
    while k < steps.len()
        invariant
            k <= steps@.len(),
            forall|j: int| 0 <= j < k ==> steps@[j]@ != d@,
        decreases steps.len() - k,
    {
        if str_eq(steps[k].as_str(), d) {
            proof {
                lemma_step_position(steps@, d@);
                if step_position(steps@, d@) is Some {
                    let p = step_position(steps@, d@)->0;
                    assert(!(p < k));
                    assert(!(p > k));
                }
            }
            return Some(k);
        }
        k = k + 1;
    }
    proof {
        lemma_step_position(steps@, d@);
        if step_position(steps@, d@) is Some {
            let p = step_position(steps@, d@)->0;
            assert(steps@[p]@ == d@);
        }
    }
    None
}

/// The stage name of a step description ("processing" for a step of the
/// dubbing service), and the step's place among the job's steps.
pub open spec fn stage_info(d: Seq<char>, steps: Option<Seq<String>>) -> (Seq<char>, Option<int>) {
    let stage = match backend_step_stage(d) {
        Some(s) => stage_name(s),
        None => "processing"@,
    };
    let index = match steps {
        Some(st) => step_position(st, d),
        None => None,
    };
    (stage, index)
}

pub open spec fn steps_view(steps: Option<&Vec<String>>) -> Option<Seq<String>> {
    match steps {
        Some(v) => Some(v@),
        None => None,
    }
}

/// The stage name of the step described by `step_description`, and its
/// place among `processing_steps`.
pub fn determine_stage_info(step_description: &str, processing_steps: Option<&Vec<String>>) -> (res: (
    String,
    Option<i32>,
))
    requires
        processing_steps matches Some(v) ==> v@.len() <= i32::MAX,
    ensures
        res.0@ == stage_info(step_description@, steps_view(processing_steps)).0,
        match (res.1, stage_info(step_description@, steps_view(processing_steps)).1) {
            (Some(i), Some(j)) => i as int == j,
            (None, None) => true,
            _ => false,
        },
{
    let stage = match backend_step_stage_exec(step_description) {
        Some(s) => copy_str(s.as_str()),
        None => copy_str("processing"),
    };
    let index = match processing_steps {
        Some(steps) => match find_step(steps, step_description) {
            Some(p) => {
                proof {
                    lemma_step_position(steps@, step_description@);
                }
                Some(p as i32)
            },
            None => None,
        },
        None => None,
    };
    (stage, index)
}

/// Whether a job status is final: the pipeline records its completion time.
pub open spec fn is_terminal(status: Seq<char>) -> bool {
    status == "completed"@ || status == "failed"@
}

/// Whether a job with this status has finished, well or not.
pub fn is_terminal_status(status: &str) -> (res: bool)
    ensures
        res == is_terminal(status@),
{
    str_eq(status, "completed") || str_eq(status, "failed")
}

/// What an object address names.
pub enum S3Location {
    /// Not an `s3://` address: it is used as it is.
    Plain,
    /// Bucket and object key.
    Object { bucket: String, key: String },
    /// An `s3://` address without a key.
    MissingKey,
}

pub enum S3LocationView {
    Plain,
    Object { bucket: Seq<char>, key: Seq<char> },
    MissingKey,
}

impl View for S3Location {
    type V = S3LocationView;

    open spec fn view(&self) -> S3LocationView {
        match self {
            S3Location::Plain => S3LocationView::Plain,
            S3Location::Object { bucket, key } => S3LocationView::Object {
                bucket: bucket@,
                key: key@,
            },
            S3Location::MissingKey => S3LocationView::MissingKey,
        }
    }
}

/// An `s3://` address names the bucket before the first slash of the rest and
/// the key after it.
pub open spec fn s3_location_of(url: Seq<char>) -> S3LocationView {
    if !starts_with(url, "s3://"@) {
        S3LocationView::Plain
    } else {
        let path = url.skip(5);
        match find_from(path, "/"@, 0) {
            None => S3LocationView::MissingKey,
            Some(p) => S3LocationView::Object {
                bucket: path.subrange(0, p),
                key: path.subrange(p + 1, path.len() as int),
            },
        }
    }
}

/// Reads an object address.
pub fn s3_location(url: &str) -> (res: S3Location)
    ensures
        res@ == s3_location_of(url@),
{
    let u = chars_of(url);
    let prefix = chars_of("s3://");
    proof {
        reveal_strlit("s3://");
    }
    if !starts_with_exec(u.as_slice(), prefix.as_slice()) {
        return S3Location::Plain;
    }
    let path = sub_chars(u.as_slice(), 5, u.len());
    assert(path@ =~= u@.skip(5));
    let slash: Vec<char> = vec!['/'];
    assert(slash@ =~= "/"@) by {
        reveal_strlit("/");
    }
    let found = find_from_exec(path.as_slice(), slash.as_slice(), 0);
    proof {
        lemma_find_from_bounds(path@, slash@, 0);
    }
    match found {
        None => S3Location::MissingKey,
        Some(p) => {
            assert(p + 1 <= path@.len());
            let bucket = sub_chars(path.as_slice(), 0, p);
            let key = sub_chars(path.as_slice(), p + 1, path.len());
            S3Location::Object {
                bucket: string_from_chars(bucket.as_slice()),
                key: string_from_chars(key.as_slice()),
            }
        },
    }
}

/// The address of an object: `s3://` then bucket, a slash and the key.
pub open spec fn s3_url_of(bucket: Seq<char>, key: Seq<char>) -> Seq<char> {
    "s3://"@ + bucket + "/"@ + key
}

/// The address of object `key` in `bucket`.
pub fn s3_url(bucket: &str, key: &str) -> (res: String)
    ensures
        res@ == s3_url_of(bucket@, key@),
{
    let mut out = chars_of("s3://");
    let b = chars_of(bucket);
    append_chars(&mut out, &b);
    let slash = chars_of("/");
    append_chars(&mut out, &slash);
    let k = chars_of(key);
    append_chars(&mut out, &k);
    string_from_chars(&out)
}

/// Reading an object address gives back the bucket and key it was made
/// from, for a bucket without a slash.
pub proof fn lemma_s3_url_round_trip(bucket: Seq<char>, key: Seq<char>)
    requires
        !bucket.contains('/'),
    ensures
        s3_location_of(s3_url_of(bucket, key)) == (S3LocationView::Object { bucket, key }),
{
    reveal_strlit("s3://");
    reveal_strlit("/");
    let url = s3_url_of(bucket, key);
    assert(url.take(5) =~= "s3://"@);
    let path = url.skip(5);
    assert(path =~= bucket + "/"@ + key);
    crate::text::lemma_find_from(path, "/"@, 0);
    assert(crate::text::occurs_at(path, "/"@, bucket.len() as int)) by {
        assert(path.subrange(bucket.len() as int, bucket.len() + 1int) =~= "/"@);
    }
    assert forall|j: int| 0 <= j < bucket.len() implies !crate::text::occurs_at(path, "/"@, j) by {
        if crate::text::occurs_at(path, "/"@, j) {
            assert(path.subrange(j, j + 1)[0] == path[j]);
            assert(bucket[j] == '/');
        }
    }
    assert(find_from(path, "/"@, 0) == Some(bucket.len() as int));
    assert(path.subrange(0, bucket.len() as int) =~= bucket);
    assert(path.subrange(bucket.len() + 1int, path.len() as int) =~= key);
}


/// Status checks of a running job before the pipeline gives up waiting.
pub const MAX_STATUS_CHECKS: u32 = 600;

/// From this check on, a failed status query ends the monitoring.
pub const STATUS_ERROR_LIMIT: u32 = 3;

/// Readiness probes of a woken instance before the pipeline gives up.
pub const MAX_READINESS_ATTEMPTS: u32 = 30;

/// Seconds between two readiness probes.
pub const READINESS_RETRY_SECS: u64 = 10;

/// What one status check of a running job returned.
pub enum JobPoll {
    /// The job's status text.
    Reported(String),
    /// The status query failed.
    Unreachable,
}

/// What the monitor does after a status check.
#[derive(Clone, Copy, Debug, PartialEq, Eq, Structural)]
pub enum MonitorAction {
    /// The job completed: fetch its result and stop checking.
    FetchResult,
    /// The job failed: record it and stop checking.
    RecordJobFailure,
    /// Too many failed queries: record that and end the pipeline.
    GiveUp,
    /// Wait this many seconds, then check again (unless the checks are used up).
    Wait(u64),
}

pub open spec fn monitor_action_of(check_number: u32, poll: Option<Seq<char>>) -> MonitorAction {
    match poll {
        Some(st) => if st == "completed"@ {
            MonitorAction::FetchResult
        } else if st == "failed"@ {
            MonitorAction::RecordJobFailure
        } else {
            MonitorAction::Wait(adaptive_interval(check_number))
        },
        None => if check_number >= STATUS_ERROR_LIMIT {
            MonitorAction::GiveUp
        } else {
            MonitorAction::Wait(adaptive_interval(check_number))
        },
    }
}

pub open spec fn poll_view(p: &JobPoll) -> Option<Seq<char>> {
    match p {
        JobPoll::Reported(s) => Some(s@),
        JobPoll::Unreachable => None,
    }
}

/// What the monitor does after status check `check_number`.
pub fn monitor_step(check_number: u32, poll: &JobPoll) -> (res: MonitorAction)
    ensures
        res == monitor_action_of(check_number, poll_view(poll)),
{
    match poll {
        JobPoll::Reported(st) => if str_eq(st.as_str(), "completed") {
            MonitorAction::FetchResult
        } else if str_eq(st.as_str(), "failed") {
            MonitorAction::RecordJobFailure
        } else {
            MonitorAction::Wait(get_adaptive_interval(check_number))
        },
        JobPoll::Unreachable => if check_number >= STATUS_ERROR_LIMIT {
            MonitorAction::GiveUp
        } else {
            MonitorAction::Wait(get_adaptive_interval(check_number))
        },
    }
}

/// A job whose status is neither "completed" nor "failed" is checked again
/// after the adaptive interval.
pub proof fn lemma_monitor_running_job_waits(check_number: u32, status: Seq<char>)
    requires
        !is_terminal(status),
    ensures
        monitor_action_of(check_number, Some(status)) == MonitorAction::Wait(
            adaptive_interval(check_number),
        ),
{
}

/// What the pipeline record is set to.
pub struct PipelineUpdate {
    pub status: String,
    pub step_description: String,
    pub progress_percentage: Option<i32>,
    pub error_message: Option<String>,
}

pub struct UpdateView {
    pub status: Seq<char>,
    pub step_description: Seq<char>,
    pub progress_percentage: Option<i32>,
    pub error_message: Option<Seq<char>>,
}

impl View for PipelineUpdate {
    type V = UpdateView;

    open spec fn view(&self) -> UpdateView {
        UpdateView {
            status: self.status@,
            step_description: self.step_description@,
            progress_percentage: self.progress_percentage,
            error_message: match self.error_message {
                Some(e) => Some(e@),
                None => None,
            },
        }
    }
}

pub open spec fn update_of(
    status: Seq<char>,
    step: Seq<char>,
    progress: i32,
    error: Option<Seq<char>>,
) -> UpdateView {
    UpdateView {
        status,
        step_description: step,
        progress_percentage: Some(progress),
        error_message: error,
    }
}

fn make_update(status: &str, step: &str, progress: i32, error: Option<String>) -> (res: PipelineUpdate)
    ensures
        res@ == update_of(
            status@,
            step@,
            progress,
            match error {
                Some(e) => Some(e@),
                None => None,
            },
        ),
{
    PipelineUpdate {
        status: copy_str(status),
        step_description: copy_str(step),
        progress_percentage: Some(progress),
        error_message: error,
    }
}

fn prefixed(prefix: &str, detail: &str) -> (res: String)
    ensures
        res@ == prefix@ + detail@,
{
    let mut out = chars_of(prefix);
    let d = chars_of(detail);
    append_chars(&mut out, &d);
    string_from_chars(&out)
}

/// How the wait for a job's result ended.
pub enum JobOutcome {
    /// The checks ran out (or the job failed) before a result was fetched.
    NoResult,
    /// Fetching the result failed with this message.
    ResultFetchFailed(String),
    /// The result holds no file addresses.
    NoResultUrls,
    /// The file addresses were made downloadable.
    UrlsReady,
    /// Making the addresses downloadable failed with this message.
    UrlProcessingFailed(String),
}

pub open spec fn outcome_update(o: &JobOutcome) -> UpdateView {
    match o {
        JobOutcome::NoResult => update_of(
            "failed"@,
            "Timeout"@,
            0,
            Some("Maximum waiting time exceeded"@),
        ),
        JobOutcome::ResultFetchFailed(e) => update_of(
            "failed"@,
            "Failed to get dubbing job results"@,
            0,
            Some("Failed to get dubbing job results: "@ + e@),
        ),
        JobOutcome::NoResultUrls => update_of(
            "failed"@,
            "No result urls"@,
            0,
            Some("Job completed but no result URLs provided"@),
        ),
        JobOutcome::UrlsReady => update_of(
            "completed"@,
            "Processing pipeline successfully completed!"@,
            100,
            None,
        ),
        JobOutcome::UrlProcessingFailed(e) => update_of(
            "failed"@,
            "Failed to process result urls"@,
            0,
            Some("Failed to process result URLs: "@ + e@),
        ),
    }
}

/// The final record of a pipeline once waiting for its result has ended.
pub fn final_pipeline_update(o: &JobOutcome) -> (res: PipelineUpdate)
    ensures
        res@ == outcome_update(o),
{
    match o {
        JobOutcome::NoResult => make_update(
            "failed",
            "Timeout",
            0,
            Some(copy_str("Maximum waiting time exceeded")),
        ),
        JobOutcome::ResultFetchFailed(e) => make_update(
            "failed",
            "Failed to get dubbing job results",
            0,
            Some(prefixed("Failed to get dubbing job results: ", e.as_str())),
        ),
        JobOutcome::NoResultUrls => make_update(
            "failed",
            "No result urls",
            0,
            Some(copy_str("Job completed but no result URLs provided")),
        ),
        JobOutcome::UrlsReady => make_update(
            "completed",
            "Processing pipeline successfully completed!",
            100,
            None,
        ),
        JobOutcome::UrlProcessingFailed(e) => make_update(
            "failed",
            "Failed to process result urls",
            0,
            Some(prefixed("Failed to process result URLs: ", e.as_str())),
        ),
    }
}

pub open spec fn monitor_update(action: MonitorAction, job_error: Option<Seq<char>>, query_error: Seq<char>) -> Option<UpdateView> {
    match action {
        MonitorAction::FetchResult => Some(
            update_of("preparing_results"@, "Retrieving result urls..."@, 99, None),
        ),
        MonitorAction::RecordJobFailure => Some(
            update_of("failed"@, "Dubbing job failed"@, 0, job_error),
        ),
        MonitorAction::GiveUp => Some(
            update_of(
                "failed"@,
                "Failed to get dubbing job status"@,
                0,
                Some("Failed to get dubbing job status: "@ + query_error),
            ),
        ),
        MonitorAction::Wait(_) => None,
    }
}

/// The record written when the monitor acts: `job_error` is the error the
/// failed job reported, `query_error` the message of the failed status query.
pub fn monitor_step_update(action: MonitorAction, job_error: Option<String>, query_error: &str) -> (res:
    Option<PipelineUpdate>)
    ensures
        match (res, monitor_update(
            action,
            match job_error {
                Some(e) => Some(e@),
                None => None,
            },
            query_error@,
        )) {
            (Some(u), Some(v)) => u@ == v,
            (None, None) => true,
            _ => false,
        },
{
    match action {
        MonitorAction::FetchResult => Some(
            make_update("preparing_results", "Retrieving result urls...", 99, None),
        ),
        MonitorAction::RecordJobFailure => Some(
            make_update("failed", "Dubbing job failed", 0, job_error),
        ),
        MonitorAction::GiveUp => Some(
            make_update(
                "failed",
                "Failed to get dubbing job status",
                0,
                Some(prefixed("Failed to get dubbing job status: ", query_error)),
            ),
        ),
        MonitorAction::Wait(_) => None,
    }
}

/// The step shown for a status report: its description, else the step number.
pub open spec fn step_text(description: Option<Seq<char>>, step: Option<i32>) -> Seq<char> {
    match description {
        Some(d) => d,
        None => "Processing step "@ + signed_decimal(
            match step {
                Some(n) => n as int,
                None => 0,
            },
        ),
    }
}

/// The step shown for a status report.
pub fn step_description_or_default(description: Option<&str>, step: Option<i32>) -> (res: String)
    ensures
        res@ == step_text(
            match description {
                Some(d) => Some(d@),
                None => None,
            },
            step,
        ),
{
    match description {
        Some(d) => copy_str(d),
        None => {
            let n: i32 = match step {
                Some(n) => n,
                None => 0,
            };
            let mut out = chars_of("Processing step ");
            let digits = i64_decimal(n as i64);
            append_chars(&mut out, &digits);
            string_from_chars(&out)
        },
    }
}

/// A status report of a dubbing job, as the dubbing service gives it.
pub struct JobStatusReport {
    pub status: String,
    pub step: Option<i32>,
    pub step_description: Option<String>,
    pub progress_percentage: Option<i32>,
    pub error_message: Option<String>,
    pub processing_steps: Option<Vec<String>>,
    /// Where the service wants a human review (a storage address), if it does.
    pub review_required_url: Option<String>,
}

/// What is written to the pipeline's record after a status report.
pub struct ProgressRecord {
    pub status: String,
    pub step_description: String,
    pub progress_percentage: Option<i32>,
    pub error_message: Option<String>,
    pub processing_steps: Option<Vec<String>>,
    /// The signed link to the review, when one is wanted and could be signed.
    pub review_url: Option<String>,
    pub step: Option<i32>,
    /// Whether the record gets its completion time ("completed" or "failed").
    pub finished: bool,
}

/// The record written after each successful status check: the report's status,
/// step, progress, error and processing steps as they are; its step description,
/// or "Processing step <n>"; the signed review link (`signed_review_url`, what
/// signing the review address gave) only where the report asks for a review;
/// and a completion time when the job has finished.
pub fn progress_record(report: JobStatusReport, signed_review_url: Option<String>) -> (res: ProgressRecord)
    ensures
        res.status == report.status,
        res.step_description@ == step_text(
            match report.step_description {
                Some(d) => Some(d@),
                None => None,
            },
            report.step,
        ),
        res.progress_percentage == report.progress_percentage,
        res.error_message == report.error_message,
        res.processing_steps == report.processing_steps,
        res.review_url == (if report.review_required_url is Some {
            signed_review_url
        } else {
            None
        }),
        res.step == report.step,
        res.finished == is_terminal(report.status@),
{
    let step_description = match &report.step_description {
        Some(d) => step_description_or_default(Some(d.as_str()), report.step),
        None => step_description_or_default(None, report.step),
    };
    let review_url = if report.review_required_url.is_some() {
        signed_review_url
    } else {
        None
    };
    let finished = is_terminal_status(report.status.as_str());
    ProgressRecord {
        status: report.status,
        step_description,
        progress_percentage: report.progress_percentage,
        error_message: report.error_message,
        processing_steps: report.processing_steps,
        review_url,
        step: report.step,
        finished,
    }
}

/// How a GPU instance is brought up for a job, by its cloud status.
#[derive(Clone, Copy, Debug, PartialEq, Eq, Structural)]
pub enum GpuInitPlan {
    /// Shelved: unshelve it, wait until active, then probe readiness.
    WakeUp,
    /// Active: one health check.
    CheckHealth,
    /// Any other state: the pipeline fails.
    Unexpected,
}

pub open spec fn gpu_init_plan_of(status: Seq<char>) -> GpuInitPlan {
    if status == "SHELVED_OFFLOADED"@ || status == "SHELVED"@ {
        GpuInitPlan::WakeUp
    } else if status == "ACTIVE"@ {
        GpuInitPlan::CheckHealth
    } else {
        GpuInitPlan::Unexpected
    }
}

/// How to bring up the instance whose cloud status is `status`.
pub fn gpu_init_plan(status: &str) -> (res: GpuInitPlan)
    ensures
        res == gpu_init_plan_of(status@),
{
    if str_eq(status, "SHELVED_OFFLOADED") || str_eq(status, "SHELVED") {
        GpuInitPlan::WakeUp
    } else if str_eq(status, "ACTIVE") {
        GpuInitPlan::CheckHealth
    } else {
        GpuInitPlan::Unexpected
    }
}

/// After readiness probe `attempt` of a woken instance.
#[derive(Clone, Copy, Debug, PartialEq, Eq, Structural)]
pub enum Readiness {
    Ready,
    RetryAfter(u64),
    GiveUp,
}

pub open spec fn readiness_of(attempt: u32, healthy: bool) -> Readiness {
    if healthy {
        Readiness::Ready
    } else if attempt == MAX_READINESS_ATTEMPTS {
        Readiness::GiveUp
    } else {
        Readiness::RetryAfter(READINESS_RETRY_SECS)
    }
}

/// What follows readiness probe `attempt`, `healthy` being its answer.
pub fn readiness_step(attempt: u32, healthy: bool) -> (res: Readiness)
    ensures
        res == readiness_of(attempt, healthy),
{
    if healthy {
        Readiness::Ready
    } else if attempt == MAX_READINESS_ATTEMPTS {
        Readiness::GiveUp
    } else {
        Readiness::RetryAfter(READINESS_RETRY_SECS)
    }
}

/// The record of a pipeline whose GPU instance could not be prepared.
pub fn gpu_init_failed_update(error: &str) -> (res: PipelineUpdate)
    ensures
        res@ == update_of(
            "failed"@,
            "Technical environment initialization failed"@,
            0,
            Some("Failed to prepare GPU service: "@ + error@),
        ),
{
    make_update(
        "failed",
        "Technical environment initialization failed",
        0,
        Some(prefixed("Failed to prepare GPU service: ", error)),
    )
}

/// The record of a pipeline whose job could not be submitted.
pub fn submission_failed_update(error: &str) -> (res: PipelineUpdate)
    ensures
        res@ == update_of(
            "failed"@,
            "Processing pipeline launch failed"@,
            0,
            Some("Failed to submit job: "@ + error@),
        ),
{
    make_update(
        "failed",
        "Processing pipeline launch failed",
        0,
        Some(prefixed("Failed to submit job: ", error)),
    )
}

/// Where an uploaded video is stored: `uploads/<job>/input/<file>`.
pub fn upload_key(job_id: &str, file_name: &str) -> (res: String)
    ensures
        res@ == "uploads/"@ + job_id@ + "/input/"@ + file_name@,
{
    let mut out = chars_of("uploads/");
    let j = chars_of(job_id);
    append_chars(&mut out, &j);
    let mid = chars_of("/input/");
    append_chars(&mut out, &mid);
    let f = chars_of(file_name);
    append_chars(&mut out, &f);
    string_from_chars(&out)
}

/// Where a corrected transcription of a job is uploaded.
pub fn review_upload_key(job_id: &str) -> (res: String)
    ensures
        res@ == "jobs/"@ + job_id@ + "/review_required/transcription_corrected.json"@,
{
    let mut out = chars_of("jobs/");
    let j = chars_of(job_id);
    append_chars(&mut out, &j);
    let tail = chars_of("/review_required/transcription_corrected.json");
    append_chars(&mut out, &tail);
    string_from_chars(&out)
}

/// The configured bucket, else `default-bucket`.
pub fn bucket_or_default(configured: Option<&str>) -> (res: String)
    ensures
        res@ == match configured {
            Some(b) => b@,
            None => "default-bucket"@,
        },
{
    match configured {
        Some(b) => copy_str(b),
        None => copy_str("default-bucket"),
    }
}

} // verus!
