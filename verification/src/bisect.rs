//! Jobs, their records, and the classification of what the bisection tool printed.

use crate::db::add_bisection;
use crate::db::update_bisection_status;
use crate::db::StoreError;
use crate::options::Options;
use crate::text::chars_of;
use crate::text::decode_text;
use crate::text::find_last;
use crate::text::join_lines;
use crate::text::last_lines;
use crate::text::last_occurrence;
use crate::text::lemma_last_lines;
use crate::text::lemma_last_occurrence_exists;
use crate::text::lemma_last_occurrence_unique;
use crate::text::lines_of;
use crate::text::occurs_at;
use crate::text::occurs;
use crate::text::tail_of_lines;
use vstd::prelude::*;
use vstd::utf8::decode_utf8;
use vstd::utf8::valid_utf8;

verus! {

/// How many lines of the tool's diagnostics a failed job keeps.
pub const EXCERPT_LINES: usize = 30;

/// The header with which the tool begins its summary.
pub open spec fn summary_marker() -> Seq<char> {
    "searched nightlies:"@
}

/// What a record shows where the tool could not be run or its output not be read.
pub open spec fn internal_error_text() -> Seq<char> {
    "Internal error"@
}

/// Where a job stands: being worked on, or ended one way or the other.
#[derive(Clone, Debug, PartialEq, Eq)]
pub enum BisectStatus {
    InProgress,
    Error { output: String },
    Success { output: String },
}

/// A status with its text as a sequence of characters.
pub enum StatusView {
    InProgress,
    Error { output: Seq<char> },
    Success { output: Seq<char> },
}

impl StatusView {
    /// A status that ends a job's life.
    pub open spec fn is_terminal(self) -> bool {
        !(self is InProgress)
    }

    /// The changes of status that a record can go through: from in progress to one of
    /// the two ends, and nothing else.
    pub open spec fn may_become(self, next: StatusView) -> bool {
        self is InProgress && next.is_terminal()
    }
}

impl View for BisectStatus {
    type V = StatusView;

    open spec fn view(&self) -> StatusView {
        match self {
            BisectStatus::InProgress => StatusView::InProgress,
            BisectStatus::Error { output } => StatusView::Error { output: output@ },
            BisectStatus::Success { output } => StatusView::Success { output: output@ },
        }
    }
}

/// The persistent record of one job.
#[derive(Clone, Debug, PartialEq, Eq)]
pub struct Bisection {
    pub id: u128,
    pub code: String,
    pub status: BisectStatus,
}

/// A record over sequences of characters.
pub struct BisectionView {
    pub id: u128,
    pub code: Seq<char>,
    pub status: StatusView,
}

impl View for Bisection {
    type V = BisectionView;

    open spec fn view(&self) -> BisectionView {
        BisectionView { id: self.id, code: self.code@, status: self.status@ }
    }
}

/// A submission on its way through the queue.
#[derive(Debug)]
pub struct Job {
    id: u128,
    code: String,
    options: Options,
}

/// A job over sequences of characters.
pub struct JobView {
    pub id: u128,
    pub code: Seq<char>,
    pub options: crate::options::OptionsView,
}

impl View for Job {
    type V = JobView;

    closed spec fn view(&self) -> JobView {
        JobView { id: self.id, code: self.code@, options: self.options@ }
    }
}

impl Job {
    /// A job with this identifier, code and options.
    pub fn new(id: u128, code: String, options: Options) -> (job: Job)
        ensures
            job@ == (JobView { id, code: code@, options: options@ }),
    {
        Job { id, code, options }
    }

    /// The identifier that the job was given when it was submitted.
    pub fn id(&self) -> (id: u128)
        ensures
            id == self@.id,
    {
        self.id
    }

    /// The source text to bisect.
    pub fn code(&self) -> (code: &String)
        ensures
            code@ == self@.code,
    {
        &self.code
    }

    /// The options of the bisection.
    pub fn options(&self) -> (options: &Options)
        ensures
            options@ == self@.options,
    {
        &self.options
    }
}

/// How the tool's run ended, by its exit status.
#[derive(Clone, Copy, Debug, PartialEq, Eq, Structural)]
pub enum JobState {
    Failed,
    Success,
}

impl JobState {
    /// The name of the state.
    pub fn status(&self) -> (name: &'static str)
        ensures
            name@ == match *self {
                JobState::Failed => "error"@,
                JobState::Success => "success"@,
            },
    {
        match self {
            JobState::Failed => "error",
            JobState::Success => "success",
        }
    }
}

/// Why a run of the tool gave no result to classify.
#[derive(Clone, Copy, Debug, PartialEq, Eq, Structural)]
pub enum RunnerFault {
    /// The workspace could not be created.
    Workspace,
    /// The project in the workspace could not be set up.
    Scaffold,
    /// The submitted code could not be written into the project.
    Source,
    /// A date of the options names no day.
    Date,
    /// The tool could not be started.
    Spawn,
    /// The tool's diagnostics are not valid UTF-8.
    Encoding,
    /// The tool reported success without its summary.
    MissingMarker,
}

/// What a finished run of the tool left behind.
#[derive(Clone, Debug, PartialEq, Eq)]
pub struct ToolOutput {
    /// Whether the tool exited with status zero.
    pub success: bool,
    pub stdout: Vec<u8>,
    pub stderr: Vec<u8>,
}

impl ToolOutput {
    /// The state that the exit status stands for.
    pub open spec fn spec_state(self) -> JobState {
        if self.success {
            JobState::Success
        } else {
            JobState::Failed
        }
    }

    /// The state that the exit status stands for.
    pub fn state(&self) -> (state: JobState)
        ensures
            state == self.spec_state(),
    {
        if self.success {
            JobState::Success
        } else {
            JobState::Failed
        }
    }
}

/// The status that the tool's diagnostics stand for. After a failed run it is an error
/// that shows their last lines. After a successful run it is a success that shows them
/// from the last summary header on, and a fault where they hold no such header.
pub open spec fn classify_text(text: Seq<char>, state: JobState) -> Result<
    StatusView,
    RunnerFault,
> {
    match state {
        JobState::Failed => Ok(
            StatusView::Error { output: join_lines(last_lines(text, EXCERPT_LINES as nat)) },
        ),
        JobState::Success => if occurs(text, summary_marker()) {
            Ok(
                StatusView::Success {
                    output: text.subrange(
                        last_occurrence(text, summary_marker()),
                        text.len() as int,
                    ),
                },
            )
        } else {
            Err(RunnerFault::MissingMarker)
        },
    }
}

/// The status that the raw diagnostics stand for: a fault where they are not text, else
/// what their text stands for.
pub open spec fn classify(stderr: Seq<u8>, state: JobState) -> Result<StatusView, RunnerFault> {
    if valid_utf8(stderr) {
        classify_text(decode_utf8(stderr), state)
    } else {
        Err(RunnerFault::Encoding)
    }
}

/// `r` is the result `expected`, text for text.
pub open spec fn status_result_is(
    r: Result<BisectStatus, RunnerFault>,
    expected: Result<StatusView, RunnerFault>,
) -> bool {
    match expected {
        Ok(status) => r is Ok && r->Ok_0@ == status,
        Err(fault) => r is Err && r->Err_0 == fault,
    }
}

/// Classifies the decoded diagnostics of a run that ended in `state`.
pub fn classify_output(text: &str, state: JobState) -> (r: Result<BisectStatus, RunnerFault>)
    ensures
        status_result_is(r, classify_text(text@, state)),
{
    match state {
        JobState::Failed => {
            let output = tail_of_lines(text, EXCERPT_LINES);
            Ok(BisectStatus::Error { output })
        },
        JobState::Success => {
            let chars = chars_of(text);
            let marker = chars_of("searched nightlies:");
            match find_last(&chars, &marker) {
                Some(cutoff) => {
                    proof {
                        lemma_last_occurrence_unique(text@, summary_marker(), cutoff as int);
                    }
                    let output = text.substring_char(cutoff, chars.len()).to_owned();
                    Ok(BisectStatus::Success { output })
                },
                None => Err(RunnerFault::MissingMarker),
            }
        },
    }
}

/// Classifies what a run of the tool that ended in `state` wrote to standard error.
pub fn process_result(output: ToolOutput, state: JobState) -> (r: Result<
    BisectStatus,
    RunnerFault,
>)
    ensures
        status_result_is(r, classify(output.stderr@, state)),
{
    match decode_text(output.stderr) {
        Some(stderr) => classify_output(stderr.as_str(), state),
        None => Err(RunnerFault::Encoding),
    }
}

/// The arguments with which the tool is started. It keeps the toolchains that it
/// installs, looks commits up at GitHub, gives each step thirty seconds, begins at
/// `start`, ends at `end` where there is one, and looks for regressions of the given
/// kind, or for internal compiler errors where none is given.
pub open spec fn arguments_of(
    start: Seq<char>,
    end: Option<Seq<char>>,
    kind: Option<Seq<char>>,
) -> Seq<Seq<char>> {
    seq!["--preserve"@, "--access"@, "github"@, "--timeout"@, "30"@, "--start"@, start] + (
    match end {
        Some(e) => seq!["--end"@, e],
        None => Seq::empty(),
    }) + seq![
        "--regress"@,
        match kind {
            Some(k) => k,
            None => "ice"@,
        },
    ]
}

/// The arguments for the options, or the fault where one of their dates names no day.
pub open spec fn tool_arguments_of(options: crate::options::OptionsView) -> Result<
    Seq<Seq<char>>,
    RunnerFault,
> {
    match options.start.text() {
        None => Err(RunnerFault::Date),
        Some(start) => match options.end {
            None => Ok(arguments_of(start, None, options.kind)),
            Some(end) => match end.text() {
                None => Err(RunnerFault::Date),
                Some(e) => Ok(arguments_of(start, Some(e), options.kind)),
            },
        },
    }
}

/// The characters of a text that may be absent.
pub open spec fn optional_text(text: Option<String>) -> Option<Seq<char>> {
    match text {
        Some(t) => Some(t@),
        None => None,
    }
}

/// The characters of a borrowed text that may be absent.
pub open spec fn optional_text_ref(text: Option<&String>) -> Option<Seq<char>> {
    match text {
        Some(t) => Some(t@),
        None => None,
    }
}

/// The arguments of the tool for the two dates as text and the kind of regression.
pub fn bisect_arguments(start: String, end: Option<String>, kind: Option<&String>) -> (args: Vec<
    String,
>)
    ensures
        args.deep_view() == arguments_of(start@, optional_text(end), optional_text_ref(kind)),
{
    let ghost expected = arguments_of(start@, optional_text(end), optional_text_ref(kind));
    let mut args: Vec<String> = Vec::new();
    args.push("--preserve".to_owned());
    args.push("--access".to_owned());
    args.push("github".to_owned());
    args.push("--timeout".to_owned());
    args.push("30".to_owned());
    args.push("--start".to_owned());
    args.push(start);
    match end {
        Some(e) => {
            args.push("--end".to_owned());
            args.push(e);
        },
        None => {},
    }
    args.push("--regress".to_owned());
    match kind {
        Some(k) => {
            args.push(k.clone());
        },
        None => {
            args.push("ice".to_owned());
        },
    }
    proof {
        assert(args.deep_view() =~= expected);
    }
    args
}

/// The arguments with which the tool is started for `options`.
pub fn tool_arguments(options: &Options) -> (r: Result<Vec<String>, RunnerFault>)
    ensures
        match tool_arguments_of(options@) {
            Ok(args) => r is Ok && r->Ok_0.deep_view() == args,
            Err(fault) => r is Err && r->Err_0 == fault,
        },
{
    let start = match options.start.to_text() {
        Some(text) => text,
        None => {
            return Err(RunnerFault::Date);
        },
    };
    let end = match options.end {
        Some(date) => match date.to_text() {
            Some(text) => Some(text),
            None => {
                return Err(RunnerFault::Date);
            },
        },
        None => None,
    };
    Ok(bisect_arguments(start, end, options.kind.as_ref()))
}

/// The status that a run stands for, where the run itself may have failed.
pub open spec fn outcome_of(run: Result<ToolOutput, RunnerFault>) -> Result<
    StatusView,
    RunnerFault,
> {
    match run {
        Ok(output) => classify(output.stderr@, output.spec_state()),
        Err(fault) => Err(fault),
    }
}

/// The status with which a job ends: what the tool's output stands for, or the
/// internal error where the run or the classification failed.
pub open spec fn final_status_of(run: Result<ToolOutput, RunnerFault>) -> StatusView {
    match outcome_of(run) {
        Ok(status) => status,
        Err(_) => StatusView::Error { output: internal_error_text() },
    }
}

/// Classifies a run of the tool; a run that failed stays the fault that it is.
pub fn bisect_job(run: Result<ToolOutput, RunnerFault>) -> (r: Result<BisectStatus, RunnerFault>)
    ensures
        status_result_is(r, outcome_of(run)),
{
    match run {
        Ok(output) => {
            let state = output.state();
            process_result(output, state)
        },
        Err(fault) => Err(fault),
    }
}

/// The fault on account of which a job ends in the internal error, if it does.
pub open spec fn fault_of(run: Result<ToolOutput, RunnerFault>) -> Option<RunnerFault> {
    match outcome_of(run) {
        Ok(_) => None,
        Err(fault) => Some(fault),
    }
}

/// The status with which the job of this run ends, and the fault that stands behind
/// an internal error.
pub fn final_status(run: Result<ToolOutput, RunnerFault>) -> (r: (
    BisectStatus,
    Option<RunnerFault>,
))
    ensures
        r.0@ == final_status_of(run),
        r.0@.is_terminal(),
        r.1 == fault_of(run),
{
    match bisect_job(run) {
        Ok(status) => (status, None),
        Err(fault) => (BisectStatus::Error { output: "Internal error".to_owned() }, Some(fault)),
    }
}

/// The record with which a job begins: its identifier, its code, in progress.
pub open spec fn initial_record(job: JobView) -> BisectionView {
    BisectionView { id: job.id, code: job.code, status: StatusView::InProgress }
}

/// The record with which a job ends: the same identifier and code, with the status
/// that the run stands for.
pub open spec fn final_record(
    record: BisectionView,
    run: Result<ToolOutput, RunnerFault>,
) -> BisectionView {
    BisectionView { id: record.id, code: record.code, status: final_status_of(run) }
}

/// Begins a job that was taken out of the queue: writes its record, in progress, to
/// the store. Where the store refuses the record the job is given up.
pub fn process_job(job: &Job, conn: &rusqlite::Connection) -> (r: Result<Bisection, StoreError>)
    ensures
        r is Ok ==> r->Ok_0@ == initial_record(job@),
        r is Err ==> r->Err_0 is Engine,
{
    let bisect = Bisection {
        id: job.id,
        code: job.code.clone(),
        status: BisectStatus::InProgress,
    };
    match add_bisection(conn, &bisect) {
        Ok(()) => Ok(bisect),
        Err(error) => Err(error),
    }
}

/// A job at its end.
#[derive(Debug)]
pub struct FinishedJob {
    /// The record with its final status.
    pub record: Bisection,
    /// Why the tool gave no result, where the job ended in the internal error.
    pub run_fault: Option<RunnerFault>,
    /// Why the final status is not in the store, where it is not.
    pub store_fault: Option<StoreError>,
}

/// Ends a job: gives its record the status that the run stands for and writes that
/// status to the store, once. Where the store refuses it, the stored record stays as
/// it was.
pub fn finish_job(
    record: Bisection,
    run: Result<ToolOutput, RunnerFault>,
    conn: &rusqlite::Connection,
) -> (done: FinishedJob)
    ensures
        done.record@ == final_record(record@, run),
        done.run_fault == fault_of(run),
        done.store_fault is Some ==> done.store_fault->0 is Engine,
{
    let (status, run_fault) = final_status(run);
    let bisect = Bisection { id: record.id, code: record.code, status };
    let store_fault = match update_bisection_status(conn, &bisect) {
        Ok(()) => None,
        Err(error) => Some(error),
    };
    FinishedJob { record: bisect, run_fault, store_fault }
}

/// What the worker is doing.
#[derive(Debug)]
pub enum WorkerState {
    /// It waits for the next job.
    Waiting,
    /// The tool runs on `job`, whose record is in the store.
    Running { job: Job, record: Bisection },
    /// The queue was closed; the worker has ended.
    Stopped,
}

/// A worker's state over sequences of characters.
pub enum WorkerStateView {
    Waiting,
    Running { job: JobView, record: BisectionView },
    Stopped,
}

impl View for WorkerState {
    type V = WorkerStateView;

    open spec fn view(&self) -> WorkerStateView {
        match self {
            WorkerState::Waiting => WorkerStateView::Waiting,
            WorkerState::Running { job, record } => WorkerStateView::Running {
                job: job@,
                record: record@,
            },
            WorkerState::Stopped => WorkerStateView::Stopped,
        }
    }
}

/// What happened outside the worker.
#[derive(Debug)]
pub enum WorkerEvent {
    /// A job came out of the queue.
    Received(Job),
    /// The queue was closed and is empty.
    Closed,
    /// The tool has run, or could not be run.
    Finished(Result<ToolOutput, RunnerFault>),
}

/// What the worker asks to be done next.
#[derive(Clone, Copy, Debug, PartialEq, Eq, Structural)]
pub enum WorkerAction {
    /// Wait for the next job of the queue.
    Receive,
    /// Run the tool on the job of the state.
    Run,
    /// End the loop.
    Stop,
}

/// A step of the worker: its new state, what it asks for, and what went wrong.
#[derive(Debug)]
pub struct WorkerStep {
    pub state: WorkerState,
    pub action: WorkerAction,
    /// Why the tool gave no result, where a job ended in the internal error.
    pub run_fault: Option<RunnerFault>,
    /// The error of the store, where a write failed.
    pub store_fault: Option<StoreError>,
}

impl WorkerStateView {
    /// A running job's record is the one that the job began with.
    pub open spec fn wf(self) -> bool {
        match self {
            WorkerStateView::Running { job, record } => record == initial_record(job),
            _ => true,
        }
    }

    /// What the worker asks for in this state.
    pub open spec fn awaited(self) -> WorkerAction {
        match self {
            WorkerStateView::Waiting => WorkerAction::Receive,
            WorkerStateView::Running { .. } => WorkerAction::Run,
            WorkerStateView::Stopped => WorkerAction::Stop,
        }
    }

    /// Whether the worker writes to the store when `event` reaches it in this state.
    pub open spec fn writes(self, event: WorkerEvent) -> bool {
        ||| self is Waiting && event is Received
        ||| self is Running && event is Finished
    }

    /// The fault behind the internal error in which a job ends when `event` reaches the
    /// worker in this state, if it ends so.
    pub open spec fn run_fault(self, event: WorkerEvent) -> Option<RunnerFault> {
        match (self, event) {
            (WorkerStateView::Running { .. }, WorkerEvent::Finished(run)) => fault_of(run),
            _ => None,
        }
    }

    /// The state after `event`, where `stored` says whether the write to the store, if
    /// there was one, went well. A waiting worker begins the job that it receives, or
    /// gives it up where its record could not be written, and stops when the queue is
    /// closed. A running worker waits again once the tool has finished, whether or not
    /// the final status could be written. Any other event changes nothing.
    pub open spec fn next(self, event: WorkerEvent, stored: bool) -> WorkerStateView {
        match (self, event) {
            (WorkerStateView::Waiting, WorkerEvent::Received(job)) => if stored {
                WorkerStateView::Running { job: job@, record: initial_record(job@) }
            } else {
                WorkerStateView::Waiting
            },
            (WorkerStateView::Waiting, WorkerEvent::Closed) => WorkerStateView::Stopped,
            (WorkerStateView::Running { .. }, WorkerEvent::Finished(_)) => WorkerStateView::Waiting,
            _ => self,
        }
    }
}

/// One step of the worker loop: takes the event that the last action led to, writes
/// to the store what the event calls for, and says what to do next.
pub fn bisect_worker(state: WorkerState, event: WorkerEvent, conn: &rusqlite::Connection) -> (step:
    WorkerStep)
    ensures
        step.state@ == state@.next(event, step.store_fault is None),
        step.action == step.state@.awaited(),
        step.run_fault == state@.run_fault(event),
        step.store_fault is Some ==> state@.writes(event) && step.store_fault->0 is Engine,
{
    match (state, event) {
        (WorkerState::Waiting, WorkerEvent::Received(job)) => match process_job(&job, conn) {
            Ok(record) => WorkerStep {
                state: WorkerState::Running { job, record },
                action: WorkerAction::Run,
                run_fault: None,
                store_fault: None,
            },
            Err(error) => WorkerStep {
                state: WorkerState::Waiting,
                action: WorkerAction::Receive,
                run_fault: None,
                store_fault: Some(error),
            },
        },
        (WorkerState::Waiting, WorkerEvent::Closed) => WorkerStep {
            state: WorkerState::Stopped,
            action: WorkerAction::Stop,
            run_fault: None,
            store_fault: None,
        },
        (WorkerState::Running { job, record }, WorkerEvent::Finished(run)) => {
            let done = finish_job(record, run, conn);
            WorkerStep {
                state: WorkerState::Waiting,
                action: WorkerAction::Receive,
                run_fault: done.run_fault,
                store_fault: done.store_fault,
            }
        },
        (WorkerState::Waiting, _) => WorkerStep {
            state: WorkerState::Waiting,
            action: WorkerAction::Receive,
            run_fault: None,
            store_fault: None,
        },
        (WorkerState::Running { job, record }, _) => WorkerStep {
            state: WorkerState::Running { job, record },
            action: WorkerAction::Run,
            run_fault: None,
            store_fault: None,
        },
        (WorkerState::Stopped, _) => WorkerStep {
            state: WorkerState::Stopped,
            action: WorkerAction::Stop,
            run_fault: None,
            store_fault: None,
        },
    }
}

/// A run that exits with status zero and prints the summary header ends in success,
/// and what the record shows is the diagnostics from the last header on: it begins
/// with the header, runs to the end of the diagnostics, and holds no second header.
pub proof fn lemma_success_shows_summary(output: ToolOutput)
    requires
        output.success,
        valid_utf8(output.stderr@),
        occurs(decode_utf8(output.stderr@), summary_marker()),
    ensures
        final_status_of(Ok(output)) is Success,
        fault_of(Ok(output)) is None,
        ({
            let text = decode_utf8(output.stderr@);
            let shown = final_status_of(Ok(output))->Success_output;
            let cutoff = last_occurrence(text, summary_marker());
            &&& occurs_at(text, summary_marker(), cutoff)
            &&& shown == text.subrange(cutoff, text.len() as int)
            &&& occurs_at(shown, summary_marker(), 0)
            &&& forall|j: int| 0 < j ==> !occurs_at(shown, summary_marker(), j)
        }),
{
    let text = decode_utf8(output.stderr@);
    let marker = summary_marker();
    lemma_last_occurrence_exists(text, marker);
    let cutoff = last_occurrence(text, marker);
    let shown = text.subrange(cutoff, text.len() as int);
    assert(shown.subrange(0, marker.len() as int) =~= text.subrange(cutoff, cutoff + marker.len()));
    assert forall|j: int| 0 < j implies !occurs_at(shown, marker, j) by {
        if occurs_at(shown, marker, j) {
            assert(text.subrange(cutoff + j, cutoff + j + marker.len()) =~= shown.subrange(
                j,
                j + marker.len(),
            ));
            assert(occurs_at(text, marker, cutoff + j));
        }
    }
}

/// A run that exits with another status ends in an error that shows the last lines of
/// the diagnostics, no more than `EXCERPT_LINES` of them, in the order in which they
/// were printed.
pub proof fn lemma_failure_shows_last_lines(output: ToolOutput)
    requires
        !output.success,
        valid_utf8(output.stderr@),
    ensures
        fault_of(Ok(output)) is None,
        ({
            let all = lines_of(decode_utf8(output.stderr@));
            let shown = last_lines(decode_utf8(output.stderr@), EXCERPT_LINES as nat);
            &&& final_status_of(Ok(output)) == StatusView::Error { output: join_lines(shown) }
            &&& shown.len() == if all.len() <= EXCERPT_LINES {
                all.len()
            } else {
                EXCERPT_LINES as nat
            }
            &&& forall|i: int|
                0 <= i < shown.len() ==> #[trigger] shown[i] == all[all.len() - shown.len() + i]
        }),
{
    lemma_last_lines(decode_utf8(output.stderr@), EXCERPT_LINES as nat);
}

/// A run that exits with status zero and prints no summary header ends in the
/// internal error, as does every run that could not be made or read.
pub proof fn lemma_fault_shows_internal_error(run: Result<ToolOutput, RunnerFault>)
    requires
        match run {
            Ok(output) => !valid_utf8(output.stderr@) || (output.success && !occurs(
                decode_utf8(output.stderr@),
                summary_marker(),
            )),
            Err(_) => true,
        },
    ensures
        final_status_of(run) == (StatusView::Error { output: internal_error_text() }),
        fault_of(run) is Some,
{
}

/// A record begins in progress under its job's identifier and ends, under the same
/// identifier and with the same code, in a status that ends the job; from that status
/// no change leads anywhere, and none leads back to in progress.
pub proof fn lemma_record_lifecycle(job: JobView, run: Result<ToolOutput, RunnerFault>)
    ensures
        initial_record(job).id == job.id,
        initial_record(job).status is InProgress,
        final_record(initial_record(job), run).id == job.id,
        final_record(initial_record(job), run).code == job.code,
        initial_record(job).status.may_become(final_record(initial_record(job), run).status),
        forall|next: StatusView| !final_record(initial_record(job), run).status.may_become(next),
{
    lemma_final_status_is_terminal(run);
}

/// Whatever a run gave, the status that it stands for ends the job.
pub proof fn lemma_final_status_is_terminal(run: Result<ToolOutput, RunnerFault>)
    ensures
        final_status_of(run).is_terminal(),
{
}

/// A change of status is never undone: no status that a record may take leads back
/// to in progress, and none leads from one end to the other.
pub proof fn lemma_status_one_way(before: StatusView, after: StatusView, later: StatusView)
    requires
        before.may_become(after),
    ensures
        after.is_terminal(),
        !after.may_become(later),
        !after.may_become(before),
{
}

/// A running job ends in one way only: the tool finishes, the final status is written,
/// and the worker waits again. Until then the job stays as it is.
pub proof fn lemma_running_ends_by_finishing(
    state: WorkerStateView,
    event: WorkerEvent,
    stored: bool,
)
    requires
        state is Running,
    ensures
        event is Finished ==> state.next(event, stored) is Waiting && state.writes(event),
        !(event is Finished) ==> state.next(event, stored) == state && !state.writes(event),
{
}

/// A record is begun only for a job that a waiting worker receives, and only where
/// the store took it; no other step leads into running.
pub proof fn lemma_running_begins_by_receiving(
    state: WorkerStateView,
    event: WorkerEvent,
    stored: bool,
)
    requires
        !(state is Running),
        state.next(event, stored) is Running,
    ensures
        state is Waiting,
        stored,
        event is Received,
        state.next(event, stored) == (WorkerStateView::Running {
            job: event->Received_0@,
            record: initial_record(event->Received_0@),
        }),
{
}

/// What a step of the worker hands to the store.
pub enum StoreWrite {
    /// A new record.
    Insert(BisectionView),
    /// A new status for the record with this record's identifier.
    Update(BisectionView),
}

impl WorkerStateView {
    /// What the worker hands to the store when `event` reaches it in this state: the
    /// record of the job that it begins, or the final record of the job that ends.
    pub open spec fn write(self, event: WorkerEvent) -> Option<StoreWrite> {
        match (self, event) {
            (WorkerStateView::Waiting, WorkerEvent::Received(job)) => Some(
                StoreWrite::Insert(initial_record(job@)),
            ),
            (WorkerStateView::Running { record, .. }, WorkerEvent::Finished(run)) => Some(
                StoreWrite::Update(final_record(record, run)),
            ),
            _ => None,
        }
    }

    /// The record of a running job is in the store as the worker holds it.
    pub open spec fn recorded_in(self, store: Map<u128, BisectionView>) -> bool {
        match self {
            WorkerStateView::Running { record, .. } => store.contains_key(record.id)
                && store[record.id] == record,
            _ => true,
        }
    }
}

/// A store that keeps one record under each identifier, after it took a write, or
/// after it refused one. An update changes the status of the record that it names and
/// nothing where the store has no such record.
pub open spec fn store_after(
    store: Map<u128, BisectionView>,
    write: Option<StoreWrite>,
    stored: bool,
) -> Map<u128, BisectionView> {
    match write {
        Some(StoreWrite::Insert(record)) => if stored {
            store.insert(record.id, record)
        } else {
            store
        },
        Some(StoreWrite::Update(record)) => if stored && store.contains_key(record.id) {
            store.insert(
                record.id,
                BisectionView { id: record.id, code: store[record.id].code, status: record.status },
            )
        } else {
            store
        },
        None => store,
    }
}

/// Over a store that keeps one record under each identifier and takes a new record only
/// under an identifier that it does not hold, a step of the worker never takes a record
/// away, never changes a record's identifier or code, and changes a status only from in
/// progress to one that ends the job; a record that it adds is in progress. The record
/// of the running job stays in the store as the worker holds it.
pub proof fn lemma_store_never_regresses(
    store: Map<u128, BisectionView>,
    state: WorkerStateView,
    event: WorkerEvent,
    stored: bool,
)
    requires
        state.wf(),
        state.recorded_in(store),
        forall|id: u128| store.contains_key(id) ==> (#[trigger] store[id]).id == id,
        stored ==> match state.write(event) {
            Some(StoreWrite::Insert(record)) => !store.contains_key(record.id),
            _ => true,
        },
    ensures
        state.write(event) is Some <==> state.writes(event),
        ({
            let after = store_after(store, state.write(event), stored);
            &&& state.next(event, stored).recorded_in(after)
            &&& forall|id: u128| after.contains_key(id) ==> (#[trigger] after[id]).id == id
            &&& forall|id: u128|
                store.contains_key(id) ==> {
                    &&& #[trigger] after.contains_key(id)
                    &&& after[id].code == store[id].code
                    &&& after[id].status == store[id].status || store[id].status.may_become(
                        after[id].status,
                    )
                }
            &&& forall|id: u128|
                #[trigger] after.contains_key(id) && !store.contains_key(id) ==> {
                    &&& after[id].status is InProgress
                    &&& event is Received
                    &&& id == event->Received_0@.id
                }
        }),
{
    match (state, event) {
        (WorkerStateView::Running { record, .. }, WorkerEvent::Finished(run)) => {
            lemma_final_status_is_terminal(run);
        },
        _ => {},
    }
}

/// Every step of the worker keeps its state well formed, whatever the store did.
pub proof fn lemma_step_keeps_wf(state: WorkerStateView, event: WorkerEvent, stored: bool)
    requires
        state.wf(),
    ensures
        state.next(event, stored).wf(),
{
}

} // verus!
