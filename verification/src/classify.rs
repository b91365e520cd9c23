use vstd::prelude::*;

use crate::status::JobStatus;

verus! {

/// Why spawning the external executable failed, told apart by the
/// operating system's error code where one was reported.
#[derive(Clone, Copy, Debug, PartialEq, Eq, Structural)]
pub enum SpawnFailure {
    /// The executable path does not exist.
    MissingExecutable,
    /// The executable exists but may not be run by this process.
    PermissionDenied,
    /// The file at the executable path is not a runnable program.
    ExecFormat,
    /// Any other spawn failure.
    Other,
}

/// What the Process Runner observed of the external step, once its
/// standard output had been drained as far as it could be.
#[derive(Clone, Copy, Debug, PartialEq, Eq, Structural)]
pub enum RunObservation {
    /// The child process never started; it can have produced no output.
    SpawnFailed(SpawnFailure),
    /// The child exited and its exit status was collected; the payload
    /// tells whether the child itself reported success.
    Exited(bool),
    /// The output artifact was confirmed on disk before the exit status
    /// was collected, and the wait was short-circuited.
    ExitSkipped,
    /// The child's standard output pipe could not be read.
    StreamReadFailed,
    /// Collecting the exit status failed after output draining ended.
    WaitFailed,
}

impl RunObservation {
    /// Whether the child process was started at all.
    pub open spec fn spawned(self) -> bool {
        !(self matches RunObservation::SpawnFailed(_))
    }

    /// Whether an exit status was collected from the child.
    pub open spec fn exit_status_obtained(self) -> bool {
        self matches RunObservation::Exited(_)
    }
}

/// The Outcome Classifier's decision table, in priority order: a spawn
/// failure is `Error`; otherwise an existing output artifact is
/// authoritative and means `Completed`, whatever the exit status said or
/// whether one was collected at all; otherwise a collected exit status
/// means the tool ran but produced nothing, `Failed`; otherwise no
/// verdict could be reached, `Error`.
pub open spec fn spec_classify(run: RunObservation, artifact_exists: bool) -> JobStatus {
    match run {
        RunObservation::SpawnFailed(_) => JobStatus::Error,
        RunObservation::Exited(_) => if artifact_exists {
            JobStatus::Completed
        } else {
            JobStatus::Failed
        },
        _ => if artifact_exists {
            JobStatus::Completed
        } else {
            JobStatus::Error
        },
    }
}

/// Turns what the Process Runner observed, together with whether the
/// output artifact exists on disk, into the job's terminal status.
pub fn classify(run: RunObservation, artifact_exists: bool) -> (r: JobStatus)
    ensures
        r == spec_classify(run, artifact_exists),
        r.is_terminal(),
{
    match run {
        RunObservation::SpawnFailed(_) => JobStatus::Error,
        RunObservation::Exited(_) => if artifact_exists {
            JobStatus::Completed
        } else {
            JobStatus::Failed
        },
        _ => if artifact_exists {
            JobStatus::Completed
        } else {
            JobStatus::Error
        },
    }
}

/// The artifact is the success oracle: whenever the child was started at
/// all and the output artifact exists after the external step, the
/// classification is `Completed` — independent of the exit status, of
/// whether one was collected, and of any read failure along the way.
pub proof fn lemma_artifact_is_authoritative(run: RunObservation)
    requires
        run.spawned(),
    ensures
        spec_classify(run, true) == JobStatus::Completed,
{
}

/// The verdict does not depend on what the collected exit status was.
pub proof fn lemma_exit_status_is_ignored(a: bool, b: bool, artifact_exists: bool)
    ensures
        spec_classify(RunObservation::Exited(a), artifact_exists) == spec_classify(
            RunObservation::Exited(b),
            artifact_exists,
        ),
{
}

/// A spawn failure always classifies as `Error`, whichever operating
/// system error caused it: a process that never ran produced no verdict.
pub proof fn lemma_spawn_failure_is_error(kind: SpawnFailure, artifact_exists: bool)
    ensures
        spec_classify(RunObservation::SpawnFailed(kind), artifact_exists) == JobStatus::Error,
{
}

/// How draining the child's standard output ended.
#[derive(Clone, Copy, Debug, PartialEq, Eq, Structural)]
pub enum DrainEnd {
    /// The output stream ended and every line was forwarded.
    Drained,
    /// The output pipe failed mid-read.
    ReadFailed,
}

/// What the Process Runner does once draining ended.
#[derive(Clone, Copy, Debug, PartialEq, Eq, Structural)]
pub enum RunnerStep {
    /// The observation is complete; classify with this.
    Conclude(RunObservation),
    /// The exit status must still be awaited.
    AwaitExit,
}

/// The Process Runner's decision at the end of output draining: a read
/// failure ends observation at once; otherwise an output artifact
/// already on disk is authoritative and the exit-status wait is
/// short-circuited; only with no artifact yet is the exit status
/// awaited.
pub open spec fn spec_runner_step(end: DrainEnd, artifact_exists: bool) -> RunnerStep {
    match end {
        DrainEnd::ReadFailed => RunnerStep::Conclude(RunObservation::StreamReadFailed),
        DrainEnd::Drained => if artifact_exists {
            RunnerStep::Conclude(RunObservation::ExitSkipped)
        } else {
            RunnerStep::AwaitExit
        },
    }
}

/// Decides, at the end of output draining, whether the exit status is
/// still worth waiting for.
pub fn runner_step(end: DrainEnd, artifact_exists: bool) -> (r: RunnerStep)
    ensures
        r == spec_runner_step(end, artifact_exists),
{
    match end {
        DrainEnd::ReadFailed => RunnerStep::Conclude(RunObservation::StreamReadFailed),
        DrainEnd::Drained => if artifact_exists {
            RunnerStep::Conclude(RunObservation::ExitSkipped)
        } else {
            RunnerStep::AwaitExit
        },
    }
}

/// Short-circuiting the exit wait loses nothing: once the artifact is
/// on disk, concluding without an exit status classifies exactly as any
/// collected exit status would have.
pub proof fn lemma_short_circuit_is_sound(success: bool)
    ensures
        spec_classify(RunObservation::ExitSkipped, true) == spec_classify(
            RunObservation::Exited(success),
            true,
        ),
{
}

/// The spawn-failure taxonomy that `spawn_failure_of_code` applies, over
/// the Unix error codes the spawn can report: `ENOENT`, `EACCES` and
/// `ENOEXEC`.
pub open spec fn spec_spawn_failure_of_code(code: Option<i32>) -> SpawnFailure {
    match code {
        Some(c) => if c == 2 {
            SpawnFailure::MissingExecutable
        } else if c == 13 {
            SpawnFailure::PermissionDenied
        } else if c == 8 {
            SpawnFailure::ExecFormat
        } else {
            SpawnFailure::Other
        },
        None => SpawnFailure::Other,
    }
}

/// Tells spawn failures apart by the raw operating system error code,
/// when the error carried one.
pub fn spawn_failure_of_code(code: Option<i32>) -> (r: SpawnFailure)
    ensures
        r == spec_spawn_failure_of_code(code),
{
    match code {
        Some(c) => if c == 2 {
            SpawnFailure::MissingExecutable
        } else if c == 13 {
            SpawnFailure::PermissionDenied
        } else if c == 8 {
            SpawnFailure::ExecFormat
        } else {
            SpawnFailure::Other
        },
        None => SpawnFailure::Other,
    }
}

} // verus!
