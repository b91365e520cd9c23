use vstd::prelude::*;

verus! {

/// The lifecycle state of one submitted job, as served to status polls.
#[derive(Clone, Copy, Debug, PartialEq, Eq, Structural)]
pub enum JobStatus {
    Processing,
    Completed,
    Failed,
    Error,
}

impl JobStatus {
    /// A terminal status is one from which a job never transitions again.
    pub open spec fn is_terminal(self) -> bool {
        self != JobStatus::Processing
    }

    /// The wire name of this status, as it appears in response bodies
    /// and in the registry.
    pub open spec fn spec_text(self) -> Seq<char> {
        match self {
            JobStatus::Processing => "Processing"@,
            JobStatus::Completed => "Completed"@,
            JobStatus::Failed => "Failed"@,
            JobStatus::Error => "Error"@,
        }
    }

    /// The wire name of this status, as an owned string.
    pub fn text(self) -> (r: String)
        ensures
            r@ == self.spec_text(),
    {
        match self {
            JobStatus::Processing => "Processing".to_owned(),
            JobStatus::Completed => "Completed".to_owned(),
            JobStatus::Failed => "Failed".to_owned(),
            JobStatus::Error => "Error".to_owned(),
        }
    }
}

/// How the registry entry of a single identity may change in one
/// operation: it stays as it is, a fresh identity is opened at
/// `Processing`, or a `Processing` entry settles into a terminal status.
pub open spec fn admissible_step(before: Option<JobStatus>, after: Option<JobStatus>) -> bool {
    ||| after == before
    ||| (before is None && after == Some(JobStatus::Processing))
    ||| (before == Some(JobStatus::Processing) && (after matches Some(t) && t.is_terminal()))
}

/// A terminal status is absorbing: an admissible change that starts from
/// a terminal entry leaves the entry exactly as it was, so no identity
/// is ever observed to regress out of `Completed`, `Failed` or `Error`.
pub proof fn lemma_terminal_is_absorbing(before: Option<JobStatus>, after: Option<JobStatus>)
    requires
        admissible_step(before, after),
        before matches Some(s) && s.is_terminal(),
    ensures
        after == before,
{
}

/// Every entry history starts at `Processing`: an admissible change of an
/// absent entry either leaves it absent or writes `Processing`, never a
/// terminal status.
pub proof fn lemma_first_status_is_processing(after: Option<JobStatus>)
    requires
        admissible_step(None, after),
    ensures
        after is None || after == Some(JobStatus::Processing),
{
}

/// Over any run of admissible changes, an identity's recorded status is
/// monotone: from the point a terminal status is recorded, every later
/// point of the run records exactly that status — no identity regresses
/// out of `Completed`, `Failed` or `Error`.
pub proof fn lemma_status_history_is_monotone(trace: Seq<Option<JobStatus>>, i: int, j: int)
    requires
        forall|t: int|
            0 <= t < trace.len() - 1 ==> admissible_step(trace[t], #[trigger] trace[t + 1]),
        0 <= i <= j < trace.len(),
        trace[i] matches Some(s) && s.is_terminal(),
    ensures
        trace[j] == trace[i],
    decreases j - i,
{
    if i < j {
        lemma_status_history_is_monotone(trace, i, j - 1);
        assert(trace[(j - 1) + 1] == trace[j]);
        assert(admissible_step(trace[j - 1], trace[j]));
        lemma_terminal_is_absorbing(trace[j - 1], trace[j]);
    }
}

/// Over any run of admissible changes that starts before the identity
/// was issued, `Processing` precedes every terminal status: a terminal
/// entry can only ever have been settled out of a `Processing` one.
pub proof fn lemma_processing_precedes_terminal(trace: Seq<Option<JobStatus>>, j: int)
    requires
        forall|t: int|
            0 <= t < trace.len() - 1 ==> admissible_step(trace[t], #[trigger] trace[t + 1]),
        0 < trace.len(),
        trace[0] is None,
        0 <= j < trace.len(),
        trace[j] matches Some(s) && s.is_terminal(),
    ensures
        exists|i: int| 0 <= i < j && trace[i] == Some(JobStatus::Processing),
    decreases j,
{
    assert(j != 0);
    assert(trace[(j - 1) + 1] == trace[j]);
    assert(admissible_step(trace[j - 1], trace[j]));
    if trace[j - 1] == trace[j] {
        lemma_processing_precedes_terminal(trace, j - 1);
        let i = choose|i: int| 0 <= i < j - 1 && trace[i] == Some(JobStatus::Processing);
        assert(0 <= i < j && trace[i] == Some(JobStatus::Processing));
    } else {
        assert(trace[j - 1] == Some(JobStatus::Processing));
    }
}

} // verus!
