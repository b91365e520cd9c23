use vstd::prelude::*;

use crate::classify::RunObservation;
use crate::classify::classify;
use crate::classify::spec_classify;
use crate::ids::fresh_request_id;
use crate::ids::is_id_char;
use crate::registry::JobRegistry;
use crate::registry::status_of;
use crate::responses::HttpReply;
use crate::responses::result_body;
use crate::responses::spec_result_body;
use crate::responses::spec_status_body;
use crate::responses::status_body;
use crate::status::JobStatus;
use crate::status::admissible_step;

verus! {

/// Why an upload could not be admitted: the part carried no usable
/// file name or framing, the payload could not be created or written
/// on disk, or the client's own stream failed mid-transfer.
#[derive(Clone, Copy, Debug, PartialEq, Eq, Structural)]
pub enum UploadError {
    MalformedUpload,
    StorageError,
    TransportError,
}

/// Every upload error prevents a verdict on the job it interrupts, so
/// the job settles as `Error`, whichever kind it was.
pub open spec fn spec_upload_error_status(err: UploadError) -> JobStatus {
    JobStatus::Error
}

/// Admits a new job: draws an identity the registry does not hold yet
/// and records its `Processing` entry, before any upload bytes are
/// read, so that a status poll issued right after submission already
/// finds the job. No existing entry is touched. Identity draws are
/// random, so a bounded number of draws is tried; admission can be
/// refused only when a drawn identity collided with one already
/// issued — so a registry that has issued no identity at all always
/// admits — and then the registry stays as it was.
pub fn open_job(reg: &mut JobRegistry) -> (r: Option<String>)
    ensures
        match r {
            Some(id) => !old(reg)@.contains_key(id@) && final(reg)@ == old(reg)@.insert(
                id@,
                JobStatus::Processing,
            ) && id@.len() == 36 && (forall|i: int|
                0 <= i < id@.len() ==> is_id_char(#[trigger] id@[i])),
            None => final(reg)@ == old(reg)@ && (exists|k: Seq<char>|
                old(reg)@.contains_key(k)),
        },
        forall|k: Seq<char>|
            admissible_step(status_of(old(reg)@, k), #[trigger] status_of(final(reg)@, k)),
{
    let mut attempt: usize = 0;
    while attempt < 16
        invariant
            reg@ == old(reg)@,
            attempt > 0 ==> exists|k: Seq<char>| old(reg)@.contains_key(k),
        decreases 16 - attempt,
    {
        let id = fresh_request_id();
        let fresh = reg.record_processing(id.clone());
        if fresh {
            return Some(id);
        }
        proof {
            assert(old(reg)@.contains_key(id@));
        }
        attempt += 1;
    }
    None
}

/// The registry view after one job settles with a verdict, exactly as
/// `settle_job` and `fail_job` leave it: a `Processing` entry takes
/// the verdict; an unknown or already settled identity changes
/// nothing.
pub open spec fn spec_settled(
    m: Map<Seq<char>, JobStatus>,
    id: Seq<char>,
    verdict: JobStatus,
) -> Map<Seq<char>, JobStatus> {
    if status_of(m, id) == Some(JobStatus::Processing) {
        m.insert(id, verdict)
    } else {
        m
    }
}

/// Settles one finished job: classifies what the Process Runner
/// observed together with the artifact check, records the terminal
/// verdict — unless the identity is unknown or already settled, in
/// which case the registry stays exactly as it was — and renders the
/// reply. A submission that reached a verdict answers 200, whatever
/// the verdict says.
pub fn settle_job(
    reg: &mut JobRegistry,
    id: &str,
    run: RunObservation,
    artifact_exists: bool,
    upscaled_path: &str,
) -> (r: HttpReply)
    ensures
        r.code == 200,
        r.body@ == spec_result_body(spec_classify(run, artifact_exists), id@, upscaled_path@),
        final(reg)@ == spec_settled(old(reg)@, id@, spec_classify(run, artifact_exists)),
        forall|k: Seq<char>|
            admissible_step(status_of(old(reg)@, k), #[trigger] status_of(final(reg)@, k)),
{
    let status = classify(run, artifact_exists);
    let _applied = reg.record_terminal(id, status);
    let body = result_body(status, id, upscaled_path);
    HttpReply { code: 200, body }
}

/// Settles a job whose upload failed before the external step could
/// run: records `Error` for it — unless the identity is unknown or
/// already settled — and renders the 500 reply.
pub fn fail_job(reg: &mut JobRegistry, id: &str, err: UploadError) -> (r: HttpReply)
    ensures
        r.code == 500,
        r.body@ == spec_result_body(spec_upload_error_status(err), id@, Seq::<char>::empty()),
        final(reg)@ == spec_settled(old(reg)@, id@, spec_upload_error_status(err)),
        forall|k: Seq<char>|
            admissible_step(status_of(old(reg)@, k), #[trigger] status_of(final(reg)@, k)),
{
    let status = match err {
        UploadError::MalformedUpload => JobStatus::Error,
        UploadError::StorageError => JobStatus::Error,
        UploadError::TransportError => JobStatus::Error,
    };
    let _applied = reg.record_terminal(id, status);
    let body = result_body(status, id, "");
    proof {
        reveal_strlit("");
        assert(""@ =~= Seq::<char>::empty());
    }
    HttpReply { code: 500, body }
}

/// The registry view after the first `t` of the listed jobs have
/// settled, each with its own verdict, in the order listed.
pub open spec fn spec_settle_all(
    m: Map<Seq<char>, JobStatus>,
    ids: Seq<Seq<char>>,
    verdicts: Seq<JobStatus>,
    t: int,
) -> Map<Seq<char>, JobStatus>
    decreases t,
{
    if t <= 0 {
        m
    } else {
        spec_settled(spec_settle_all(m, ids, verdicts, t - 1), ids[t - 1], verdicts[t - 1])
    }
}

/// Any number of jobs complete independently, in any order: when each
/// of the listed identities stands at `Processing` — pairwise
/// distinct, as every issued identity is — and each settles with its
/// own terminal verdict, then after all have settled, each identity's
/// entry holds exactly its own job's verdict, and the entry of every
/// identity not listed is untouched. No entry is overwritten or
/// removed by another job, and because the identities may be listed in
/// any order, jobs may finish in any order relative to submission.
pub proof fn lemma_jobs_settle_independently(
    m: Map<Seq<char>, JobStatus>,
    ids: Seq<Seq<char>>,
    verdicts: Seq<JobStatus>,
)
    requires
        ids.len() == verdicts.len(),
        forall|a: int, b: int| 0 <= a < b < ids.len() ==> ids[a] != ids[b],
        forall|t: int|
            0 <= t < ids.len() ==> status_of(m, #[trigger] ids[t]) == Some(JobStatus::Processing),
        forall|t: int| 0 <= t < verdicts.len() ==> (#[trigger] verdicts[t]).is_terminal(),
    ensures
        forall|t: int|
            0 <= t < ids.len() ==> #[trigger] status_of(
                spec_settle_all(m, ids, verdicts, ids.len() as int),
                ids[t],
            ) == Some(verdicts[t]),
        forall|k: Seq<char>|
            (forall|t: int| 0 <= t < ids.len() ==> ids[t] != k) ==> #[trigger] status_of(
                spec_settle_all(m, ids, verdicts, ids.len() as int),
                k,
            ) == status_of(m, k),
{
    lemma_settle_prefix(m, ids, verdicts, ids.len() as int);
}

/// The induction behind `lemma_jobs_settle_independently`, over the
/// number of jobs settled so far.
proof fn lemma_settle_prefix(
    m: Map<Seq<char>, JobStatus>,
    ids: Seq<Seq<char>>,
    verdicts: Seq<JobStatus>,
    t: int,
)
    requires
        ids.len() == verdicts.len(),
        0 <= t <= ids.len(),
        forall|a: int, b: int| 0 <= a < b < ids.len() ==> ids[a] != ids[b],
        forall|j: int|
            0 <= j < ids.len() ==> status_of(m, #[trigger] ids[j]) == Some(JobStatus::Processing),
    ensures
        forall|j: int|
            0 <= j < t ==> #[trigger] status_of(spec_settle_all(m, ids, verdicts, t), ids[j])
                == Some(verdicts[j]),
        forall|k: Seq<char>|
            (forall|j: int| 0 <= j < t ==> ids[j] != k) ==> #[trigger] status_of(
                spec_settle_all(m, ids, verdicts, t),
                k,
            ) == status_of(m, k),
    decreases t,
{
    if t > 0 {
        lemma_settle_prefix(m, ids, verdicts, t - 1);
        let prev = spec_settle_all(m, ids, verdicts, t - 1);
        let cur = spec_settle_all(m, ids, verdicts, t);
        let last = ids[t - 1];
        assert forall|j: int| 0 <= j < t - 1 implies ids[j] != last by {}
        assert(status_of(prev, last) == status_of(m, last));
        assert(status_of(prev, last) == Some(JobStatus::Processing));
        assert(cur == prev.insert(last, verdicts[t - 1]));
        assert forall|j: int| 0 <= j < t implies #[trigger] status_of(cur, ids[j]) == Some(
            verdicts[j],
        ) by {
            if j < t - 1 {
                assert(ids[j] != last);
                assert(status_of(prev, ids[j]) == Some(verdicts[j]));
            }
        }
        assert forall|k: Seq<char>|
            (forall|j: int| 0 <= j < t ==> ids[j] != k) implies #[trigger] status_of(cur, k)
            == status_of(m, k) by {
            assert(forall|j: int| 0 <= j < t - 1 ==> ids[j] != k);
            assert(last != k);
            assert(status_of(prev, k) == status_of(m, k));
        }
    }
}

/// Serves a status poll: 200 with the recorded status when the
/// identity is known, else 404 with a plain-text body. An identity
/// that was never issued is answered not-found, never `Processing`,
/// and no in-flight job is waited on.
pub fn status_reply(reg: &JobRegistry, id: &str) -> (r: HttpReply)
    ensures
        match status_of(reg@, id@) {
            Some(s) => r.code == 200 && r.body@ == spec_status_body(s),
            None => r.code == 404 && r.body@ == "Request ID not found"@,
        },
{
    match reg.get(id) {
        Some(s) => HttpReply { code: 200, body: status_body(s) },
        None => HttpReply { code: 404, body: "Request ID not found".to_owned() },
    }
}

} // verus!
