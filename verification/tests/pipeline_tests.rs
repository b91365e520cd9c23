use upscale_orchestrator::classify::RunObservation;
use upscale_orchestrator::classify::SpawnFailure;
use upscale_orchestrator::orchestrate::UploadError;
use upscale_orchestrator::orchestrate::fail_job;
use upscale_orchestrator::orchestrate::open_job;
use upscale_orchestrator::orchestrate::settle_job;
use upscale_orchestrator::orchestrate::status_reply;
use upscale_orchestrator::paths::infer_extension;
use upscale_orchestrator::paths::output_path;
use upscale_orchestrator::registry::JobRegistry;
use upscale_orchestrator::status::JobStatus;

#[test]
fn open_job_issues_a_processing_identity() {
    let mut reg = JobRegistry::new();
    let id = open_job(&mut reg).expect("an empty registry admits a job");
    assert_eq!(id.len(), 36);
    assert_eq!(reg.get(&id), Some(JobStatus::Processing));
}

#[test]
fn open_job_issues_distinct_identities() {
    let mut reg = JobRegistry::new();
    let a = open_job(&mut reg).expect("admitted");
    let b = open_job(&mut reg).expect("admitted");
    assert_ne!(a, b);
}

#[test]
fn eight_jobs_settle_independently() {
    let mut reg = JobRegistry::new();
    let mut ids: Vec<String> = Vec::new();
    for _ in 0..8 {
        ids.push(open_job(&mut reg).expect("admitted"));
    }
    for i in 0..8 {
        for j in 0..i {
            assert_ne!(ids[i], ids[j]);
        }
    }
    for (i, id) in ids.iter().enumerate() {
        let run = if i % 2 == 0 { RunObservation::Exited(true) } else { RunObservation::Exited(false) };
        let artifact = i % 4 == 0;
        settle_job(&mut reg, id, run, artifact, "out");
    }
    for (i, id) in ids.iter().enumerate() {
        let expected = if i % 4 == 0 { JobStatus::Completed } else { JobStatus::Failed };
        assert_eq!(reg.get(id), Some(expected));
    }
}

#[test]
fn completed_submission_round_trip() {
    let mut reg = JobRegistry::new();
    let id = open_job(&mut reg).expect("admitted");
    let ext = infer_extension("a.png");
    assert_eq!(ext, "png");
    let out = output_path("./cache", &id, &ext);
    assert_eq!(out, format!("./cache/{}.png", id));
    let reply = settle_job(&mut reg, &id, RunObservation::ExitSkipped, true, &out);
    assert_eq!(reply.code, 200);
    assert_eq!(
        reply.body,
        format!(
            "{{\"status\":\"Completed\",\"data\":{{\"request_id\":\"{}\",\"upscaled_path\":\"./cache/{}.png\"}}}}",
            id, id
        )
    );
    let poll = status_reply(&reg, &id);
    assert_eq!(poll.code, 200);
    assert_eq!(poll.body, "{\"status\":\"Completed\"}");
}

#[test]
fn stub_that_writes_no_output_is_failed() {
    let mut reg = JobRegistry::new();
    let id = open_job(&mut reg).expect("admitted");
    let out = output_path("./cache", &id, "png");
    let reply = settle_job(&mut reg, &id, RunObservation::Exited(true), false, &out);
    assert_eq!(reply.code, 200);
    assert_eq!(
        reply.body,
        format!("{{\"status\":\"Failed\",\"data\":{{\"request_id\":\"{}\"}}}}", id)
    );
    assert_eq!(reg.get(&id), Some(JobStatus::Failed));
}

#[test]
fn missing_executable_settles_as_error() {
    let mut reg = JobRegistry::new();
    let id = open_job(&mut reg).expect("admitted");
    let reply = settle_job(
        &mut reg,
        &id,
        RunObservation::SpawnFailed(SpawnFailure::MissingExecutable),
        false,
        "out",
    );
    assert_eq!(reply.code, 200);
    assert_eq!(
        reply.body,
        format!("{{\"status\":\"Error\",\"data\":{{\"request_id\":\"{}\"}}}}", id)
    );
    assert_eq!(reg.get(&id), Some(JobStatus::Error));
}

#[test]
fn upload_failure_answers_500_and_records_error() {
    let mut reg = JobRegistry::new();
    let id = open_job(&mut reg).expect("admitted");
    let reply = fail_job(&mut reg, &id, UploadError::StorageError);
    assert_eq!(reply.code, 500);
    assert_eq!(
        reply.body,
        format!("{{\"status\":\"Error\",\"data\":{{\"request_id\":\"{}\"}}}}", id)
    );
    assert_eq!(reg.get(&id), Some(JobStatus::Error));
}

#[test]
fn settling_twice_keeps_the_first_verdict() {
    let mut reg = JobRegistry::new();
    let id = open_job(&mut reg).expect("admitted");
    settle_job(&mut reg, &id, RunObservation::Exited(true), true, "out");
    settle_job(&mut reg, &id, RunObservation::Exited(true), false, "out");
    assert_eq!(reg.get(&id), Some(JobStatus::Completed));
}

#[test]
fn poll_before_any_submission_is_not_found() {
    let reg = JobRegistry::new();
    let poll = status_reply(&reg, "123e4567-e89b-12d3-a456-426614174000");
    assert_eq!(poll.code, 404);
    assert_eq!(poll.body, "Request ID not found");
}
