use upscale_orchestrator::registry::JobRegistry;
use upscale_orchestrator::status::JobStatus;

#[test]
fn unknown_identity_is_not_found() {
    let reg = JobRegistry::new();
    assert_eq!(reg.get("123e4567-e89b-12d3-a456-426614174000"), None);
}

#[test]
fn processing_entry_visible_after_admission() {
    let mut reg = JobRegistry::new();
    assert!(reg.record_processing("job-a".to_string()));
    assert_eq!(reg.get("job-a"), Some(JobStatus::Processing));
}

#[test]
fn admission_never_overwrites_an_existing_entry() {
    let mut reg = JobRegistry::new();
    assert!(reg.record_processing("job-a".to_string()));
    assert!(reg.record_terminal("job-a", JobStatus::Completed));
    assert!(!reg.record_processing("job-a".to_string()));
    assert_eq!(reg.get("job-a"), Some(JobStatus::Completed));
}

#[test]
fn terminal_transition_is_recorded() {
    let mut reg = JobRegistry::new();
    assert!(reg.record_processing("job-a".to_string()));
    assert!(reg.record_terminal("job-a", JobStatus::Failed));
    assert_eq!(reg.get("job-a"), Some(JobStatus::Failed));
}

#[test]
fn terminal_entry_is_absorbing() {
    let mut reg = JobRegistry::new();
    assert!(reg.record_processing("job-a".to_string()));
    assert!(reg.record_terminal("job-a", JobStatus::Completed));
    assert!(!reg.record_terminal("job-a", JobStatus::Error));
    assert_eq!(reg.get("job-a"), Some(JobStatus::Completed));
}

#[test]
fn settling_an_unknown_identity_is_refused() {
    let mut reg = JobRegistry::new();
    assert!(!reg.record_terminal("never-issued", JobStatus::Error));
    assert_eq!(reg.get("never-issued"), None);
}

#[test]
fn many_jobs_keep_their_own_entries() {
    let mut reg = JobRegistry::new();
    let ids: Vec<String> = (0..8).map(|i| format!("job-{}", i)).collect();
    for id in &ids {
        assert!(reg.record_processing(id.clone()));
    }
    for id in &ids {
        assert_eq!(reg.get(id), Some(JobStatus::Processing));
    }
    assert!(reg.record_terminal(&ids[3], JobStatus::Completed));
    assert!(reg.record_terminal(&ids[5], JobStatus::Error));
    for (i, id) in ids.iter().enumerate() {
        let expected = if i == 3 {
            JobStatus::Completed
        } else if i == 5 {
            JobStatus::Error
        } else {
            JobStatus::Processing
        };
        assert_eq!(reg.get(id), Some(expected));
    }
}
