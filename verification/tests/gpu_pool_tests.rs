use blacksmith_core::gpu::{GpuConfigError, GpuInstance, GpuInstanceStatus};
use blacksmith_core::gpu_manager::{
    acquire_attempt_step, ClaimOutcome, ClaimStep, GpuInstanceManager,
};

fn summary(v: &[GpuInstance]) -> Vec<(String, String, GpuInstanceStatus, Option<String>)> {
    v.iter()
        .map(|g| {
            (g.server_id.clone(), g.service_url.clone(), g.status, g.current_job_id.clone())
        })
        .collect()
}

fn pool() -> GpuInstanceManager {
    let mut m = GpuInstanceManager::new("s1:https://gpu1.example.com,s2:https://gpu2.example.com")
        .expect("valid configuration");
    m.initialize_instances();
    m
}

#[test]
fn configuration_errors_are_reported() {
    assert!(matches!(
        GpuInstanceManager::new("no-colon-here"),
        Err(GpuConfigError::InvalidFormat)
    ));
}

#[test]
fn initialization_records_every_server_free() {
    let m = pool();
    assert_eq!(
        summary(&m.get_instances_status()),
        vec![
            ("s1".to_string(), "https://gpu1.example.com".to_string(), GpuInstanceStatus::Available, None),
            ("s2".to_string(), "https://gpu2.example.com".to_string(), GpuInstanceStatus::Available, None),
        ]
    );
}

#[test]
fn acquire_takes_the_first_free_instance() {
    let mut m = pool();
    let a = m.acquire_instance("job-a").expect("s1 is free");
    assert_eq!(a.server_id, "s1");
    assert_eq!(a.service_url, "https://gpu1.example.com");
    assert_eq!(a.status, GpuInstanceStatus::WakingUp);
    assert_eq!(a.current_job_id.as_deref(), Some("job-a"));
    let b = m.acquire_instance("job-b").expect("s2 is free");
    assert_eq!(b.server_id, "s2");
    assert!(m.acquire_instance("job-c").is_none());
}

#[test]
fn release_restores_the_instance() {
    let mut m = pool();
    let before = summary(&m.get_instances_status());
    let a = m.acquire_instance("job-a").unwrap();
    m.release_instance(&a.server_id, "job-a");
    assert_eq!(summary(&m.get_instances_status()), before);
}

#[test]
fn release_by_another_job_changes_nothing() {
    let mut m = pool();
    m.acquire_instance("job-a").unwrap();
    let held = summary(&m.get_instances_status());
    m.release_instance("s1", "job-b");
    assert_eq!(summary(&m.get_instances_status()), held);
    m.release_instance("unknown", "job-a");
    assert_eq!(summary(&m.get_instances_status()), held);
}

#[test]
fn busy_and_error_marks() {
    let mut m = pool();
    m.mark_instance_busy("s2", "job-x");
    m.mark_instance_error("s1");
    let rows = summary(&m.get_instances_status());
    assert_eq!(rows[0].2, GpuInstanceStatus::Error);
    assert_eq!(rows[0].3, None);
    assert_eq!(rows[1].2, GpuInstanceStatus::Busy);
    assert_eq!(rows[1].3.as_deref(), Some("job-x"));
    assert!(m.acquire_instance("job-y").is_none());
}

#[test]
fn cloud_status_is_synced() {
    let mut m = pool();
    m.sync_instance_status("s1", Some("ACTIVE"));
    m.sync_instance_status("s2", None);
    let rows = summary(&m.get_instances_status());
    assert_eq!(rows[0].2, GpuInstanceStatus::Busy);
    assert_eq!(rows[1].2, GpuInstanceStatus::Error);
    m.sync_instance_status("s2", Some("SHELVED_OFFLOADED"));
    assert_eq!(summary(&m.get_instances_status())[1].2, GpuInstanceStatus::Available);
}

#[test]
fn reinitialization_frees_every_instance() {
    let mut m = pool();
    m.acquire_instance("job-a").unwrap();
    m.mark_instance_error("s2");
    m.initialize_instances();
    let rows = summary(&m.get_instances_status());
    assert_eq!(rows.len(), 2);
    assert!(rows.iter().all(|r| r.2 == GpuInstanceStatus::Available && r.3.is_none()));
}

#[test]
fn acquire_retries_at_most_three_times() {
    assert_eq!(acquire_attempt_step(1, ClaimOutcome::Claimed), ClaimStep::Done);
    assert_eq!(acquire_attempt_step(1, ClaimOutcome::Lost), ClaimStep::RetryNow(2));
    assert_eq!(acquire_attempt_step(2, ClaimOutcome::NoneFree), ClaimStep::RetryAfterPause(3));
    assert_eq!(acquire_attempt_step(3, ClaimOutcome::NoneFree), ClaimStep::GiveUp);
    assert_eq!(acquire_attempt_step(3, ClaimOutcome::Lost), ClaimStep::GiveUp);
}

#[test]
fn instances_are_listed_in_server_order() {
    let mut m = GpuInstanceManager::new("gpu-b:https://b.example.com,gpu-a:https://a.example.com,gpu-c:https://c.example.com")
        .expect("valid configuration");
    m.initialize_instances();
    let ids: Vec<String> = m.get_instances_status().into_iter().map(|g| g.server_id).collect();
    assert_eq!(ids, vec!["gpu-a".to_string(), "gpu-b".to_string(), "gpu-c".to_string()]);
    let first = m.acquire_instance("job-1").unwrap();
    assert_eq!(first.server_id, "gpu-a");
}

#[test]
fn a_later_address_replaces_an_earlier_one() {
    let mut m = GpuInstanceManager::new("s1:http://old,s1:http://new:8080").expect("valid configuration");
    m.initialize_instances();
    let rows = summary(&m.get_instances_status());
    assert_eq!(rows, vec![("s1".to_string(), "http://new:8080".to_string(), GpuInstanceStatus::Available, None)]);
}
