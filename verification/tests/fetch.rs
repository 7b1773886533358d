use pypi_proxy::errors::ServiceError;
use pypi_proxy::fetch::{
    Archive, FetchAction, FetchOrchestrator, FetchPhase, StoreLookup, WorkerOutcome,
};

fn orchestrator() -> FetchOrchestrator {
    let query = Archive { archive: "https://files.example/pkg-2.0.0.tar.gz".to_string() };
    FetchOrchestrator::new(
        "pkg".to_string(),
        "pkg-2.0.0-py3-none-any.whl".to_string(),
        query.archive,
    )
}

#[test]
fn test_initial_action_is_store_lookup() {
    let o = orchestrator();
    match o.initial_action() {
        FetchAction::LookupStore { key } => {
            assert_eq!(key, "pkg/pkg-2.0.0-py3-none-any.whl".to_string())
        }
        _ => panic!("expected a store lookup"),
    }
}

#[test]
fn test_cache_hit_serves_bytes() {
    let mut o = orchestrator();
    let bytes = vec![0x50u8, 0x4b, 0x03, 0x04];
    match o.on_cache_check(StoreLookup::Found { body: bytes.clone() }) {
        FetchAction::Serve { body, content_type } => {
            assert_eq!(body, bytes);
            assert_eq!(content_type, "application/zip".to_string());
        }
        _ => panic!("expected to serve the cached bytes"),
    }
    assert_eq!(o.phase, FetchPhase::Serving);
}

#[test]
fn test_miss_then_build_then_recheck_serves() {
    // Not found on the first check, worker succeeds, bytes appear on the
    // re-check: the request is answered with those bytes as a zip.
    let mut o = orchestrator();

    match o.on_cache_check(StoreLookup::NotFound) {
        FetchAction::TriggerBuild { request } => {
            assert_eq!(request.project, "pkg".to_string());
            assert_eq!(request.filename, "pkg-2.0.0-py3-none-any.whl".to_string());
            assert_eq!(request.archive_url, "https://files.example/pkg-2.0.0.tar.gz".to_string());
        }
        _ => panic!("expected a build trigger"),
    }

    match o.on_worker_result(WorkerOutcome::Accepted) {
        FetchAction::LookupStore { key } => {
            assert_eq!(key, "pkg/pkg-2.0.0-py3-none-any.whl".to_string())
        }
        _ => panic!("expected the re-check lookup"),
    }

    let bytes = vec![1u8, 2, 3];
    match o.on_recheck(StoreLookup::Found { body: bytes.clone() }) {
        FetchAction::Serve { body, content_type } => {
            assert_eq!(body, bytes);
            assert_eq!(content_type, "application/zip".to_string());
        }
        _ => panic!("expected to serve the built bytes"),
    }
    assert_eq!(o.phase, FetchPhase::Serving);
}

#[test]
fn test_worker_rejection_fails_without_recheck() {
    let mut o = orchestrator();

    match o.on_cache_check(StoreLookup::NotFound) {
        FetchAction::TriggerBuild { .. } => {}
        _ => panic!("expected a build trigger"),
    }

    match o.on_worker_result(WorkerOutcome::Rejected { message: "worker said 500".to_string() }) {
        FetchAction::Fail { error } => {
            let status = error.status_code();
            assert!(500 <= status && status <= 599);
            match error {
                ServiceError::BuildTrigger { message } => {
                    assert_eq!(message, "worker said 500".to_string())
                }
                _ => panic!("expected a build-trigger error"),
            }
        }
        _ => panic!("expected a failure"),
    }
    // The orchestration is terminal: no re-check follows a failed trigger.
    assert_eq!(o.phase, FetchPhase::Failed);
}

#[test]
fn test_store_failure_is_infrastructure_error() {
    let mut o = orchestrator();
    match o.on_cache_check(StoreLookup::Failure { message: "timeout".to_string() }) {
        FetchAction::Fail { error } => {
            assert_eq!(error.status_code(), 500);
            match error {
                ServiceError::StoreInfrastructure { message } => assert_eq!(
                    message,
                    "Error while looking for file pkg-2.0.0-py3-none-any.whl".to_string()
                ),
                _ => panic!("expected an infrastructure error"),
            }
        }
        _ => panic!("expected a failure"),
    }
    assert_eq!(o.phase, FetchPhase::Failed);
}

#[test]
fn test_missing_after_build_is_consistency_failure() {
    let mut o = orchestrator();
    o.on_cache_check(StoreLookup::NotFound);
    o.on_worker_result(WorkerOutcome::Accepted);
    match o.on_recheck(StoreLookup::NotFound) {
        FetchAction::Fail { error } => {
            assert_eq!(error.status_code(), 500);
            match error {
                ServiceError::BuildConsistency { message } => assert_eq!(
                    message,
                    "Worker reported success but the artifact is missing".to_string()
                ),
                _ => panic!("expected a consistency error"),
            }
        }
        _ => panic!("expected a failure"),
    }
    assert_eq!(o.phase, FetchPhase::Failed);
}
