use animation_replace_roblox::fault::ServiceFault;
use animation_replace_roblox::outcome::{FailureCause, MigrationOutcome};
use animation_replace_roblox::record::{AssetKind, MetadataRecord};
use animation_replace_roblox::scheduler::{
    concurrency_limit, Command, JobEvent, Scheduler, Stage, DEFAULT_CONCURRENCY,
    DOWNLOAD_ATTEMPTS, DOWNLOAD_TIMEOUT_SECS, UPLOAD_ATTEMPTS, UPLOAD_RETRY_DELAY_MS,
};

fn located(token: &str, url: &str) -> MetadataRecord {
    MetadataRecord {
        request_id: Some(token.to_string()),
        asset_kind: AssetKind::Animation,
        locations: vec![Some(url.to_string())],
        errors: None,
    }
}

fn unlocated(token: &str) -> MetadataRecord {
    MetadataRecord {
        request_id: Some(token.to_string()),
        asset_kind: AssetKind::Animation,
        locations: vec![],
        errors: None,
    }
}

fn expect_download(command: Option<Command>) -> (usize, String, u32, u64) {
    match command {
        Some(Command::Download { job, location, attempt, timeout_secs }) => {
            (job, location, attempt, timeout_secs)
        }
        other => panic!("expected a download, got {:?}", other),
    }
}

fn expect_upload(command: Option<Command>) -> (usize, Option<u64>, u32) {
    match command {
        Some(Command::Upload { job, group_id, attempt }) => (job, group_id, attempt),
        other => panic!("expected an upload, got {:?}", other),
    }
}

fn expect_pause(command: Option<Command>) -> (usize, u64) {
    match command {
        Some(Command::Pause { job, millis }) => (job, millis),
        other => panic!("expected a pause, got {:?}", other),
    }
}

#[test]
fn scheduler_policy_constants() {
    assert_eq!(DEFAULT_CONCURRENCY, 5);
    assert_eq!(DOWNLOAD_ATTEMPTS, 3);
    assert_eq!(UPLOAD_ATTEMPTS, 5);
    assert_eq!(UPLOAD_RETRY_DELAY_MS, 1000);
}

#[test]
fn limit_defaults_to_five() {
    assert_eq!(concurrency_limit(None), 5);
    assert_eq!(concurrency_limit(Some(1)), 1);
    assert_eq!(concurrency_limit(Some(500)), 500);
    assert_eq!(concurrency_limit(Some(u64::MAX)), usize::MAX);
}

#[test]
fn records_without_location_are_not_scheduled() {
    let records = vec![
        located("1", "https://x/1.bin"),
        unlocated("2"),
        MetadataRecord {
            request_id: Some("3".to_string()),
            asset_kind: AssetKind::Animation,
            locations: vec![None, Some("https://x/3.bin".to_string())],
            errors: None,
        },
        located("4", "https://x/4.bin"),
    ];
    let mut s = Scheduler::new(&records, None, Some(10));
    assert_eq!(s.job_count(), 2);
    assert_eq!(s.jobs()[0].index, 0);
    assert_eq!(s.jobs()[1].index, 3);
    assert_eq!(s.jobs()[1].request_id, Some("4".to_string()));
    assert_eq!(s.jobs()[1].location, "https://x/4.bin");
    while let Some(command) = s.poll() {
        let (job, _, _, _) = expect_download(Some(command));
        expect_upload(s.on_event(job, JobEvent::Downloaded));
        assert!(s.on_event(job, JobEvent::UploadFailed(ServiceFault::BadRequest)).is_none());
    }
    assert!(s.is_done());
    let result = s.finish();
    assert_eq!(result.mapping.len(), 0);
    assert_eq!(result.errors.len(), 2);
    for e in &result.errors {
        assert!(e.index == 0 || e.index == 3);
        assert_ne!(e.request_id, Some("2".to_string()));
        assert_ne!(e.request_id, Some("3".to_string()));
    }
}

#[test]
fn nothing_to_schedule_is_done_at_once() {
    let mut s = Scheduler::new(&vec![unlocated("1")], None, None);
    assert_eq!(s.job_count(), 0);
    assert!(s.poll().is_none());
    assert!(s.is_done());
    let result = s.finish();
    assert_eq!(result.mapping.len(), 0);
    assert!(result.errors.is_empty());
}

#[test]
fn download_failing_three_times_is_rate_limited() {
    let records = vec![located("9", "https://x/a.bin")];
    let mut s = Scheduler::new(&records, None, None);
    let (job, location, attempt, timeout) = expect_download(s.poll());
    assert_eq!((job, location.as_str(), attempt), (0, "https://x/a.bin", 1));
    assert_eq!(timeout, DOWNLOAD_TIMEOUT_SECS);
    let (_, location, attempt, _) =
        expect_download(s.on_event(0, JobEvent::DownloadFailed(ServiceFault::Timeout)));
    assert_eq!((location.as_str(), attempt), ("https://x/a.bin", 2));
    let (_, _, attempt, _) =
        expect_download(s.on_event(0, JobEvent::DownloadFailed(ServiceFault::Timeout)));
    assert_eq!(attempt, 3);
    assert!(s.on_event(0, JobEvent::DownloadFailed(ServiceFault::Timeout)).is_none());
    assert_eq!(s.stage(0), Some(Stage::Finished));
    assert_eq!(s.running(), 0);
    assert!(s.is_done());
    let result = s.finish();
    assert_eq!(result.mapping.len(), 0);
    assert_eq!(result.mapping.get("9"), None);
    assert_eq!(result.errors.len(), 1);
    assert_eq!(result.errors[0].cause, FailureCause::RateLimited);
    assert_eq!(result.errors[0].request_id, Some("9".to_string()));
    assert_eq!(result.errors[0].index, 0);
}

#[test]
fn upload_succeeding_on_third_attempt_is_mapped() {
    let records = vec![located("77", "https://x/77.bin")];
    let mut s = Scheduler::new(&records, Some(4242), None);
    expect_download(s.poll());
    let (job, group, attempt) = expect_upload(s.on_event(0, JobEvent::Downloaded));
    assert_eq!((job, group, attempt), (0, Some(4242), 1));
    assert_eq!(expect_pause(s.on_event(0, JobEvent::UploadFailed(ServiceFault::ServerError))), (0, 1000));
    assert_eq!(s.stage(0), Some(Stage::Pausing { attempt: 1 }));
    assert_eq!(s.running(), 1);
    assert_eq!(expect_upload(s.on_event(0, JobEvent::Resumed)), (0, Some(4242), 2));
    assert_eq!(expect_pause(s.on_event(0, JobEvent::UploadFailed(ServiceFault::Timeout))), (0, 1000));
    assert_eq!(expect_upload(s.on_event(0, JobEvent::Resumed)), (0, Some(4242), 3));
    assert!(s.on_event(0, JobEvent::Uploaded("555".to_string())).is_none());
    assert!(s.is_done());
    let result = s.finish();
    assert_eq!(result.mapping.len(), 1);
    assert_eq!(result.mapping.get("77"), Some(&"555".to_string()));
    assert!(result.errors.is_empty());
}

#[test]
fn upload_failing_five_times_fails_without_a_last_pause() {
    let mut s = Scheduler::new(&vec![located("1", "u")], None, None);
    expect_download(s.poll());
    expect_upload(s.on_event(0, JobEvent::Downloaded));
    for attempt in 1..UPLOAD_ATTEMPTS {
        expect_pause(s.on_event(0, JobEvent::UploadFailed(ServiceFault::TooManyRequests)));
        let (_, _, next) = expect_upload(s.on_event(0, JobEvent::Resumed));
        assert_eq!(next, attempt + 1);
    }
    assert!(s.on_event(0, JobEvent::UploadFailed(ServiceFault::ServerError)).is_none());
    assert_eq!(s.stage(0), Some(Stage::Finished));
    let result = s.finish();
    assert_eq!(result.errors.len(), 1);
    assert_eq!(result.errors[0].cause, FailureCause::UploadFailed(ServiceFault::ServerError));
}

#[test]
fn cannot_publish_is_not_retried() {
    let mut s = Scheduler::new(&vec![located("1", "u"), located("2", "v")], None, None);
    expect_download(s.poll());
    expect_download(s.poll());
    expect_upload(s.on_event(0, JobEvent::Downloaded));
    assert!(s.on_event(0, JobEvent::UploadFailed(ServiceFault::BadRequest)).is_none());
    assert_eq!(s.stage(0), Some(Stage::Finished));
    assert_eq!(s.stage(1), Some(Stage::Downloading { attempt: 1 }));
    expect_upload(s.on_event(1, JobEvent::Downloaded));
    assert!(s.on_event(1, JobEvent::Uploaded("8".to_string())).is_none());
    let result = s.finish();
    assert_eq!(result.errors.len(), 1);
    assert_eq!(result.errors[0].cause, FailureCause::CannotPublish);
    assert_eq!(result.mapping.get("2"), Some(&"8".to_string()));
}

#[test]
fn aborted_task_becomes_a_failure() {
    let mut s = Scheduler::new(&vec![located("1", "u")], None, None);
    expect_download(s.poll());
    assert!(s.on_event(0, JobEvent::Aborted).is_none());
    assert_eq!(s.running(), 0);
    let result = s.finish();
    assert_eq!(result.errors.len(), 1);
    assert_eq!(result.errors[0].cause, FailureCause::Aborted);
}

#[test]
fn events_that_do_not_fit_change_nothing() {
    let mut s = Scheduler::new(&vec![located("1", "u"), located("2", "v")], None, Some(1));
    assert!(s.on_event(0, JobEvent::Downloaded).is_none());
    assert!(s.on_event(0, JobEvent::Aborted).is_none());
    assert_eq!(s.stage(0), Some(Stage::Waiting));
    expect_download(s.poll());
    assert!(s.on_event(0, JobEvent::Uploaded("1".to_string())).is_none());
    assert!(s.on_event(0, JobEvent::Resumed).is_none());
    assert!(s.on_event(0, JobEvent::UploadFailed(ServiceFault::Timeout)).is_none());
    assert!(s.on_event(7, JobEvent::Downloaded).is_none());
    assert!(s.on_event(1, JobEvent::Downloaded).is_none());
    assert_eq!(s.stage(0), Some(Stage::Downloading { attempt: 1 }));
    assert_eq!(s.stage(1), Some(Stage::Waiting));
    assert_eq!(s.stage(2), None);
    assert_eq!(s.running(), 1);
    assert!(s.outcomes().is_empty());
    expect_upload(s.on_event(0, JobEvent::Downloaded));
    assert!(s.on_event(0, JobEvent::Uploaded("5".to_string())).is_none());
    assert!(s.on_event(0, JobEvent::Uploaded("6".to_string())).is_none());
    assert!(s.on_event(0, JobEvent::Aborted).is_none());
    assert_eq!(s.outcomes().len(), 1);
}

#[test]
fn never_more_than_two_of_ten_in_stage() {
    let records: Vec<MetadataRecord> =
        (0..10).map(|i| located(&format!("{}", 100 + i), &format!("https://x/{}", i))).collect();
    let mut s = Scheduler::new(&records, None, Some(2));
    assert_eq!(s.limit(), 2);
    let mut active: Vec<usize> = Vec::new();
    let mut peak = 0;
    let mut round = 0;
    while !s.is_done() {
        while let Some(command) = s.poll() {
            let (job, _, _, _) = expect_download(Some(command));
            active.push(job);
            assert!(s.running() <= 2);
        }
        assert!(s.poll().is_none());
        assert_eq!(s.running(), active.len());
        assert!(active.len() <= 2);
        peak = peak.max(active.len());
        let in_stage = (0..10).filter(|j| {
            matches!(
                s.stage(*j),
                Some(Stage::Downloading { .. }) | Some(Stage::Uploading { .. }) | Some(Stage::Pausing { .. })
            )
        });
        assert_eq!(in_stage.count(), active.len());
        let job = if round % 2 == 0 { active.remove(0) } else { active.pop().unwrap() };
        expect_upload(s.on_event(job, JobEvent::Downloaded));
        assert_eq!(s.running(), active.len() + 1);
        assert!(s.poll().is_none());
        assert!(s.on_event(job, JobEvent::Uploaded(format!("{}", 900 + job))).is_none());
        round += 1;
    }
    assert_eq!(peak, 2);
    assert_eq!(s.outcomes().len(), 10);
    let result = s.finish();
    assert_eq!(result.mapping.len(), 10);
    assert_eq!(result.mapping.get("103"), Some(&"903".to_string()));
}

#[test]
fn outcomes_are_kept_in_completion_order() {
    let mut s = Scheduler::new(&vec![located("1", "u"), located("2", "v")], None, None);
    expect_download(s.poll());
    expect_download(s.poll());
    expect_upload(s.on_event(1, JobEvent::Downloaded));
    assert!(s.on_event(1, JobEvent::UploadFailed(ServiceFault::BadRequest)).is_none());
    assert!(s.on_event(0, JobEvent::Aborted).is_none());
    let outcomes = s.outcomes();
    assert!(matches!(&outcomes[0], MigrationOutcome::Failed(f) if f.index == 1));
    assert!(matches!(&outcomes[1], MigrationOutcome::Failed(f) if f.index == 0));
    let result = s.finish();
    assert_eq!(result.errors[0].index, 1);
    assert_eq!(result.errors[1].index, 0);
}

#[test]
fn one_failure_does_not_stop_the_others() {
    let records: Vec<MetadataRecord> =
        (0..4).map(|i| located(&format!("{}", i), "u")).collect();
    let mut s = Scheduler::new(&records, None, Some(4));
    for _ in 0..4 {
        expect_download(s.poll());
    }
    for _ in 0..3 {
        s.on_event(2, JobEvent::DownloadFailed(ServiceFault::Transport));
    }
    assert_eq!(s.stage(2), Some(Stage::Finished));
    for job in [0usize, 1, 3] {
        expect_upload(s.on_event(job, JobEvent::Downloaded));
        assert!(s.on_event(job, JobEvent::Uploaded(format!("n{}", job))).is_none());
    }
    assert!(s.is_done());
    let result = s.finish();
    assert_eq!(result.mapping.len(), 3);
    assert_eq!(result.errors.len(), 1);
    assert_eq!(result.errors[0].index, 2);
}
