use bark_scheduler::payload::NotifyRequest;
use bark_scheduler::errors::SchedulerError;
use bark_scheduler::scheduler::compute_delay;
use bark_scheduler::scheduler::FiringOutcome;
use bark_scheduler::scheduler::NotificationScheduler;
use bark_scheduler::scheduler::OneTimeRequest;
use bark_scheduler::scheduler::ScheduleRequest;

fn notify(title: &str) -> NotifyRequest {
    NotifyRequest {
        title: title.to_string(),
        body: "body".to_string(),
        sound: None,
        group: None,
        level: None,
        icon: None,
        url: None,
        copy: None,
        auto_copy: None,
        badge: None,
    }
}

#[test]
fn cron_six_fields_accepted() {
    let mut s = NotificationScheduler::new();
    let r = s.add_cron_job_at(
        ScheduleRequest { notify: notify("a"), cron: "0 */1 * * * *".to_string(), max_count: None },
        1_000,
    );
    assert_eq!(r, Ok(0));
    let jobs = s.list_jobs();
    assert_eq!(jobs.len(), 1);
    assert_eq!(jobs[0].id, 0);
    assert_eq!(jobs[0].cron, Some("0 */1 * * * *".to_string()));
    assert_eq!(jobs[0].at, None);
    assert_eq!(jobs[0].created_at, 1_000);
    assert_eq!(jobs[0].max_count, None);
    assert_eq!(jobs[0].count, 0);
    assert!(!jobs[0].cancelled);
}

#[test]
fn cron_wrong_field_count_rejected() {
    let mut s = NotificationScheduler::new();
    for bad in ["", "* * * * *", "0 0 9 * * * extra", "   ", "a b c"] {
        let r = s.add_cron_job_at(
            ScheduleRequest { notify: notify("a"), cron: bad.to_string(), max_count: None },
            1_000,
        );
        assert_eq!(r, Err(SchedulerError::InvalidCron));
        assert_eq!(s.list_jobs().len(), 0);
    }
}

#[test]
fn cron_field_count_ignores_extra_whitespace() {
    let mut s = NotificationScheduler::new();
    let r = s.add_cron_job_at(
        ScheduleRequest {
            notify: notify("a"),
            cron: "  0\t*/5  *  * * *  ".to_string(),
            max_count: None,
        },
        0,
    );
    assert!(r.is_ok());
}

#[test]
fn fresh_ids_never_reused() {
    let mut s = NotificationScheduler::new();
    let a = s
        .add_cron_job_at(
            ScheduleRequest { notify: notify("a"), cron: "* * * * * *".to_string(), max_count: None },
            0,
        )
        .unwrap();
    let b = s
        .add_one_time_job_at(OneTimeRequest { notify: notify("b"), at: 10 }, 0)
        .unwrap();
    assert_ne!(a, b);
    assert_eq!(s.remove_job(a), Ok(()));
    let c = s
        .add_cron_job_at(
            ScheduleRequest { notify: notify("c"), cron: "* * * * * *".to_string(), max_count: None },
            0,
        )
        .unwrap();
    assert_ne!(c, a);
    assert_ne!(c, b);
}

#[test]
fn once_past_or_present_rejected() {
    let mut s = NotificationScheduler::new();
    // one second in the past
    let r = s.add_one_time_job_at(OneTimeRequest { notify: notify("x"), at: 999 }, 1_000);
    assert_eq!(r, Err(SchedulerError::PastTimestamp));
    // exactly now
    let r = s.add_one_time_job_at(OneTimeRequest { notify: notify("x"), at: 1_000 }, 1_000);
    assert_eq!(r, Err(SchedulerError::PastTimestamp));
    assert_eq!(s.list_jobs().len(), 0);
}

#[test]
fn once_future_appears_immediately() {
    let mut s = NotificationScheduler::new();
    let id = s
        .add_one_time_job_at(OneTimeRequest { notify: notify("x"), at: 1_002 }, 1_000)
        .unwrap();
    let job = s.get_job(id).expect("job must be present after scheduling");
    assert_eq!(job.at, Some(1_002));
    assert_eq!(job.cron, None);
    assert_eq!(job.max_count, Some(1));
    assert_eq!(job.count, 0);
}

#[test]
fn once_fires_once_and_retires() {
    let mut s = NotificationScheduler::new();
    let id = s
        .add_one_time_job_at(OneTimeRequest { notify: notify("x"), at: 5 }, 0)
        .unwrap();
    assert!(s.get_job(id).is_some());
    let out = s.record_firing(id, false);
    assert_eq!(out, FiringOutcome::Delivered { occurrence: 1, retired: true });
    assert!(s.get_job(id).is_none());
    assert_eq!(s.list_jobs().len(), 0);
}

#[test]
fn once_removed_before_firing_never_delivers() {
    // scheduleOnce(now + 2s) then removeJob before the timer elapses:
    // the due firing observes the flag and delivers nothing.
    let mut s = NotificationScheduler::new();
    let id = s
        .add_one_time_job_at(OneTimeRequest { notify: notify("x"), at: 1_002 }, 1_000)
        .unwrap();
    assert_eq!(s.remove_job(id), Ok(()));
    assert!(s.get_job(id).is_none());
    let out = s.record_firing(id, true);
    assert_eq!(out, FiringOutcome::Skipped { removed: false });
    assert!(s.get_job(id).is_none());
    assert_eq!(s.list_jobs().len(), 0);
}

#[test]
fn once_cancelled_but_still_listed_is_swept() {
    // the safety net: a one-time entry whose firing sees the flag raised
    // is dropped by the firing itself
    let mut s = NotificationScheduler::new();
    let id = s
        .add_one_time_job_at(OneTimeRequest { notify: notify("x"), at: 5 }, 0)
        .unwrap();
    let out = s.record_firing(id, true);
    assert_eq!(out, FiringOutcome::Skipped { removed: true });
    assert!(s.get_job(id).is_none());
}

#[test]
fn cron_retires_after_max_occurrences() {
    // every minute, at most 3 times: exactly 3 deliveries, then gone
    let mut s = NotificationScheduler::new();
    let id = s
        .add_cron_job_at(
            ScheduleRequest {
                notify: notify("x"),
                cron: "0 */1 * * * *".to_string(),
                max_count: Some(3),
            },
            0,
        )
        .unwrap();
    let mut deliveries = 0;
    assert_eq!(s.record_firing(id, false), FiringOutcome::Delivered { occurrence: 1, retired: false });
    deliveries += 1;
    assert_eq!(s.get_job(id).unwrap().count, 1);
    assert_eq!(s.record_firing(id, false), FiringOutcome::Delivered { occurrence: 2, retired: false });
    deliveries += 1;
    assert_eq!(s.get_job(id).unwrap().count, 2);
    assert_eq!(s.record_firing(id, false), FiringOutcome::Delivered { occurrence: 3, retired: true });
    deliveries += 1;
    assert!(s.get_job(id).is_none());
    assert_eq!(s.list_jobs().len(), 0);
    assert_eq!(deliveries, 3);
    // the engine may still fire once more before it is told to stop:
    // the raised flag turns it into a no-op
    assert_eq!(s.record_firing(id, true), FiringOutcome::Skipped { removed: false });
}

#[test]
fn cron_max_count_zero_behaves_as_one() {
    let mut s = NotificationScheduler::new();
    let id = s
        .add_cron_job_at(
            ScheduleRequest {
                notify: notify("x"),
                cron: "* * * * * *".to_string(),
                max_count: Some(0),
            },
            0,
        )
        .unwrap();
    assert_eq!(s.record_firing(id, false), FiringOutcome::Delivered { occurrence: 1, retired: true });
    assert!(s.get_job(id).is_none());
}

#[test]
fn unbounded_cron_keeps_firing() {
    let mut s = NotificationScheduler::new();
    let id = s
        .add_cron_job_at(
            ScheduleRequest { notify: notify("x"), cron: "* * * * * *".to_string(), max_count: None },
            0,
        )
        .unwrap();
    for n in 1..=5u32 {
        assert_eq!(
            s.record_firing(id, false),
            FiringOutcome::Delivered { occurrence: n, retired: false }
        );
    }
    assert_eq!(s.get_job(id).unwrap().count, 5);
}

#[test]
fn remove_absent_id_always_not_found() {
    let mut s = NotificationScheduler::new();
    assert_eq!(s.remove_job(7), Err(SchedulerError::NotFound));
    assert_eq!(s.remove_job(7), Err(SchedulerError::NotFound));
    let id = s
        .add_one_time_job_at(OneTimeRequest { notify: notify("x"), at: 5 }, 0)
        .unwrap();
    assert_eq!(s.remove_job(id), Ok(()));
    assert_eq!(s.remove_job(id), Err(SchedulerError::NotFound));
    assert_eq!(s.remove_job(id), Err(SchedulerError::NotFound));
}

#[test]
fn removal_keeps_other_jobs() {
    let mut s = NotificationScheduler::new();
    let a = s
        .add_cron_job_at(
            ScheduleRequest { notify: notify("a"), cron: "* * * * * *".to_string(), max_count: None },
            0,
        )
        .unwrap();
    let b = s
        .add_one_time_job_at(OneTimeRequest { notify: notify("b"), at: 9 }, 0)
        .unwrap();
    let c = s
        .add_cron_job_at(
            ScheduleRequest { notify: notify("c"), cron: "0 0 9 * * *".to_string(), max_count: Some(2) },
            0,
        )
        .unwrap();
    assert_eq!(s.remove_job(b), Ok(()));
    assert_eq!(s.list_jobs().len(), 2);
    assert_eq!(s.get_job(a).unwrap().notify.title, "a");
    assert!(s.get_job(b).is_none());
    assert_eq!(s.get_job(c).unwrap().notify.title, "c");
}

#[test]
fn detached_firing_touches_nothing() {
    let mut s = NotificationScheduler::new();
    let id = s
        .add_cron_job_at(
            ScheduleRequest { notify: notify("a"), cron: "* * * * * *".to_string(), max_count: None },
            0,
        )
        .unwrap();
    // a firing for an identifier that was never granted, or whose entry is
    // gone while its flag read lagged: delivery happens, registry untouched
    assert_eq!(s.record_firing(999, false), FiringOutcome::DeliveredDetached);
    assert_eq!(s.list_jobs().len(), 1);
    assert_eq!(s.get_job(id).unwrap().count, 0);
}

#[test]
fn compute_delay_clamps_at_zero() {
    assert_eq!(compute_delay(5, 10), 0);
    assert_eq!(compute_delay(10, 10), 0);
    assert_eq!(compute_delay(12, 10), 2);
    assert_eq!(compute_delay(10, -5), 15);
    assert_eq!(compute_delay(i64::MAX, i64::MIN), u64::MAX);
}
