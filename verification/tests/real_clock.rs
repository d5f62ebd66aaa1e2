use bark_scheduler::clock::now_unix;
use bark_scheduler::errors::SchedulerError;
use bark_scheduler::payload::NotifyRequest;
use bark_scheduler::scheduler::NotificationScheduler;
use bark_scheduler::scheduler::OneTimeRequest;
use bark_scheduler::scheduler::ScheduleRequest;

fn notify() -> NotifyRequest {
    NotifyRequest {
        title: "t".to_string(),
        body: "b".to_string(),
        sound: None,
        group: None,
        level: None,
        icon: None,
        url: None,
        copy: None,
        auto_copy: None,
        badge: None,
    }
}

#[test]
fn clock_is_monotonic_enough() {
    let a = now_unix();
    let b = now_unix();
    // seconds since the epoch: consecutive reads are close and ordered
    assert!(b >= a);
    assert!(b - a < 60);
}

#[test]
fn schedule_once_against_the_real_clock() {
    let mut s = NotificationScheduler::new();
    let now = now_unix();
    // far enough in the future that the test cannot race the clock
    let id = s
        .add_one_time_job(OneTimeRequest { notify: notify(), at: now + 3_600 })
        .unwrap();
    let job = s.get_job(id).expect("present immediately after scheduling");
    assert_eq!(job.at, Some(now + 3_600));
    assert!(job.created_at >= now);
    // well in the past: rejected whatever instant the library reads
    let r = s.add_one_time_job(OneTimeRequest { notify: notify(), at: now - 3_600 });
    assert_eq!(r, Err(SchedulerError::PastTimestamp));
    assert_eq!(s.list_jobs().len(), 1);
}

#[test]
fn schedule_cron_against_the_real_clock() {
    let mut s = NotificationScheduler::new();
    let before = now_unix();
    let id = s
        .add_cron_job(ScheduleRequest {
            notify: notify(),
            cron: "0 */1 * * * *".to_string(),
            max_count: Some(3),
        })
        .unwrap();
    let after = now_unix();
    let job = s.get_job(id).expect("present immediately after scheduling");
    assert!(before <= job.created_at && job.created_at <= after);
    assert_eq!(job.cron, Some("0 */1 * * * *".to_string()));
}
