use reddit_image_downloader::config::{default_concurrent_downloads, Config};
use reddit_image_downloader::extensions::ExtensionSet;
use reddit_image_downloader::image_file::{check_download_status, DownloadError, DownloadOutcome};
use reddit_image_downloader::paths::file_name;
use reddit_image_downloader::subreddit::{Children, Data, Data2, Root, Subreddit, SubredditError};
use reddit_image_downloader::worker::{
    plan_collection, record_outcome, tally_outcomes, CollectionPlan, DownloadScheduler,
    ProgressHandle,
};

fn ext_set(keys: Vec<&str>) -> ExtensionSet {
    ExtensionSet {
        entries: keys.into_iter().map(|k| (k.to_string(), true)).collect(),
    }
}

fn listing(urls: Vec<&str>) -> Root {
    Root {
        data: Data {
            children: urls
                .into_iter()
                .map(|u| Children {
                    data: Data2 { url: u.to_string() },
                })
                .collect(),
        },
    }
}

#[test]
fn default_limit_is_five() {
    assert_eq!(default_concurrent_downloads(), 5);
}

#[test]
fn config_override_replaces_limit() {
    let mut c = Config {
        subreddits: Vec::new(),
        file_ext: ext_set(vec!["jpg"]),
        download_path: "/out".to_string(),
        concurrent_downloads: 5,
    };
    c.apply_concurrency_override(None);
    assert_eq!(c.concurrent_downloads, 5);
    c.apply_concurrency_override(Some(2));
    assert_eq!(c.concurrent_downloads, 2);
    assert_eq!(c.download_limit(), 2);
    c.concurrent_downloads = 0;
    assert_eq!(c.download_limit(), 5);
}

#[test]
fn download_status_accepts_exactly_2xx() {
    assert!(check_download_status(200).is_ok());
    assert!(check_download_status(204).is_ok());
    assert!(matches!(check_download_status(404), Err(DownloadError::BadStatus(404))));
    assert!(matches!(check_download_status(301), Err(DownloadError::BadStatus(301))));
}

#[test]
fn download_error_lines() {
    assert_eq!(
        DownloadError::IoError("disk full".to_string()).describe(),
        "IO error: disk full"
    );
    assert_eq!(DownloadError::BadStatus(404).describe(), "HTTP error: 404");
    assert_eq!(DownloadError::BadStatus(0).describe(), "HTTP error: 0");
    assert_eq!(DownloadError::BadStatus(65535).describe(), "HTTP error: 65535");
    assert_eq!(
        DownloadError::TransportError("reset".to_string()).describe(),
        "Transport error: reset"
    );
}

#[test]
fn in_flight_never_exceeds_limit() {
    // concurrencyLimit = 2 with 5 pending tasks: the scheduler never admits a
    // third download while two are in flight.
    let mut s = DownloadScheduler::new(5, 2);
    let mut max_in_flight = 0;
    let mut pending: Vec<usize> = Vec::new();
    let mut finished = 0;
    while finished < 5 {
        while s.can_start() {
            pending.push(s.start_next());
            if s.in_flight_count() > max_in_flight {
                max_in_flight = s.in_flight_count();
            }
        }
        assert!(s.in_flight_count() <= 2);
        let _task = pending.pop().unwrap();
        s.record_finish(true);
        finished += 1;
    }
    assert_eq!(max_in_flight, 2);
    assert!(s.all_finished());
    assert_eq!(s.failed, 0);
}

#[test]
fn gate_hands_out_each_task_once() {
    let mut s = DownloadScheduler::new(3, 1);
    let mut seen: Vec<usize> = Vec::new();
    while !s.all_finished() {
        assert!(s.can_start());
        seen.push(s.start_next());
        assert!(!s.can_start());
        s.record_finish(true);
    }
    assert_eq!(seen, vec![0, 1, 2]);
}

#[test]
fn failures_are_contained_and_counted() {
    // 4 tasks; tasks 2 and 4 fail with a non-2xx status. All four are
    // counted, progress reaches 4/4, and exactly 2 reports are emitted.
    let outcomes = vec![
        DownloadOutcome::Success,
        DownloadOutcome::Failure(DownloadError::BadStatus(404)),
        DownloadOutcome::Success,
        DownloadOutcome::Failure(DownloadError::BadStatus(500)),
    ];
    let urls = vec!["u1", "u2", "u3", "u4"];
    let mut sched = DownloadScheduler::new(4, 2);
    let mut progress = ProgressHandle::new(4, "downloading");
    let mut reports = Vec::new();
    for (i, outcome) in outcomes.into_iter().enumerate() {
        assert!(sched.can_start());
        sched.start_next();
        if let Some(r) = record_outcome(&mut sched, &mut progress, "pics", urls[i], outcome) {
            reports.push(r);
        }
    }
    assert_eq!(progress.position, 4);
    assert_eq!(progress.total, 4);
    assert!(progress.is_complete());
    assert!(sched.all_finished());
    assert_eq!(reports.len(), 2);
    assert_eq!(reports[0].subreddit, "pics");
    assert_eq!(reports[0].url, "u2");
    assert!(matches!(&reports[0].error, DownloadError::BadStatus(404)));
    assert_eq!(reports[1].url, "u4");
    assert!(matches!(&reports[1].error, DownloadError::BadStatus(500)));
}

#[test]
fn tally_counts_every_outcome() {
    let outcomes = vec![true, false, true, false];
    let s = tally_outcomes(&outcomes, 2);
    assert!(s.all_finished());
    assert_eq!(s.finished, 4);
    assert_eq!(s.failed, 2);
    let none = tally_outcomes(&Vec::new(), 1);
    assert!(none.all_finished());
    assert_eq!(none.failed, 0);
}

#[test]
fn progress_handle_counts_and_labels() {
    let mut p = ProgressHandle::new(2, "fetching data...");
    assert_eq!(p.label, "fetching data...");
    assert!(!p.is_complete());
    p.increment();
    p.increment();
    assert!(p.is_complete());
    p.set_label("download complete");
    assert_eq!(p.label, "download complete");
    assert_eq!(p.position, 2);
}

#[test]
fn listing_failure_skips_only_that_collection() {
    // Collection A answers 500; collection B lists three new files. A yields
    // one error report and no tasks; B's three downloads are all planned.
    let exts = ext_set(vec!["jpg"]);
    let a = Subreddit { name: "aaa".to_string() };
    let b = Subreddit { name: "bbb".to_string() };
    let plan_a = plan_collection(
        &a,
        Err(SubredditError::BadResponse(500)),
        &Vec::new(),
        "/out",
        &exts,
    );
    let plan_b = plan_collection(
        &b,
        Ok(listing(vec!["https://a/1.jpg", "https://a/2.jpg", "https://a/3.jpg"])),
        &Vec::new(),
        "/out",
        &exts,
    );
    match plan_a {
        CollectionPlan::ListingFailed(e) => {
            assert_eq!(e.describe(), "Bad response: HTTP error: 500");
        }
        _ => panic!("collection A should fail its listing"),
    }
    match plan_b {
        CollectionPlan::Download(tasks) => {
            assert_eq!(tasks.len(), 3);
            assert_eq!(tasks[0].path, "/out/bbb/1.jpg");
            assert_eq!(tasks[2].path, "/out/bbb/3.jpg");
        }
        _ => panic!("collection B should still download"),
    }
}

#[test]
fn second_collection_run_is_idle() {
    // With the listing unchanged and the first run's files on disk, the
    // worker finds nothing to do.
    let exts = ext_set(vec!["jpg"]);
    let s = Subreddit { name: "pics".to_string() };
    let urls = vec!["https://a/1.jpg", "https://a/2.jpg", "https://a/skip.gif"];
    let first = plan_collection(&s, Ok(listing(urls.clone())), &Vec::new(), "/out", &exts);
    let tasks = match first {
        CollectionPlan::Download(t) => t,
        _ => panic!("first run should download"),
    };
    assert_eq!(tasks.len(), 2);
    let written: Vec<String> = tasks
        .iter()
        .map(|t| file_name(t.url.as_str()).unwrap())
        .collect();
    let second = plan_collection(&s, Ok(listing(urls)), &written, "/out", &exts);
    assert!(matches!(second, CollectionPlan::NothingToDo));
}

#[test]
fn empty_plan_means_nothing_to_do() {
    let exts = ext_set(vec!["jpg"]);
    let s = Subreddit { name: "pics".to_string() };
    let existing = vec!["1.jpg".to_string()];
    let plan = plan_collection(
        &s,
        Ok(listing(vec!["https://a/1.jpg", "https://a/nope.gif"])),
        &existing,
        "/out",
        &exts,
    );
    assert!(matches!(plan, CollectionPlan::NothingToDo));
}
