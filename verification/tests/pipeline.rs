use reddit_image_downloader::extensions::ExtensionSet;
use reddit_image_downloader::paths::{extension, file_name, join_path};
use reddit_image_downloader::planner::plan_downloads;
use reddit_image_downloader::subreddit::{
    check_listing_status, Children, Data, Data2, Root, Subreddit, SubredditError,
};

fn ext_set(entries: Vec<(&str, bool)>) -> ExtensionSet {
    ExtensionSet {
        entries: entries.into_iter().map(|(k, v)| (k.to_string(), v)).collect(),
    }
}

fn listing(urls: Vec<&str>) -> Root {
    Root {
        data: Data {
            children: urls
                .into_iter()
                .map(|u| Children {
                    data: Data2 { url: u.to_string() },
                })
                .collect(),
        },
    }
}

#[test]
fn file_name_is_final_segment() {
    let r = file_name("https://example.com/gallery/photo123.jpg");
    assert_eq!(r.unwrap(), "photo123.jpg");
}

#[test]
fn file_name_without_segment_is_none() {
    assert!(file_name("https://example.com/").is_none());
    assert!(file_name("").is_none());
}

#[test]
fn file_name_without_slash_is_whole_string() {
    assert_eq!(file_name("photo.jpg").unwrap(), "photo.jpg");
}

#[test]
fn extension_is_after_last_dot() {
    assert_eq!(extension("https://a/x.jpg").unwrap(), "jpg");
    assert_eq!(extension("https://a/x.tar.gz").unwrap(), "gz");
    assert_eq!(extension("https://a/photo.").unwrap(), "");
}

#[test]
fn extension_missing_cases() {
    assert!(extension("https://a/noext").is_none());
    assert!(extension("https://a/.gitignore").is_none());
    assert!(extension("https://example.com/").is_none());
}

#[test]
fn join_path_uses_single_slash() {
    assert_eq!(join_path("/out", "pics"), "/out/pics");
}

#[test]
fn extension_filter_keeps_exactly_allowed_keys() {
    let exts = ext_set(vec![("jpg", true), ("png", false)]);
    let root = listing(vec![
        "https://a/x.jpg",
        "https://a/y.png",
        "https://a/z.gif",
        "https://a/noext",
        "https://a/.gitignore",
        "https://a/",
    ]);
    let urls = root.image_file_urls(&exts);
    assert_eq!(urls, vec!["https://a/x.jpg".to_string(), "https://a/y.png".to_string()]);
}

#[test]
fn extension_filter_flag_value_is_ignored() {
    let exts = ext_set(vec![("png", false)]);
    let root = listing(vec!["https://a/y.png"]);
    assert_eq!(root.image_file_urls(&exts), vec!["https://a/y.png".to_string()]);
}

#[test]
fn extension_filter_is_case_sensitive() {
    let exts = ext_set(vec![("jpg", true)]);
    let root = listing(vec!["https://a/x.JPG", "https://a/y.jpg"]);
    assert_eq!(root.image_file_urls(&exts), vec!["https://a/y.jpg".to_string()]);
}

#[test]
fn plan_derives_target_paths() {
    let urls = vec!["https://example.com/gallery/photo123.jpg".to_string()];
    let dir = join_path("/out", "pics");
    let tasks = plan_downloads(&urls, dir.as_str(), &Vec::new());
    assert_eq!(tasks.len(), 1);
    assert_eq!(tasks[0].url, "https://example.com/gallery/photo123.jpg");
    assert_eq!(tasks[0].path, "/out/pics/photo123.jpg");
}

#[test]
fn plan_drops_url_without_file_name() {
    let urls = vec!["https://example.com/".to_string()];
    let tasks = plan_downloads(&urls, "/out/pics", &Vec::new());
    assert!(tasks.is_empty());
}

#[test]
fn plan_skips_existing_targets() {
    let urls = vec![
        "https://a/one.jpg".to_string(),
        "https://a/two.jpg".to_string(),
    ];
    let existing = vec!["one.jpg".to_string()];
    let tasks = plan_downloads(&urls, "/out/pics", &existing);
    assert_eq!(tasks.len(), 1);
    assert_eq!(tasks[0].path, "/out/pics/two.jpg");
}

#[test]
fn second_run_plans_nothing_new() {
    let urls = vec![
        "https://a/one.jpg".to_string(),
        "https://a/two.jpg".to_string(),
        "https://a/".to_string(),
    ];
    let first = plan_downloads(&urls, "/out/pics", &Vec::new());
    assert_eq!(first.len(), 2);
    // After the first run the planned names are on disk.
    let mut present: Vec<String> = Vec::new();
    for t in &first {
        present.push(file_name(t.url.as_str()).unwrap());
    }
    let second = plan_downloads(&urls, "/out/pics", &present);
    assert!(second.is_empty());
}

#[test]
fn listing_url_names_the_collection() {
    let s = Subreddit { name: "pics".to_string() };
    assert_eq!(s.listing_url(), "https://www.reddit.com/r/pics.json");
}

#[test]
fn listing_status_accepts_exactly_2xx() {
    assert!(check_listing_status(200).is_ok());
    assert!(check_listing_status(299).is_ok());
    assert!(matches!(check_listing_status(199), Err(SubredditError::BadResponse(199))));
    assert!(matches!(check_listing_status(300), Err(SubredditError::BadResponse(300))));
    assert!(matches!(check_listing_status(500), Err(SubredditError::BadResponse(500))));
}

#[test]
fn listing_error_lines() {
    assert_eq!(
        SubredditError::RequestFailed("timed out".to_string()).describe(),
        "Request failed: timed out"
    );
    assert_eq!(
        SubredditError::ParseFailed("bad json".to_string()).describe(),
        "Failed to parse response: bad json"
    );
    assert_eq!(
        SubredditError::BadResponse(500).describe(),
        "Bad response: HTTP error: 500"
    );
}

#[test]
fn extension_set_membership() {
    let exts = ext_set(vec![("jpg", true), ("png", false)]);
    assert!(exts.contains_key("jpg"));
    assert!(exts.contains_key("png"));
    assert!(!exts.contains_key("gif"));
    assert!(!exts.contains_key(""));
}
