use shrimply_model::font_browser::{
    Browser, BrowserJob, FontFamily, FontSource, Message, MAX_PREVIEW_WORKERS,
};

fn family(name: &str, source: FontSource, revision: i64) -> FontFamily {
    FontFamily { name: name.to_string(), source, revision }
}

fn catalog() -> Vec<FontFamily> {
    vec![
        family("Arial", FontSource::Local, 0),
        family("Roboto", FontSource::Google, 3),
        family("Roboto Mono", FontSource::Google, 1),
        family("Inter", FontSource::Google, -1),
    ]
}

/// Families whose name contains the query, ignoring case; a found Google
/// entry is shown first.
fn matching(families: &Vec<FontFamily>, query: &String, lookup: &Option<String>) -> Vec<FontFamily> {
    let query = query.to_lowercase();
    let mut visible: Vec<FontFamily> = Vec::new();
    if let Some(found) = lookup {
        visible.push(family(found, FontSource::Google, -1));
    }
    visible.extend(
        families.iter().filter(|f| f.name.to_lowercase().contains(&query)).cloned(),
    );
    visible
}

/// A lookup is needed when the query is not empty and nothing installed matches.
fn needed(families: &Vec<FontFamily>, query: &String) -> bool {
    let query = query.to_lowercase();
    !query.is_empty() && !families.iter().any(|f| f.name.to_lowercase().contains(&query))
}

fn names(families: &[FontFamily]) -> Vec<String> {
    families.iter().map(|f| f.name.clone()).collect()
}

fn loaded_browser() -> Browser<String> {
    let mut browser: Browser<String> = Browser::new();
    assert!(browser.open());
    browser.take_jobs();
    let poll = browser.poll(
        Message::Catalog { families: catalog(), cache_error: None },
        &needed,
        &matching,
    );
    assert!(poll.changed && poll.visible_changed);
    browser
}

#[test]
fn open_loads_the_catalogue_once() {
    let mut browser: Browser<String> = Browser::new();
    assert!(!browser.busy());
    assert!(browser.open());
    assert_eq!(browser.status(), "Loading installed fonts…");
    assert!(browser.busy());
    assert!(!browser.open());
    let jobs = browser.take_jobs();
    assert_eq!(jobs.len(), 1);
    assert!(matches!(jobs[0], BrowserJob::LoadCatalog));
    assert!(browser.take_jobs().is_empty());
}

#[test]
fn catalogue_fills_the_visible_list() {
    let browser = loaded_browser();
    assert_eq!(names(browser.visible()), vec!["Arial", "Roboto", "Roboto Mono", "Inter"]);
    assert_eq!(browser.status(), "");
    assert!(!browser.busy());
}

#[test]
fn catalogue_error_becomes_the_status() {
    let mut browser: Browser<String> = Browser::new();
    browser.open();
    browser.poll(
        Message::Catalog { families: catalog(), cache_error: Some("cache is unreadable".to_string()) },
        &needed,
        &matching,
    );
    assert_eq!(browser.status(), "cache is unreadable");
}

#[test]
fn search_filters_and_starts_new_generation() {
    let mut browser = loaded_browser();
    assert_eq!(browser.generation(), 0);
    assert!(browser.search("rob".to_string(), &needed, &matching));
    assert_eq!(browser.generation(), 1);
    assert_eq!(names(browser.visible()), vec!["Roboto", "Roboto Mono"]);
    assert!(browser.take_jobs().is_empty());
    // The same text again changes nothing.
    assert!(!browser.search("rob".to_string(), &needed, &matching));
    assert_eq!(browser.generation(), 1);
}

#[test]
fn set_query_returns_generation() {
    let mut browser = loaded_browser();
    assert_eq!(browser.set_query("a".to_string(), &matching), 1);
    assert_eq!(browser.set_query("a".to_string(), &matching), 1);
    assert_eq!(browser.set_query("ar".to_string(), &matching), 2);
    assert_eq!(names(browser.visible()), vec!["Arial"]);
}

#[test]
fn search_without_local_match_looks_up_google() {
    let mut browser = loaded_browser();
    assert!(browser.search("lobster".to_string(), &needed, &matching));
    assert_eq!(browser.status(), "Searching Google Fonts…");
    assert!(browser.busy());
    let jobs = browser.take_jobs();
    assert_eq!(jobs.len(), 1);
    match &jobs[0] {
        BrowserJob::Lookup { generation, query } => {
            assert_eq!(*generation, 1);
            assert_eq!(query, "lobster");
        }
        other => panic!("unexpected job {other:?}"),
    }
    // A second request for the same generation starts nothing.
    assert!(!browser.begin_lookup(1, &needed));
}

#[test]
fn stale_lookup_is_ignored_and_current_one_is_kept() {
    let mut browser = loaded_browser();
    browser.search("lobster".to_string(), &needed, &matching);
    browser.search("lobster two".to_string(), &needed, &matching);
    browser.take_jobs();
    let stale = browser.poll(
        Message::Lookup { generation: 1, result: Ok("Lobster".to_string()) },
        &needed,
        &matching,
    );
    assert!(!stale.changed && !stale.visible_changed);
    assert_eq!(browser.lookup(), None);
    let current = browser.poll(
        Message::Lookup { generation: 2, result: Ok("Lobster Two".to_string()) },
        &needed,
        &matching,
    );
    assert!(current.changed && current.visible_changed);
    assert_eq!(browser.lookup(), Some(&"Lobster Two".to_string()));
    assert_eq!(browser.status(), "");
    assert!(!browser.busy());
    assert_eq!(names(browser.visible()), vec!["Lobster Two"]);
}

#[test]
fn failed_lookup_reports_its_error() {
    let mut browser = loaded_browser();
    browser.search("lobster".to_string(), &needed, &matching);
    browser.poll(
        Message::Lookup { generation: 1, result: Err("offline".to_string()) },
        &needed,
        &matching,
    );
    assert_eq!(browser.status(), "offline");
    assert_eq!(browser.lookup(), None);
}

#[test]
fn previews_use_at_most_two_workers() {
    let mut browser = loaded_browser();
    browser.request_previews(0..10, &|_: &FontFamily, _: &Option<String>| false);
    let jobs = browser.take_jobs();
    // Roboto and Roboto Mono are Google families with cached files; Inter has
    // no cached files and Arial is local.
    assert_eq!(jobs.len(), 2);
    assert!(jobs.len() <= MAX_PREVIEW_WORKERS);
    match &jobs[0] {
        BrowserJob::Preview { family, generation } => {
            assert_eq!(family.name, "Roboto");
            assert_eq!(*generation, 0);
        }
        other => panic!("unexpected job {other:?}"),
    }
    // Asking again queues nothing new while the previews are pending.
    browser.request_previews(0..10, &|_: &FontFamily, _: &Option<String>| false);
    assert!(browser.take_jobs().is_empty());
}

#[test]
fn ready_previews_are_not_requested() {
    let mut browser = loaded_browser();
    browser.request_previews(0..10, &|_: &FontFamily, _: &Option<String>| true);
    assert!(browser.take_jobs().is_empty());
}

#[test]
fn preview_range_is_clamped() {
    let mut browser = loaded_browser();
    browser.request_previews(2..100, &|_: &FontFamily, _: &Option<String>| false);
    let jobs = browser.take_jobs();
    assert_eq!(jobs.len(), 1);
    assert!(matches!(&jobs[0], BrowserJob::Preview { family, .. } if family.name == "Roboto Mono"));
    browser.request_previews(7..3, &|_: &FontFamily, _: &Option<String>| false);
    assert!(browser.take_jobs().is_empty());
}

#[test]
fn finished_preview_frees_a_worker_and_reports_change() {
    let mut browser = loaded_browser();
    let mut more = catalog();
    more.push(family("Lato", FontSource::Google, 2));
    browser.poll(Message::Catalog { families: more, cache_error: None }, &needed, &matching);
    browser.request_previews(0..10, &|_: &FontFamily, _: &Option<String>| false);
    assert_eq!(browser.take_jobs().len(), 2);
    let poll = browser.poll(
        Message::Preview { family: family("ROBOTO", FontSource::Google, 3), generation: 0, result: Some(Ok(())) },
        &needed,
        &matching,
    );
    assert!(poll.changed);
    assert!(!poll.visible_changed);
    // The freed worker takes the queued Lato preview.
    let jobs = browser.take_jobs();
    assert_eq!(jobs.len(), 1);
    assert!(matches!(&jobs[0], BrowserJob::Preview { family, .. } if family.name == "Lato"));
}

#[test]
fn stale_or_failed_previews_report_no_change() {
    let mut browser = loaded_browser();
    browser.request_previews(0..10, &|_: &FontFamily, _: &Option<String>| false);
    browser.take_jobs();
    let failed = browser.poll(
        Message::Preview {
            family: family("Roboto", FontSource::Google, 3),
            generation: 0,
            result: Some(Err("broken file".to_string())),
        },
        &needed,
        &matching,
    );
    assert!(!failed.changed);
    browser.search("mono".to_string(), &needed, &matching);
    let stale = browser.poll(
        Message::Preview { family: family("Roboto Mono", FontSource::Google, 1), generation: 0, result: Some(Ok(())) },
        &needed,
        &matching,
    );
    assert!(!stale.changed);
}

#[test]
fn only_one_activation_at_a_time() {
    let mut browser = loaded_browser();
    assert_eq!(browser.activate(family("Roboto", FontSource::Google, 3)), Ok(()));
    assert_eq!(browser.status(), "Loading cached font…");
    assert!(browser.busy());
    assert_eq!(
        browser.activate(family("Inter", FontSource::Google, -1)),
        Err("A font is already being activated".to_string())
    );
    let jobs = browser.take_jobs();
    assert_eq!(jobs.len(), 1);
    assert!(matches!(&jobs[0], BrowserJob::Activate { family } if family.name == "Roboto"));
}

#[test]
fn downloading_status_for_uncached_family() {
    let mut browser = loaded_browser();
    browser.activate(family("Inter", FontSource::Google, -1)).unwrap();
    assert_eq!(browser.status(), "Downloading font family…");
}

#[test]
fn activation_replaces_same_family_or_appends() {
    let mut browser = loaded_browser();
    browser.activate(family("Inter", FontSource::Google, -1)).unwrap();
    let poll = browser.poll(
        Message::Activation(Ok(family("inter", FontSource::Google, 7))),
        &needed,
        &matching,
    );
    assert!(poll.changed && poll.visible_changed);
    assert_eq!(poll.activations, vec![Ok(family("inter", FontSource::Google, 7))]);
    assert_eq!(names(browser.visible()), vec!["Arial", "Roboto", "Roboto Mono", "inter"]);
    assert!(!browser.busy());

    browser.activate(family("Lobster", FontSource::Google, -1)).unwrap();
    browser.poll(
        Message::Activation(Ok(family("Lobster", FontSource::Google, 1))),
        &needed,
        &matching,
    );
    assert_eq!(
        names(browser.visible()),
        vec!["Arial", "Roboto", "Roboto Mono", "inter", "Lobster"]
    );
}

#[test]
fn failed_activation_reports_error() {
    let mut browser = loaded_browser();
    browser.activate(family("Lobster", FontSource::Google, -1)).unwrap();
    let poll = browser.poll(
        Message::Activation(Err("download failed".to_string())),
        &needed,
        &matching,
    );
    assert_eq!(poll.activations, vec![Err("download failed".to_string())]);
    assert_eq!(browser.status(), "download failed");
    assert!(!browser.busy());
}
