use cup_notifier::cache::DedupCache;
use cup_notifier::cup::{check_refresh, Image, ImageResult, Info, Parts};
use cup_notifier::pipeline::{
    create_pair, filter_candidates, has_complete_detail, into_batches, last_segment, plan_run,
    render, RunError, RunPlan, EMBED_COLOR, MAX_BATCH,
};
use cup_notifier::scheduler::{commit_run, schedule_expression, Action, Delivery};
use cup_notifier::{default_cron, Config};

fn version_image(repo: &str, in_use: bool, has_update: bool, cur: &str, new: &str) -> Image {
    Image {
        in_use,
        parts: Parts {
            registry: "registry-1.docker.io".to_string(),
            repository: repo.to_string(),
            tag: cur.to_string(),
        },
        reference: format!("{repo}:{cur}"),
        result: ImageResult {
            error: None,
            has_update,
            info: Some(Info::Version {
                current_version: cur.to_string(),
                new_tag: new.to_string(),
                new_version: new.to_string(),
                version_update_type: "minor".to_string(),
            }),
        },
        server: None,
        time: 12,
        url: None,
    }
}

fn digest_image(repo: &str, local: Vec<&str>, remote: &str) -> Image {
    Image {
        in_use: true,
        parts: Parts {
            registry: "ghcr.io".to_string(),
            repository: repo.to_string(),
            tag: "latest".to_string(),
        },
        reference: format!("{repo}:latest"),
        result: ImageResult {
            error: None,
            has_update: true,
            info: Some(Info::Digest {
                local_digests: local.into_iter().map(|s| s.to_string()).collect(),
                remote_digest: remote.to_string(),
            }),
        },
        server: Some("host".to_string()),
        time: 3,
        url: Some("https://example.org/app".to_string()),
    }
}

/// Drives a planned run against a sink that answers with `answers`, batch by
/// batch, and returns how many batches were sent.
fn run_with_sink(plan: &RunPlan, cache: &mut DedupCache, answers: &[bool]) -> usize {
    let mut d = Delivery::new(plan.batches.len());
    let mut sent = 0;
    loop {
        match d.next_action() {
            Action::Send(i) => {
                assert_eq!(i, sent);
                let ok = answers.get(i).copied().unwrap_or(true);
                sent += 1;
                d.record(ok);
            }
            Action::Commit => {
                commit_run(cache, &plan.keys, &d);
                return sent;
            }
            Action::Stop => {
                commit_run(cache, &plan.keys, &d);
                return sent;
            }
        }
    }
}

fn key(a: &str, b: &str) -> (String, String) {
    (a.to_string(), b.to_string())
}

#[test]
fn end_to_end_single_version_update() {
    let images = vec![version_image("repo/app", true, true, "1.0.0", "1.1.0")];
    let mut cache = DedupCache::new();
    let plan = plan_run(&images, &cache).unwrap();
    assert_eq!(plan.batches.len(), 1);
    assert_eq!(plan.batches[0].len(), 1);
    let e = &plan.batches[0][0];
    assert_eq!(e.title, "New version of repo/app");
    assert!(e.description.contains("1.0.0"));
    assert!(e.description.contains("1.1.0"));
    assert_eq!(e.description, "Image app running with version 1.0.0 can be updated to 1.1.0");
    assert_eq!(e.color, 2_326_507);
    assert_eq!(e.color, EMBED_COLOR);
    assert_eq!(
        e.thumbnail.url,
        "https://cdn.jsdelivr.net/gh/homarr-labs/dashboard-icons/png/app.png"
    );
    assert_eq!(e.url, None);
    assert_eq!(run_with_sink(&plan, &mut cache, &[]), 1);
    assert!(cache.contains(&key("repo/app", "1.1.0")));
}

#[test]
fn duplicate_is_suppressed() {
    let images = vec![version_image("repo/app", true, true, "1.0.0", "1.1.0")];
    let mut cache = DedupCache::new();
    cache.insert(key("repo/app", "1.1.0"));
    let plan = plan_run(&images, &cache).unwrap();
    assert!(plan.batches.is_empty());
    assert!(plan.keys.is_empty());
    assert_eq!(run_with_sink(&plan, &mut cache, &[]), 0);
    assert!(cache.contains(&key("repo/app", "1.1.0")));
    assert!(!cache.contains(&key("repo/app", "1.0.0")));
}

#[test]
fn filter_keeps_in_use_updated_in_order() {
    let images = vec![
        version_image("a/one", true, true, "1", "2"),
        version_image("a/two", false, true, "1", "2"),
        version_image("a/three", true, false, "1", "2"),
        version_image("a/four", true, true, "1", "2"),
        version_image("a/five", false, false, "1", "2"),
    ];
    assert_eq!(filter_candidates(&images), vec![0, 3]);
    assert_eq!(filter_candidates(&Vec::new()), Vec::<usize>::new());
}

#[test]
fn identity_key_is_stable() {
    let v = version_image("org/web", true, true, "1.0", "2.0");
    assert_eq!(create_pair(&v), key("org/web", "2.0"));
    assert_eq!(create_pair(&v), create_pair(&v));
    let d = digest_image("org/web", vec!["sha256:old"], "sha256:new");
    assert_eq!(create_pair(&d), key("org/web", "sha256:new"));
}

#[test]
fn second_run_announces_nothing() {
    let images = vec![
        version_image("x/a", true, true, "1", "2"),
        digest_image("x/b", vec!["d1", "d0"], "d2"),
    ];
    let mut cache = DedupCache::new();
    let first = plan_run(&images, &cache).unwrap();
    assert_eq!(first.keys.len(), 2);
    assert_eq!(run_with_sink(&first, &mut cache, &[]), 1);
    let second = plan_run(&images, &cache).unwrap();
    assert!(second.keys.is_empty());
    assert!(second.batches.is_empty());
}

#[test]
fn batching_of_twenty_three() {
    let items: Vec<u32> = (0..23).collect();
    let batches = into_batches(items.clone(), 10);
    assert_eq!(batches.len(), 3);
    assert_eq!(batches[0].len(), 10);
    assert_eq!(batches[1].len(), 10);
    assert_eq!(batches[2].len(), 3);
    let flat: Vec<u32> = batches.concat();
    assert_eq!(flat, items);
}

#[test]
fn batching_edges() {
    assert!(into_batches(Vec::<u8>::new(), 10).is_empty());
    let exact = into_batches((0..20).collect::<Vec<u8>>(), 10);
    assert_eq!(exact.len(), 2);
    assert_eq!(exact[1].len(), 10);
    let one = into_batches(vec![7u8], 10);
    assert_eq!(one, vec![vec![7u8]]);
}

#[test]
fn many_updates_are_split_in_batches_of_ten() {
    let images: Vec<Image> = (0..25)
        .map(|i| version_image(&format!("r/app{i}"), true, true, "1", "2"))
        .collect();
    let cache = DedupCache::new();
    let plan = plan_run(&images, &cache).unwrap();
    assert_eq!(MAX_BATCH, 10);
    assert_eq!(plan.batches.len(), 3);
    assert_eq!(plan.batches[2].len(), 5);
    assert_eq!(plan.batches[1][0].title, "New version of r/app10");
}

#[test]
fn refused_batch_records_nothing() {
    let images: Vec<Image> = (0..25)
        .map(|i| version_image(&format!("r/app{i}"), true, true, "1", "2"))
        .collect();
    let mut cache = DedupCache::new();
    let plan = plan_run(&images, &cache).unwrap();
    assert_eq!(run_with_sink(&plan, &mut cache, &[true, false, true]), 2);
    assert!(!cache.contains(&key("r/app0", "2")));
    assert!(!cache.contains(&key("r/app24", "2")));
    let again = plan_run(&images, &cache).unwrap();
    assert_eq!(again.keys.len(), 25);
}

#[test]
fn refused_first_batch_stops() {
    let mut d = Delivery::new(2);
    assert_eq!(d.next_action(), Action::Send(0));
    d.record(false);
    assert_eq!(d.next_action(), Action::Stop);
    d.record(true);
    assert_eq!(d.next_action(), Action::Stop);
    assert_eq!(Delivery::new(0).next_action(), Action::Commit);
}

#[test]
fn missing_detail_fails_the_run() {
    let mut img = version_image("x/a", true, true, "1", "2");
    img.result.info = None;
    assert!(!has_complete_detail(&img));
    let cache = DedupCache::new();
    assert!(matches!(plan_run(&vec![img], &cache), Err(RunError::SourceData)));
}

#[test]
fn missing_detail_of_unused_image_is_ignored() {
    let mut img = version_image("x/a", false, true, "1", "2");
    img.result.info = None;
    let cache = DedupCache::new();
    let plan = plan_run(&vec![img], &cache).unwrap();
    assert!(plan.keys.is_empty());
}

#[test]
fn digest_without_local_digest_fails_the_run() {
    let img = digest_image("x/b", vec![], "d2");
    let cache = DedupCache::new();
    assert!(matches!(plan_run(&vec![img], &cache), Err(RunError::SourceData)));
}

#[test]
fn digest_update_renders_first_local_digest() {
    let img = digest_image("ghcr.io/org/tool", vec!["sha256:aaa", "sha256:bbb"], "sha256:ccc");
    let e = render(&img);
    assert_eq!(e.title, "New version of ghcr.io/org/tool");
    assert_eq!(
        e.description,
        "Image tool running with digest sha256:aaa can be updated to sha256:ccc"
    );
    assert_eq!(e.url.as_deref(), Some("https://example.org/app"));
    assert_eq!(
        e.thumbnail.url,
        "https://cdn.jsdelivr.net/gh/homarr-labs/dashboard-icons/png/tool.png"
    );
}

#[test]
fn last_segment_of_paths() {
    assert_eq!(last_segment("a/b/c"), "c");
    assert_eq!(last_segment("nginx"), "nginx");
    assert_eq!(last_segment("a/"), "");
    assert_eq!(last_segment(""), "");
}

#[test]
fn cache_insert_is_idempotent() {
    let mut c = DedupCache::new();
    assert!(!c.contains(&key("a", "1")));
    c.insert(key("a", "1"));
    c.insert(key("a", "1"));
    c.insert_all(&vec![key("a", "1"), key("b", "2")]);
    assert!(c.contains(&key("a", "1")));
    assert!(c.contains(&key("b", "2")));
    assert!(!c.contains(&key("a", "2")));
}

#[test]
fn refresh_answer_must_be_ok() {
    assert_eq!(check_refresh(&"OK".to_string()), Ok(()));
    assert_eq!(check_refresh(&"ok".to_string()), Err(RunError::SourceUnavailable));
    assert_eq!(check_refresh(&"OK\n".to_string()), Err(RunError::SourceUnavailable));
    assert_eq!(check_refresh(&String::new()), Err(RunError::SourceUnavailable));
}

#[test]
fn schedule_gets_seconds_field() {
    assert_eq!(schedule_expression(&"0 0 * * *".to_string()), "0 0 0 * * *");
    assert_eq!(default_cron(), "0 0 0 * * *");
    let c = Config::new("w".to_string(), "http://cup".to_string(), None);
    assert_eq!(c.cron, "0 0 0 * * *");
    let c = Config::new("w".to_string(), "http://cup".to_string(), Some("1 2 3 * * *".to_string()));
    assert_eq!(c.cron, "1 2 3 * * *");
    assert_eq!(c.cup_base_url, "http://cup");
}
