use surf::cache::{CachedConfig, CachedRun};

fn lines(items: &[&str]) -> Vec<String> {
    items.iter().map(|s| s.to_string()).collect()
}

#[test]
fn a_new_configuration_is_empty() {
    let c = CachedConfig::new();
    assert!(c.is_empty());
    assert!(CachedConfig::default().is_empty());
    assert_eq!(
        c.display_cached_config(),
        "Cached configuration:\n  (no cached configuration)\n"
    );
}

#[test]
fn from_download_keeps_the_download_options() {
    let c = CachedConfig::from_download(8, true, 45, false, true, Some("work".to_string()));
    assert_eq!(c.parallel, Some(8));
    assert_eq!(c.continue_download, Some(true));
    assert_eq!(c.idle_timeout, Some(45));
    assert_eq!(c.http3, Some(false));
    assert_eq!(c.no_color, Some(true));
    assert_eq!(c.profile, Some("work".to_string()));
    assert_eq!(c.include_headers, None);
    assert_eq!(c.requests, None);
    assert!(!c.is_empty());
}

#[test]
fn from_get_keeps_an_empty_header_list_as_none() {
    let c = CachedConfig::from_get(
        true, false, vec![], 10, false, false, true, false, true, false, None,
    );
    assert_eq!(c.headers, None);
    assert_eq!(c.include_headers, Some(true));
    assert_eq!(c.json, Some(true));
    assert_eq!(c.save_history, Some(true));
    assert_eq!(c.parallel, None);
    let d = CachedConfig::from_get(
        true, false, lines(&["A: b"]), 10, false, false, true, false, true, false, None,
    );
    assert_eq!(d.headers, Some(lines(&["A: b"])));
}

#[test]
fn from_bench_keeps_the_benchmark_options() {
    let c = CachedConfig::from_bench(100, 10, 5, true, false, None);
    assert_eq!(c.requests, Some(100));
    assert_eq!(c.concurrency, Some(10));
    assert_eq!(c.connect_timeout, Some(5));
    assert_eq!(c.http3, Some(true));
    assert_eq!(c.profile, None);
    assert_eq!(c.idle_timeout, None);
}

#[test]
fn download_conflicts_are_reported_in_order() {
    let c = CachedConfig::from_download(8, true, 45, false, false, None);
    assert_eq!(
        c.detect_conflicts_download(Some(4), Some(false), Some(30), Some(true)),
        lines(&[
            "parallel: cached=8, provided=4",
            "continue_download: cached=true, provided=false",
            "idle_timeout: cached=45s, provided=30s",
            "http3: cached=false, provided=true",
        ])
    );
    assert!(c.detect_conflicts_download(Some(8), Some(true), Some(45), Some(false)).is_empty());
    assert!(c.detect_conflicts_download(None, None, None, None).is_empty());
    assert!(CachedConfig::new()
        .detect_conflicts_download(Some(1), Some(true), Some(1), Some(true))
        .is_empty());
}

#[test]
fn get_conflicts_are_reported_in_order() {
    let c = CachedConfig::from_get(
        true,
        true,
        lines(&["A: \"b\"", "C: d"]),
        10,
        true,
        true,
        true,
        true,
        true,
        false,
        None,
    );
    let given = Some(lines(&["X: y"]));
    let conflicts = c.detect_conflicts_get(
        Some(false),
        Some(false),
        &given,
        Some(20),
        Some(false),
        Some(false),
        Some(false),
        Some(false),
        Some(false),
    );
    assert_eq!(
        conflicts,
        lines(&[
            "include: cached=true, provided=false",
            "location: cached=true, provided=false",
            "headers: cached=[\"A: \\\"b\\\"\", \"C: d\"], provided=[\"X: y\"]",
            "connect_timeout: cached=10s, provided=20s",
            "verbose: cached=true, provided=false",
            "http3: cached=true, provided=false",
            "json: cached=true, provided=false",
            "analyze: cached=true, provided=false",
            "save_history: cached=true, provided=false",
        ])
    );
    let same = Some(lines(&["A: \"b\"", "C: d"]));
    assert!(c
        .detect_conflicts_get(None, None, &same, None, None, None, None, None, None)
        .is_empty());
}

#[test]
fn bench_conflicts_are_reported_in_order() {
    let c = CachedConfig::from_bench(100, 10, 5, false, false, None);
    assert_eq!(
        c.detect_conflicts_bench(Some(200), Some(20), Some(6), Some(true)),
        lines(&[
            "requests: cached=100, provided=200",
            "concurrency: cached=10, provided=20",
            "connect_timeout: cached=5s, provided=6s",
            "http3: cached=false, provided=true",
        ])
    );
    assert!(c.detect_conflicts_bench(Some(100), None, Some(5), None).is_empty());
}

#[test]
fn merge_prefers_given_then_kept_then_default() {
    let empty = CachedConfig::new();
    assert_eq!(empty.merge_download_config(None, None, None, None), (4, false, 30, false));
    assert_eq!(empty.merge_bench_config(None, None, None, None), (100, 10, 5, false));
    assert_eq!(
        empty.merge_get_config(None, None, None, None, None, None, None, None, None),
        (false, false, vec![], 10, false, false, false, false, true)
    );
    let kept = CachedConfig::from_download(8, true, 45, true, false, None);
    assert_eq!(kept.merge_download_config(None, None, None, None), (8, true, 45, true));
    assert_eq!(
        kept.merge_download_config(Some(2), Some(false), Some(1), Some(false)),
        (2, false, 1, false)
    );
    let bench = CachedConfig::from_bench(7, 3, 9, true, false, None);
    assert_eq!(bench.merge_bench_config(None, Some(5), None, None), (7, 5, 9, true));
}

#[test]
fn merge_get_takes_given_headers_before_kept_ones() {
    let kept = CachedConfig::from_get(
        true, true, lines(&["A: b"]), 20, true, false, true, true, false, false, None,
    );
    assert_eq!(
        kept.merge_get_config(None, None, None, None, None, None, None, None, None),
        (true, true, lines(&["A: b"]), 20, true, false, true, true, false)
    );
    assert_eq!(
        kept.merge_get_config(
            Some(false),
            None,
            Some(lines(&["X: y"])),
            Some(3),
            None,
            Some(true),
            None,
            None,
            Some(true)
        ),
        (false, true, lines(&["X: y"]), 3, true, true, true, true, true)
    );
}

#[test]
fn updates_leave_the_other_options_alone() {
    let mut c = CachedConfig::from_bench(7, 3, 9, true, false, Some("p".to_string()));
    c.update_with_download(2, true, 60, false, true, None);
    assert_eq!(c.requests, Some(7));
    assert_eq!(c.concurrency, Some(3));
    assert_eq!(c.connect_timeout, Some(9));
    assert_eq!(c.parallel, Some(2));
    assert_eq!(c.idle_timeout, Some(60));
    assert_eq!(c.http3, Some(false));
    assert_eq!(c.no_color, Some(true));
    assert_eq!(c.profile, None);
    c.update_with_get(true, true, vec![], 1, true, true, true, true, true, false, None);
    assert_eq!(c.headers, None);
    assert_eq!(c.connect_timeout, Some(1));
    assert_eq!(c.parallel, Some(2));
    c.update_with_bench(1, 1, 2, false, false, Some("q".to_string()));
    assert_eq!(c.requests, Some(1));
    assert_eq!(c.connect_timeout, Some(2));
    assert_eq!(c.include_headers, Some(true));
    assert_eq!(c.profile, Some("q".to_string()));
}

#[test]
fn display_shows_each_kept_option() {
    let mut c = CachedConfig::from_download(8, true, 45, false, true, Some("work".to_string()));
    c.update_with_get(
        true,
        false,
        lines(&["A: b"]),
        10,
        false,
        false,
        true,
        false,
        true,
        true,
        Some("work".to_string()),
    );
    c.update_with_bench(100, 10, 5, false, true, Some("work".to_string()));
    assert_eq!(
        c.display_cached_config(),
        "Cached configuration:\n  parallel: 8\n  continue_download: true\n  idle_timeout: 45s\n  \
         include: true\n  location: false\n  headers: [\"A: b\"]\n  connect_timeout: 5s\n  \
         verbose: false\n  json: true\n  analyze: false\n  save_history: true\n  requests: 100\n  \
         concurrency: 10\n  http3: false\n  no_color: true\n  profile: work\n"
    );
}

#[test]
fn display_of_one_option() {
    let mut c = CachedConfig::new();
    c.idle_timeout = Some(0);
    assert_eq!(c.display_cached_config(), "Cached configuration:\n  idle_timeout: 0s\n");
}

#[test]
fn resolving_without_kept_options() {
    let mut c = CachedConfig::new();
    assert!(matches!(c.resolve_download(4, false, 30, false, false, None), CachedRun::NoCache));
    assert!(matches!(c.resolve_bench(100, 10, 5, false, false, None), CachedRun::NoCache));
    assert!(matches!(
        c.resolve_get(false, false, vec![], 10, false, false, false, false, true, false, None),
        CachedRun::NoCache
    ));
    assert!(c.is_empty());
}

#[test]
fn resolving_a_download_with_defaults_takes_the_kept_options() {
    let mut c = CachedConfig::from_download(8, true, 45, true, false, None);
    match c.resolve_download(4, false, 30, false, true, Some("x".to_string())) {
        CachedRun::Run { options, updated } => {
            assert_eq!(options, (8, true, 45, true));
            assert!(!updated);
        }
        other => panic!("{:?}", other),
    }
    assert_eq!(c.no_color, Some(false));
    assert_eq!(c.profile, None);
}

#[test]
fn resolving_a_download_reports_conflicts() {
    let mut c = CachedConfig::from_download(8, false, 45, false, false, None);
    match c.resolve_download(2, true, 30, false, false, None) {
        CachedRun::Conflicts(found) => assert_eq!(
            found,
            lines(&[
                "parallel: cached=8, provided=2",
                "continue_download: cached=false, provided=true"
            ])
        ),
        other => panic!("{:?}", other),
    }
    assert_eq!(c.parallel, Some(8));
}

#[test]
fn resolving_a_download_with_a_new_option_updates_the_kept_ones() {
    let mut c = CachedConfig::from_bench(100, 10, 5, false, false, None);
    match c.resolve_download(2, true, 30, false, true, Some("p".to_string())) {
        CachedRun::Run { options, updated } => {
            assert_eq!(options, (2, true, 30, false));
            assert!(updated);
        }
        other => panic!("{:?}", other),
    }
    assert_eq!(c.parallel, Some(2));
    assert_eq!(c.continue_download, Some(true));
    assert_eq!(c.idle_timeout, Some(30));
    assert_eq!(c.no_color, Some(true));
    assert_eq!(c.profile, Some("p".to_string()));
    assert_eq!(c.requests, Some(100));
}

#[test]
fn resolving_a_benchmark() {
    let mut c = CachedConfig::from_bench(50, 5, 9, false, false, None);
    match c.resolve_bench(100, 10, 5, true, false, None) {
        CachedRun::Conflicts(found) => {
            assert_eq!(found, lines(&["http3: cached=false, provided=true"]))
        }
        other => panic!("{:?}", other),
    }
    match c.resolve_bench(100, 10, 5, false, false, None) {
        CachedRun::Run { options, updated } => {
            assert_eq!(options, (50, 5, 9, false));
            assert!(!updated);
        }
        other => panic!("{:?}", other),
    }
}

#[test]
fn resolving_a_plain_request() {
    let mut c = CachedConfig::from_download(8, true, 45, false, false, None);
    match c.resolve_get(
        true,
        false,
        lines(&["A: b"]),
        10,
        false,
        false,
        false,
        false,
        false,
        true,
        None,
    ) {
        CachedRun::Run { options, updated } => {
            assert_eq!(
                options,
                (true, false, lines(&["A: b"]), 10, false, false, false, false, false)
            );
            assert!(updated);
        }
        other => panic!("{:?}", other),
    }
    assert_eq!(c.include_headers, Some(true));
    assert_eq!(c.headers, Some(lines(&["A: b"])));
    assert_eq!(c.save_history, Some(false));
    assert_eq!(c.connect_timeout, Some(10));
    assert_eq!(c.parallel, Some(8));
    assert_eq!(c.no_color, Some(true));
    match c.resolve_get(false, false, vec![], 10, false, false, false, false, true, false, None) {
        CachedRun::Run { options, updated } => {
            assert_eq!(
                options,
                (true, false, lines(&["A: b"]), 10, false, false, false, false, false)
            );
            assert!(!updated);
        }
        other => panic!("{:?}", other),
    }
}
