//! The release cache: expiry, idempotence, single flight, partial failure.

use test_actix::models::release::{
    Decision, FetchOutcome, Project, Release, ReleasesCache, TTL_SECONDS,
};

fn project(name: &str, repo: &str) -> Project {
    Project::new(name.to_string(), repo.to_string(), "Unknown".to_string())
}

fn release(tag: &str) -> Release {
    Release {
        project: None,
        name: format!("release {}", tag),
        tag_name: tag.to_string(),
        html_url: format!("https://example.invalid/{}", tag),
        body: "notes".to_string(),
        created_at: "2020-01-01T00:00:00Z".to_string(),
        published_at: "2020-01-02T00:00:00Z".to_string(),
    }
}

/// The stub upstream of the concrete scenario: a valid release for `org/a`,
/// a 404 for `org/b`. Counts how often it is called.
fn stub_fan_out(projects: &[Project], calls: &mut u32) -> Vec<FetchOutcome> {
    let mut outcomes = Vec::new();
    for p in projects {
        *calls += 1;
        let p = p.clone();
        if p.repo == "org/a" {
            outcomes.push(p.classify_response(200, Some(release("v1.2.3"))));
        } else {
            outcomes.push(p.classify_response(404, None));
        }
    }
    outcomes
}

/// One full `get`: a decide step, and on `StartRefresh` the fan-out and the
/// install, exactly as a driver runs it.
fn get(
    cache: &mut ReleasesCache,
    projects: &[Project],
    now: i64,
    calls: &mut u32,
) -> (Vec<String>, i64) {
    let d = cache.decide(projects.len(), now);
    if d == Decision::StartRefresh {
        let outcomes = stub_fan_out(projects, calls);
        cache.install(projects.to_vec(), outcomes, now);
    }
    let tags = cache.releases.iter().map(|r| r.tag_name.clone()).collect();
    (tags, cache.expired_at)
}

#[test]
fn new_cache_is_empty_and_expired_at_epoch() {
    let c = ReleasesCache::new();
    assert_eq!(c.releases.len(), 0);
    assert_eq!(c.projects.len(), 0);
    assert_eq!(c.expired_at, 0);
    assert!(!c.refreshing);
    let d = ReleasesCache::default();
    assert_eq!(d.releases.len(), 0);
    assert_eq!(d.expired_at, 0);
}

#[test]
fn concrete_scenario_one_success_one_not_found() {
    // Projects a (org/a) and b (org/b); the upstream returns a valid
    // release for org/a and a 404 for org/b: the result is a one-element
    // list holding only a's release.
    let projects = vec![project("a", "org/a"), project("b", "org/b")];
    let mut cache = ReleasesCache::new();
    let mut calls = 0u32;
    let now = 1_600_000_000i64;
    let d = cache.decide(projects.len(), now);
    assert_eq!(d, Decision::StartRefresh);
    let outcomes = stub_fan_out(&projects, &mut calls);
    cache.install(projects, outcomes, now);
    assert_eq!(cache.releases.len(), 1);
    let only = &cache.releases[0];
    assert_eq!(only.project.as_ref().unwrap().name, "a");
    assert_eq!(only.tag_name, "v1.2.3");
    assert_eq!(calls, 2);
}

#[test]
fn repeated_gets_within_ttl_issue_no_upstream_calls() {
    let projects = vec![project("a", "org/a"), project("b", "org/b")];
    let mut cache = ReleasesCache::new();
    let mut calls = 0u32;
    let t0 = 1_600_000_000i64;
    let (tags0, exp0) = get(&mut cache, &projects, t0, &mut calls);
    assert_eq!(calls, 2);
    // Ten more gets inside the TTL window: zero additional upstream calls,
    // identical snapshots.
    for k in 1..=10i64 {
        let (tags, exp) = get(&mut cache, &projects, t0 + k * 60, &mut calls);
        assert_eq!(tags, tags0);
        assert_eq!(exp, exp0);
    }
    assert_eq!(calls, 2);
}

#[test]
fn expiry_triggers_exactly_one_new_fan_out() {
    let projects = vec![project("a", "org/a"), project("b", "org/b")];
    let mut cache = ReleasesCache::new();
    let mut calls = 0u32;
    let t0 = 1_600_000_000i64;
    get(&mut cache, &projects, t0, &mut calls);
    assert_eq!(calls, 2);
    assert_eq!(cache.expired_at, t0 + TTL_SECONDS);
    // Sixty-one minutes later the snapshot has expired: the next get runs
    // one new fan-out and the expiry advances by exactly the TTL from the
    // refresh instant.
    let t1 = t0 + 61 * 60;
    let (_, exp) = get(&mut cache, &projects, t1, &mut calls);
    assert_eq!(calls, 4);
    assert_eq!(exp, t1 + TTL_SECONDS);
    // And the window is fresh again.
    get(&mut cache, &projects, t1 + 60, &mut calls);
    assert_eq!(calls, 4);
}

#[test]
fn at_most_one_fan_out_per_expiry_window() {
    // Many callers arrive while the snapshot is stale: the first becomes
    // the refresher, all the others are told to serve the stale snapshot,
    // and no second fan-out starts until the install.
    let projects = vec![project("a", "org/a"), project("b", "org/b")];
    let mut cache = ReleasesCache::new();
    let now = 1_600_000_000i64;
    let mut started = 0u32;
    for _ in 0..25 {
        match cache.decide(projects.len(), now) {
            Decision::StartRefresh => started += 1,
            Decision::ServeStale => (),
            Decision::Serve => panic!("an expired snapshot must not serve as fresh"),
        }
    }
    assert_eq!(started, 1);
    // The refresher installs; afterwards everyone is served from the cache.
    let mut calls = 0u32;
    let outcomes = stub_fan_out(&projects, &mut calls);
    cache.install(projects.clone(), outcomes, now);
    for _ in 0..25 {
        assert_eq!(cache.decide(projects.len(), now + 1), Decision::Serve);
    }
}

#[test]
fn aborted_refresh_keeps_the_previous_snapshot() {
    let projects = vec![project("a", "org/a"), project("b", "org/b")];
    let mut cache = ReleasesCache::new();
    let mut calls = 0u32;
    let t0 = 1_600_000_000i64;
    let (tags0, exp0) = get(&mut cache, &projects, t0, &mut calls);
    // Past the expiry the project list cannot be obtained: the refresh is
    // abandoned and the old snapshot keeps serving, with no error raised.
    let t1 = t0 + 2 * TTL_SECONDS;
    assert_eq!(cache.decide(projects.len(), t1), Decision::StartRefresh);
    cache.abort_refresh();
    assert!(!cache.refreshing);
    let tags: Vec<String> = cache.releases.iter().map(|r| r.tag_name.clone()).collect();
    assert_eq!(tags, tags0);
    assert_eq!(cache.expired_at, exp0);
}

#[test]
fn a_changed_project_list_forces_a_refresh() {
    let projects = vec![project("a", "org/a"), project("b", "org/b")];
    let mut cache = ReleasesCache::new();
    let mut calls = 0u32;
    let t0 = 1_600_000_000i64;
    get(&mut cache, &projects, t0, &mut calls);
    assert_eq!(calls, 2);
    // A third project appears: the snapshot no longer matches the tracked
    // list and the next get refreshes even inside the TTL window.
    let grown = vec![
        project("a", "org/a"),
        project("b", "org/b"),
        project("c", "org/c"),
    ];
    assert_eq!(cache.decide(grown.len(), t0 + 60), Decision::StartRefresh);
}

#[test]
fn decide_at_the_current_instant_refreshes_a_new_cache() {
    // Through the real clock: a new cache has its expiry at the epoch, so
    // the first caller becomes the refresher; once a snapshot is installed
    // at the current instant, the next caller is served from it.
    let mut cache = ReleasesCache::new();
    assert_eq!(cache.decide_now(2), Decision::StartRefresh);
    let projects = vec![project("a", "org/a"), project("b", "org/b")];
    let mut calls = 0u32;
    let outcomes = stub_fan_out(&projects, &mut calls);
    let now = chrono::Utc::now().timestamp();
    cache.install(projects, outcomes, now);
    assert_eq!(cache.decide_now(2), Decision::Serve);
}
