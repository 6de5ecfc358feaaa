//! Release tracking core: typed outcomes of per-project upstream fetches,
//! the aggregation step that merges them, a model of the concurrent fan-out's
//! wall-clock cost, and a time-to-live cache with single-flight refresh.

use vstd::prelude::*;

verus! {

/// How long an installed snapshot stays fresh, in seconds (one hour).
pub const TTL_SECONDS: i64 = 3600;

/// One upstream repository to track. Two projects are the same project
/// when their repository paths agree.
#[derive(Clone, Debug)]
pub struct Project {
    pub name: String,
    pub repo: String,
    pub language: String,
}

/// The metadata of one published release, as the upstream API reports it.
/// `project` points back at the tracked project the release belongs to.
#[derive(Clone, Debug)]
pub struct Release {
    pub project: Option<Project>,
    pub name: String,
    pub tag_name: String,
    pub html_url: String,
    pub body: String,
    pub created_at: String,
    pub published_at: String,
}

/// Why a single upstream fetch failed.
#[derive(Clone, Copy, PartialEq, Eq, Structural, Debug)]
pub enum FailureKind {
    /// The repository has no releases; expected, not an alarm.
    NotFound,
    /// The credentials were rejected.
    Unauthorized,
    /// The body of a successful response did not hold release metadata.
    ParseError,
    /// Transport trouble or any other upstream status.
    UpstreamError,
}

/// The result of one upstream fetch: either a release, or a typed failure
/// together with the project it concerns. Never partially populated.
#[derive(Clone, Debug)]
pub enum FetchOutcome {
    Success(Release),
    Failure(FailureKind, Project),
}

impl Project {
    /// Creates a new project.
    pub fn new(name: String, repo: String, language: String) -> (p: Project)
        ensures
            p.name == name,
            p.repo == repo,
            p.language == language,
    {
        Project { name, repo, language }
    }

    /// Whether `other` names the same project: projects are compared by
    /// their repository path alone.
    pub fn same_project(&self, other: &Project) -> (r: bool)
        ensures
            r == (self.repo@ == other.repo@),
    {
        self.repo == other.repo
    }

    /// Turns one upstream response into a typed outcome, by status:
    /// 200 with a well-formed body is a success carrying the release with
    /// this project attached; 200 with a malformed body is a parse error;
    /// 404 means the repository has no releases; 401 and 403 mean the
    /// credentials were rejected; anything else is an upstream error.
    /// `body` is the parsed release metadata of a 200 response, or `None`
    /// where the body could not be parsed; it is ignored for other statuses.
    pub fn classify_response(self, status: u16, body: Option<Release>) -> (o: FetchOutcome)
        ensures
            o == classify_spec(self, status, body),
    {
        if status == 200 {
            match body {
                Some(release) => FetchOutcome::Success(Release {
                    project: Some(self),
                    name: release.name,
                    tag_name: release.tag_name,
                    html_url: release.html_url,
                    body: release.body,
                    created_at: release.created_at,
                    published_at: release.published_at,
                }),
                None => FetchOutcome::Failure(FailureKind::ParseError, self),
            }
        } else if status == 404 {
            FetchOutcome::Failure(FailureKind::NotFound, self)
        } else if status == 401 || status == 403 {
            FetchOutcome::Failure(FailureKind::Unauthorized, self)
        } else {
            FetchOutcome::Failure(FailureKind::UpstreamError, self)
        }
    }
}

/// What `classify_response` returns, case by case.
pub open spec fn classify_spec(project: Project, status: u16, body: Option<Release>) -> FetchOutcome {
    if status == 200 {
        match body {
            Some(release) => FetchOutcome::Success(Release {
                project: Some(project),
                ..release
            }),
            None => FetchOutcome::Failure(FailureKind::ParseError, project),
        }
    } else if status == 404 {
        FetchOutcome::Failure(FailureKind::NotFound, project)
    } else if status == 401 || status == 403 {
        FetchOutcome::Failure(FailureKind::Unauthorized, project)
    } else {
        FetchOutcome::Failure(FailureKind::UpstreamError, project)
    }
}

impl Release {
    /// An empty release: every field blank, no project attached.
    pub fn new() -> (r: Release)
        ensures
            r.project is None,
            r.name@ == Seq::<char>::empty(),
            r.tag_name@ == Seq::<char>::empty(),
            r.html_url@ == Seq::<char>::empty(),
            r.body@ == Seq::<char>::empty(),
            r.created_at@ == Seq::<char>::empty(),
            r.published_at@ == Seq::<char>::empty(),
    {
        Release {
            project: None,
            name: String::new(),
            tag_name: String::new(),
            html_url: String::new(),
            body: String::new(),
            created_at: String::new(),
            published_at: String::new(),
        }
    }
}

/// The releases carried by the successful outcomes of `s`, in order.
/// Failures contribute nothing.
pub open spec fn successes(s: Seq<FetchOutcome>) -> Seq<Release>
    decreases s.len(),
{
    if s.len() == 0 {
        Seq::empty()
    } else {
        let rest = successes(s.drop_last());
        match s.last() {
            FetchOutcome::Success(r) => rest.push(r),
            FetchOutcome::Failure(_, _) => rest,
        }
    }
}

/// Merges the outcomes of one fan-out into the aggregate result: failed
/// fetches are dropped silently, successful releases are kept in the order
/// the outcomes were collected in, so that the same completed set always
/// yields the same sequence. No failure is ever raised to the caller.
pub fn merge_outcomes(outcomes: Vec<FetchOutcome>) -> (r: Vec<Release>)
    ensures
        r@ == successes(outcomes@),
{
    let ghost all = outcomes@;
    let total = outcomes.len();
    let mut rest = outcomes;
    let mut kept: Vec<Release> = Vec::new();
    let mut taken: usize = 0;
    while rest.len() != 0
        invariant
            taken <= all.len(),
            all.len() == total,
            rest@ == all.skip(taken as int),
            kept@ == successes(all.take(taken as int)),
        decreases rest@.len(),
    {
        let next = rest.remove(0);
        proof {
            assert(all.take(taken as int + 1).drop_last() =~= all.take(taken as int));
            assert(all.take(taken as int + 1).last() == all[taken as int]);
            assert(rest@ =~= all.skip(taken as int + 1));
        }
        match next {
            FetchOutcome::Success(release) => kept.push(release),
            FetchOutcome::Failure(_, _) => (),
        }
        taken = taken + 1;
    }
    proof {
        assert(all.take(taken as int) =~= all);
    }
    kept
}

/// Partial failure: a failed outcome, wherever it stands in the collected
/// set, leaves the aggregate exactly as if it had not been collected at all
/// — the successes around it are kept, in their order, and nothing of the
/// failure reaches the result.
pub proof fn lemma_failure_dropped(s: Seq<FetchOutcome>, i: int)
    requires
        0 <= i < s.len(),
        s[i] is Failure,
    ensures
        successes(s) == successes(s.remove(i)),
    decreases s.len(),
{
    if i == s.len() - 1 {
        assert(s.remove(i) =~= s.drop_last());
    } else {
        lemma_failure_dropped(s.drop_last(), i);
        assert(s.remove(i).drop_last() =~= s.drop_last().remove(i));
        assert(s.remove(i).last() == s.last());
    }
}

/// Some collected pair tags its outcome with project index `i`.
pub open spec fn has_index(pairs: Seq<(usize, FetchOutcome)>, i: int) -> bool {
    exists|j: int| 0 <= j < pairs.len() && (#[trigger] pairs[j]).0 == i
}

/// The tags of one completed fan-out are exactly the project indices: one
/// pair per project, every tag in range, no tag twice, every tag present.
pub open spec fn indexed_once(pairs: Seq<(usize, FetchOutcome)>, n: int) -> bool {
    &&& pairs.len() == n
    &&& (forall|j: int| 0 <= j < pairs.len() ==> (#[trigger] pairs[j]).0 < n)
    &&& (forall|j: int, k: int|
        0 <= j < pairs.len() && 0 <= k < pairs.len() && j != k ==> (#[trigger] pairs[j]).0 != (
        #[trigger] pairs[k]).0)
    &&& (forall|i: int| 0 <= i < n ==> #[trigger] has_index(pairs, i))
}

/// The outcomes of one completed fan-out in project order: slot `i` holds
/// the outcome tagged `i`, whatever order the concurrent calls finished in.
pub open spec fn ordered_outcomes(pairs: Seq<(usize, FetchOutcome)>, n: int) -> Seq<FetchOutcome> {
    Seq::new(
        n as nat,
        |i: int|
            {
                let j = choose|j: int| 0 <= j < pairs.len() && (#[trigger] pairs[j]).0 == i;
                pairs[j].1
            },
    )
}

/// Deterministic per completed set: two collections of the same tagged
/// outcomes — however differently the concurrent calls interleaved — put
/// the same outcome in every slot, so the merged aggregate is the same.
pub proof fn lemma_order_independent(
    a: Seq<(usize, FetchOutcome)>,
    b: Seq<(usize, FetchOutcome)>,
    n: int,
)
    requires
        indexed_once(a, n),
        indexed_once(b, n),
        forall|j: int| 0 <= j < a.len() ==> exists|k: int| 0 <= k < b.len() && b[k] == #[trigger] a[j],
    ensures
        ordered_outcomes(a, n) == ordered_outcomes(b, n),
{
    assert forall|i: int| 0 <= i < n implies ordered_outcomes(a, n)[i] == ordered_outcomes(
        b,
        n,
    )[i] by {
        assert(has_index(a, i));
        assert(has_index(b, i));
        let ja = choose|j: int| 0 <= j < a.len() && (#[trigger] a[j]).0 == i;
        let jb = choose|j: int| 0 <= j < b.len() && (#[trigger] b[j]).0 == i;
        let k = choose|k: int| 0 <= k < b.len() && b[k] == a[ja];
        assert(b[k] == a[ja]);
        assert(b[k].0 == i);
        if k != jb {
            assert(b[k].0 != b[jb].0);
        }
    };
    assert(ordered_outcomes(a, n) =~= ordered_outcomes(b, n));
}

/// Puts the outcomes collected from one fan-out back into project order, so
/// that the aggregate does not depend on the order the concurrent calls
/// finished in. Returns `None` exactly when the collected tags are not one
/// per project: a count mismatch, a tag out of range, a tag twice, or a
/// tag missing (a call that never reported).
pub fn order_outcomes(collected: Vec<(usize, FetchOutcome)>, n_projects: usize) -> (r: Option<
    Vec<FetchOutcome>,
>)
    ensures
        (r is Some) == indexed_once(collected@, n_projects as int),
        r matches Some(v) ==> v@ == ordered_outcomes(collected@, n_projects as int),
{
    let ghost all = collected@;
    let ghost n = n_projects as int;
    if collected.len() != n_projects {
        return None;
    }
    let mut slots: Vec<Option<FetchOutcome>> = Vec::new();
    let mut i: usize = 0;
    while i < n_projects
        invariant
            i <= n_projects,
            slots@.len() == i as int,
            forall|k: int| 0 <= k < i as int ==> slots@[k] is None,
        decreases n_projects - i,
    {
        slots.push(None);
        i = i + 1;
    }
    let mut rest = collected;
    let mut placed: usize = 0;
    while rest.len() != 0
        invariant
            placed <= all.len(),
            all == collected@,
            all.len() == n,
            n == n_projects as int,
            rest@ == all.skip(placed as int),
            slots@.len() == n,
            forall|j: int| 0 <= j < placed as int ==> (#[trigger] all[j]).0 < n,
            forall|j: int|
                0 <= j < placed as int ==> slots@[(#[trigger] all[j]).0 as int] == Some(all[j].1),
            forall|j: int, k: int|
                0 <= j < placed as int && 0 <= k < placed as int && j != k ==> (
                #[trigger] all[j]).0 != (#[trigger] all[k]).0,
            forall|k: int|
                0 <= k < n ==> ((slots@[k] is Some) == exists|j: int|
                    0 <= j < placed as int && (#[trigger] all[j]).0 == k),
        decreases rest@.len(),
    {
        let (idx, outcome) = rest.remove(0);
        proof {
            assert(rest@ =~= all.skip(placed as int + 1));
            assert((idx, outcome) == all[placed as int]);
        }
        if idx >= n_projects {
            proof {
                assert(!indexed_once(all, n)) by {
                    if indexed_once(all, n) {
                        assert(all[placed as int].0 < n);
                        assert(false);
                    }
                }
            }
            return None;
        }
        if slots[idx].is_some() {
            proof {
                let j = choose|j: int| 0 <= j < placed as int && (#[trigger] all[j]).0 == idx as int;
                assert(all[j].0 == all[placed as int].0 && j != placed as int);
                assert(!indexed_once(all, n)) by {
                    if indexed_once(all, n) {
                        assert(all[j].0 != all[placed as int].0);
                        assert(false);
                    }
                }
            }
            return None;
        }
        slots.set(idx, Some(outcome));
        placed = placed + 1;
    }
    let ghost slots_final = slots@;
    let mut srest = slots;
    let mut out: Vec<FetchOutcome> = Vec::new();
    let mut u: usize = 0;
    while srest.len() != 0
        invariant
            u as int + srest@.len() == n,
            all == collected@,
            n == n_projects as int,
            all.len() == n,
            srest@ == slots_final.skip(u as int),
            slots_final.len() == n,
            out@.len() == u as int,
            forall|k: int| 0 <= k < u as int ==> slots_final[k] == Some(out@[k]),
            forall|j: int| 0 <= j < all.len() ==> (#[trigger] all[j]).0 < n,
            forall|j: int|
                0 <= j < all.len() ==> slots_final[(#[trigger] all[j]).0 as int] == Some(all[j].1),
            forall|j: int, k: int|
                0 <= j < all.len() && 0 <= k < all.len() && j != k ==> (#[trigger] all[j]).0 != (
                #[trigger] all[k]).0,
            forall|k: int|
                0 <= k < n ==> ((slots_final[k] is Some) == exists|j: int|
                    0 <= j < all.len() && (#[trigger] all[j]).0 == k),
        decreases srest@.len(),
    {
        let slot = srest.remove(0);
        proof {
            assert(srest@ =~= slots_final.skip(u as int + 1));
            assert(slot == slots_final[u as int]);
        }
        match slot {
            Some(outcome) => {
                out.push(outcome);
            },
            None => {
                proof {
                    assert(!has_index(all, u as int));
                    assert(!indexed_once(all, n)) by {
                        if indexed_once(all, n) {
                            assert(has_index(all, u as int));
                            assert(false);
                        }
                    }
                }
                return None;
            },
        }
        u = u + 1;
    }
    proof {
        assert forall|i2: int| 0 <= i2 < n implies #[trigger] has_index(all, i2) by {
            assert(slots_final[i2] == Some(out@[i2]));
        };
        assert(indexed_once(all, n));
        assert forall|i2: int| 0 <= i2 < n implies out@[i2] == ordered_outcomes(all, n)[i2] by {
            assert(has_index(all, i2));
            let j = choose|j: int| 0 <= j < all.len() && (#[trigger] all[j]).0 == i2;
            assert(slots_final[i2] == Some(all[j].1));
            assert(slots_final[i2] == Some(out@[i2]));
        };
        assert(out@ =~= ordered_outcomes(all, n));
    }
    Some(out)
}

// ---------------------------------------------------------------------------
// Wall-clock model of the fan-out
// ---------------------------------------------------------------------------

/// The largest of the given upstream latencies; zero when there are none.
pub open spec fn max_latency(latencies: Seq<u64>) -> int
    decreases latencies.len(),
{
    if latencies.len() == 0 {
        0
    } else {
        let rest = max_latency(latencies.drop_last());
        if latencies.last() > rest {
            latencies.last() as int
        } else {
            rest
        }
    }
}

/// The sum of the given upstream latencies.
pub open spec fn total_latency(latencies: Seq<u64>) -> int
    decreases latencies.len(),
{
    if latencies.len() == 0 {
        0
    } else {
        total_latency(latencies.drop_last()) + latencies.last()
    }
}

/// When every upstream call of a fan-out is issued at once and each
/// completes after its own latency, the aggregate completes with the
/// slowest call.
pub open spec fn concurrent_completion(latencies: Seq<u64>) -> int {
    max_latency(latencies)
}

/// When each upstream call waits for the one before it, the aggregate
/// completes only after the sum of all latencies.
pub open spec fn serialized_completion(latencies: Seq<u64>) -> int {
    total_latency(latencies)
}

/// A fan-out that issues every upstream call at once finishes with the
/// slowest single call, never with the sum of the latencies that a
/// serialized fetch pays.
pub proof fn lemma_fanout_wall_clock(latencies: Seq<u64>)
    ensures
        concurrent_completion(latencies) == max_latency(latencies),
        0 <= concurrent_completion(latencies),
        concurrent_completion(latencies) <= serialized_completion(latencies),
    decreases latencies.len(),
{
    if latencies.len() > 0 {
        lemma_fanout_wall_clock(latencies.drop_last());
    }
}

/// The sum of a prefix and the sum of the rest make the sum of the whole.
proof fn lemma_total_latency_split(latencies: Seq<u64>, i: int)
    requires
        0 <= i <= latencies.len(),
    ensures
        total_latency(latencies) == total_latency(latencies.take(i)) + total_latency(
            latencies.skip(i),
        ),
    decreases latencies.len(),
{
    if i == latencies.len() {
        assert(latencies.take(i) =~= latencies);
        assert(latencies.skip(i) =~= Seq::<u64>::empty());
    } else {
        let shorter = latencies.drop_last();
        lemma_total_latency_split(shorter, i);
        assert(latencies.take(i) =~= shorter.take(i));
        assert(latencies.skip(i).drop_last() =~= shorter.skip(i));
        assert(latencies.skip(i).last() == latencies.last());
    }
}

/// Every latency sum is nonnegative.
proof fn lemma_total_latency_nonneg(latencies: Seq<u64>)
    ensures
        0 <= total_latency(latencies),
    decreases latencies.len(),
{
    if latencies.len() > 0 {
        lemma_total_latency_nonneg(latencies.drop_last());
    }
}

/// The wall-clock cost of one simulated concurrent fan-out over the given
/// upstream latencies: the largest of them.
pub fn concurrent_fetch_time(latencies: &Vec<u64>) -> (t: u64)
    ensures
        t as int == concurrent_completion(latencies@),
{
    let mut t: u64 = 0;
    let mut i: usize = 0;
    while i < latencies.len()
        invariant
            i <= latencies@.len(),
            t as int == max_latency(latencies@.take(i as int)),
        decreases latencies@.len() - i,
    {
        let l = latencies[i];
        proof {
            assert(latencies@.take(i as int + 1).drop_last() =~= latencies@.take(i as int));
        }
        if l > t {
            t = l;
        }
        i = i + 1;
    }
    proof {
        assert(latencies@.take(latencies@.len() as int) =~= latencies@);
    }
    t
}

/// The wall-clock cost of fetching the same projects one after the other:
/// the sum of the latencies.
pub fn serialized_fetch_time(latencies: &Vec<u64>) -> (t: u64)
    requires
        total_latency(latencies@) <= u64::MAX,
    ensures
        t as int == serialized_completion(latencies@),
{
    let mut t: u64 = 0;
    let mut i: usize = 0;
    while i < latencies.len()
        invariant
            i <= latencies@.len(),
            t as int == total_latency(latencies@.take(i as int)),
            total_latency(latencies@) <= u64::MAX,
        decreases latencies@.len() - i,
    {
        let l = latencies[i];
        proof {
            assert(latencies@.take(i as int + 1).drop_last() =~= latencies@.take(i as int));
            lemma_total_latency_split(latencies@, i as int + 1);
            lemma_total_latency_nonneg(latencies@.skip(i as int + 1));
        }
        t = t + l;
        i = i + 1;
    }
    proof {
        assert(latencies@.take(latencies@.len() as int) =~= latencies@);
    }
    t
}

// ---------------------------------------------------------------------------
// The cache
// ---------------------------------------------------------------------------

/// What one `decide` call tells its caller to do.
#[derive(Clone, Copy, PartialEq, Eq, Structural, Debug)]
pub enum Decision {
    /// The stored snapshot is fresh: serve it, touch nothing upstream.
    Serve,
    /// A refresh is already in flight elsewhere: serve the stored snapshot
    /// as it is rather than start a second fan-out.
    ServeStale,
    /// The caller has become the single refresher: it must run the fan-out
    /// and then either `install` the outcomes or `abort_refresh`.
    StartRefresh,
}

/// The shared snapshot of aggregated releases, its expiry instant (seconds
/// since the Unix epoch), the project list the snapshot was built for, and
/// the flag that marks a refresh in flight. One value of this type is shared
/// by all requests of a process; a driver guards it with its own lock and
/// calls `decide`, `install` and `abort_refresh` under that lock, while the
/// fan-out itself runs outside it.
pub struct ReleasesCache {
    pub releases: Vec<Release>,
    pub projects: Vec<Project>,
    pub expired_at: i64,
    pub refreshing: bool,
}

/// A snapshot is stale when the clock has reached its expiry, or when it was
/// built for a different number of projects than are now tracked.
pub open spec fn is_stale(c: ReleasesCache, n_projects: int, now: int) -> bool {
    now >= c.expired_at || c.projects@.len() != n_projects
}

/// The step the cache takes for one `get`: a caller that finds a refresh in
/// flight serves the stored snapshot at once and starts nothing; a caller
/// that finds a stale snapshot becomes the single refresher; any other
/// caller serves the fresh snapshot. The snapshot itself never changes here.
pub open spec fn decide_spec(c: ReleasesCache, n_projects: int, now: int) -> (ReleasesCache, Decision) {
    if c.refreshing {
        (c, Decision::ServeStale)
    } else if is_stale(c, n_projects, now) {
        (ReleasesCache { refreshing: true, ..c }, Decision::StartRefresh)
    } else {
        (c, Decision::Serve)
    }
}

impl ReleasesCache {
    /// An empty cache: no releases, no projects, expiry at the epoch (so the
    /// first access at any later instant refreshes), no refresh in flight.
    pub fn new() -> (c: ReleasesCache)
        ensures
            c.releases@ == Seq::<Release>::empty(),
            c.projects@ == Seq::<Project>::empty(),
            c.expired_at == 0,
            !c.refreshing,
    {
        ReleasesCache { releases: Vec::new(), projects: Vec::new(), expired_at: 0, refreshing: false }
    }

    /// One step of the cache's state machine, at instant `now` with
    /// `n_projects` projects currently tracked. Serving callers leave the
    /// cache as it was; the one caller told to refresh leaves the in-flight
    /// flag set behind it. The stored snapshot is never touched.
    pub fn decide(&mut self, n_projects: usize, now: i64) -> (d: Decision)
        ensures
            (*final(self), d) == decide_spec(*old(self), n_projects as int, now as int),
            final(self).releases == old(self).releases,
            final(self).projects == old(self).projects,
            final(self).expired_at == old(self).expired_at,
    {
        if self.refreshing {
            Decision::ServeStale
        } else if now >= self.expired_at || self.projects.len() != n_projects {
            self.refreshing = true;
            Decision::StartRefresh
        } else {
            Decision::Serve
        }
    }

    /// Installs the result of one completed fan-out, atomically: the merged
    /// successful releases, the project list they were fetched for, and an
    /// expiry exactly one TTL past the refresh instant, become the snapshot
    /// in one step, and the refresh is no longer in flight.
    pub fn install(&mut self, projects: Vec<Project>, outcomes: Vec<FetchOutcome>, now: i64)
        requires
            old(self).refreshing,
            now <= i64::MAX - TTL_SECONDS,
        ensures
            final(self).releases@ == successes(outcomes@),
            final(self).projects == projects,
            final(self).expired_at == now + TTL_SECONDS,
            !final(self).refreshing,
    {
        self.releases = merge_outcomes(outcomes);
        self.projects = projects;
        self.expired_at = now + TTL_SECONDS;
        self.refreshing = false;
    }

    /// Abandons a refresh whose fan-out could not even be attempted (the
    /// project list was unavailable): the previous snapshot, possibly the
    /// empty initial one, keeps serving, and no error reaches the callers.
    pub fn abort_refresh(&mut self)
        ensures
            final(self).releases == old(self).releases,
            final(self).projects == old(self).projects,
            final(self).expired_at == old(self).expired_at,
            !final(self).refreshing,
    {
        self.refreshing = false;
    }

    /// One cache step at the current wall-clock instant. The clock is
    /// ambient, so all that can be said is that the step taken is the step
    /// for some instant.
    pub fn decide_now(&mut self, n_projects: usize) -> (d: Decision)
        ensures
            exists|t: int| (*final(self), d) == decide_spec(*old(self), n_projects as int, t),
    {
        let now = now_timestamp();
        let d = self.decide(n_projects, now);
        proof {
            assert((*self, d) == decide_spec(*old(self), n_projects as int, now as int));
        }
        d
    }
}

impl Default for ReleasesCache {
    /// The same empty cache that `new` builds.
    fn default() -> (c: ReleasesCache)
        ensures
            c.releases@ == Seq::<Release>::empty(),
            c.projects@ == Seq::<Project>::empty(),
            c.expired_at == 0,
            !c.refreshing,
    {
        ReleasesCache::new()
    }
}

/// Relies on chrono's conversion from the system clock to a UTC date
/// (`DateTime::<Utc>::from`, which turns a clock before the Unix epoch into
/// a negative timestamp instead of failing) and on `DateTime::timestamp`,
/// whole seconds since that epoch. The value depends on the machine's
/// clock, so nothing is promised of it.
#[verifier::external_body]
fn now_timestamp() -> i64 {
    chrono::DateTime::<chrono::Utc>::from(std::time::SystemTime::now()).timestamp()
}

// ---------------------------------------------------------------------------
// Laws of the cache
// ---------------------------------------------------------------------------

/// The cache states and refresh count that a run of `decide` steps leaves
/// behind: `calls` gives the project count and instant of each successive
/// call, with no install or abort in between; the count is how many of the
/// calls were told to start a fan-out.
pub open spec fn run_decisions(c: ReleasesCache, calls: Seq<(int, int)>) -> (ReleasesCache, int)
    decreases calls.len(),
{
    if calls.len() == 0 {
        (c, 0)
    } else {
        let step = decide_spec(c, calls.first().0, calls.first().1);
        let rest = run_decisions(step.0, calls.drop_first());
        (rest.0, rest.1 + if step.1 is StartRefresh { 1int } else { 0int })
    }
}

/// Single flight: however many `get` calls arrive and at whatever instants,
/// until the refresher installs or aborts, at most one of them is told to
/// start a fan-out — and none at all while a refresh is already in flight.
pub proof fn lemma_single_flight(c: ReleasesCache, calls: Seq<(int, int)>)
    ensures
        run_decisions(c, calls).1 <= if c.refreshing { 0int } else { 1int },
    decreases calls.len(),
{
    if calls.len() > 0 {
        let step = decide_spec(c, calls.first().0, calls.first().1);
        lemma_single_flight(step.0, calls.drop_first());
    }
}

/// Idempotence inside the TTL window: at every instant at which a snapshot
/// built for the same project count is still fresh, `decide` serves and the
/// cache — snapshot, expiry and all — is left exactly as it was, so repeated
/// `get` calls return identical snapshots and touch nothing upstream.
pub proof fn lemma_get_idempotent(c: ReleasesCache, n_projects: int, t1: int, t2: int)
    requires
        !c.refreshing,
        !is_stale(c, n_projects, t1),
        !is_stale(c, n_projects, t2),
    ensures
        decide_spec(c, n_projects, t1) == (c, Decision::Serve),
        decide_spec(c, n_projects, t2) == (c, Decision::Serve),
{
}

/// Expiry: the moment the clock reaches a snapshot's expiry, the next
/// `decide` (no refresh being in flight) makes its caller the refresher;
/// `install`'s contract then advances the expiry by exactly the TTL from
/// the refresh instant.
pub proof fn lemma_expiry_triggers_refresh(c: ReleasesCache, n_projects: int, now: int)
    requires
        !c.refreshing,
        now >= c.expired_at,
    ensures
        decide_spec(c, n_projects, now).1 == Decision::StartRefresh,
        decide_spec(c, n_projects, now).0.refreshing,
{
}

} // verus!
