//! The container records kept by the control plane and the values its API exchanges.

use vstd::prelude::*;

use crate::text::{chars_eq, chars_of};

verus! {

/// Where a container is in its life.
#[derive(Debug, Clone, Copy, PartialEq, Eq, Structural)]
pub enum ContainerStatus {
    Creating,
    Running,
    Idle,
    Stopping,
    Stopped,
    Failed,
}

impl ContainerStatus {
    /// The name under which the status is stored and shown.
    pub open spec fn label_view(self) -> Seq<char> {
        match self {
            ContainerStatus::Creating => "Creating"@,
            ContainerStatus::Running => "Running"@,
            ContainerStatus::Idle => "Idle"@,
            ContainerStatus::Stopping => "Stopping"@,
            ContainerStatus::Stopped => "Stopped"@,
            ContainerStatus::Failed => "Failed"@,
        }
    }

    /// The status that a stored name stands for; a name that is none of the
    /// six labels stands for `Failed`.
    pub open spec fn parse_view(s: Seq<char>) -> ContainerStatus {
        if s == "Creating"@ {
            ContainerStatus::Creating
        } else if s == "Running"@ {
            ContainerStatus::Running
        } else if s == "Idle"@ {
            ContainerStatus::Idle
        } else if s == "Stopping"@ {
            ContainerStatus::Stopping
        } else if s == "Stopped"@ {
            ContainerStatus::Stopped
        } else {
            ContainerStatus::Failed
        }
    }

    /// The status that the stored name `s` stands for.
    pub fn from_str(s: &str) -> (r: ContainerStatus)
        ensures
            r == Self::parse_view(s@),
    {
        let v = chars_of(s);
        if chars_eq(&v, &chars_of("Creating")) {
            ContainerStatus::Creating
        } else if chars_eq(&v, &chars_of("Running")) {
            ContainerStatus::Running
        } else if chars_eq(&v, &chars_of("Idle")) {
            ContainerStatus::Idle
        } else if chars_eq(&v, &chars_of("Stopping")) {
            ContainerStatus::Stopping
        } else if chars_eq(&v, &chars_of("Stopped")) {
            ContainerStatus::Stopped
        } else {
            ContainerStatus::Failed
        }
    }

    /// The name of the status (its `Display` text).
    pub fn to_string(&self) -> (r: String)
        ensures
            r@ == self.label_view(),
    {
        match self {
            ContainerStatus::Creating => String::from_str("Creating"),
            ContainerStatus::Running => String::from_str("Running"),
            ContainerStatus::Idle => String::from_str("Idle"),
            ContainerStatus::Stopping => String::from_str("Stopping"),
            ContainerStatus::Stopped => String::from_str("Stopped"),
            ContainerStatus::Failed => String::from_str("Failed"),
        }
    }
}

/// Reading back the name of a status gives that status.
pub proof fn lemma_status_label_round_trip(s: ContainerStatus)
    ensures
        ContainerStatus::parse_view(s.label_view()) == s,
{
    reveal_strlit("Creating");
    reveal_strlit("Running");
    reveal_strlit("Idle");
    reveal_strlit("Stopping");
    reveal_strlit("Stopped");
    reveal_strlit("Failed");
    assert("Running"@[0] != "Creating"@[0]);
    assert("Idle"@[0] != "Creating"@[0]);
    assert("Idle"@[0] != "Running"@[0]);
    assert("Stopping"@[0] != "Creating"@[0]);
    assert("Stopping"@[0] != "Running"@[0]);
    assert("Stopping"@[0] != "Idle"@[0]);
    assert("Stopped"@[0] != "Creating"@[0]);
    assert("Stopped"@[0] != "Running"@[0]);
    assert("Stopped"@[0] != "Idle"@[0]);
    assert("Stopped"@[6] != "Stopping"@[6]);
}

/// A container as the control plane records it.
#[derive(Debug, Clone)]
pub struct Container {
    pub id: String,
    pub task: String,
    pub status: String,
    pub docker_id: Option<String>,
    pub skill_repos: String,
    pub cpu_limit: String,
    pub memory_limit: String,
    pub idle_timeout: i64,
    pub max_lifetime: i64,
    pub created_at: String,
    pub last_activity: String,
}

impl Container {
    /// The status that the record's stored name stands for.
    pub fn get_status(&self) -> (r: ContainerStatus)
        ensures
            r == ContainerStatus::parse_view(self.status@),
    {
        ContainerStatus::from_str(self.status.as_str())
    }

    /// Records `status` as the container's status; nothing else changes.
    pub fn set_status(&mut self, status: ContainerStatus)
        ensures
            final(self).status@ == status.label_view(),
            final(self).id == old(self).id,
            final(self).task == old(self).task,
            final(self).docker_id == old(self).docker_id,
            final(self).skill_repos == old(self).skill_repos,
            final(self).cpu_limit == old(self).cpu_limit,
            final(self).memory_limit == old(self).memory_limit,
            final(self).idle_timeout == old(self).idle_timeout,
            final(self).max_lifetime == old(self).max_lifetime,
            final(self).created_at == old(self).created_at,
            final(self).last_activity == old(self).last_activity,
    {
        self.status = status.to_string();
    }
}

/// After `set_status(s)`, `get_status` reads `s`.
pub proof fn lemma_set_status_then_get(after: Container, s: ContainerStatus)
    requires
        after.status@ == s.label_view(),
    ensures
        ContainerStatus::parse_view(after.status@) == s,
{
    lemma_status_label_round_trip(s);
}

/// The request that asks for a new agent container.
///
/// `env` holds the extra environment variables as (name, value) pairs in the
/// order in which the request's map is walked.
#[derive(Debug, Clone)]
pub struct CreateContainerRequest {
    pub task: String,
    pub skill_repos: Option<Vec<String>>,
    pub skill_branch: Option<String>,
    pub cpu_limit: Option<String>,
    pub memory_limit: Option<String>,
    pub idle_timeout: Option<i64>,
    pub max_lifetime: Option<i64>,
    pub env: Option<Vec<(String, String)>>,
}

/// The answer to a created container.
#[derive(Debug, Clone)]
pub struct ContainerResponse {
    pub id: String,
    pub status: ContainerStatus,
    pub created_at: String,
    pub docker_id: Option<String>,
}

/// The query string of a container listing.
#[derive(Debug, Clone)]
pub struct ListContainersQuery {
    pub status: Option<String>,
    pub search: Option<String>,
    pub sort_by: Option<String>,
    pub sort_order: Option<String>,
    pub page: Option<i64>,
    pub per_page: Option<i64>,
}

/// The parameters of a container listing once defaults are filled in.
#[derive(Debug, Clone)]
pub struct ListParams {
    pub status: Option<String>,
    pub search: Option<String>,
    pub sort_by: String,
    pub sort_order: String,
    pub page: i64,
    pub per_page: i64,
}

impl ListContainersQuery {
    /// The listing that the query asks for: page 1 of 20 containers, newest
    /// first, unless it says otherwise.
    pub fn listing(&self) -> (r: ListParams)
        ensures
            r.status == self.status,
            r.search == self.search,
            r.sort_by@ == (match self.sort_by { Some(s) => s@, None => "created_at"@ }),
            r.sort_order@ == (match self.sort_order { Some(s) => s@, None => "desc"@ }),
            r.page == (match self.page { Some(p) => p, None => 1 }),
            r.per_page == (match self.per_page { Some(p) => p, None => 20 }),
    {
        ListParams {
            status: self.status.clone(),
            search: self.search.clone(),
            sort_by: match &self.sort_by {
                Some(s) => s.clone(),
                None => String::from_str("created_at"),
            },
            sort_order: match &self.sort_order {
                Some(s) => s.clone(),
                None => String::from_str("desc"),
            },
            page: match self.page {
                Some(p) => p,
                None => 1,
            },
            per_page: match self.per_page {
                Some(p) => p,
                None => 20,
            },
        }
    }
}

/// How many containers have a given status.
#[derive(Debug, Clone)]
pub struct StatusCount {
    pub status: String,
    pub count: i64,
}

/// The status a container takes on a report from its sidecar: `"completed"`
/// stops it, `"failed"` fails it, and any other report leaves it as it is.
pub open spec fn status_after_report_view(report: Seq<char>) -> Option<ContainerStatus> {
    if report == "completed"@ {
        Some(ContainerStatus::Stopped)
    } else if report == "failed"@ {
        Some(ContainerStatus::Failed)
    } else {
        None
    }
}

/// The status a container takes on the sidecar's report `report`.
pub fn status_after_report(report: &str) -> (r: Option<ContainerStatus>)
    ensures
        r == status_after_report_view(report@),
{
    let v = chars_of(report);
    if chars_eq(&v, &chars_of("completed")) {
        Some(ContainerStatus::Stopped)
    } else if chars_eq(&v, &chars_of("failed")) {
        Some(ContainerStatus::Failed)
    } else {
        None
    }
}

/// The counts per status that a list of rows gives when it is gathered into a
/// map: a status that occurs more than once keeps the count of its last row.
pub open spec fn rows_map(rows: Seq<StatusCount>) -> Map<Seq<char>, i64>
    decreases rows.len(),
{
    if rows.len() == 0 {
        Map::empty()
    } else {
        rows_map(rows.drop_last()).insert(rows.last().status@, rows.last().count)
    }
}

/// No status occurs in two rows.
pub open spec fn distinct_statuses(rows: Seq<StatusCount>) -> bool {
    forall|i: int, j: int|
        0 <= i < rows.len() && 0 <= j < rows.len() && i != j ==> #[trigger] rows[i].status@
            != #[trigger] rows[j].status@
}

proof fn lemma_distinct_drop_last(rows: Seq<StatusCount>)
    requires
        distinct_statuses(rows),
        rows.len() > 0,
    ensures
        distinct_statuses(rows.drop_last()),
{
    let d = rows.drop_last();
    assert forall|i: int, j: int|
        0 <= i < d.len() && 0 <= j < d.len() && i != j implies #[trigger] d[i].status@
        != #[trigger] d[j].status@ by {
        assert(d[i] == rows[i]);
        assert(d[j] == rows[j]);
    }
}

/// The statuses that are keys of `rows_map(rows)` are those of the rows.
proof fn lemma_rows_map_dom(rows: Seq<StatusCount>, k: Seq<char>)
    ensures
        rows_map(rows).contains_key(k) <==> exists|j: int|
            0 <= j < rows.len() && #[trigger] rows[j].status@ == k,
    decreases rows.len(),
{
    if rows.len() > 0 {
        let d = rows.drop_last();
        lemma_rows_map_dom(d, k);
        if rows_map(rows).contains_key(k) {
            if k == rows.last().status@ {
                assert(rows[rows.len() - 1].status@ == k);
            } else {
                let j = choose|j: int| 0 <= j < d.len() && #[trigger] d[j].status@ == k;
                assert(rows[j] == d[j]);
            }
        }
        if exists|j: int| 0 <= j < rows.len() && #[trigger] rows[j].status@ == k {
            let j = choose|j: int| 0 <= j < rows.len() && #[trigger] rows[j].status@ == k;
            if j < rows.len() - 1 {
                assert(d[j] == rows[j]);
            }
        }
    }
}

/// Where no status comes twice, each row's count is the count reported for its status.
pub proof fn lemma_rows_map_at(rows: Seq<StatusCount>, j: int)
    requires
        distinct_statuses(rows),
        0 <= j < rows.len(),
    ensures
        rows_map(rows).contains_key(rows[j].status@),
        rows_map(rows)[rows[j].status@] == rows[j].count,
    decreases rows.len(),
{
    if j < rows.len() - 1 {
        let d = rows.drop_last();
        lemma_distinct_drop_last(rows);
        assert(d[j] == rows[j]);
        lemma_rows_map_at(d, j);
        assert(rows[j].status@ != rows[rows.len() - 1].status@);
    }
}

/// Changing the count of one row of a list with distinct statuses changes the
/// map at that row's status alone.
proof fn lemma_rows_map_update(rows: Seq<StatusCount>, j: int, x: StatusCount)
    requires
        distinct_statuses(rows),
        0 <= j < rows.len(),
        x.status@ == rows[j].status@,
    ensures
        rows_map(rows.update(j, x)) =~= rows_map(rows).insert(x.status@, x.count),
    decreases rows.len(),
{
    let u = rows.update(j, x);
    let d = rows.drop_last();
    if j == rows.len() - 1 {
        assert(u.drop_last() =~= d);
    } else {
        lemma_distinct_drop_last(rows);
        assert(u.drop_last() =~= d.update(j, x));
        lemma_rows_map_update(d, j, x);
        assert(rows[j].status@ != rows[rows.len() - 1].status@);
    }
}

/// The container counts of a statistics answer.
#[derive(Debug, Clone)]
pub struct StatsResponse {
    pub total: i64,
    /// One row per status, no status twice.
    pub by_status: Vec<StatusCount>,
}

impl StatsResponse {
    /// The count of each status.
    pub open spec fn counts_view(&self) -> Map<Seq<char>, i64> {
        rows_map(self.by_status@)
    }

    pub open spec fn well_formed(&self) -> bool {
        distinct_statuses(self.by_status@)
    }

    /// The answer made of the total and the grouped rows of a count query; where a
    /// status comes twice, its last row counts.
    pub fn from_rows(rows: Vec<StatusCount>, total: i64) -> (r: StatsResponse)
        ensures
            r.total == total,
            r.well_formed(),
            r.counts_view() == rows_map(rows@),
    {
        let mut out: Vec<StatusCount> = Vec::new();
        let mut i: usize = 0;
        while i < rows.len()
            invariant
                i <= rows@.len(),
                distinct_statuses(out@),
                rows_map(out@) == rows_map(rows@.take(i as int)),
            decreases rows@.len() - i,
        {
            let row = &rows[i];
            let ghost before = out@;
            assert(rows@.take(i + 1).drop_last() =~= rows@.take(i as int));
            assert(rows@.take(i + 1).last() == rows@[i as int]);
            let mut j: usize = 0;
            let mut pos: Option<usize> = None;
            while j < out.len()
                invariant
                    j <= out@.len(),
                    out@ == before,
                    pos matches Some(p) ==> p < out@.len() && out@[p as int].status@ == row.status@,
                    pos is None ==> forall|k: int| 0 <= k < j ==> #[trigger] out@[k].status@ != row.status@,
                decreases out@.len() - j,
            {
                if pos.is_none() && out[j].status == row.status {
                    pos = Some(j);
                }
                j += 1;
            }
            if let Some(j) = pos {
                let x = StatusCount { status: row.status.clone(), count: row.count };
                proof {
                    lemma_rows_map_update(before, j as int, x);
                }
                out.set(j, x);
                assert(out@ =~= before.update(j as int, x));
                assert forall|a: int, b: int|
                    0 <= a < out@.len() && 0 <= b < out@.len() && a != b implies #[trigger] out@[a].status@
                    != #[trigger] out@[b].status@ by {
                    assert(out@[a].status@ == before[a].status@);
                    assert(out@[b].status@ == before[b].status@);
                }
            } else {
                let x = StatusCount { status: row.status.clone(), count: row.count };
                out.push(x);
                assert(out@.drop_last() =~= before);
                assert forall|a: int, b: int|
                    0 <= a < out@.len() && 0 <= b < out@.len() && a != b implies #[trigger] out@[a].status@
                    != #[trigger] out@[b].status@ by {
                    if a < before.len() && b < before.len() {
                        assert(out@[a] == before[a]);
                        assert(out@[b] == before[b]);
                    } else if a < before.len() {
                        assert(out@[a] == before[a]);
                    } else if b < before.len() {
                        assert(out@[b] == before[b]);
                    }
                }
            }
            i += 1;
        }
        assert(rows@.take(rows@.len() as int) =~= rows@);
        StatsResponse { total, by_status: out }
    }

    /// The count of `status`, where the answer holds one (as a map lookup does).
    pub fn count_for(&self, status: &str) -> (r: Option<i64>)
        requires
            self.well_formed(),
        ensures
            r == (if self.counts_view().contains_key(status@) {
                Some(self.counts_view()[status@])
            } else {
                None
            }),
    {
        let key = chars_of(status);
        let mut j: usize = 0;
        while j < self.by_status.len()
            invariant
                self.well_formed(),
                key@ == status@,
                j <= self.by_status@.len(),
                forall|k: int| 0 <= k < j ==> #[trigger] self.by_status@[k].status@ != status@,
            decreases self.by_status@.len() - j,
        {
            let cs = chars_of(self.by_status[j].status.as_str());
            if chars_eq(&cs, &key) {
                proof {
                    lemma_rows_map_at(self.by_status@, j as int);
                }
                return Some(self.by_status[j].count);
            }
            assert(self.by_status@[j as int].status@ != status@);
            j += 1;
        }
        proof {
            lemma_rows_map_dom(self.by_status@, status@);
        }
        None
    }
}

} // verus!
