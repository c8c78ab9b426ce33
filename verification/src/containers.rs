//! Creating an agent container: its identity, environment, limits and record.

use vstd::prelude::*;

use crate::models::{Container, ContainerResponse, ContainerStatus, CreateContainerRequest};
use crate::text::{chars_of, has_prefix, has_suffix, join, join_spec, starts_with, views};

verus! {

// ---------------------------------------------------------------------------
// Calls into outside crates
// ---------------------------------------------------------------------------

/// A hex digit in lower case.
pub open spec fn hex_digit(n: int) -> char {
    if n < 10 {
        (48 + n) as char
    } else {
        (87 + n) as char
    }
}

/// How compact JSON writes one character inside a string: `"` and `\` behind a
/// backslash, backspace, tab, line feed, form feed and carriage return as `\b`,
/// `\t`, `\n`, `\f`, `\r`, any other control character below U+0020 as
/// `\u00` and two lower-case hex digits, and every other character as itself.
pub open spec fn json_escape_char(c: char) -> Seq<char> {
    let u = c as u32;
    if c == '"' {
        seq!['\\', '"']
    } else if c == '\\' {
        seq!['\\', '\\']
    } else if u == 0x08 {
        seq!['\\', 'b']
    } else if u == 0x09 {
        seq!['\\', 't']
    } else if u == 0x0a {
        seq!['\\', 'n']
    } else if u == 0x0c {
        seq!['\\', 'f']
    } else if u == 0x0d {
        seq!['\\', 'r']
    } else if u < 0x20 {
        seq!['\\', 'u', '0', '0', hex_digit(u as int / 16), hex_digit(u as int % 16)]
    } else {
        seq![c]
    }
}

/// The characters of `s`, each escaped as in a JSON string.
pub open spec fn json_escape(s: Seq<char>) -> Seq<char>
    decreases s.len(),
{
    if s.len() == 0 {
        Seq::empty()
    } else {
        json_escape(s.drop_last()) + json_escape_char(s.last())
    }
}

/// A JSON string literal.
pub open spec fn json_string(s: Seq<char>) -> Seq<char> {
    seq!['"'] + json_escape(s) + seq!['"']
}

/// A compact JSON array of strings: `[`, the string literals separated by commas, `]`.
pub open spec fn json_string_list(items: Seq<Seq<char>>) -> Seq<char> {
    seq!['['] + join_spec(items.map_values(|s: Seq<char>| json_string(s)), ","@) + seq![']']
}

/// `serde_json::to_string` on a list of strings: the compact JSON array of
/// `json_string_list`. The source writes each string through its escape table
/// into a `Vec<u8>`, which cannot fail, so the result is always `Some`.
#[verifier::external_body]
fn json_list_text(items: &Vec<String>) -> (r: Option<String>)
    ensures
        r is Some,
        r->0@ == json_string_list(views(items@)),
{
    serde_json::to_string(items).ok()
}

pub open spec fn is_lower_hex(c: char) -> bool {
    ('0' <= c && c <= '9') || ('a' <= c && c <= 'f')
}

/// The shape of a hyphenated random (version 4) UUID: 36 characters, lower-case
/// hex digits with hyphens at positions 8, 13, 18 and 23, the version digit `4` at
/// position 14 and a variant digit `8`, `9`, `a` or `b` at position 19.
pub open spec fn uuid_shaped(s: Seq<char>) -> bool {
    &&& s.len() == 36
    &&& s[14] == '4'
    &&& (s[19] == '8' || s[19] == '9' || s[19] == 'a' || s[19] == 'b')
    &&& forall|i: int|
        0 <= i < 36 ==> if i == 8 || i == 13 || i == 18 || i == 23 {
            #[trigger] s[i] == '-'
        } else {
            is_lower_hex(s[i])
        }
}

/// `uuid::Uuid::new_v4().to_string()`: a fresh random identifier. Which one comes
/// out is chance; what holds of each is its hyphenated lower-case shape with the
/// version-4 and variant digits that `new_v4` sets.
#[verifier::external_body]
pub(crate) fn new_uuid() -> (r: String)
    ensures
        uuid_shaped(r@),
{
    uuid::Uuid::new_v4().to_string()
}

/// `chrono::Utc::now().to_rfc3339()`: the current time as RFC 3339 text. What
/// time it reads is not stated; its UTC offset is written as `+00:00`.
#[verifier::external_body]
pub(crate) fn now_rfc3339() -> (r: String)
    ensures
        has_suffix(r@, "+00:00"@),
{
    chrono::Utc::now().to_rfc3339()
}

// ---------------------------------------------------------------------------
// The environment of an agent container
// ---------------------------------------------------------------------------

pub open spec fn pair_views(v: Seq<(String, String)>) -> Seq<(Seq<char>, Seq<char>)> {
    v.map_values(|p: (String, String)| (p.0@, p.1@))
}

pub open spec fn opt_pairs(o: Option<Vec<(String, String)>>) -> Seq<(Seq<char>, Seq<char>)> {
    match o {
        Some(v) => pair_views(v@),
        None => Seq::empty(),
    }
}

pub open spec fn opt_strings(o: Option<Vec<String>>) -> Seq<Seq<char>> {
    match o {
        Some(v) => views(v@),
        None => Seq::empty(),
    }
}

pub open spec fn opt_str(o: Option<&str>) -> Option<Seq<char>> {
    match o {
        Some(s) => Some(s@),
        None => None,
    }
}

/// The variables that every agent container gets.
pub open spec fn base_env(task: Seq<char>, id: Seq<char>, repos: Seq<Seq<char>>) -> Seq<Seq<char>> {
    seq![
        "TASK="@ + task,
        "CONTAINER_ID="@ + id,
        "CONTROL_PLANE_URL=http://host.docker.internal:8080"@,
        "SKILL_REPOS="@ + join_spec(repos, ","@),
    ]
}

/// Whether one of the request's variables has the name `k`.
pub open spec fn names_var(extra: Seq<(Seq<char>, Seq<char>)>, k: Seq<char>) -> bool {
    exists|i: int| 0 <= i < extra.len() && #[trigger] extra[i].0 == k
}

/// The configured Anthropic key joins the variables unless the request sets it.
pub open spec fn with_anthropic_key(
    env: Seq<Seq<char>>,
    key: Option<Seq<char>>,
    extra: Seq<(Seq<char>, Seq<char>)>,
) -> Seq<Seq<char>> {
    match key {
        Some(k) => if names_var(extra, "ANTHROPIC_API_KEY"@) {
            env
        } else {
            env.push("ANTHROPIC_API_KEY="@ + k)
        },
        None => env,
    }
}

/// Whether some variable already set begins with `k=`.
pub open spec fn sets_var(env: Seq<Seq<char>>, k: Seq<char>) -> bool {
    exists|i: int| 0 <= i < env.len() && has_prefix(#[trigger] env[i], k + "="@)
}

/// The request's variables join in order, each unless a variable already set
/// begins with its name and `=`.
pub open spec fn add_request_vars(env: Seq<Seq<char>>, extra: Seq<(Seq<char>, Seq<char>)>) -> Seq<
    Seq<char>,
>
    decreases extra.len(),
{
    if extra.len() == 0 {
        env
    } else {
        let prev = add_request_vars(env, extra.drop_last());
        let (k, v) = extra.last();
        if sets_var(prev, k) {
            prev
        } else {
            prev.push(k + "="@ + v)
        }
    }
}

/// The environment of an agent container.
pub open spec fn env_vars_view(
    task: Seq<char>,
    id: Seq<char>,
    repos: Seq<Seq<char>>,
    anthropic_key: Option<Seq<char>>,
    extra: Seq<(Seq<char>, Seq<char>)>,
) -> Seq<Seq<char>> {
    add_request_vars(with_anthropic_key(base_env(task, id, repos), anthropic_key, extra), extra)
}

fn concat2(a: &str, b: &str) -> (r: String)
    ensures
        r@ == a@ + b@,
{
    let mut r = String::from_str(a);
    r.append(b);
    r
}

fn concat3(a: &str, b: &str, c: &str) -> (r: String)
    ensures
        r@ == a@ + b@ + c@,
{
    let mut r = String::from_str(a);
    r.append(b);
    r.append(c);
    r
}

fn sets_var_exec(env: &Vec<String>, k: &str) -> (r: bool)
    ensures
        r == sets_var(views(env@), k@),
{
    let mut p = chars_of(k);
    p.push('=');
    assert(p@ =~= k@ + "="@) by {
        reveal_strlit("=");
    }
    let mut i: usize = 0;
    while i < env.len()
        invariant
            i <= env@.len(),
            p@ == k@ + "="@,
            forall|j: int| 0 <= j < i ==> !has_prefix(#[trigger] views(env@)[j], k@ + "="@),
        decreases env@.len() - i,
    {
        if starts_with(&chars_of(env[i].as_str()), &p) {
            assert(has_prefix(views(env@)[i as int], k@ + "="@));
            return true;
        }
        i += 1;
    }
    false
}

fn names_var_exec(extra: &Vec<(String, String)>, k: &str) -> (r: bool)
    ensures
        r == names_var(pair_views(extra@), k@),
{
    let key = chars_of(k);
    let mut i: usize = 0;
    while i < extra.len()
        invariant
            i <= extra@.len(),
            key@ == k@,
            forall|j: int| 0 <= j < i ==> #[trigger] pair_views(extra@)[j].0 != k@,
        decreases extra@.len() - i,
    {
        if crate::text::chars_eq(&chars_of(extra[i].0.as_str()), &key) {
            assert(pair_views(extra@)[i as int].0 == k@);
            return true;
        }
        i += 1;
    }
    false
}

/// The environment of the agent container `id` (see `env_vars_view`).
pub fn container_env_vars(
    task: &str,
    id: &str,
    repos: &Vec<String>,
    anthropic_key: Option<&str>,
    extra: &Vec<(String, String)>,
) -> (r: Vec<String>)
    ensures
        views(r@) == env_vars_view(task@, id@, views(repos@), opt_str(anthropic_key), pair_views(extra@)),
{
    let mut env: Vec<String> = Vec::new();
    env.push(concat2("TASK=", task));
    env.push(concat2("CONTAINER_ID=", id));
    env.push(String::from_str("CONTROL_PLANE_URL=http://host.docker.internal:8080"));
    let joined = join(repos, ",");
    env.push(concat2("SKILL_REPOS=", joined.as_str()));
    assert(views(env@) =~= base_env(task@, id@, views(repos@)));
    if let Some(k) = anthropic_key {
        if !names_var_exec(extra, "ANTHROPIC_API_KEY") {
            env.push(concat2("ANTHROPIC_API_KEY=", k));
        }
    }
    let ghost start = with_anthropic_key(base_env(task@, id@, views(repos@)), opt_str(anthropic_key), pair_views(extra@));
    assert(views(env@) =~= start);
    let mut i: usize = 0;
    while i < extra.len()
        invariant
            i <= extra@.len(),
            views(env@) == add_request_vars(start, pair_views(extra@).take(i as int)),
        decreases extra@.len() - i,
    {
        let ghost prev = views(env@);
        let ghost pv = pair_views(extra@);
        assert(pv.take(i + 1).drop_last() =~= pv.take(i as int));
        assert(pv.take(i + 1).last() == pv[i as int]);
        let (k, v) = (&extra[i].0, &extra[i].1);
        if !sets_var_exec(&env, k.as_str()) {
            env.push(concat3(k.as_str(), "=", v.as_str()));
            assert(views(env@) =~= prev.push(k@ + "="@ + v@));
        }
        i += 1;
    }
    assert(pair_views(extra@).take(extra@.len() as int) =~= pair_views(extra@));
    env
}

// ---------------------------------------------------------------------------
// The plan and the record of a new container
// ---------------------------------------------------------------------------

/// What is decided about a new agent container before Docker creates it.
#[derive(Debug, Clone)]
pub struct ContainerPlan {
    pub id: String,
    pub docker_name: String,
    pub task: String,
    pub env_vars: Vec<String>,
    pub skill_repos_json: String,
    pub cpu_limit: String,
    pub memory_limit: String,
    pub idle_timeout: i64,
    pub max_lifetime: i64,
}

/// The stored list of skill repositories: its JSON text.
pub open spec fn repos_json_view(repos: Seq<Seq<char>>) -> Seq<char> {
    json_string_list(repos)
}

pub open spec fn string_or(o: Option<String>, default: Seq<char>) -> Seq<char> {
    match o {
        Some(s) => s@,
        None => default,
    }
}

pub open spec fn i64_or(o: Option<i64>, default: i64) -> i64 {
    match o {
        Some(v) => v,
        None => default,
    }
}

/// `plan` is what the request `payload` asks for under the identifier `id`, given
/// the configured Anthropic key: Docker name `agent-<id>`, the environment of
/// `env_vars_view`, 2 CPUs and 4Gi of memory unless asked otherwise, an idle
/// timeout of 300 s and a lifetime of 3600 s unless asked otherwise.
pub open spec fn plans_request(
    plan: ContainerPlan,
    id: Seq<char>,
    payload: CreateContainerRequest,
    anthropic_key: Option<Seq<char>>,
) -> bool {
    &&& plan.id@ == id
    &&& plan.docker_name@ == "agent-"@ + id
    &&& plan.task@ == payload.task@
    &&& views(plan.env_vars@) == env_vars_view(
        payload.task@,
        id,
        opt_strings(payload.skill_repos),
        anthropic_key,
        opt_pairs(payload.env),
    )
    &&& plan.skill_repos_json@ == repos_json_view(opt_strings(payload.skill_repos))
    &&& plan.cpu_limit@ == string_or(payload.cpu_limit, "2"@)
    &&& plan.memory_limit@ == string_or(payload.memory_limit, "4Gi"@)
    &&& plan.idle_timeout == i64_or(payload.idle_timeout, 300)
    &&& plan.max_lifetime == i64_or(payload.max_lifetime, 3600)
}

/// The plan for the request `payload` under the identifier `id`.
pub fn plan_container(id: String, payload: CreateContainerRequest, anthropic_key: Option<&str>) -> (r: ContainerPlan)
    ensures
        plans_request(r, id@, payload, opt_str(anthropic_key)),
{
    let repos: Vec<String> = match &payload.skill_repos {
        Some(v) => v.clone(),
        None => Vec::new(),
    };
    let no_extra: Vec<(String, String)> = Vec::new();
    let extra: &Vec<(String, String)> = match &payload.env {
        Some(v) => v,
        None => &no_extra,
    };
    assert(views(repos@) =~= opt_strings(payload.skill_repos));
    assert(pair_views(extra@) =~= opt_pairs(payload.env));
    let env_vars = container_env_vars(payload.task.as_str(), id.as_str(), &repos, anthropic_key, extra);
    let skill_repos_json = match json_list_text(&repos) {
        Some(t) => t,
        None => String::from_str("[]"),
    };
    let cpu_limit = match &payload.cpu_limit {
        Some(c) => c.clone(),
        None => String::from_str("2"),
    };
    let memory_limit = match &payload.memory_limit {
        Some(m) => m.clone(),
        None => String::from_str("4Gi"),
    };
    let idle_timeout = match payload.idle_timeout {
        Some(t) => t,
        None => 300,
    };
    let max_lifetime = match payload.max_lifetime {
        Some(t) => t,
        None => 3600,
    };
    let docker_name = concat2("agent-", id.as_str());
    ContainerPlan {
        id,
        docker_name,
        task: payload.task.clone(),
        env_vars,
        skill_repos_json,
        cpu_limit,
        memory_limit,
        idle_timeout,
        max_lifetime,
    }
}

/// The plan for the request `payload` under a fresh random identifier.
pub fn plan_new_container(payload: CreateContainerRequest, anthropic_key: Option<&str>) -> (r: ContainerPlan)
    ensures
        uuid_shaped(r.id@),
        plans_request(r, r.id@, payload, opt_str(anthropic_key)),
{
    let id = new_uuid();
    plan_container(id, payload, anthropic_key)
}

/// `record` is the running container of `plan`, created by Docker as `docker_id`,
/// created and last active at `now`.
pub open spec fn records_plan(record: Container, plan: ContainerPlan, docker_id: Seq<char>, now: Seq<char>) -> bool {
    &&& record.id@ == plan.id@
    &&& record.task@ == plan.task@
    &&& record.status@ == ContainerStatus::Running.label_view()
    &&& record.docker_id matches Some(d) && d@ == docker_id
    &&& record.skill_repos@ == plan.skill_repos_json@
    &&& record.cpu_limit@ == plan.cpu_limit@
    &&& record.memory_limit@ == plan.memory_limit@
    &&& record.idle_timeout == plan.idle_timeout
    &&& record.max_lifetime == plan.max_lifetime
    &&& record.created_at@ == now
    &&& record.last_activity@ == now
}

impl ContainerPlan {
    /// The record of the planned container once Docker runs it as `docker_id`, at time `now`.
    pub fn into_record_at(self, docker_id: String, now: String) -> (r: Container)
        ensures
            records_plan(r, self, docker_id@, now@),
    {
        Container {
            id: self.id,
            task: self.task,
            status: ContainerStatus::Running.to_string(),
            docker_id: Some(docker_id),
            skill_repos: self.skill_repos_json,
            cpu_limit: self.cpu_limit,
            memory_limit: self.memory_limit,
            idle_timeout: self.idle_timeout,
            max_lifetime: self.max_lifetime,
            created_at: now.clone(),
            last_activity: now,
        }
    }

    /// The record of the planned container once Docker runs it as `docker_id`, stamped
    /// with the current time.
    pub fn into_record(self, docker_id: String) -> (r: Container)
        ensures
            records_plan(r, self, docker_id@, r.created_at@),
            has_suffix(r.created_at@, "+00:00"@),
    {
        let now = now_rfc3339();
        self.into_record_at(docker_id, now)
    }
}

/// The answer that reports the container `c`.
pub fn container_response(c: &Container) -> (r: ContainerResponse)
    ensures
        r.id == c.id,
        r.status == ContainerStatus::parse_view(c.status@),
        r.created_at == c.created_at,
        r.docker_id == c.docker_id,
{
    ContainerResponse {
        id: c.id.clone(),
        status: c.get_status(),
        created_at: c.created_at.clone(),
        docker_id: c.docker_id.clone(),
    }
}

/// A container that was just recorded is reported as running.
pub proof fn lemma_new_container_reported_running(record: Container, plan: ContainerPlan, docker_id: Seq<char>, now: Seq<char>)
    requires
        records_plan(record, plan, docker_id, now),
    ensures
        ContainerStatus::parse_view(record.status@) == ContainerStatus::Running,
{
    crate::models::lemma_status_label_round_trip(ContainerStatus::Running);
}

proof fn lemma_add_request_vars_keeps(env: Seq<Seq<char>>, extra: Seq<(Seq<char>, Seq<char>)>)
    ensures
        add_request_vars(env, extra).len() >= env.len(),
        add_request_vars(env, extra).take(env.len() as int) == env,
    decreases extra.len(),
{
    if extra.len() > 0 {
        lemma_add_request_vars_keeps(env, extra.drop_last());
        let prev = add_request_vars(env, extra.drop_last());
        assert(prev.push(extra.last().0 + "="@ + extra.last().1).take(env.len() as int) =~= prev.take(env.len() as int));
    }
}

/// The request's variables never displace the variables the control plane sets:
/// the environment begins with `TASK`, `CONTAINER_ID`, `CONTROL_PLANE_URL` and
/// `SKILL_REPOS`, followed by the configured Anthropic key unless the request sets
/// that variable itself.
pub proof fn lemma_base_env_leads(
    task: Seq<char>,
    id: Seq<char>,
    repos: Seq<Seq<char>>,
    anthropic_key: Option<Seq<char>>,
    extra: Seq<(Seq<char>, Seq<char>)>,
)
    ensures
        env_vars_view(task, id, repos, anthropic_key, extra).len() >= 4,
        env_vars_view(task, id, repos, anthropic_key, extra).take(4) == base_env(task, id, repos),
        anthropic_key is Some && !names_var(extra, "ANTHROPIC_API_KEY"@) ==> env_vars_view(
            task,
            id,
            repos,
            anthropic_key,
            extra,
        )[4] == "ANTHROPIC_API_KEY="@ + anthropic_key->0,
{
    let start = with_anthropic_key(base_env(task, id, repos), anthropic_key, extra);
    lemma_add_request_vars_keeps(start, extra);
    let all = add_request_vars(start, extra);
    assert(all.take(start.len() as int).take(4) =~= all.take(4));
    assert(start.take(4) =~= base_env(task, id, repos));
    if anthropic_key is Some && !names_var(extra, "ANTHROPIC_API_KEY"@) {
        assert(all[4] == all.take(start.len() as int)[4]);
    }
}

/// Where `x` begins with the name `k` followed by `=`.
proof fn lemma_sets_var_is_name_then_equals(env: Seq<Seq<char>>, k: Seq<char>)
    ensures
        sets_var(env, k) <==> exists|i: int|
            0 <= i < env.len() && env[i].len() > k.len() && #[trigger] env[i].take(k.len() + 1int) == k
                + "="@,
{
    reveal_strlit("=");
    assert((k + "="@).len() == k.len() + 1);
}

/// A request variable `(k, v)` that comes after `extra` is left out exactly where
/// a variable set so far begins with `k=`; else the environment gains `k=v` at
/// its end.
pub proof fn lemma_request_var_joins_unless_set(
    env: Seq<Seq<char>>,
    extra: Seq<(Seq<char>, Seq<char>)>,
    k: Seq<char>,
    v: Seq<char>,
)
    ensures
        ({
            let prev = add_request_vars(env, extra);
            add_request_vars(env, extra.push((k, v))) == if exists|i: int|
                0 <= i < prev.len() && prev[i].len() > k.len() && #[trigger] prev[i].take(k.len() + 1int)
                    == k + "="@ {
                prev
            } else {
                prev.push(k + "="@ + v)
            }
        }),
{
    let all = extra.push((k, v));
    assert(all.drop_last() =~= extra);
    assert(all.last() == (k, v));
    lemma_sets_var_is_name_then_equals(add_request_vars(env, extra), k);
}

/// The same for a container's whole environment: a request variable other than
/// `ANTHROPIC_API_KEY` added after `extra` joins as `k=v` unless a variable set so
/// far begins with `k=`, and then changes nothing.
pub proof fn lemma_container_env_gains_request_var(
    task: Seq<char>,
    id: Seq<char>,
    repos: Seq<Seq<char>>,
    anthropic_key: Option<Seq<char>>,
    extra: Seq<(Seq<char>, Seq<char>)>,
    k: Seq<char>,
    v: Seq<char>,
)
    requires
        k != "ANTHROPIC_API_KEY"@,
    ensures
        ({
            let prev = env_vars_view(task, id, repos, anthropic_key, extra);
            env_vars_view(task, id, repos, anthropic_key, extra.push((k, v))) == if exists|i: int|
                0 <= i < prev.len() && prev[i].len() > k.len() && #[trigger] prev[i].take(k.len() + 1int)
                    == k + "="@ {
                prev
            } else {
                prev.push(k + "="@ + v)
            }
        }),
{
    let all = extra.push((k, v));
    let a = "ANTHROPIC_API_KEY"@;
    if names_var(all, a) {
        let i = choose|i: int| 0 <= i < all.len() && #[trigger] all[i].0 == a;
        assert(i < extra.len());
        assert(extra[i] == all[i]);
    }
    if names_var(extra, a) {
        let i = choose|i: int| 0 <= i < extra.len() && #[trigger] extra[i].0 == a;
        assert(all[i] == extra[i]);
    }
    assert(names_var(all, a) == names_var(extra, a));
    let base = with_anthropic_key(base_env(task, id, repos), anthropic_key, extra);
    assert(with_anthropic_key(base_env(task, id, repos), anthropic_key, all) == base);
    lemma_request_var_joins_unless_set(base, extra, k, v);
}

} // verus!
