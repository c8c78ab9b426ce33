//! The SQL that lists containers: which column orders the page, how the page is
//! bounded, and which filters the `WHERE` clause holds with their parameters.

use vstd::prelude::*;

use crate::text::{chars_eq, chars_of, has_prefix, join, join_spec, views};

verus! {

/// The columns that a listing may be ordered by; any other choice orders by
/// creation time.
pub open spec fn sort_column_view(sort_by: Seq<char>) -> Seq<char> {
    if sort_by == "created_at"@ || sort_by == "last_activity"@ || sort_by == "task"@ || sort_by
        == "status"@ {
        sort_by
    } else {
        "created_at"@
    }
}

/// `"asc"` orders upwards; anything else orders downwards.
pub open spec fn sort_direction_view(sort_order: Seq<char>) -> Seq<char> {
    if sort_order == "asc"@ {
        "ASC"@
    } else {
        "DESC"@
    }
}

/// The page size, held between 1 and 100.
pub open spec fn clamp_per_page(per_page: i64) -> i64 {
    if per_page > 100 {
        100
    } else if per_page < 1 {
        1
    } else {
        per_page
    }
}

/// The page number, at least 1.
pub open spec fn clamp_page(page: i64) -> i64 {
    if page < 1 {
        1
    } else {
        page
    }
}

/// The number of rows skipped before the page.
pub open spec fn page_offset(page: i64, per_page: i64) -> int {
    (clamp_page(page) - 1) * clamp_per_page(per_page)
}

/// A filter that is given and not empty.
pub open spec fn active_filter(f: Option<Seq<char>>) -> bool {
    f matches Some(s) && s.len() > 0
}

/// The conditions of the `WHERE` clause, in order.
pub open spec fn conditions_view(status: Option<Seq<char>>, search: Option<Seq<char>>) -> Seq<
    Seq<char>,
> {
    let a: Seq<Seq<char>> = if active_filter(status) {
        seq!["status = ?"@]
    } else {
        Seq::empty()
    };
    if active_filter(search) {
        a.push("(task LIKE ? OR id LIKE ?)"@)
    } else {
        a
    }
}

/// The parameters that the conditions' placeholders take, in order: the status,
/// then the search term wrapped in `%` once for the task and once for the id.
pub open spec fn binds_view(status: Option<Seq<char>>, search: Option<Seq<char>>) -> Seq<
    Seq<char>,
> {
    let a: Seq<Seq<char>> = if active_filter(status) {
        seq![status->0]
    } else {
        Seq::empty()
    };
    if active_filter(search) {
        let term = "%"@ + search->0 + "%"@;
        a.push(term).push(term)
    } else {
        a
    }
}

pub open spec fn where_clause_view(status: Option<Seq<char>>, search: Option<Seq<char>>) -> Seq<
    char,
> {
    let c = conditions_view(status, search);
    if c.len() == 0 {
        Seq::empty()
    } else {
        "WHERE "@ + join_spec(c, " AND "@)
    }
}

/// The query for one page of containers.
pub open spec fn data_query_view(
    status: Option<Seq<char>>,
    search: Option<Seq<char>>,
    sort_by: Seq<char>,
    sort_order: Seq<char>,
) -> Seq<char> {
    "SELECT id, task, status, docker_id, skill_repos, cpu_limit, memory_limit, idle_timeout, max_lifetime, created_at, last_activity FROM containers "@
        + where_clause_view(status, search) + " "@ + "ORDER BY "@ + sort_column_view(sort_by)
        + " "@ + sort_direction_view(sort_order) + " "@ + "LIMIT ? OFFSET ?"@
}

/// The query that counts the containers that the filters keep.
pub open spec fn count_query_view(status: Option<Seq<char>>, search: Option<Seq<char>>) -> Seq<
    char,
> {
    "SELECT COUNT(*) FROM containers "@ + where_clause_view(status, search)
}

/// The whole listing request: the page query, the count query, the bound
/// parameters, the page size and the offset.
pub open spec fn listing_view(
    status: Option<Seq<char>>,
    search: Option<Seq<char>>,
    sort_by: Seq<char>,
    sort_order: Seq<char>,
    page: i64,
    per_page: i64,
) -> (Seq<char>, Seq<char>, Seq<Seq<char>>, i64, int) {
    (
        data_query_view(status, search, sort_by, sort_order),
        count_query_view(status, search),
        binds_view(status, search),
        clamp_per_page(per_page),
        page_offset(page, per_page),
    )
}

pub open spec fn opt_view(o: Option<&str>) -> Option<Seq<char>> {
    match o {
        Some(s) => Some(s@),
        None => None,
    }
}

/// What a container listing sends to the database: the page query, the count
/// query, the filter parameters that both take, and the page's size and offset,
/// which the page query takes after them.
#[derive(Debug, Clone)]
pub struct ListQueryPlan {
    pub data_query: String,
    pub count_query: String,
    pub binds: Vec<String>,
    pub limit: i64,
    pub offset: i64,
}

fn is_nonempty(f: Option<&str>) -> (r: bool)
    ensures
        r == active_filter(opt_view(f)),
{
    match f {
        Some(s) => chars_of(s).len() > 0,
        None => false,
    }
}

/// The allowed column that orders the listing.
pub fn sort_column(sort_by: &str) -> (r: String)
    ensures
        r@ == sort_column_view(sort_by@),
{
    let v = chars_of(sort_by);
    if chars_eq(&v, &chars_of("created_at")) || chars_eq(&v, &chars_of("last_activity"))
        || chars_eq(&v, &chars_of("task")) || chars_eq(&v, &chars_of("status")) {
        String::from_str(sort_by)
    } else {
        String::from_str("created_at")
    }
}

/// The direction of the listing's order.
pub fn sort_direction(sort_order: &str) -> (r: String)
    ensures
        r@ == sort_direction_view(sort_order@),
{
    if chars_eq(&chars_of(sort_order), &chars_of("asc")) {
        String::from_str("ASC")
    } else {
        String::from_str("DESC")
    }
}

/// The queries and parameters that list one page of containers, filtered by
/// status and by a search term that the task or the id contains.
pub fn plan_list_containers(
    status: Option<&str>,
    search: Option<&str>,
    sort_by: &str,
    sort_order: &str,
    page: i64,
    per_page: i64,
) -> (r: ListQueryPlan)
    requires
        page_offset(page, per_page) <= i64::MAX,
    ensures
        r.data_query@ == data_query_view(opt_view(status), opt_view(search), sort_by@, sort_order@),
        r.count_query@ == count_query_view(opt_view(status), opt_view(search)),
        views(r.binds@) == binds_view(opt_view(status), opt_view(search)),
        r.limit == clamp_per_page(per_page),
        r.offset == page_offset(page, per_page),
        (r.data_query@, r.count_query@, views(r.binds@), r.limit, r.offset as int) == listing_view(
            opt_view(status),
            opt_view(search),
            sort_by@,
            sort_order@,
            page,
            per_page,
        ),
{
    let per_page = if per_page > 100 {
        100
    } else if per_page < 1 {
        1
    } else {
        per_page
    };
    let page = if page < 1 {
        1
    } else {
        page
    };
    let offset = (page - 1) * per_page;

    let mut conditions: Vec<String> = Vec::new();
    let mut binds: Vec<String> = Vec::new();
    let ghost st = opt_view(status);
    let ghost se = opt_view(search);
    if is_nonempty(status) {
        conditions.push(String::from_str("status = ?"));
        binds.push(String::from_str(status.unwrap()));
    }
    assert(views(conditions@) =~= (if active_filter(st) { seq!["status = ?"@] } else { Seq::<Seq<char>>::empty() }));
    assert(views(binds@) =~= (if active_filter(st) { seq![st->0] } else { Seq::<Seq<char>>::empty() }));
    if is_nonempty(search) {
        let mut term = String::from_str("%");
        term.append(search.unwrap());
        term.append("%");
        conditions.push(String::from_str("(task LIKE ? OR id LIKE ?)"));
        binds.push(term.clone());
        binds.push(term);
    }
    assert(views(conditions@) =~= conditions_view(st, se));
    assert(views(binds@) =~= binds_view(st, se));

    let where_clause = if conditions.len() == 0 {
        String::new()
    } else {
        let mut w = String::from_str("WHERE ");
        let j = join(&conditions, " AND ");
        w.append(j.as_str());
        w
    };

    let mut data_query = String::from_str(
        "SELECT id, task, status, docker_id, skill_repos, cpu_limit, memory_limit, idle_timeout, max_lifetime, created_at, last_activity FROM containers ",
    );
    data_query.append(where_clause.as_str());
    data_query.append(" ");
    data_query.append("ORDER BY ");
    data_query.append(sort_column(sort_by).as_str());
    data_query.append(" ");
    data_query.append(sort_direction(sort_order).as_str());
    data_query.append(" ");
    data_query.append("LIMIT ? OFFSET ?");

    let mut count_query = String::from_str("SELECT COUNT(*) FROM containers ");
    count_query.append(where_clause.as_str());

    ListQueryPlan { data_query, count_query, binds, limit: per_page, offset }
}

/// Whatever the caller asks, the listing is ordered by one of the four allowed
/// columns, upwards or downwards, and its page holds 1 to 100 rows from a
/// non-negative offset.
pub proof fn lemma_listing_is_bounded(sort_by: Seq<char>, sort_order: Seq<char>, page: i64, per_page: i64)
    ensures
        sort_column_view(sort_by) == "created_at"@ || sort_column_view(sort_by) == "last_activity"@
            || sort_column_view(sort_by) == "task"@ || sort_column_view(sort_by) == "status"@,
        sort_direction_view(sort_order) == "ASC"@ || sort_direction_view(sort_order) == "DESC"@,
        1 <= clamp_per_page(per_page) <= 100,
        page_offset(page, per_page) >= 0,
{
    assert(clamp_page(page) - 1 >= 0);
    assert((clamp_page(page) - 1) * clamp_per_page(per_page) >= 0) by (nonlinear_arith)
        requires
            clamp_page(page) - 1 >= 0,
            clamp_per_page(per_page) >= 1,
    ;
}

/// The page query and the count query filter alike: both end in the same
/// `WHERE` clause (the page query before its ordering and limit).
pub proof fn lemma_queries_share_filter(
    status: Option<Seq<char>>,
    search: Option<Seq<char>>,
    sort_by: Seq<char>,
    sort_order: Seq<char>,
)
    ensures
        count_query_view(status, search) == "SELECT COUNT(*) FROM containers "@ + where_clause_view(
            status,
            search,
        ),
        has_prefix(
            data_query_view(status, search, sort_by, sort_order),
            "SELECT id, task, status, docker_id, skill_repos, cpu_limit, memory_limit, idle_timeout, max_lifetime, created_at, last_activity FROM containers "@
                + where_clause_view(status, search) + " "@,
        ),
{
    let head = "SELECT id, task, status, docker_id, skill_repos, cpu_limit, memory_limit, idle_timeout, max_lifetime, created_at, last_activity FROM containers "@
        + where_clause_view(status, search) + " "@;
    let d = data_query_view(status, search, sort_by, sort_order);
    assert(d.take(head.len() as int) =~= head);
}

/// An ordering that is not allowed cannot reach the SQL: an unknown column and
/// any direction other than `asc` give the very query of `created_at`, `desc`,
/// and the very same listing (count query, parameters, page size and offset) for
/// every page.
pub proof fn lemma_unknown_order_falls_back(
    status: Option<Seq<char>>,
    search: Option<Seq<char>>,
    sort_by: Seq<char>,
    sort_order: Seq<char>,
    page: i64,
    per_page: i64,
)
    requires
        sort_by != "created_at"@,
        sort_by != "last_activity"@,
        sort_by != "task"@,
        sort_by != "status"@,
        sort_order != "asc"@,
    ensures
        data_query_view(status, search, sort_by, sort_order) == data_query_view(
            status,
            search,
            "created_at"@,
            "desc"@,
        ),
        listing_view(status, search, sort_by, sort_order, page, per_page) == listing_view(
            status,
            search,
            "created_at"@,
            "desc"@,
            page,
            per_page,
        ),
{
    reveal_strlit("desc");
    reveal_strlit("asc");
    assert("desc"@[0] != "asc"@[0]);
}

/// The filters in the queries and their parameters, case by case: a non-empty
/// status adds `status = ?` and binds the status; a non-empty search term adds
/// `(task LIKE ? OR id LIKE ?)` and binds `%term%` twice, whether or not a status
/// is given; an absent or empty filter adds nothing. The page query filters as
/// the count query does.
pub proof fn lemma_filters_shape(
    status: Option<Seq<char>>,
    search: Option<Seq<char>>,
    sort_by: Seq<char>,
    sort_order: Seq<char>,
)
    ensures
        ({
            let st = status is Some && status->0.len() > 0;
            let se = search is Some && search->0.len() > 0;
            let term = "%"@ + search->0 + "%"@;
            let w = if st && se {
                "WHERE "@ + "status = ?"@ + " AND "@ + "(task LIKE ? OR id LIKE ?)"@
            } else if st {
                "WHERE "@ + "status = ?"@
            } else if se {
                "WHERE "@ + "(task LIKE ? OR id LIKE ?)"@
            } else {
                Seq::empty()
            };
            &&& count_query_view(status, search) == "SELECT COUNT(*) FROM containers "@ + w
            &&& has_prefix(
                data_query_view(status, search, sort_by, sort_order),
                "SELECT id, task, status, docker_id, skill_repos, cpu_limit, memory_limit, idle_timeout, max_lifetime, created_at, last_activity FROM containers "@
                    + w + " "@,
            )
            &&& binds_view(status, search) == if st && se {
                seq![status->0, term, term]
            } else if st {
                seq![status->0]
            } else if se {
                seq![term, term]
            } else {
                Seq::empty()
            }
        }),
{
    let st = active_filter(status);
    let se = active_filter(search);
    let a = "status = ?"@;
    let b = "(task LIKE ? OR id LIKE ?)"@;
    let sep = " AND "@;
    let c = conditions_view(status, search);
    if st && se {
        assert(c =~= seq![a, b]);
        assert(c.drop_last() =~= seq![a]);
        assert(join_spec(c.drop_last(), sep) == a);
        assert(join_spec(c, sep) == a + sep + b);
        assert("WHERE "@ + (a + sep + b) =~= "WHERE "@ + a + sep + b);
    } else if st {
        assert(c =~= seq![a]);
    } else if se {
        assert(c =~= seq![b]);
    } else {
        assert(c =~= Seq::<Seq<char>>::empty());
    }
    if se {
        let term = "%"@ + search->0 + "%"@;
        if st {
            assert(binds_view(status, search) =~= seq![status->0, term, term]);
        } else {
            assert(binds_view(status, search) =~= seq![term, term]);
        }
    } else if st {
        assert(binds_view(status, search) =~= seq![status->0]);
    }
    lemma_queries_share_filter(status, search, sort_by, sort_order);
}

} // verus!
