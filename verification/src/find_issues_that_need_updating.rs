use vstd::prelude::*;

use crate::json::{get_str_for_key, spec_as_i64, spec_get, spec_opt_array, spec_opt_object, spec_opt_str, take_entry, Json, JsonMap, JsonValue};
use crate::manage_interesting_projects::{get_issue_links_from_json, spec_issue_links_from_json, Issue, IssueLink};
use crate::manage_issue_field::{IssueProperties, KeyValueProperty};
use crate::text::{parse_i64, spec_parse_i64, str_eq, to_owned};
use crate::utils::{
    get_str_without_surrounding_quotes, lemma_filter_map_step, lemma_take_all, spec_filter_map,
    spec_views, spec_without_surrounding_quotes,
};

verus! {

/// An issue of a search result with what decides whether it must be
/// fetched again.
#[allow(non_camel_case_types)]
pub struct issue_data {
    pub id: i64,
    pub jira_issue: String,
    pub last_updated: String,
    pub fields: JsonMap,
}

/// The issues to fetch again and the links between the issues of a project.
#[allow(non_camel_case_types)]
pub struct issue_and_links {
    pub issues: Vec<issue_data>,
    pub links: Vec<IssueLink>,
}

/// Whether the scan of a search result stopped at an issue already up to date.
#[allow(non_camel_case_types)]
#[derive(Copy, Clone, Debug, PartialEq, Eq, Structural)]
pub enum FoundIssueUpToDate {
    NO_ISSUE_IS_UP_TO_DATE,
    ONE_ISSUE_IS_UP_TO_DATE,
}

/// The mathematical counterpart of an [`issue_data`].
pub struct IssueDataView {
    pub id: i64,
    pub jira_issue: Seq<char>,
    pub last_updated: Seq<char>,
    pub fields: JsonMap,
}

impl View for issue_data {
    type V = IssueDataView;

    open spec fn view(&self) -> IssueDataView {
        IssueDataView { id: self.id, jira_issue: self.jira_issue@, last_updated: self.last_updated@, fields: self.fields }
    }
}

/// An issue of a search result: its id (digits), key, fields and update time.
pub open spec fn spec_issue_data_from_json(x: Json) -> Option<IssueDataView> {
    if !(x.value is Object) {
        None
    } else {
        match (
            spec_opt_str(spec_get(x, "id"@)),
            spec_opt_str(spec_get(x, "key"@)),
            spec_opt_object(spec_get(x, "fields"@)),
        ) {
            (Some(id), Some(key), Some(fields)) => match (spec_parse_i64(id), spec_opt_str(spec_get(fields, "updated"@)), fields.value) {
                (Some(id), Some(updated), JsonValue::Object(m)) => Some(
                    IssueDataView { id, jira_issue: key, last_updated: updated, fields: m },
                ),
                _ => None,
            },
            _ => None,
        }
    }
}

/// The issues array of a search result.
pub open spec fn spec_search_issues(j: Json) -> Option<Seq<Json>> {
    if j.value is Object {
        spec_opt_array(spec_get(j, "issues"@))
    } else {
        None
    }
}

/// The well-formed issues of a search result and the links between them
/// (none when the links cannot be read); an error without an issues array.
pub open spec fn spec_issues_to_check(j: Json) -> Result<(Seq<IssueDataView>, Seq<IssueLink>), Seq<char>> {
    match spec_search_issues(j) {
        None => Err("No issue was found in the json passed to get_issues_from_json_that_need_updating"@),
        Some(a) => Ok(
            (
                spec_filter_map(a, |x: Json| spec_issue_data_from_json(x)),
                match spec_issue_links_from_json(j) {
                    Ok(l) => l,
                    Err(_) => Seq::empty(),
                },
            ),
        ),
    }
}

/// One issue of a search result, if it is well formed.
fn issue_data_from_json(x: Json) -> (res: Option<issue_data>)
    ensures
        match res {
            Some(d) => spec_issue_data_from_json(x) == Some(d@),
            None => spec_issue_data_from_json(x) is None,
        },
{
    if !x.is_object() {
        return None;
    }
    let id = match get_str_for_key(&x, "id") {
        Some(v) => v.clone(),
        None => return None,
    };
    let key = match get_str_for_key(&x, "key") {
        Some(v) => v.clone(),
        None => return None,
    };
    if crate::json::get_object(&x, "fields").is_none() {
        return None;
    }
    let id = match parse_i64(id.as_str()) {
        Some(v) => v,
        None => return None,
    };
    let ghost xg = x;
    let fields = match take_entry(x, "fields") {
        Some(f) => f,
        None => return None,
    };
    assert(spec_opt_object(spec_get(xg, "fields"@)) == Some(fields));
    let updated = match get_str_for_key(&fields, "updated") {
        Some(u) => u.clone(),
        None => return None,
    };
    match fields.value {
        JsonValue::Object(m) => Some(issue_data { id, jira_issue: key, last_updated: updated, fields: m }),
        _ => None,
    }
}

/// The issues of a search result and the links between them.
pub fn get_issues_to_check(json_data: Json) -> (res: Result<(Vec<issue_data>, Vec<IssueLink>), String>)
    ensures
        match res {
            Ok((issues, links)) => spec_issues_to_check(json_data) == Ok::<_, Seq<char>>((spec_views(issues@), links@)),
            Err(e) => spec_issues_to_check(json_data) == Err::<(Seq<IssueDataView>, Seq<IssueLink>), _>(e@),
        },
{
    let links = match get_issue_links_from_json(&json_data) {
        Ok(v) => v,
        Err(_) => Vec::new(),
    };
    let ghost jg = json_data;
    let is_object = json_data.is_object();
    let issues = if is_object {
        take_entry(json_data, "issues")
    } else {
        None
    };
    let mut a = match issues {
        Some(v) => match v.value {
            JsonValue::Array(a) => a,
            _ => return Err(to_owned("No issue was found in the json passed to get_issues_from_json_that_need_updating")),
        },
        None => return Err(to_owned("No issue was found in the json passed to get_issues_from_json_that_need_updating")),
    };
    let ghost all = a@;
    let n0 = a.len();
    assert(all.len() == n0);
    assert(spec_search_issues(jg) == Some(all));
    let ghost f = |x: Json| spec_issue_data_from_json(x);
    let mut res: Vec<issue_data> = Vec::new();
    let mut i: usize = 0;
    while a.len() > 0
        invariant
            i + a@.len() == all.len(),
            all.len() <= usize::MAX,
            a@ == all.subrange(i as int, all.len() as int),
            f == (|x: Json| spec_issue_data_from_json(x)),
            spec_views(res@) == spec_filter_map(all.take(i as int), f),
        decreases a@.len(),
    {
        proof { lemma_filter_map_step(all, f, i as int); }
        let x = a.remove(0);
        assert(x == all[i as int]);
        if let Some(d) = issue_data_from_json(x) {
            let ghost before = res@;
            res.push(d);
            assert(spec_views(res@) =~= spec_views(before).push(res@.last()@));
        }
        assert(a@ =~= all.subrange(i + 1, all.len() as int));
        i = i + 1;
    }
    proof { lemma_take_all(all); }
    Ok((res, links))
}

/// What the local database answered when asked for an issue's update time.
pub enum StoredTimestamp {
    Found(String),
    NotFound,
    Failed,
}

/// What the scan does with one issue.
#[derive(Copy, Clone, Debug, PartialEq, Eq, Structural)]
pub enum IssueCheck {
    /// The stored update time is the server's: the issue and all older ones are up to date.
    UpToDate,
    /// The issue must be fetched again.
    NeedsUpdate,
    /// The database could not be asked: the issue is left out.
    Skip,
}

/// What the scan does with an issue updated at `last_updated` on the server.
pub open spec fn spec_check_issue(stored: StoredTimestamp, last_updated: Seq<char>) -> IssueCheck {
    match stored {
        StoredTimestamp::Found(ts) => if spec_without_surrounding_quotes(ts@) == last_updated {
            IssueCheck::UpToDate
        } else {
            IssueCheck::NeedsUpdate
        },
        StoredTimestamp::NotFound => IssueCheck::NeedsUpdate,
        StoredTimestamp::Failed => IssueCheck::Skip,
    }
}

/// A stored time is never a lone double quote (on which removing the
/// surrounding quotes is not defined).
pub open spec fn spec_stored_well_formed(stored: StoredTimestamp) -> bool {
    match stored {
        StoredTimestamp::Found(ts) => ts@ != seq!['"'],
        _ => true,
    }
}

/// What the scan does with an issue updated at `last_updated` on the server,
/// given what the database holds for it.
pub fn check_issue(stored: &StoredTimestamp, last_updated: &str) -> (res: IssueCheck)
    requires
        spec_stored_well_formed(*stored),
    ensures
        res == spec_check_issue(*stored, last_updated@),
{
    match stored {
        StoredTimestamp::Found(ts) => {
            let timestamp_to_use = get_str_without_surrounding_quotes(ts.as_str());
            if str_eq(timestamp_to_use, last_updated) {
                IssueCheck::UpToDate
            } else {
                IssueCheck::NeedsUpdate
            }
        },
        StoredTimestamp::NotFound => IssueCheck::NeedsUpdate,
        StoredTimestamp::Failed => IssueCheck::Skip,
    }
}

/// The scan of a search result, newest issue first, each with what the
/// database holds for it: the issues to fetch again, up to the first one
/// already up to date (excluded), and whether there was one.
pub open spec fn spec_scan(issues: Seq<IssueDataView>, stored: Seq<StoredTimestamp>) -> (Seq<IssueDataView>, FoundIssueUpToDate)
    decreases issues.len(),
{
    if issues.len() == 0 || stored.len() == 0 {
        (Seq::empty(), FoundIssueUpToDate::NO_ISSUE_IS_UP_TO_DATE)
    } else {
        match spec_check_issue(stored[0], issues[0].last_updated) {
            IssueCheck::UpToDate => (Seq::empty(), FoundIssueUpToDate::ONE_ISSUE_IS_UP_TO_DATE),
            IssueCheck::NeedsUpdate => {
                let (rest, found) = spec_scan(issues.drop_first(), stored.drop_first());
                (seq![issues[0]] + rest, found)
            },
            IssueCheck::Skip => spec_scan(issues.drop_first(), stored.drop_first()),
        }
    }
}

/// The scan never meets a stored time made of a lone double quote before it
/// stops (on which removing the surrounding quotes is not defined).
pub open spec fn spec_scan_defined(issues: Seq<IssueDataView>, stored: Seq<StoredTimestamp>) -> bool
    decreases issues.len(),
{
    if issues.len() == 0 || stored.len() == 0 {
        true
    } else {
        spec_stored_well_formed(stored[0]) && (spec_check_issue(stored[0], issues[0].last_updated) == IssueCheck::UpToDate
            || spec_scan_defined(issues.drop_first(), stored.drop_first()))
    }
}

/// Whether the scan of these issues, with what the database holds for each,
/// is defined all the way to where it stops.
pub fn scan_is_defined(issues: &Vec<issue_data>, stored: &Vec<StoredTimestamp>) -> (res: bool)
    requires
        stored@.len() == issues@.len(),
    ensures
        res == spec_scan_defined(spec_views(issues@), stored@),
{
    let ghost iv = spec_views(issues@);
    let mut i: usize = 0;
    assert(iv.skip(0) == iv);
    assert(stored@.skip(0) == stored@);
    while i < stored.len()
        invariant
            i <= stored@.len() == issues@.len(),
            iv == spec_views(issues@),
            spec_scan_defined(iv, stored@) == spec_scan_defined(iv.skip(i as int), stored@.skip(i as int)),
        decreases stored@.len() - i,
    {
        let ghost rest_i = iv.skip(i as int);
        let ghost rest_s = stored@.skip(i as int);
        assert(rest_i[0] == issues@[i as int]@);
        assert(rest_s[0] == stored@[i as int]);
        assert(rest_i.drop_first() == iv.skip(i + 1));
        assert(rest_s.drop_first() == stored@.skip(i + 1));
        proof { reveal_strlit("\""); }
        assert("\""@ =~= seq!['"']);
        assert(rest_i.len() > 0 && rest_s.len() > 0);
        let well_formed = match &stored[i] {
            StoredTimestamp::Found(ts) => !str_eq(ts.as_str(), "\""),
            _ => true,
        };
        assert(well_formed == spec_stored_well_formed(stored@[i as int]));
        if !well_formed {
            return false;
        }
        let verdict = check_issue(&stored[i], issues[i].last_updated.as_str());
        if verdict == IssueCheck::UpToDate {
            return true;
        }
        i = i + 1;
    }
    assert(iv.skip(i as int).len() == 0);
    true
}

/// The issues of a search result to fetch again, given what the database
/// holds for each, and whether the scan stopped at an issue up to date.
pub fn get_issues_that_need_updating(issues: Vec<issue_data>, stored: &Vec<StoredTimestamp>) -> (res: (Vec<issue_data>, FoundIssueUpToDate))
    requires
        stored@.len() == issues@.len(),
        spec_scan_defined(spec_views(issues@), stored@),
    ensures
        spec_views(res.0@) == spec_scan(spec_views(issues@), stored@).0,
        res.1 == spec_scan(spec_views(issues@), stored@).1,
{
    let ghost iv = spec_views(issues@);
    let mut kept: Vec<issue_data> = Vec::new();
    let mut remaining = issues;
    let ghost all = remaining@;
    let mut i: usize = 0;
    assert(iv.skip(0) == iv);
    assert(stored@.skip(0) == stored@);
    assert(spec_views(kept@) + spec_scan(iv, stored@).0 =~= spec_scan(iv, stored@).0);
    assert(remaining@ == all.subrange(0, all.len() as int));
    while i < stored.len()
        invariant
            i <= stored@.len() == all.len(),
            iv == spec_views(all),
            iv == spec_views(issues@),
            remaining@ == all.subrange(i as int, all.len() as int),
            spec_scan_defined(iv.skip(i as int), stored@.skip(i as int)),
            spec_scan(iv, stored@) == (
                spec_views(kept@) + spec_scan(iv.skip(i as int), stored@.skip(i as int)).0,
                spec_scan(iv.skip(i as int), stored@.skip(i as int)).1,
            ),
        decreases stored@.len() - i,
    {
        let issue = remaining.remove(0);
        let ghost rest_i = iv.skip(i as int);
        let ghost rest_s = stored@.skip(i as int);
        assert(rest_i[0] == issue@);
        assert(rest_s[0] == stored@[i as int]);
        assert(rest_i.drop_first() == iv.skip(i + 1));
        assert(rest_s.drop_first() == stored@.skip(i + 1));
        match check_issue(&stored[i], issue.last_updated.as_str()) {
            IssueCheck::UpToDate => {
                assert(spec_scan(rest_i, rest_s) == (Seq::<IssueDataView>::empty(), FoundIssueUpToDate::ONE_ISSUE_IS_UP_TO_DATE));
                assert(spec_views(kept@) + Seq::<IssueDataView>::empty() =~= spec_views(kept@));
                return (kept, FoundIssueUpToDate::ONE_ISSUE_IS_UP_TO_DATE);
            },
            IssueCheck::NeedsUpdate => {
                let ghost before = spec_views(kept@);
                kept.push(issue);
                assert(spec_views(kept@) =~= before.push(issue@));
                assert(before + (seq![issue@] + spec_scan(iv.skip(i + 1), stored@.skip(i + 1)).0) =~= spec_views(kept@)
                    + spec_scan(iv.skip(i + 1), stored@.skip(i + 1)).0);
            },
            IssueCheck::Skip => {},
        }
        assert(remaining@ =~= all.subrange(i + 1, all.len() as int));
        i = i + 1;
    }
    assert(spec_views(kept@) + Seq::<IssueDataView>::empty() == spec_views(kept@));
    (kept, FoundIssueUpToDate::NO_ISSUE_IS_UP_TO_DATE)
}

/// The page size announced by a search result (100 when it announces none)
/// and the number of issues it announces.
pub open spec fn spec_pagination(first: Json) -> (i64, Option<i64>) {
    if first.value is Object {
        (
            match spec_get(first, "maxResults"@) {
                Some(m) => match spec_as_i64(m) {
                    Some(v) => v,
                    None => 100,
                },
                None => 100,
            },
            match spec_get(first, "total"@) {
                Some(t) => spec_as_i64(t),
                None => None,
            },
        )
    } else {
        (100, None)
    }
}

/// The page size and the number of issues announced by a search result.
pub fn get_pagination(first: &Json) -> (res: (i64, Option<i64>))
    ensures
        res == spec_pagination(*first),
{
    if !first.is_object() {
        return (100, None);
    }
    let max_result = match first.get("maxResults") {
        Some(m) => match m.as_i64() {
            Some(v) => v,
            None => 100,
        },
        None => 100,
    };
    let total = match first.get("total") {
        Some(t) => t.as_i64(),
        None => None,
    };
    (max_result, total)
}

/// Where the further pages of a search start, after a first page of
/// `max_result` issues out of `total`: one page per whole `max_result` in
/// `total`, none when the first page held them all.
pub open spec fn spec_page_starts(total: i64, max_result: i64) -> Seq<i64> {
    if total <= max_result || max_result <= 0 {
        Seq::empty()
    } else {
        Seq::new((total / max_result) as nat, |i: int| (max_result * (i + 1)) as i64)
    }
}

/// Where the further pages of a search start.
pub fn get_page_starts(total: i64, max_result: i64) -> (res: Vec<i64>)
    requires
        !(total > max_result && max_result == 0),
    ensures
        res@ == spec_page_starts(total, max_result),
{
    let mut res: Vec<i64> = Vec::new();
    if total <= max_result || max_result <= 0 {
        return res;
    }
    let n = total / max_result;
    let mut i: i64 = 0;
    while i < n
        invariant
            0 <= i <= n,
            max_result > 0,
            total > max_result,
            n == total / max_result,
            res@.len() == i,
            forall|k: int| 0 <= k < i ==> #[trigger] res@[k] == (max_result * (k + 1)) as i64,
        decreases n - i,
    {
        assert(max_result * (i + 1) <= total) by (nonlinear_arith)
            requires
                max_result > 0,
                0 <= i < n,
                n == total / max_result,
                total > 0;
        assert(max_result * (i + 1) > 0) by (nonlinear_arith)
            requires
                max_result > 0,
                i >= 0;
        res.push(max_result * (i + 1));
        i = i + 1;
    }
    assert(res@ =~= spec_page_starts(total, max_result));
    res
}

/// Where the next page to fetch starts, once `k` further pages have been
/// fetched and the last page fetched reported `found`: none once a page has
/// held an issue that is up to date (the pages after it are older still) or
/// the pages have run out.
pub fn next_page_start(found: FoundIssueUpToDate, starts: &Vec<i64>, k: usize) -> (res: Option<i64>)
    ensures
        res == (if found == FoundIssueUpToDate::ONE_ISSUE_IS_UP_TO_DATE || k >= starts@.len() {
            None
        } else {
            Some(starts@[k as int])
        }),
{
    match found {
        FoundIssueUpToDate::ONE_ISSUE_IS_UP_TO_DATE => None,
        FoundIssueUpToDate::NO_ISSUE_IS_UP_TO_DATE => if k < starts.len() {
            Some(starts[k])
        } else {
            None
        },
    }
}

/// The issue row written for an issue of project `project_key` (its id
/// reduced to 32 bits).
pub open spec fn spec_issue_to_upsert(d: IssueDataView, project_key: Seq<char>) -> (u32, Seq<char>, Seq<char>) {
    (d.id as u32, d.jira_issue, project_key)
}

/// The issue rows written for the issues to fetch again.
pub fn issues_to_upsert(issues: &Vec<issue_data>, project_key: &str) -> (res: Vec<Issue>)
    ensures
        spec_views(res@) == spec_views(issues@).map_values(|d: IssueDataView| spec_issue_to_upsert(d, project_key@)),
{
    let mut res: Vec<Issue> = Vec::new();
    let mut i: usize = 0;
    while i < issues.len()
        invariant
            i <= issues.len(),
            res@.len() == i,
            forall|k: int| 0 <= k < i ==> (#[trigger] res@[k])@ == spec_issue_to_upsert(issues@[k]@, project_key@),
        decreases issues.len() - i,
    {
        let x = &issues[i];
        res.push(Issue { jira_id: x.id as u32, key: x.jira_issue.clone(), project_key: to_owned(project_key) });
        i = i + 1;
    }
    assert(spec_views(res@) =~= spec_views(issues@).map_values(|d: IssueDataView| spec_issue_to_upsert(d, project_key@)));
    res
}

/// All the fields of an issue (null ones too), as keys and JSON texts.
pub open spec fn spec_all_key_values(m: JsonMap) -> Seq<(Seq<char>, Seq<char>)> {
    m.entries@.map_values(|e: (String, Json)| (e.0@, e.1.text@))
}

/// The fields written for one issue to fetch again.
pub open spec fn spec_fields_to_upsert_of(d: IssueDataView) -> (u32, Seq<(Seq<char>, Seq<char>)>) {
    (d.id as u32, spec_all_key_values(d.fields))
}

/// `x` put into the list `s` ordered by issue id, after the entries with an
/// id not larger than its own.
pub open spec fn spec_insert_by_id(s: Seq<(u32, Seq<(Seq<char>, Seq<char>)>)>, x: (u32, Seq<(Seq<char>, Seq<char>)>)) -> Seq<(u32, Seq<(Seq<char>, Seq<char>)>)>
    decreases s.len(),
{
    if s.len() == 0 {
        seq![x]
    } else if s.last().0 <= x.0 {
        s.push(x)
    } else {
        spec_insert_by_id(s.drop_last(), x).push(s.last())
    }
}

/// The list ordered by issue id, entries with the same id kept in their
/// order (a stable sort).
pub open spec fn spec_sort_by_id(s: Seq<(u32, Seq<(Seq<char>, Seq<char>)>)>) -> Seq<(u32, Seq<(Seq<char>, Seq<char>)>)>
    decreases s.len(),
{
    if s.len() == 0 {
        Seq::empty()
    } else {
        spec_insert_by_id(spec_sort_by_id(s.drop_last()), s.last())
    }
}

/// The list is ordered by issue id.
pub open spec fn spec_sorted_by_id(s: Seq<(u32, Seq<(Seq<char>, Seq<char>)>)>) -> bool {
    forall|i: int, j: int| 0 <= i <= j < s.len() ==> s[i].0 <= s[j].0
}

/// Inserting into an ordered list keeps it ordered.
pub proof fn lemma_insert_by_id_sorted(s: Seq<(u32, Seq<(Seq<char>, Seq<char>)>)>, x: (u32, Seq<(Seq<char>, Seq<char>)>))
    requires
        spec_sorted_by_id(s),
    ensures
        spec_sorted_by_id(spec_insert_by_id(s, x)),
        spec_insert_by_id(s, x).len() == s.len() + 1,
        spec_insert_by_id(s, x).to_multiset() == s.to_multiset().insert(x),
        forall|i: int| 0 <= i < spec_insert_by_id(s, x).len() ==> #[trigger] spec_insert_by_id(s, x)[i].0 == x.0
            || exists|k: int| 0 <= k < s.len() && s[k].0 == spec_insert_by_id(s, x)[i].0,
    decreases s.len(),
{
    broadcast use vstd::seq_lib::group_to_multiset_ensures;
    if s.len() == 0 {
        assert(seq![x] == Seq::<(u32, Seq<(Seq<char>, Seq<char>)>)>::empty().push(x));
    } else if s.last().0 <= x.0 {
    } else {
        let p = s.drop_last();
        lemma_insert_by_id_sorted(p, x);
        let r = spec_insert_by_id(p, x);
        assert(s == p.push(s.last()));
        assert forall|i: int| 0 <= i < r.len() implies r[i].0 <= s.last().0 by {
            if r[i].0 != x.0 {
                let k = choose|k: int| 0 <= k < p.len() && p[k].0 == r[i].0;
                assert(p[k] == s[k]);
            }
        }
        assert forall|i: int| 0 <= i < r.push(s.last()).len() implies #[trigger] r.push(s.last())[i].0 == x.0
            || exists|k: int| 0 <= k < s.len() && s[k].0 == r.push(s.last())[i].0 by {
            if i < r.len() {
                if r[i].0 != x.0 {
                    let k = choose|k: int| 0 <= k < p.len() && p[k].0 == r[i].0;
                    assert(s[k] == p[k]);
                }
            } else {
                assert(s[s.len() - 1].0 == r.push(s.last())[i].0);
            }
        }
    }
}

/// The fields written for the issues to fetch again, ordered by issue id.
pub fn fields_to_upsert(issues: &Vec<issue_data>) -> (res: Vec<IssueProperties>)
    ensures
        spec_views(res@) == spec_sort_by_id(spec_views(issues@).map_values(|d: IssueDataView| spec_fields_to_upsert_of(d))),
        spec_sorted_by_id(spec_views(res@)),
{
    let ghost src = spec_views(issues@).map_values(|d: IssueDataView| spec_fields_to_upsert_of(d));
    let mut res: Vec<IssueProperties> = Vec::new();
    let mut i: usize = 0;
    while i < issues.len()
        invariant
            i <= issues.len(),
            src == spec_views(issues@).map_values(|d: IssueDataView| spec_fields_to_upsert_of(d)),
            spec_views(res@) == spec_sort_by_id(src.take(i as int)),
            spec_sorted_by_id(spec_views(res@)),
        decreases issues.len() - i,
    {
        let x = &issues[i];
        let mut properties: Vec<KeyValueProperty> = Vec::new();
        let mut j: usize = 0;
        while j < x.fields.entries.len()
            invariant
                j <= x.fields.entries.len(),
                properties@.len() == j,
                forall|k: int| 0 <= k < j ==> (#[trigger] properties@[k])@ == (x.fields.entries@[k].0@, x.fields.entries@[k].1.text@),
            decreases x.fields.entries.len() - j,
        {
            properties.push(KeyValueProperty { key: x.fields.entries[j].0.clone(), value: x.fields.entries[j].1.text.clone() });
            j = j + 1;
        }
        let item = IssueProperties { issue_id: x.id as u32, properties };
        assert(item@ == src[i as int]);
        assert(src.take(i + 1).drop_last() == src.take(i as int));
        assert(src.take(i + 1).last() == src[i as int]);
        proof { lemma_insert_by_id_sorted(spec_views(res@), item@); }
        insert_by_id(&mut res, item);
        i = i + 1;
    }
    assert(src.take(issues.len() as int) == src);
    res
}

/// Puts `x` into the list ordered by issue id, after the entries with an id
/// not larger than its own.
fn insert_by_id(v: &mut Vec<IssueProperties>, x: IssueProperties)
    ensures
        spec_views(final(v)@) == spec_insert_by_id(spec_views(old(v)@), x@),
{
    let ghost s = spec_views(v@);
    let mut pos: usize = v.len();
    assert(s.take(pos as int) == s);
    assert(s.skip(pos as int) =~= Seq::<(u32, Seq<(Seq<char>, Seq<char>)>)>::empty());
    assert(spec_insert_by_id(s, x@) + Seq::<(u32, Seq<(Seq<char>, Seq<char>)>)>::empty() =~= spec_insert_by_id(s, x@));
    while pos > 0 && v[pos - 1].issue_id > x.issue_id
        invariant
            pos <= v.len(),
            s == spec_views(v@),
            spec_insert_by_id(s, x@) == spec_insert_by_id(s.take(pos as int), x@) + s.skip(pos as int),
        decreases pos,
    {
        let ghost t = s.take(pos as int);
        assert(t.drop_last() == s.take(pos - 1));
        assert(t.last() == s[pos - 1]);
        assert(s.skip(pos - 1) == seq![s[pos - 1]] + s.skip(pos as int));
        assert(spec_insert_by_id(t, x@) == spec_insert_by_id(s.take(pos - 1), x@).push(s[pos - 1]));
        assert(spec_insert_by_id(s.take(pos - 1), x@).push(s[pos - 1]) + s.skip(pos as int) =~= spec_insert_by_id(
            s.take(pos - 1),
            x@,
        ) + s.skip(pos - 1));
        pos = pos - 1;
    }
    let ghost t = s.take(pos as int);
    assert(spec_insert_by_id(t, x@) == t.push(x@)) by {
        if t.len() > 0 {
            assert(t.last() == s[pos - 1]);
        }
    }
    let ghost xv = x@;
    v.insert(pos, x);
    assert(spec_views(v@) =~= t.push(xv) + s.skip(pos as int));
}


/// The further pages, with the first one, reach the announced total: each
/// starts after the previous one by a page, none starts past the total, and
/// one more page would.
pub proof fn lemma_pages_cover_total(total: i64, max_result: i64)
    requires
        total > max_result > 0,
    ensures
        spec_page_starts(total, max_result).len() > 0,
        forall|i: int| 0 <= i < spec_page_starts(total, max_result).len() ==> #[trigger] spec_page_starts(total, max_result)[i]
            == max_result * (i + 1) && spec_page_starts(total, max_result)[i] <= total,
        (spec_page_starts(total, max_result).len() + 1) * max_result > total,
{
    let n = total / max_result;
    assert(n >= 1) by (nonlinear_arith)
        requires
            total > max_result > 0,
            n == total / max_result;
    assert((n + 1) * max_result > total) by (nonlinear_arith)
        requires
            max_result > 0,
            n == total / max_result;
    let ps = spec_page_starts(total, max_result);
    assert forall|i: int| 0 <= i < ps.len() implies #[trigger] ps[i] == max_result * (i + 1) && ps[i] <= total by {
        assert(0 < max_result * (i + 1) <= total) by (nonlinear_arith)
            requires
                max_result > 0,
                0 <= i < n,
                n == total / max_result,
                total > 0;
    }
}

/// The scan stops at an issue up to date exactly when one of the issues is
/// up to date, and every issue it keeps needs to be fetched again.
pub proof fn lemma_scan_stops_at_first_up_to_date(issues: Seq<IssueDataView>, stored: Seq<StoredTimestamp>)
    requires
        issues.len() == stored.len(),
    ensures
        (spec_scan(issues, stored).1 == FoundIssueUpToDate::ONE_ISSUE_IS_UP_TO_DATE) <==> exists|i: int|
            0 <= i < issues.len() && spec_check_issue(#[trigger] stored[i], issues[i].last_updated) == IssueCheck::UpToDate,
        forall|k: int| 0 <= k < spec_scan(issues, stored).0.len() ==> exists|i: int|
            0 <= i < issues.len() && issues[i] == #[trigger] spec_scan(issues, stored).0[k] && spec_check_issue(
                stored[i],
                issues[i].last_updated,
            ) == IssueCheck::NeedsUpdate,
    decreases issues.len(),
{
    if issues.len() > 0 {
        let rest_i = issues.drop_first();
        let rest_s = stored.drop_first();
        lemma_scan_stops_at_first_up_to_date(rest_i, rest_s);
        let (rest, found) = spec_scan(rest_i, rest_s);
        match spec_check_issue(stored[0], issues[0].last_updated) {
            IssueCheck::UpToDate => {},
            IssueCheck::NeedsUpdate => {
                assert forall|k: int| 0 <= k < spec_scan(issues, stored).0.len() implies exists|i: int|
                    0 <= i < issues.len() && issues[i] == #[trigger] spec_scan(issues, stored).0[k] && spec_check_issue(
                        stored[i],
                        issues[i].last_updated,
                    ) == IssueCheck::NeedsUpdate by {
                    if k == 0 {
                        assert(issues[0] == spec_scan(issues, stored).0[0]);
                    } else {
                        assert(spec_scan(issues, stored).0[k] == rest[k - 1]);
                        let i = choose|i: int| 0 <= i < rest_i.len() && rest_i[i] == rest[k - 1] && spec_check_issue(
                            rest_s[i],
                            rest_i[i].last_updated,
                        ) == IssueCheck::NeedsUpdate;
                        assert(issues[i + 1] == rest_i[i] && stored[i + 1] == rest_s[i]);
                    }
                }
                if found == FoundIssueUpToDate::ONE_ISSUE_IS_UP_TO_DATE {
                    let i = choose|i: int| 0 <= i < rest_i.len() && spec_check_issue(#[trigger] rest_s[i], rest_i[i].last_updated)
                        == IssueCheck::UpToDate;
                    assert(stored[i + 1] == rest_s[i] && issues[i + 1] == rest_i[i]);
                }
                assert forall|i: int| 0 < i < issues.len() && spec_check_issue(#[trigger] stored[i], issues[i].last_updated)
                    == IssueCheck::UpToDate implies found == FoundIssueUpToDate::ONE_ISSUE_IS_UP_TO_DATE by {
                    assert(rest_s[i - 1] == stored[i] && rest_i[i - 1] == issues[i]);
                }
            },
            IssueCheck::Skip => {
                assert forall|k: int| 0 <= k < spec_scan(issues, stored).0.len() implies exists|i: int|
                    0 <= i < issues.len() && issues[i] == #[trigger] spec_scan(issues, stored).0[k] && spec_check_issue(
                        stored[i],
                        issues[i].last_updated,
                    ) == IssueCheck::NeedsUpdate by {
                    let i = choose|i: int| 0 <= i < rest_i.len() && rest_i[i] == rest[k] && spec_check_issue(
                        rest_s[i],
                        rest_i[i].last_updated,
                    ) == IssueCheck::NeedsUpdate;
                    assert(issues[i + 1] == rest_i[i] && stored[i + 1] == rest_s[i]);
                }
                if found == FoundIssueUpToDate::ONE_ISSUE_IS_UP_TO_DATE {
                    let i = choose|i: int| 0 <= i < rest_i.len() && spec_check_issue(#[trigger] rest_s[i], rest_i[i].last_updated)
                        == IssueCheck::UpToDate;
                    assert(stored[i + 1] == rest_s[i] && issues[i + 1] == rest_i[i]);
                }
                assert forall|i: int| 0 < i < issues.len() && spec_check_issue(#[trigger] stored[i], issues[i].last_updated)
                    == IssueCheck::UpToDate implies found == FoundIssueUpToDate::ONE_ISSUE_IS_UP_TO_DATE by {
                    assert(rest_s[i - 1] == stored[i] && rest_i[i - 1] == issues[i]);
                }
            },
        }
    }
}

/// Sorting by issue id gives a list ordered by id holding the same entries.
pub proof fn lemma_sort_by_id(s: Seq<(u32, Seq<(Seq<char>, Seq<char>)>)>)
    ensures
        spec_sorted_by_id(spec_sort_by_id(s)),
        spec_sort_by_id(s).to_multiset() == s.to_multiset(),
    decreases s.len(),
{
    broadcast use vstd::seq_lib::group_to_multiset_ensures;
    if s.len() > 0 {
        lemma_sort_by_id(s.drop_last());
        lemma_insert_by_id_sorted(spec_sort_by_id(s.drop_last()), s.last());
        assert(s == s.drop_last().push(s.last()));
    }
}

} // verus!
