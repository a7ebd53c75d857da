use vstd::prelude::*;

use crate::json::{get_str_for_key, spec_get, spec_opt_array, spec_opt_object, spec_opt_str, Json};
use crate::text::{parse_u32, spec_parse_u32};
use crate::utils::{
    lemma_filter_map_step, lemma_flat_map_step, lemma_take_all, spec_filter_map, spec_flat_map,
    spec_views, ViewEq,
};

verus! {

/// A Jira issue of a project.
pub struct Issue {
    pub jira_id: u32,
    pub key: String,
    pub project_key: String,
}

impl View for Issue {
    type V = (u32, Seq<char>, Seq<char>);

    open spec fn view(&self) -> (u32, Seq<char>, Seq<char>) {
        (self.jira_id, self.key@, self.project_key@)
    }
}

impl ViewEq for Issue {
    fn view_eq(&self, other: &Self) -> (res: bool) {
        self.jira_id == other.jira_id && crate::text::str_eq(self.key.as_str(), other.key.as_str())
            && crate::text::str_eq(self.project_key.as_str(), other.project_key.as_str())
    }
}

/// A link between two issues, stored once: from the issue with the larger
/// identifier (inward) to the one with the smaller (outward).
#[derive(Copy, Clone, Debug, PartialEq, Eq, Structural)]
pub struct IssueLink {
    pub jira_id: u32,
    pub link_type_id: u32,
    pub outward_issue_id: u32,
    pub inward_issue_id: u32,
}

impl View for IssueLink {
    type V = IssueLink;

    open spec fn view(&self) -> IssueLink {
        *self
    }
}

impl ViewEq for IssueLink {
    fn view_eq(&self, other: &Self) -> (res: bool) {
        *self == *other
    }
}

/// The numeric identifier of a JSON object: its `id`, a string of digits.
pub open spec fn spec_get_id(j: Json) -> Option<u32> {
    if !(j.value is Object) {
        None
    } else {
        match spec_opt_str(spec_get(j, "id"@)) {
            Some(s) => spec_parse_u32(s),
            None => None,
        }
    }
}

/// The issue described by one element of a search result.
pub open spec fn spec_issue_from_json(x: Json, project_key: Seq<char>) -> Option<(u32, Seq<char>, Seq<char>)> {
    if !(x.value is Object) {
        None
    } else {
        match (spec_opt_str(spec_get(x, "key"@)), spec_opt_str(spec_get(x, "id"@))) {
            (Some(key), Some(id)) => match spec_parse_u32(id) {
                Some(jira_id) => Some((jira_id, key, project_key)),
                None => None,
            },
            _ => None,
        }
    }
}

/// The issues of a search result (`{"issues": [...]}`) that have a key and
/// a numeric id; the error when there is no such array.
pub open spec fn spec_issues_from_json(j: Json, project_key: Seq<char>) -> Result<Seq<(u32, Seq<char>, Seq<char>)>, Seq<char>> {
    match spec_get(j, "issues"@) {
        None => Err("No field named 'issues' in the json"@),
        Some(v) => match spec_opt_array(Some(v)) {
            None => Err("Error: the fields named 'issues' isn't a json array"@),
            Some(a) => Ok(spec_filter_map(a, |x: Json| spec_issue_from_json(x, project_key))),
        },
    }
}

/// The numeric identifier of a JSON object, if it has one.
pub fn get_id(json_data: &Json) -> (res: Option<u32>)
    ensures
        res == spec_get_id(*json_data),
{
    if !json_data.is_object() {
        return None;
    }
    match get_str_for_key(json_data, "id") {
        Some(s) => parse_u32(s.as_str()),
        None => None,
    }
}

/// The issues listed in a search result, all of project `project_key`.
pub fn get_issues_from_json(json_data: &Json, project_key: &str) -> (res: Result<Vec<Issue>, String>)
    ensures
        match res {
            Ok(v) => spec_issues_from_json(*json_data, project_key@) == Ok::<_, Seq<char>>(spec_views(v@)),
            Err(e) => spec_issues_from_json(*json_data, project_key@) == Err::<Seq<(u32, Seq<char>, Seq<char>)>, _>(e@),
        },
{
    let v = match json_data.get("issues") {
        None => return Err(crate::text::to_owned("No field named 'issues' in the json")),
        Some(v) => v,
    };
    let a = match v.as_array() {
        None => return Err(crate::text::to_owned("Error: the fields named 'issues' isn't a json array")),
        Some(a) => a,
    };
    let ghost f = |x: Json| spec_issue_from_json(x, project_key@);
    let mut res: Vec<Issue> = Vec::new();
    let mut i: usize = 0;
    while i < a.len()
        invariant
            i <= a.len(),
            f == (|x: Json| spec_issue_from_json(x, project_key@)),
            spec_views(res@) == spec_filter_map(a@.take(i as int), f),
        decreases a.len() - i,
    {
        proof { lemma_filter_map_step(a@, f, i as int); }
        let x = &a[i];
        if x.is_object() {
            if let Some(key) = get_str_for_key(x, "key") {
                if let Some(id) = get_str_for_key(x, "id") {
                    if let Some(jira_id) = parse_u32(id.as_str()) {
                        let ghost before = res@;
                        res.push(Issue { jira_id, key: key.clone(), project_key: crate::text::to_owned(project_key) });
                        assert(spec_views(res@) =~= spec_views(before).push(res@.last()@));
                    }
                }
            }
        }
        i = i + 1;
    }
    proof { lemma_take_all(a@); }
    Ok(res)
}

/// One link of an issue: its id, whether it points outward, the other
/// issue's id and the link type's id.
pub open spec fn spec_link_type(j: Json) -> Option<(u32, bool, u32, u32)> {
    match spec_get_id(j) {
        None => None,
        Some(link_id) => match spec_get(j, "type"@) {
            None => None,
            Some(t) => match spec_get_id(t) {
                None => None,
                Some(link_type_id) => match (spec_get(j, "outwardIssue"@), spec_get(j, "inwardIssue"@)) {
                    (Some(outward), None) => match spec_get_id(outward) {
                        Some(other) => Some((link_id, true, other, link_type_id)),
                        None => None,
                    },
                    (None, Some(inward)) => match spec_get_id(inward) {
                        Some(other) => Some((link_id, false, other, link_type_id)),
                        None => None,
                    },
                    _ => None,
                },
            },
        },
    }
}

/// A link of an issue, if it is well formed: its id, whether it points
/// outward, the other issue's id and the link type's id.
pub fn get_link_type(json_data: &Json) -> (res: Option<(u32, bool, u32, u32)>)
    ensures
        res == spec_link_type(*json_data),
{
    let link_id = match get_id(json_data) {
        None => return None,
        Some(v) => v,
    };
    let link_type = match json_data.get("type") {
        None => return None,
        Some(t) => t,
    };
    let link_type_id = match get_id(link_type) {
        None => return None,
        Some(v) => v,
    };
    let inward = json_data.get("inwardIssue");
    let outward = json_data.get("outwardIssue");
    let (is_outward, other_issue) = match (outward, inward) {
        (Some(outward), None) => (true, outward),
        (None, Some(inward)) => (false, inward),
        _ => return None,
    };
    match get_id(other_issue) {
        None => None,
        Some(other_issue_id) => Some((link_id, is_outward, other_issue_id, link_type_id)),
    }
}

/// The link kept for an issue's link: stored only from the side where the
/// inward issue has the larger id, so that a link seen from both ends is
/// kept once.
pub open spec fn spec_kept_link(issue_id: u32, l: Json) -> Option<IssueLink> {
    match spec_link_type(l) {
        None => None,
        Some((link_id, is_outward, other, link_type_id)) => {
            let (inward, outward) = if is_outward { (issue_id, other) } else { (other, issue_id) };
            if inward > outward {
                Some(IssueLink { jira_id: link_id, link_type_id, outward_issue_id: outward, inward_issue_id: inward })
            } else {
                None
            }
        },
    }
}

/// The links kept from one issue of a search result.
pub open spec fn spec_links_of_issue(x: Json) -> Seq<IssueLink> {
    match spec_get_id(x) {
        None => Seq::empty(),
        Some(issue_id) => match spec_opt_object(spec_get(x, "fields"@)) {
            None => Seq::empty(),
            Some(fields) => match spec_opt_array(spec_get(fields, "issuelinks"@)) {
                Some(links) => spec_filter_map(links, |l: Json| spec_kept_link(issue_id, l)),
                None => Seq::empty(),
            },
        },
    }
}

/// The links between the issues of a search result.
pub open spec fn spec_issue_links_from_json(j: Json) -> Result<Seq<IssueLink>, Seq<char>> {
    match spec_get(j, "issues"@) {
        None => Err("No field named 'issues' in the json"@),
        Some(v) => match spec_opt_array(Some(v)) {
            None => Err("Error: the fields named 'issues' isn't a json array"@),
            Some(a) => Ok(spec_flat_map(a, |x: Json| spec_links_of_issue(x))),
        },
    }
}

/// The links kept from one issue.
fn links_of_issue(x: &Json) -> (res: Vec<IssueLink>)
    ensures
        res@ == spec_links_of_issue(*x),
{
    let issue_id = match get_id(x) {
        None => return Vec::new(),
        Some(v) => v,
    };
    let fields = match crate::json::get_object(x, "fields") {
        None => return Vec::new(),
        Some(f) => f,
    };
    let links = match crate::json::get_array(fields, "issuelinks") {
        None => return Vec::new(),
        Some(l) => l,
    };
    let ghost f = |l: Json| spec_kept_link(issue_id, l);
    let mut res: Vec<IssueLink> = Vec::new();
    let mut i: usize = 0;
    while i < links.len()
        invariant
            i <= links.len(),
            f == (|l: Json| spec_kept_link(issue_id, l)),
            res@ == spec_filter_map(links@.take(i as int), f),
        decreases links.len() - i,
    {
        proof { lemma_filter_map_step(links@, f, i as int); }
        if let Some((link_id, is_outward, other_issue_id, link_type_id)) = get_link_type(&links[i]) {
            let (inward_issue_id, outward_issue_id) = if is_outward {
                (issue_id, other_issue_id)
            } else {
                (other_issue_id, issue_id)
            };
            if inward_issue_id > outward_issue_id {
                res.push(IssueLink { jira_id: link_id, link_type_id, outward_issue_id, inward_issue_id });
            }
        }
        i = i + 1;
    }
    proof { lemma_take_all(links@); }
    res
}

/// The links between the issues of a search result, each stored from one side.
pub fn get_issue_links_from_json(json_data: &Json) -> (res: Result<Vec<IssueLink>, String>)
    ensures
        match res {
            Ok(v) => spec_issue_links_from_json(*json_data) == Ok::<_, Seq<char>>(v@),
            Err(e) => spec_issue_links_from_json(*json_data) == Err::<Seq<IssueLink>, _>(e@),
        },
{
    let v = match json_data.get("issues") {
        None => return Err(crate::text::to_owned("No field named 'issues' in the json")),
        Some(v) => v,
    };
    let a = match v.as_array() {
        None => return Err(crate::text::to_owned("Error: the fields named 'issues' isn't a json array")),
        Some(a) => a,
    };
    let ghost f = |x: Json| spec_links_of_issue(x);
    let mut res: Vec<IssueLink> = Vec::new();
    let mut i: usize = 0;
    while i < a.len()
        invariant
            i <= a.len(),
            f == (|x: Json| spec_links_of_issue(x)),
            res@ == spec_flat_map(a@.take(i as int), f),
        decreases a.len() - i,
    {
        proof { lemma_flat_map_step(a@, f, i as int); }
        let mut more = links_of_issue(&a[i]);
        res.append(&mut more);
        i = i + 1;
    }
    proof { lemma_take_all(a@); }
    Ok(res)
}

/// The issues to write: those whose exact record the database lacks, in
/// their order, repeats kept.
pub open spec fn spec_issues_to_insert(issues: Seq<(u32, Seq<char>, Seq<char>)>, in_db: Seq<(u32, Seq<char>, Seq<char>)>) -> Seq<(u32, Seq<char>, Seq<char>)> {
    issues.filter(|x: (u32, Seq<char>, Seq<char>)| !in_db.contains(x))
}

/// The issues whose exact record the database lacks.
pub fn issues_not_in_db<'a>(issues_to_insert: &'a Vec<Issue>, issues_in_db: &Vec<Issue>) -> (res: Vec<&'a Issue>)
    ensures
        crate::utils::spec_ref_views(res@) == spec_issues_to_insert(spec_views(issues_to_insert@), spec_views(issues_in_db@)),
{
    let ghost iv = spec_views(issues_to_insert@);
    let ghost dv = spec_views(issues_in_db@);
    let ghost pred = |x: (u32, Seq<char>, Seq<char>)| !dv.contains(x);
    let mut res: Vec<&'a Issue> = Vec::new();
    let mut i: usize = 0;
    while i < issues_to_insert.len()
        invariant
            i <= issues_to_insert.len(),
            iv == spec_views(issues_to_insert@),
            dv == spec_views(issues_in_db@),
            pred == (|x: (u32, Seq<char>, Seq<char>)| !dv.contains(x)),
            crate::utils::spec_ref_views(res@) == iv.take(i as int).filter(pred),
        decreases issues_to_insert.len() - i,
    {
        assert(iv.take(i + 1).drop_last() == iv.take(i as int));
        assert(iv.take(i + 1).last() == issues_to_insert@[i as int]@);
        reveal(Seq::filter);
        let x = &issues_to_insert[i];
        if !crate::utils::contains_view(issues_in_db.as_slice(), x) {
            let ghost before = res@;
            res.push(x);
            assert(crate::utils::spec_ref_views(res@) =~= crate::utils::spec_ref_views(before).push(x@));
        }
        i = i + 1;
    }
    assert(iv.take(issues_to_insert.len() as int) == iv);
    res
}

/// The changes that bring the stored links of some issues in line with the
/// links the server lists for them.
pub struct LinkUpdates<'a> {
    pub links_to_remove: Vec<&'a IssueLink>,
    pub links_to_insert: Vec<&'a IssueLink>,
}

/// What synchronising the links of some issues writes: the stored links the
/// server no longer lists go, the listed ones not stored yet come in. An empty
/// list from the server changes nothing.
pub fn plan_link_updates<'a>(issue_links: &'a [IssueLink], links_in_db: &'a [IssueLink]) -> (res: LinkUpdates<'a>)
    ensures
        issue_links@.len() == 0 ==> res.links_to_remove@.len() == 0 && res.links_to_insert@.len() == 0,
        issue_links@.len() > 0 ==> crate::utils::spec_ref_views(res.links_to_remove@)
            == crate::utils::spec_difference(spec_views(links_in_db@), spec_views(issue_links@)),
        issue_links@.len() > 0 ==> crate::utils::spec_ref_views(res.links_to_insert@)
            == crate::utils::spec_difference(spec_views(issue_links@), spec_views(links_in_db@)),
{
    if issue_links.len() == 0 {
        return LinkUpdates { links_to_remove: Vec::new(), links_to_insert: Vec::new() };
    }
    let links_to_remove = crate::utils::get_inputs_in_db_not_in_remote(issue_links, links_in_db);
    let links_to_insert = crate::utils::get_inputs_in_remote_not_in_db(issue_links, links_in_db);
    LinkUpdates { links_to_remove, links_to_insert }
}

} // verus!
