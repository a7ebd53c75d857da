use vstd::prelude::*;

use crate::json::{get_str_for_key, spec_as_bool, spec_get, spec_opt_array, spec_opt_str, Json, JsonValue};
use crate::manage_field_table::{spec_unexpected, unexpected};
use crate::text::{parse_u32, spec_parse_u32, str_eq};
use crate::utils::{
    get_inputs_in_remote_not_in_db, lemma_filter_map_step, lemma_flat_map_step, lemma_take_all,
    spec_difference, spec_filter_map, spec_flat_map, spec_ref_views, spec_views, ViewEq,
};

verus! {

/// A Jira project.
pub struct Project {
    pub jira_id: u32,
    pub key: String,
    pub name: String,
    pub description: String,
    pub is_archived: bool,
}

impl View for Project {
    type V = (u32, Seq<char>, Seq<char>, Seq<char>, bool);

    open spec fn view(&self) -> (u32, Seq<char>, Seq<char>, Seq<char>, bool) {
        (self.jira_id, self.key@, self.name@, self.description@, self.is_archived)
    }
}

impl ViewEq for Project {
    fn view_eq(&self, other: &Self) -> (res: bool) {
        self.jira_id == other.jira_id && str_eq(self.key.as_str(), other.key.as_str()) && str_eq(
            self.name.as_str(),
            other.name.as_str(),
        ) && str_eq(self.description.as_str(), other.description.as_str()) && self.is_archived
            == other.is_archived
    }
}

/// A project described by one element of the server's list: archived only
/// when `archived` is `true`.
pub open spec fn spec_project_from_json(x: Json) -> Option<(u32, Seq<char>, Seq<char>, Seq<char>, bool)> {
    if !(x.value is Object) {
        None
    } else {
        match (
            spec_opt_str(spec_get(x, "id"@)),
            spec_opt_str(spec_get(x, "key"@)),
            spec_opt_str(spec_get(x, "name"@)),
            spec_opt_str(spec_get(x, "description"@)),
        ) {
            (Some(id), Some(key), Some(name), Some(description)) => match spec_parse_u32(id) {
                Some(jira_id) => Some(
                    (
                        jira_id,
                        key,
                        name,
                        description,
                        match spec_get(x, "archived"@) {
                            None => false,
                            Some(a) => spec_as_bool(a) == Some(true),
                        },
                    ),
                ),
                None => None,
            },
            _ => None,
        }
    }
}

/// The projects of the server's list (an array).
pub open spec fn spec_projects_from_json(j: Json) -> Result<Seq<(u32, Seq<char>, Seq<char>, Seq<char>, bool)>, Seq<char>> {
    match j.value {
        JsonValue::Array(a) => Ok(spec_filter_map(a@, |x: Json| spec_project_from_json(x))),
        _ => Err(spec_unexpected("a json object"@, j)),
    }
}

/// The well-formed projects of the server's list.
pub fn get_projects_from_json(json_data: &Json) -> (res: Result<Vec<Project>, String>)
    ensures
        match res {
            Ok(v) => spec_projects_from_json(*json_data) == Ok::<_, Seq<char>>(spec_views(v@)),
            Err(e) => spec_projects_from_json(*json_data) == Err::<Seq<(u32, Seq<char>, Seq<char>, Seq<char>, bool)>, _>(e@),
        },
{
    let a = match json_data.as_array() {
        None => return Err(unexpected("a json object", json_data)),
        Some(a) => a,
    };
    let ghost f = |x: Json| spec_project_from_json(x);
    let mut res: Vec<Project> = Vec::new();
    let mut i: usize = 0;
    while i < a.len()
        invariant
            i <= a.len(),
            f == (|x: Json| spec_project_from_json(x)),
            spec_views(res@) == spec_filter_map(a@.take(i as int), f),
        decreases a.len() - i,
    {
        proof { lemma_filter_map_step(a@, f, i as int); }
        let x = &a[i];
        if x.is_object() {
            let id = get_str_for_key(x, "id");
            let key = get_str_for_key(x, "key");
            let name = get_str_for_key(x, "name");
            let description = get_str_for_key(x, "description");
            if id.is_some() && key.is_some() && name.is_some() && description.is_some() {
                if let Some(jira_id) = parse_u32(id.unwrap().as_str()) {
                    let is_archived = match x.get("archived") {
                        None => false,
                        Some(v) => match v.as_bool() {
                            Some(b) => b,
                            None => false,
                        },
                    };
                    let ghost before = res@;
                    res.push(
                        Project {
                            jira_id,
                            key: key.unwrap().clone(),
                            name: name.unwrap().clone(),
                            description: description.unwrap().clone(),
                            is_archived,
                        },
                    );
                    assert(spec_views(res@) =~= spec_views(before).push(res@.last()@));
                }
            }
        }
        i = i + 1;
    }
    proof { lemma_take_all(a@); }
    Ok(res)
}

/// The projects the server has and the database lacks, each once.
pub fn get_projects_not_in_db<'a>(projects: &'a Vec<Project>, projects_in_db: &'a Vec<Project>) -> (res: Vec<&'a Project>)
    ensures
        spec_ref_views(res@) == spec_difference(spec_views(projects@), spec_views(projects_in_db@)),
{
    get_inputs_in_remote_not_in_db(projects.as_slice(), projects_in_db.as_slice())
}

/// That a project uses an issue type.
#[derive(Copy, Clone, Debug, PartialEq, Eq, Structural)]
pub struct IssueTypePerProject {
    pub project_id: u32,
    pub issue_type_id: u32,
}

impl View for IssueTypePerProject {
    type V = IssueTypePerProject;

    open spec fn view(&self) -> IssueTypePerProject {
        *self
    }
}

impl ViewEq for IssueTypePerProject {
    fn view_eq(&self, other: &Self) -> (res: bool) {
        *self == *other
    }
}

/// The numeric id of an object of the server's answer.
pub open spec fn spec_object_id(x: Json) -> Option<u32> {
    if !(x.value is Object) {
        None
    } else {
        match spec_opt_str(spec_get(x, "id"@)) {
            Some(s) => spec_parse_u32(s),
            None => None,
        }
    }
}

/// The issue types one project of the server's list uses.
pub open spec fn spec_issue_types_of_project(x: Json) -> Seq<IssueTypePerProject> {
    match spec_object_id(x) {
        None => Seq::empty(),
        Some(project_id) => match spec_opt_array(spec_get(x, "issueTypes"@)) {
            None => Seq::empty(),
            Some(types) => spec_filter_map(types, |t: Json| match spec_object_id(t) {
                Some(issue_type_id) => Some(IssueTypePerProject { project_id, issue_type_id }),
                None => None,
            }),
        },
    }
}

/// The issue types each project of the server's list uses; nothing when the
/// list is not an array.
pub open spec fn spec_issue_types_per_project(j: Json) -> Seq<IssueTypePerProject> {
    match j.value {
        JsonValue::Array(a) => spec_flat_map(a@, |x: Json| spec_issue_types_of_project(x)),
        _ => Seq::empty(),
    }
}

/// The numeric id of an object, if it has one.
fn object_id(x: &Json) -> (res: Option<u32>)
    ensures
        res == spec_object_id(*x),
{
    if !x.is_object() {
        return None;
    }
    match get_str_for_key(x, "id") {
        Some(s) => parse_u32(s.as_str()),
        None => None,
    }
}

/// The issue types one project uses.
fn issue_types_of_project(x: &Json) -> (res: Vec<IssueTypePerProject>)
    ensures
        res@ == spec_issue_types_of_project(*x),
{
    let project_id = match object_id(x) {
        None => return Vec::new(),
        Some(v) => v,
    };
    let types = match crate::json::get_array(x, "issueTypes") {
        None => return Vec::new(),
        Some(t) => t,
    };
    let ghost f = |t: Json| match spec_object_id(t) {
        Some(issue_type_id) => Some(IssueTypePerProject { project_id, issue_type_id }),
        None => None,
    };
    let mut res: Vec<IssueTypePerProject> = Vec::new();
    let mut i: usize = 0;
    while i < types.len()
        invariant
            i <= types.len(),
            f == (|t: Json| match spec_object_id(t) {
                Some(issue_type_id) => Some(IssueTypePerProject { project_id, issue_type_id }),
                None => None,
            }),
            res@ == spec_filter_map(types@.take(i as int), f),
        decreases types.len() - i,
    {
        proof { lemma_filter_map_step(types@, f, i as int); }
        if let Some(issue_type_id) = object_id(&types[i]) {
            res.push(IssueTypePerProject { project_id, issue_type_id });
        }
        i = i + 1;
    }
    proof { lemma_take_all(types@); }
    res
}

/// The issue types each project of the server's list uses.
pub fn get_issue_types_per_project(json_data: &Json) -> (res: Vec<IssueTypePerProject>)
    ensures
        res@ == spec_issue_types_per_project(*json_data),
{
    let a = match json_data.as_array() {
        None => return Vec::new(),
        Some(a) => a,
    };
    let ghost f = |x: Json| spec_issue_types_of_project(x);
    let mut res: Vec<IssueTypePerProject> = Vec::new();
    let mut i: usize = 0;
    while i < a.len()
        invariant
            i <= a.len(),
            f == (|x: Json| spec_issue_types_of_project(x)),
            res@ == spec_flat_map(a@.take(i as int), f),
        decreases a.len() - i,
    {
        proof { lemma_flat_map_step(a@, f, i as int); }
        let mut more = issue_types_of_project(&a[i]);
        res.append(&mut more);
        i = i + 1;
    }
    proof { lemma_take_all(a@); }
    res
}

/// The project/issue type pairs the server has and the database lacks, each once.
pub fn get_issue_types_per_project_not_in_db<'a>(
    issue_types_per_project: &'a Vec<IssueTypePerProject>,
    issue_types_per_project_in_db: &'a Vec<IssueTypePerProject>,
) -> (res: Vec<&'a IssueTypePerProject>)
    ensures
        spec_ref_views(res@) == spec_difference(
            spec_views(issue_types_per_project@),
            spec_views(issue_types_per_project_in_db@),
        ),
{
    get_inputs_in_remote_not_in_db(issue_types_per_project.as_slice(), issue_types_per_project_in_db.as_slice())
}

} // verus!
