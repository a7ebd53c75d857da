use vstd::prelude::*;

use crate::json::{get_str_for_key, spec_get, spec_opt_str, Json, JsonValue};
use crate::manage_field_table::{spec_unexpected, unexpected};
use crate::text::{parse_u32, spec_parse_u32, str_eq};
use crate::utils::{
    get_inputs_in_remote_not_in_db, lemma_filter_map_step, lemma_take_all, spec_difference,
    spec_filter_map, spec_ref_views, spec_views, ViewEq,
};

verus! {

/// A type of issue (bug, task, ...).
pub struct IssueType {
    pub jira_id: u32,
    pub name: String,
    pub description: String,
}

impl View for IssueType {
    type V = (u32, Seq<char>, Seq<char>);

    open spec fn view(&self) -> (u32, Seq<char>, Seq<char>) {
        (self.jira_id, self.name@, self.description@)
    }
}

impl ViewEq for IssueType {
    fn view_eq(&self, other: &Self) -> (res: bool) {
        self.jira_id == other.jira_id && str_eq(self.name.as_str(), other.name.as_str()) && str_eq(
            self.description.as_str(),
            other.description.as_str(),
        )
    }
}

/// An issue type described by one element of the server's list.
pub open spec fn spec_issue_type_from_json(x: Json) -> Option<(u32, Seq<char>, Seq<char>)> {
    match (
        spec_opt_str(spec_get(x, "name"@)),
        spec_opt_str(spec_get(x, "description"@)),
        spec_opt_str(spec_get(x, "id"@)),
    ) {
        (Some(name), Some(description), Some(id)) => match spec_parse_u32(id) {
            Some(jira_id) => Some((jira_id, name, description)),
            None => None,
        },
        _ => None,
    }
}

/// The issue types of the server's list (an array).
pub open spec fn spec_issue_types_from_json(j: Json) -> Result<Seq<(u32, Seq<char>, Seq<char>)>, Seq<char>> {
    match j.value {
        JsonValue::Array(a) => Ok(spec_filter_map(a@, |x: Json| spec_issue_type_from_json(x))),
        _ => Err(spec_unexpected("a json object"@, j)),
    }
}

/// The well-formed issue types of the server's list.
pub fn get_issue_types_from_json(json_data: &Json) -> (res: Result<Vec<IssueType>, String>)
    ensures
        match res {
            Ok(v) => spec_issue_types_from_json(*json_data) == Ok::<_, Seq<char>>(spec_views(v@)),
            Err(e) => spec_issue_types_from_json(*json_data) == Err::<Seq<(u32, Seq<char>, Seq<char>)>, _>(e@),
        },
{
    let a = match json_data.as_array() {
        None => return Err(unexpected("a json object", json_data)),
        Some(a) => a,
    };
    let ghost f = |x: Json| spec_issue_type_from_json(x);
    let mut res: Vec<IssueType> = Vec::new();
    let mut i: usize = 0;
    while i < a.len()
        invariant
            i <= a.len(),
            f == (|x: Json| spec_issue_type_from_json(x)),
            spec_views(res@) == spec_filter_map(a@.take(i as int), f),
        decreases a.len() - i,
    {
        proof { lemma_filter_map_step(a@, f, i as int); }
        let x = &a[i];
        let name = get_str_for_key(x, "name");
        let description = get_str_for_key(x, "description");
        let id = get_str_for_key(x, "id");
        if name.is_some() && description.is_some() && id.is_some() {
            if let Some(jira_id) = parse_u32(id.unwrap().as_str()) {
                let ghost before = res@;
                res.push(IssueType { jira_id, name: name.unwrap().clone(), description: description.unwrap().clone() });
                assert(spec_views(res@) =~= spec_views(before).push(res@.last()@));
            }
        }
        i = i + 1;
    }
    proof { lemma_take_all(a@); }
    Ok(res)
}

/// The issue types the server has and the database lacks, each once.
pub fn get_issue_types_not_in_db<'a>(issue_types: &'a Vec<IssueType>, issue_types_in_db: &'a Vec<IssueType>) -> (res: Vec<&'a IssueType>)
    ensures
        spec_ref_views(res@) == spec_difference(spec_views(issue_types@), spec_views(issue_types_in_db@)),
{
    get_inputs_in_remote_not_in_db(issue_types.as_slice(), issue_types_in_db.as_slice())
}

} // verus!
