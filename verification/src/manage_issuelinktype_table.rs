use vstd::prelude::*;

use crate::json::{get_str_for_key, spec_get, spec_opt_array, spec_opt_str, Json};
use crate::manage_field_table::{spec_unexpected, unexpected};
use crate::text::{parse_u32, spec_parse_u32, str_eq};
use crate::utils::{
    get_inputs_in_remote_not_in_db, lemma_filter_map_step, lemma_take_all, spec_difference,
    spec_filter_map, spec_ref_views, spec_views, ViewEq,
};

verus! {

/// A kind of link between issues, with the words for each direction.
pub struct IssueLinkType {
    pub jira_id: u32,
    pub name: String,
    pub outward_name: String,
    pub inward_name: String,
}

impl View for IssueLinkType {
    type V = (u32, Seq<char>, Seq<char>, Seq<char>);

    open spec fn view(&self) -> (u32, Seq<char>, Seq<char>, Seq<char>) {
        (self.jira_id, self.name@, self.outward_name@, self.inward_name@)
    }
}

impl ViewEq for IssueLinkType {
    fn view_eq(&self, other: &Self) -> (res: bool) {
        self.jira_id == other.jira_id && str_eq(self.name.as_str(), other.name.as_str()) && str_eq(
            self.outward_name.as_str(),
            other.outward_name.as_str(),
        ) && str_eq(self.inward_name.as_str(), other.inward_name.as_str())
    }
}

/// A link type described by one element of the server's list.
pub open spec fn spec_link_type_from_json(x: Json) -> Option<(u32, Seq<char>, Seq<char>, Seq<char>)> {
    match (
        spec_opt_str(spec_get(x, "name"@)),
        spec_opt_str(spec_get(x, "outward"@)),
        spec_opt_str(spec_get(x, "inward"@)),
        spec_opt_str(spec_get(x, "id"@)),
    ) {
        (Some(name), Some(outward), Some(inward), Some(id)) => match spec_parse_u32(id) {
            Some(jira_id) => Some((jira_id, name, outward, inward)),
            None => None,
        },
        _ => None,
    }
}

/// The link types of the server's answer (`{"issueLinkTypes": [...]}`).
pub open spec fn spec_link_types_from_json(j: Json) -> Result<Seq<(u32, Seq<char>, Seq<char>, Seq<char>)>, Seq<char>> {
    if !(j.value is Object) {
        Err(spec_unexpected("a json object"@, j))
    } else {
        match spec_get(j, "issueLinkTypes"@) {
            None => Err(spec_unexpected("a key named issueLinkTypes"@, j)),
            Some(v) => match spec_opt_array(Some(v)) {
                None => Err(spec_unexpected("a json array"@, j)),
                Some(a) => Ok(spec_filter_map(a, |x: Json| spec_link_type_from_json(x))),
            },
        }
    }
}

/// The well-formed link types of the server's answer.
pub fn get_issue_link_types_from_json(json_data: &Json) -> (res: Result<Vec<IssueLinkType>, String>)
    ensures
        match res {
            Ok(v) => spec_link_types_from_json(*json_data) == Ok::<_, Seq<char>>(spec_views(v@)),
            Err(e) => spec_link_types_from_json(*json_data) == Err::<Seq<(u32, Seq<char>, Seq<char>, Seq<char>)>, _>(e@),
        },
{
    if !json_data.is_object() {
        return Err(unexpected("a json object", json_data));
    }
    let v = match json_data.get("issueLinkTypes") {
        None => return Err(unexpected("a key named issueLinkTypes", json_data)),
        Some(v) => v,
    };
    let a = match v.as_array() {
        None => return Err(unexpected("a json array", json_data)),
        Some(a) => a,
    };
    let ghost f = |x: Json| spec_link_type_from_json(x);
    let mut res: Vec<IssueLinkType> = Vec::new();
    let mut i: usize = 0;
    while i < a.len()
        invariant
            i <= a.len(),
            f == (|x: Json| spec_link_type_from_json(x)),
            spec_views(res@) == spec_filter_map(a@.take(i as int), f),
        decreases a.len() - i,
    {
        proof { lemma_filter_map_step(a@, f, i as int); }
        let x = &a[i];
        let name = get_str_for_key(x, "name");
        let outward = get_str_for_key(x, "outward");
        let inward = get_str_for_key(x, "inward");
        let id = get_str_for_key(x, "id");
        if name.is_some() && outward.is_some() && inward.is_some() && id.is_some() {
            if let Some(jira_id) = parse_u32(id.unwrap().as_str()) {
                let ghost before = res@;
                res.push(
                    IssueLinkType {
                        jira_id,
                        name: name.unwrap().clone(),
                        outward_name: outward.unwrap().clone(),
                        inward_name: inward.unwrap().clone(),
                    },
                );
                assert(spec_views(res@) =~= spec_views(before).push(res@.last()@));
            }
        }
        i = i + 1;
    }
    proof { lemma_take_all(a@); }
    Ok(res)
}

/// The link types the server has and the database lacks, each once.
pub fn get_link_types_not_in_db<'a>(link_types: &'a Vec<IssueLinkType>, link_types_in_db: &'a Vec<IssueLinkType>) -> (res: Vec<&'a IssueLinkType>)
    ensures
        spec_ref_views(res@) == spec_difference(spec_views(link_types@), spec_views(link_types_in_db@)),
{
    get_inputs_in_remote_not_in_db(link_types.as_slice(), link_types_in_db.as_slice())
}

} // verus!
