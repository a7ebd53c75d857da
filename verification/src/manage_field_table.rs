use vstd::prelude::*;

use crate::json::{get_str_for_key, spec_as_bool, spec_get, spec_opt_str, Json, JsonValue};
use crate::text::{str_eq, to_owned};
use crate::utils::{
    get_inputs_in_db_not_in_remote, get_inputs_in_remote_not_in_db, lemma_filter_map_step,
    lemma_take_all, spec_difference, spec_filter_map, spec_ref_views, spec_views, ViewEq,
};

verus! {

/// A field that issues can have, as the server describes it.
pub struct Field {
    pub jira_id: String,
    pub key: String,
    pub human_name: String,
    pub schema: String,
    pub is_custom: bool,
}

impl View for Field {
    type V = (Seq<char>, Seq<char>, Seq<char>, Seq<char>, bool);

    open spec fn view(&self) -> (Seq<char>, Seq<char>, Seq<char>, Seq<char>, bool) {
        (self.jira_id@, self.key@, self.human_name@, self.schema@, self.is_custom)
    }
}

impl ViewEq for Field {
    fn view_eq(&self, other: &Self) -> (res: bool) {
        str_eq(self.jira_id.as_str(), other.jira_id.as_str()) && str_eq(self.key.as_str(), other.key.as_str())
            && str_eq(self.human_name.as_str(), other.human_name.as_str()) && str_eq(
            self.schema.as_str(),
            other.schema.as_str(),
        ) && self.is_custom == other.is_custom
    }
}

/// The error given when the server's answer has an unexpected shape.
pub open spec fn spec_unexpected(what: Seq<char>, j: Json) -> Seq<char> {
    "Error: Returned data is unexpected. Expecting "@ + what + ", got ["@ + j.text@ + "]"@
}

/// The error given when the server's answer has an unexpected shape.
pub fn unexpected(what: &str, j: &Json) -> (res: String)
    ensures
        res@ == spec_unexpected(what@, *j),
{
    let mut msg = to_owned("Error: Returned data is unexpected. Expecting ");
    msg.append(what);
    msg.append(", got [");
    msg.append(j.text.as_str());
    msg.append("]");
    msg
}

/// A field described by one element of the server's list of fields.
pub open spec fn spec_field_from_json(x: Json) -> Option<(Seq<char>, Seq<char>, Seq<char>, Seq<char>, bool)> {
    if !(x.value is Object) {
        None
    } else {
        match (
            spec_opt_str(spec_get(x, "id"@)),
            spec_opt_str(spec_get(x, "name"@)),
            spec_opt_str(spec_get(x, "key"@)),
            spec_get(x, "schema"@),
            spec_get(x, "custom"@),
        ) {
            (Some(id), Some(name), Some(key), Some(schema), Some(custom)) => match spec_as_bool(custom) {
                Some(c) => Some((id, key, name, schema.text@, c)),
                None => None,
            },
            _ => None,
        }
    }
}

/// The fields of the server's list of fields (an array).
pub open spec fn spec_fields_from_json(j: Json) -> Result<Seq<(Seq<char>, Seq<char>, Seq<char>, Seq<char>, bool)>, Seq<char>> {
    match j.value {
        JsonValue::Array(a) => Ok(spec_filter_map(a@, |x: Json| spec_field_from_json(x))),
        _ => Err(spec_unexpected("a json object"@, j)),
    }
}

/// The well-formed fields of the server's list of fields.
pub fn get_fields_from_json(json_data: &Json) -> (res: Result<Vec<Field>, String>)
    ensures
        match res {
            Ok(v) => spec_fields_from_json(*json_data) == Ok::<_, Seq<char>>(spec_views(v@)),
            Err(e) => spec_fields_from_json(*json_data) == Err::<Seq<(Seq<char>, Seq<char>, Seq<char>, Seq<char>, bool)>, _>(e@),
        },
{
    let a = match json_data.as_array() {
        None => return Err(unexpected("a json object", json_data)),
        Some(a) => a,
    };
    let ghost f = |x: Json| spec_field_from_json(x);
    let mut res: Vec<Field> = Vec::new();
    let mut i: usize = 0;
    while i < a.len()
        invariant
            i <= a.len(),
            f == (|x: Json| spec_field_from_json(x)),
            spec_views(res@) == spec_filter_map(a@.take(i as int), f),
        decreases a.len() - i,
    {
        proof { lemma_filter_map_step(a@, f, i as int); }
        let x = &a[i];
        if x.is_object() {
            let id = get_str_for_key(x, "id");
            let name = get_str_for_key(x, "name");
            let key = get_str_for_key(x, "key");
            let schema = x.get("schema");
            let custom = x.get("custom");
            if id.is_some() && name.is_some() && key.is_some() && schema.is_some() && custom.is_some() {
                if let Some(is_custom) = custom.unwrap().as_bool() {
                    let ghost before = res@;
                    res.push(
                        Field {
                            jira_id: id.unwrap().clone(),
                            key: key.unwrap().clone(),
                            human_name: name.unwrap().clone(),
                            schema: schema.unwrap().text.clone(),
                            is_custom,
                        },
                    );
                    assert(spec_views(res@) =~= spec_views(before).push(res@.last()@));
                }
            }
        }
        i = i + 1;
    }
    proof { lemma_take_all(a@); }
    Ok(res)
}

/// The fields the server has and the database lacks, each once.
pub fn get_fields_in_remote_not_in_db<'a>(fields: &'a Vec<Field>, fields_in_db: &'a Vec<Field>) -> (res: Vec<&'a Field>)
    ensures
        spec_ref_views(res@) == spec_difference(spec_views(fields@), spec_views(fields_in_db@)),
{
    get_inputs_in_remote_not_in_db(fields.as_slice(), fields_in_db.as_slice())
}

/// The fields the database has and the server no longer has, each once.
pub fn get_fields_in_db_not_in_remote<'a>(fields_in_remote: &'a Vec<Field>, fields_in_db: &'a Vec<Field>) -> (res: Vec<&'a Field>)
    ensures
        spec_ref_views(res@) == spec_difference(spec_views(fields_in_db@), spec_views(fields_in_remote@)),
{
    get_inputs_in_db_not_in_remote(fields_in_remote.as_slice(), fields_in_db.as_slice())
}

} // verus!
