use vstd::prelude::*;

use crate::encoding::{base64_of_str, spec_base64};
use crate::json::{Json, JsonValue};
use crate::manage_issue_field::spec_key_values;
use crate::server::{error_reply, result_reply_or_empty, spec_param_count_error, split_params, Reply};
use crate::text::{join, spec_join, spec_split, str_eq, to_owned};
use crate::utils::{lemma_filter_map_step, lemma_take_all, spec_filter_map, spec_views, ViewEq};

verus! {

/// A field of a ticket: its key and its value as JSON text.
#[allow(non_camel_case_types)]
pub struct key_value_in_db {
    pub field_key: String,
    pub field_value: String,
}

impl View for key_value_in_db {
    type V = (Seq<char>, Seq<char>);

    open spec fn view(&self) -> (Seq<char>, Seq<char>) {
        (self.field_key@, self.field_value@)
    }
}

impl ViewEq for key_value_in_db {
    fn view_eq(&self, other: &Self) -> (res: bool) {
        str_eq(self.field_key.as_str(), other.field_key.as_str()) && str_eq(
            self.field_value.as_str(),
            other.field_value.as_str(),
        )
    }
}

/// The human name the local database gives a field key.
#[allow(non_camel_case_types)]
pub struct key_human_name {
    pub jira_field_key: String,
    pub human_name: String,
}

/// The human name of a field key: that of the last row with the key (the one
/// a map from keys to names keeps), or the key itself.
pub open spec fn spec_human_name(names: Seq<key_human_name>, key: Seq<char>) -> Seq<char>
    decreases names.len(),
{
    if names.len() == 0 {
        key
    } else if names.last().jira_field_key@ == key {
        names.last().human_name@
    } else {
        spec_human_name(names.drop_last(), key)
    }
}

/// The human name of a field key.
fn human_name<'a>(names: &'a [key_human_name], key: &'a str) -> (res: &'a str)
    ensures
        res@ == spec_human_name(names@, key@),
{
    let mut i: usize = names.len();
    assert(names@.take(names.len() as int) == names@);
    while i > 0
        invariant
            i <= names.len(),
            spec_human_name(names@, key@) == spec_human_name(names@.take(i as int), key@),
        decreases i,
    {
        let ghost t = names@.take(i as int);
        assert(t.drop_last() == names@.take(i - 1));
        assert(t.last() == names@[i - 1]);
        if str_eq(names[i - 1].jira_field_key.as_str(), key) {
            return names[i - 1].human_name.as_str();
        }
        i = i - 1;
    }
    key
}

/// One field as the client receives it: `<name in base64>:<value in base64>`.
pub open spec fn spec_key_value_entry(kv: (Seq<char>, Seq<char>), names: Seq<key_human_name>) -> Seq<char> {
    spec_base64(vstd::utf8::encode_utf8(spec_human_name(names, kv.0))) + ":"@ + spec_base64(vstd::utf8::encode_utf8(kv.1))
}

/// The fields as the client receives them, separated by commas.
pub open spec fn spec_key_value_list(kv_list: Seq<(Seq<char>, Seq<char>)>, names: Seq<key_human_name>) -> Seq<char> {
    spec_join(kv_list.map_values(|kv: (Seq<char>, Seq<char>)| spec_key_value_entry(kv, names)), ","@)
}

/// The fields as the client receives them, each under its human name.
pub fn format_key_value_list(kv_list: &[key_value_in_db], key_to_human: &[key_human_name]) -> (res: String)
    ensures
        res@ == spec_key_value_list(spec_views(kv_list@), key_to_human@),
{
    let mut parts: Vec<String> = Vec::new();
    let mut i: usize = 0;
    while i < kv_list.len()
        invariant
            i <= kv_list.len(),
            parts@.len() == i,
            forall|k: int| 0 <= k < i ==> (#[trigger] parts@[k])@ == spec_key_value_entry(kv_list@[k]@, key_to_human@),
        decreases kv_list.len() - i,
    {
        let name = human_name(key_to_human, kv_list[i].field_key.as_str());
        let mut part = base64_of_str(name);
        part.append(":");
        part.append(base64_of_str(kv_list[i].field_value.as_str()).as_str());
        parts.push(part);
        i = i + 1;
    }
    assert(parts@.map_values(|x: String| x@) =~= spec_views(kv_list@).map_values(
        |kv: (Seq<char>, Seq<char>)| spec_key_value_entry(kv, key_to_human@),
    ));
    join(&parts, ",")
}

/// The non-null fields of a ticket's JSON, or the error without fields.
pub open spec fn spec_ticket_key_values(issue_key: Seq<char>, j: Json) -> Result<Seq<(Seq<char>, Seq<char>)>, Seq<char>> {
    match crate::srv_fetch_ticket::spec_field_entries(j) {
        Some(entries) => if j.value is Object {
            Ok(spec_key_values(entries))
        } else {
            Err("Error: failed to extract fields' list from json for issue "@ + issue_key)
        },
        None => Err("Error: failed to extract fields' list from json for issue "@ + issue_key),
    }
}

/// The non-null fields of a ticket's JSON.
pub fn get_ticket_key_value_list_from_json(issue_key: &str, json: &Json) -> (res: Result<Vec<key_value_in_db>, String>)
    ensures
        match res {
            Ok(v) => spec_ticket_key_values(issue_key@, *json) == Ok::<_, Seq<char>>(spec_views(v@)),
            Err(e) => spec_ticket_key_values(issue_key@, *json) == Err::<Seq<(Seq<char>, Seq<char>)>, _>(e@),
        },
{
    let fields = if json.is_object() { crate::json::get_object(json, "fields") } else { None };
    let m = match fields {
        Some(f) => match &f.value {
            JsonValue::Object(m) => Some(m),
            _ => None,
        },
        None => None,
    };
    let m = match m {
        Some(m) => m,
        None => {
            let mut msg = to_owned("Error: failed to extract fields' list from json for issue ");
            msg.append(issue_key);
            return Err(msg);
        },
    };
    let ghost f = |e: (String, Json)| if e.1.value is Null { None } else { Some((e.0@, e.1.text@)) };
    let mut res: Vec<key_value_in_db> = Vec::new();
    let mut i: usize = 0;
    while i < m.entries.len()
        invariant
            i <= m.entries.len(),
            f == (|e: (String, Json)| if e.1.value is Null { None } else { Some((e.0@, e.1.text@)) }),
            spec_views(res@) == spec_filter_map(m.entries@.take(i as int), f),
        decreases m.entries.len() - i,
    {
        proof { lemma_filter_map_step(m.entries@, f, i as int); }
        if !m.entries[i].1.is_null() {
            let ghost before = res@;
            res.push(key_value_in_db { field_key: m.entries[i].0.clone(), field_value: m.entries[i].1.text.clone() });
            assert(spec_views(res@) =~= spec_views(before).push(res@.last()@));
        }
        i = i + 1;
    }
    proof { lemma_take_all(m.entries@); }
    Ok(res)
}

/// Both lists have the same length and hold the same fields.
pub open spec fn spec_same_key_values(p1: Seq<(Seq<char>, Seq<char>)>, p2: Seq<(Seq<char>, Seq<char>)>) -> bool {
    p1.len() == p2.len() && p1.to_set() == p2.to_set()
}

/// Law: the order of the fields does not matter: a list and any reordering
/// of it hold the same fields.
pub proof fn lemma_reordered_key_values_same(p1: Seq<(Seq<char>, Seq<char>)>, p2: Seq<(Seq<char>, Seq<char>)>)
    requires
        p1.to_multiset() == p2.to_multiset(),
    ensures
        spec_same_key_values(p1, p2),
{
    broadcast use vstd::seq_lib::group_to_multiset_ensures;
    assert(p1.len() == p1.to_multiset().len());
    assert forall|x: (Seq<char>, Seq<char>)| p1.to_set().contains(x) <==> p2.to_set().contains(x) by {
        assert(p1.contains(x) <==> p1.to_multiset().count(x) > 0);
        assert(p2.contains(x) <==> p2.to_multiset().count(x) > 0);
    }
    assert(p1.to_set() =~= p2.to_set());
}

/// Whether the two lists hold the same fields.
pub fn is_same_key_value_vector(param1: &[key_value_in_db], param2: &[key_value_in_db]) -> (res: bool)
    ensures
        res == spec_same_key_values(spec_views(param1@), spec_views(param2@)),
{
    if param1.len() != param2.len() {
        return false;
    }
    let ghost v1 = spec_views(param1@);
    let ghost v2 = spec_views(param2@);
    let mut i: usize = 0;
    while i < param1.len()
        invariant
            i <= param1.len(),
            v1 == spec_views(param1@),
            v2 == spec_views(param2@),
            forall|k: int| 0 <= k < i ==> v2.contains(#[trigger] v1[k]),
        decreases param1.len() - i,
    {
        assert(v1[i as int] == param1@[i as int]@);
        if !crate::utils::contains_view(param2, &param1[i]) {
            assert(v1.to_set().contains(v1[i as int]));
            assert(!v2.to_set().contains(v1[i as int]));
            return false;
        }
        i = i + 1;
    }
    let mut j: usize = 0;
    while j < param2.len()
        invariant
            j <= param2.len(),
            v1 == spec_views(param1@),
            v2 == spec_views(param2@),
            forall|k: int| 0 <= k < v1.len() ==> v2.contains(#[trigger] v1[k]),
            forall|k: int| 0 <= k < j ==> v1.contains(#[trigger] v2[k]),
        decreases param2.len() - j,
    {
        assert(v2[j as int] == param2@[j as int]@);
        if !crate::utils::contains_view(param1, &param2[j]) {
            assert(v2.to_set().contains(v2[j as int]));
            assert(!v1.to_set().contains(v2[j as int]));
            return false;
        }
        j = j + 1;
    }
    assert forall|x: (Seq<char>, Seq<char>)| v1.to_set().contains(x) <==> v2.to_set().contains(x) by {
        if v1.contains(x) {
            let k = choose|k: int| 0 <= k < v1.len() && v1[k] == x;
            assert(v2.contains(v1[k]));
        }
        if v2.contains(x) {
            let k = choose|k: int| 0 <= k < v2.len() && v2[k] == x;
            assert(v1.contains(v2[k]));
        }
    }
    assert(v1.to_set() =~= v2.to_set());
    true
}

/// The ticket's key, or the reply refusing the parameters.
pub fn key_value_params(request_id: &str, params: &str) -> (res: Result<String, Reply>)
    ensures
        match res {
            Ok(key) => spec_split(params@, ',').len() == 1 && key@ == spec_split(params@, ',')[0],
            Err(r) => spec_split(params@, ',').len() != 1 && r.0@ == spec_param_count_error(
                request_id@,
                "FETCH_TICKET_KEY_VALUE_FIELDS need one parameter (the ticket id, like PROJ-123)"@,
                spec_split(params@, ',').len(),
                params@,
            ),
        },
{
    match split_params(request_id, params, 1, "FETCH_TICKET_KEY_VALUE_FIELDS need one parameter (the ticket id, like PROJ-123)") {
        Ok(p) => {
            assert(p@[0]@ == spec_split(params@, ',')[0]);
            Ok(p[0].clone())
        },
        Err(r) => Err(r),
    }
}

/// The reply when the names of the fields cannot be read.
pub fn missing_names_reply(request_id: &str, error: &str) -> (res: Reply)
    ensures
        res.0@ == request_id@ + " ERROR "@ + "failed to get the mapping jira field key to human key from local db. Err: "@
            + error@ + "\n"@,
{
    let mut msg = to_owned("failed to get the mapping jira field key to human key from local db. Err: ");
    msg.append(error);
    error_reply(request_id, msg.as_str())
}

/// The reply carrying the fields (`RESULT` alone when there is none), or the error.
pub open spec fn spec_key_value_reply(request_id: Seq<char>, data: Result<Seq<(Seq<char>, Seq<char>)>, Seq<char>>, names: Seq<key_human_name>) -> Seq<char> {
    match data {
        Ok(v) => {
            let list = spec_key_value_list(v, names);
            if list.len() == 0 { request_id + " RESULT\n"@ } else { request_id + " RESULT "@ + list + "\n"@ }
        },
        Err(e) => request_id + " ERROR "@ + e + "\n"@,
    }
}

/// The view of a list of fields or an error.
pub open spec fn spec_kv_result(r: Result<Vec<key_value_in_db>, String>) -> Result<Seq<(Seq<char>, Seq<char>)>, Seq<char>> {
    match r {
        Ok(v) => Ok(spec_views(v@)),
        Err(e) => Err(e@),
    }
}

/// The reply carrying the fields, or the error.
pub fn key_value_reply(request_id: &str, data: &Result<Vec<key_value_in_db>, String>, key_to_human: &[key_human_name]) -> (res: Reply)
    ensures
        res.0@ == spec_key_value_reply(request_id@, spec_kv_result(*data), key_to_human@),
{
    match data {
        Ok(v) => result_reply_or_empty(request_id, format_key_value_list(v.as_slice(), key_to_human).as_str()),
        Err(e) => error_reply(request_id, e.as_str()),
    }
}

/// The reply to send once the fields have been read from the server:
/// nothing when they are the stored ones.
pub fn newer_key_value_reply(
    request_id: &str,
    newest: &Result<Vec<key_value_in_db>, String>,
    stored: &Result<Vec<key_value_in_db>, String>,
    key_to_human: &[key_human_name],
) -> (res: Option<Reply>)
    ensures
        match (newest, stored) {
            (Ok(n), Ok(o)) => if spec_same_key_values(spec_views(n@), spec_views(o@)) {
                res is None
            } else {
                res matches Some(r) && r.0@ == spec_key_value_reply(request_id@, spec_kv_result(*newest), key_to_human@)
            },
            _ => res matches Some(r) && r.0@ == spec_key_value_reply(request_id@, spec_kv_result(*newest), key_to_human@),
        },
{
    if let (Ok(n), Ok(o)) = (newest, stored) {
        if is_same_key_value_vector(n.as_slice(), o.as_slice()) {
            return None;
        }
    }
    Some(key_value_reply(request_id, newest, key_to_human))
}

} // verus!
