use vstd::prelude::*;

use crate::json::{spec_get, spec_opt_array, spec_opt_object, Json, JsonValue};
use crate::manage_interesting_projects::{get_id, spec_get_id};
use crate::utils::{
    lemma_filter_map_step, lemma_take_all, spec_difference, spec_filter_map, spec_ref_views,
    spec_views, ViewEq,
};

verus! {

/// A field of an issue: its key and its value as JSON text.
pub struct KeyValueProperty {
    pub key: String,
    pub value: String,
}

impl View for KeyValueProperty {
    type V = (Seq<char>, Seq<char>);

    open spec fn view(&self) -> (Seq<char>, Seq<char>) {
        (self.key@, self.value@)
    }
}

impl ViewEq for KeyValueProperty {
    fn view_eq(&self, other: &Self) -> (res: bool) {
        crate::text::str_eq(self.key.as_str(), other.key.as_str()) && crate::text::str_eq(
            self.value.as_str(),
            other.value.as_str(),
        )
    }
}

/// The fields of one issue.
pub struct IssueProperties {
    pub issue_id: u32,
    pub properties: Vec<KeyValueProperty>,
}

impl View for IssueProperties {
    type V = (u32, Seq<(Seq<char>, Seq<char>)>);

    open spec fn view(&self) -> (u32, Seq<(Seq<char>, Seq<char>)>) {
        (self.issue_id, spec_views(self.properties@))
    }
}

/// One field of one issue, as a row of the local database.
pub struct BrokenIssueProperties {
    pub issue_id: u32,
    pub field_id: String,
    pub field_value: String,
}

impl View for BrokenIssueProperties {
    type V = (u32, Seq<char>, Seq<char>);

    open spec fn view(&self) -> (u32, Seq<char>, Seq<char>) {
        (self.issue_id, self.field_id@, self.field_value@)
    }
}

impl ViewEq for BrokenIssueProperties {
    fn view_eq(&self, other: &Self) -> (res: bool) {
        self.issue_id == other.issue_id && crate::text::str_eq(self.field_id.as_str(), other.field_id.as_str())
            && crate::text::str_eq(self.field_value.as_str(), other.field_value.as_str())
    }
}

/// The non-null entries of an object, as keys and JSON texts.
pub open spec fn spec_key_values(entries: Seq<(String, Json)>) -> Seq<(Seq<char>, Seq<char>)> {
    spec_filter_map(
        entries,
        |e: (String, Json)| if e.1.value is Null { None } else { Some((e.0@, e.1.text@)) },
    )
}

/// The non-null fields of an object (`fields` of an issue), in its order.
pub fn key_values_of(fields: &Json) -> (res: Vec<KeyValueProperty>)
    ensures
        spec_views(res@) == (match fields.value {
            JsonValue::Object(m) => spec_key_values(m.entries@),
            _ => Seq::empty(),
        }),
{
    let mut res: Vec<KeyValueProperty> = Vec::new();
    match &fields.value {
        JsonValue::Object(m) => {
            let ghost f = |e: (String, Json)| if e.1.value is Null { None } else { Some((e.0@, e.1.text@)) };
            let mut i: usize = 0;
            while i < m.entries.len()
                invariant
                    i <= m.entries.len(),
                    f == (|e: (String, Json)| if e.1.value is Null { None } else { Some((e.0@, e.1.text@)) }),
                    spec_views(res@) == spec_filter_map(m.entries@.take(i as int), f),
                decreases m.entries.len() - i,
            {
                proof { lemma_filter_map_step(m.entries@, f, i as int); }
                let (key, value) = (&m.entries[i].0, &m.entries[i].1);
                if !value.is_null() {
                    let ghost before = res@;
                    res.push(KeyValueProperty { key: key.clone(), value: value.text.clone() });
                    assert(spec_views(res@) =~= spec_views(before).push(res@.last()@));
                }
                i = i + 1;
            }
            proof { lemma_take_all(m.entries@); }
        },
        _ => {},
    }
    res
}

/// The fields of one issue of a search result.
pub open spec fn spec_issue_properties_of(x: Json) -> Option<(u32, Seq<(Seq<char>, Seq<char>)>)> {
    match spec_get_id(x) {
        None => None,
        Some(issue_id) => match spec_opt_object(spec_get(x, "fields"@)) {
            None => None,
            Some(fields) => match fields.value {
                JsonValue::Object(m) => Some((issue_id, spec_key_values(m.entries@))),
                _ => None,
            },
        },
    }
}

/// The fields of the issues of a search result.
pub open spec fn spec_issues_properties(j: Json) -> Result<Seq<(u32, Seq<(Seq<char>, Seq<char>)>)>, Seq<char>> {
    match spec_get(j, "issues"@) {
        None => Err("No field named 'issues' in the json"@),
        Some(v) => match spec_opt_array(Some(v)) {
            None => Err("Error: the fields named 'issues' isn't a json array"@),
            Some(a) => Ok(spec_filter_map(a, |x: Json| spec_issue_properties_of(x))),
        },
    }
}

/// The non-null fields of each issue of a search result that has an id and
/// fields.
pub fn get_issues_properties(json_data: &Json) -> (res: Result<Vec<IssueProperties>, String>)
    ensures
        match res {
            Ok(v) => spec_issues_properties(*json_data) == Ok::<_, Seq<char>>(spec_views(v@)),
            Err(e) => spec_issues_properties(*json_data) == Err::<Seq<(u32, Seq<(Seq<char>, Seq<char>)>)>, _>(e@),
        },
{
    let v = match json_data.get("issues") {
        None => return Err(crate::text::to_owned("No field named 'issues' in the json")),
        Some(v) => v,
    };
    let a = match v.as_array() {
        None => return Err(crate::text::to_owned("Error: the fields named 'issues' isn't a json array")),
        Some(a) => a,
    };
    let ghost f = |x: Json| spec_issue_properties_of(x);
    let mut res: Vec<IssueProperties> = Vec::new();
    let mut i: usize = 0;
    while i < a.len()
        invariant
            i <= a.len(),
            f == (|x: Json| spec_issue_properties_of(x)),
            spec_views(res@) == spec_filter_map(a@.take(i as int), f),
        decreases a.len() - i,
    {
        proof { lemma_filter_map_step(a@, f, i as int); }
        let x = &a[i];
        if let Some(issue_id) = get_id(x) {
            if let Some(fields) = crate::json::get_object(x, "fields") {
                let properties = key_values_of(fields);
                let ghost before = res@;
                res.push(IssueProperties { issue_id, properties });
                assert(spec_views(res@) =~= spec_views(before).push(res@.last()@));
            }
        }
        i = i + 1;
    }
    proof { lemma_take_all(a@); }
    Ok(res)
}

/// The rows of one issue's fields.
pub open spec fn spec_rows(p: (u32, Seq<(Seq<char>, Seq<char>)>)) -> Seq<(u32, Seq<char>, Seq<char>)> {
    p.1.map_values(|kv: (Seq<char>, Seq<char>)| (p.0, kv.0, kv.1))
}

/// The rows of each issue's fields, each row once.
pub fn get_flattened_properties(issue_properties: &[IssueProperties]) -> (res: Vec<(u32, Vec<BrokenIssueProperties>)>)
    ensures
        res@.len() == issue_properties@.len(),
        forall|i: int| 0 <= i < res@.len() ==> (#[trigger] res@[i]).0 == issue_properties@[i].issue_id
            && spec_views(res@[i].1@) == spec_difference(spec_rows(issue_properties@[i]@), Seq::empty()),
{
    let mut res: Vec<(u32, Vec<BrokenIssueProperties>)> = Vec::new();
    let mut i: usize = 0;
    while i < issue_properties.len()
        invariant
            i <= issue_properties.len(),
            res@.len() == i,
            forall|k: int| 0 <= k < i ==> (#[trigger] res@[k]).0 == issue_properties@[k].issue_id
                && spec_views(res@[k].1@) == spec_difference(spec_rows(issue_properties@[k]@), Seq::empty()),
        decreases issue_properties.len() - i,
    {
        let p = &issue_properties[i];
        let ghost rows = spec_rows(p@);
        let mut set: Vec<BrokenIssueProperties> = Vec::new();
        let mut j: usize = 0;
        while j < p.properties.len()
            invariant
                j <= p.properties.len(),
                rows == spec_rows(p@),
                rows.len() == p.properties@.len(),
                spec_views(set@) == spec_difference(rows.take(j as int), Seq::empty()),
            decreases p.properties.len() - j,
        {
            assert(rows.take(j + 1).drop_last() == rows.take(j as int));
            assert(rows.take(j + 1).last() == rows[j as int]);
            let row = BrokenIssueProperties {
                issue_id: p.issue_id,
                field_id: p.properties[j].key.clone(),
                field_value: p.properties[j].value.clone(),
            };
            assert(row@ == rows[j as int]);
            let ghost sv = spec_views(set@);
            if !crate::utils::contains_view(set.as_slice(), &row) {
                assert(!Seq::<(u32, Seq<char>, Seq<char>)>::empty().contains(row@));
                res_push_row(&mut set, row);
            }
            j = j + 1;
        }
        assert(rows.take(p.properties.len() as int) == rows);
        res.push((p.issue_id, set));
        i = i + 1;
    }
    res
}

/// Appends a row to a list of rows.
fn res_push_row(set: &mut Vec<BrokenIssueProperties>, row: BrokenIssueProperties)
    ensures
        spec_views(final(set)@) == spec_views(old(set)@).push(row@),
{
    let ghost before = set@;
    set.push(row);
    assert(spec_views(set@) =~= spec_views(before).push(set@.last()@));
}

/// For the first `n` pairs of issues, the rows of `from` that `other` lacks,
/// issue after issue.
pub open spec fn spec_zip_difference(
    from: Seq<(u32, Vec<BrokenIssueProperties>)>,
    other: Seq<(u32, Vec<BrokenIssueProperties>)>,
    n: nat,
) -> Seq<(u32, Seq<char>, Seq<char>)>
    decreases n,
{
    if n == 0 {
        Seq::empty()
    } else {
        spec_zip_difference(from, other, (n - 1) as nat) + spec_difference(
            spec_views(from[n - 1].1@),
            spec_views(other[n - 1].1@),
        )
    }
}

/// The pairs are about the same issues.
pub open spec fn spec_same_issues(
    a: Seq<(u32, Vec<BrokenIssueProperties>)>,
    b: Seq<(u32, Vec<BrokenIssueProperties>)>,
) -> bool {
    forall|i: int| 0 <= i < a.len() && 0 <= i < b.len() ==> (#[trigger] a[i]).0 == (#[trigger] b[i]).0
}

fn zip_difference<'a>(
    from: &'a [(u32, Vec<BrokenIssueProperties>)],
    other: &'a [(u32, Vec<BrokenIssueProperties>)],
) -> (res: Vec<&'a BrokenIssueProperties>)
    ensures
        spec_ref_views(res@) == spec_zip_difference(
            from@,
            other@,
            if from@.len() < other@.len() { from@.len() } else { other@.len() },
        ),
{
    let n = if from.len() < other.len() { from.len() } else { other.len() };
    let mut res: Vec<&'a BrokenIssueProperties> = Vec::new();
    let mut i: usize = 0;
    while i < n
        invariant
            i <= n,
            n <= from@.len(),
            n <= other@.len(),
            spec_ref_views(res@) == spec_zip_difference(from@, other@, i as nat),
        decreases n - i,
    {
        let mut part = crate::utils::get_inputs_in_remote_not_in_db(from[i].1.as_slice(), other[i].1.as_slice());
        let ghost before = res@;
        let ghost added = part@;
        res.append(&mut part);
        assert(spec_ref_views(res@) =~= spec_ref_views(before) + spec_ref_views(added));
        i = i + 1;
    }
    res
}

/// For each issue, the rows stored locally that the server no longer has.
pub fn get_properties_in_db_not_in_remote<'a>(
    properties_in_remote: &'a [(u32, Vec<BrokenIssueProperties>)],
    properties_in_db: &'a [(u32, Vec<BrokenIssueProperties>)],
) -> (res: Vec<&'a BrokenIssueProperties>)
    requires
        spec_same_issues(properties_in_remote@, properties_in_db@),
    ensures
        spec_ref_views(res@) == spec_zip_difference(
            properties_in_db@,
            properties_in_remote@,
            if properties_in_remote@.len() < properties_in_db@.len() {
                properties_in_remote@.len()
            } else {
                properties_in_db@.len()
            },
        ),
{
    zip_difference(properties_in_db, properties_in_remote)
}

/// For each issue, the rows the server has that are not stored locally.
pub fn get_properties_in_remote_not_in_db<'a>(
    properties_in_remote: &'a [(u32, Vec<BrokenIssueProperties>)],
    properties_in_db: &'a [(u32, Vec<BrokenIssueProperties>)],
) -> (res: Vec<&'a BrokenIssueProperties>)
    requires
        spec_same_issues(properties_in_remote@, properties_in_db@),
    ensures
        spec_ref_views(res@) == spec_zip_difference(
            properties_in_remote@,
            properties_in_db@,
            if properties_in_remote@.len() < properties_in_db@.len() {
                properties_in_remote@.len()
            } else {
                properties_in_db@.len()
            },
        ),
{
    zip_difference(properties_in_remote, properties_in_db)
}

} // verus!
