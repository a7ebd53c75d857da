use vstd::prelude::*;

use crate::get_attachment_content::file_data;
use crate::json::{get_str_for_key, spec_as_i64, spec_get, spec_opt_array, spec_opt_object, spec_opt_str, Json, JsonValue};
use crate::manage_interesting_projects::{get_id, spec_get_id};
use crate::manage_issue_field::{key_values_of, spec_key_values, IssueProperties, KeyValueProperty};
use crate::text::{chars_of, parse_i64, spec_parse_i64, string_from_chars, to_owned};
use crate::utils::{
    get_inputs_in_db_not_in_remote, get_inputs_in_remote_not_in_db, lemma_filter_map_step,
    lemma_take_all, spec_difference, spec_filter_map, spec_ref_views, spec_views,
};

verus! {

// ---------------------------------------------------------------------------
// The fields of an issue
// ---------------------------------------------------------------------------

/// The non-null fields of an issue's JSON, or the error saying what is missing.
pub open spec fn spec_properties_from_json(issue_key: Seq<char>, j: Json) -> Result<(u32, Seq<(Seq<char>, Seq<char>)>), Seq<char>> {
    match spec_get_id(j) {
        None => Err(
            "error: while trying to get properties from json data. Json for "@ + issue_key
                + " does not contain an \"id\" fields"@,
        ),
        Some(issue_id) => match spec_get(j, "fields"@) {
            None => Err("error: received json for issue "@ + issue_key + " does not contain a field named \"fields\"."@),
            Some(fields) => match fields.value {
                JsonValue::Object(m) => Ok((issue_id, spec_key_values(m.entries@))),
                _ => Err("error: the field named \"fields\" for "@ + issue_key + " is not a json object."@),
            },
        },
    }
}

/// The issue's id and its non-null fields, read from its JSON.
pub fn get_properties_from_json(issue_key: &str, json_data: &Json) -> (res: Result<IssueProperties, String>)
    ensures
        match res {
            Ok(p) => spec_properties_from_json(issue_key@, *json_data) == Ok::<_, Seq<char>>(p@),
            Err(e) => spec_properties_from_json(issue_key@, *json_data) == Err::<(u32, Seq<(Seq<char>, Seq<char>)>), _>(e@),
        },
{
    let issue_id = match get_id(json_data) {
        None => {
            let mut msg = to_owned("error: while trying to get properties from json data. Json for ");
            msg.append(issue_key);
            msg.append(" does not contain an \"id\" fields");
            return Err(msg);
        },
        Some(v) => v,
    };
    let fields = match json_data.get("fields") {
        None => {
            let mut msg = to_owned("error: received json for issue ");
            msg.append(issue_key);
            msg.append(" does not contain a field named \"fields\".");
            return Err(msg);
        },
        Some(f) => f,
    };
    if !fields.is_object() {
        let mut msg = to_owned("error: the field named \"fields\" for ");
        msg.append(issue_key);
        msg.append(" is not a json object.");
        return Err(msg);
    }
    let properties = key_values_of(fields);
    Ok(IssueProperties { issue_id, properties })
}

/// The issue's fields on the server that the database lacks, each once.
pub fn get_issue_properties_in_remote_not_in_db<'a>(
    issue_properties_in_remote: &'a Vec<KeyValueProperty>,
    issue_properties_in_db: &'a Vec<KeyValueProperty>,
) -> (res: Vec<&'a KeyValueProperty>)
    ensures
        spec_ref_views(res@) == spec_difference(spec_views(issue_properties_in_remote@), spec_views(issue_properties_in_db@)),
{
    get_inputs_in_remote_not_in_db(issue_properties_in_remote.as_slice(), issue_properties_in_db.as_slice())
}

/// The issue's fields in the database that the server no longer has, each once.
pub fn get_issue_properties_in_db_not_in_remote<'a>(
    issue_properties_in_remote: &'a Vec<KeyValueProperty>,
    issue_properties_in_db: &'a Vec<KeyValueProperty>,
) -> (res: Vec<&'a KeyValueProperty>)
    ensures
        spec_ref_views(res@) == spec_difference(spec_views(issue_properties_in_db@), spec_views(issue_properties_in_remote@)),
{
    get_inputs_in_db_not_in_remote(issue_properties_in_remote.as_slice(), issue_properties_in_db.as_slice())
}

// ---------------------------------------------------------------------------
// Attachments
// ---------------------------------------------------------------------------

/// A file attached to an issue, as the server lists it.
pub struct IssueAttachment {
    pub attachment_id: i64,
    pub filename: String,
    pub mime_type: String,
    pub size: Option<i64>,
}

impl View for IssueAttachment {
    type V = (i64, Seq<char>, Seq<char>, Option<i64>);

    open spec fn view(&self) -> (i64, Seq<char>, Seq<char>, Option<i64>) {
        (self.attachment_id, self.filename@, self.mime_type@, self.size)
    }
}

/// An attachment described by one element of an attachment list: its id
/// (a string of digits), file name, MIME type and, if given, size.
pub open spec fn spec_attachment_from_json(x: Json) -> Option<(i64, Seq<char>, Seq<char>, Option<i64>)> {
    match (
        spec_opt_str(spec_get(x, "id"@)),
        spec_opt_str(spec_get(x, "filename"@)),
        spec_opt_str(spec_get(x, "mimeType"@)),
    ) {
        (Some(id), Some(filename), Some(mime)) => match spec_parse_i64(id) {
            Some(attachment_id) => Some(
                (
                    attachment_id,
                    filename,
                    mime,
                    match spec_get(x, "size"@) {
                        Some(s) => spec_as_i64(s),
                        None => None,
                    },
                ),
            ),
            None => None,
        },
        _ => None,
    }
}

/// One attachment, if it is well formed.
fn attachment_from_json(x: &Json) -> (res: Option<IssueAttachment>)
    ensures
        match res {
            Some(a) => spec_attachment_from_json(*x) == Some(a@),
            None => spec_attachment_from_json(*x) is None,
        },
{
    let id = get_str_for_key(x, "id");
    let filename = get_str_for_key(x, "filename");
    let mime = get_str_for_key(x, "mimeType");
    if id.is_none() || filename.is_none() || mime.is_none() {
        return None;
    }
    let attachment_id = match parse_i64(id.unwrap().as_str()) {
        Some(v) => v,
        None => return None,
    };
    let size = match x.get("size") {
        Some(s) => s.as_i64(),
        None => None,
    };
    Some(IssueAttachment { attachment_id, filename: filename.unwrap().clone(), mime_type: mime.unwrap().clone(), size })
}

/// The array `fields.attachment` of an issue's JSON.
pub open spec fn spec_attachment_array(j: Json) -> Option<Seq<Json>> {
    if j.value is Object {
        match spec_opt_object(spec_get(j, "fields"@)) {
            Some(f) => spec_opt_array(spec_get(f, "attachment"@)),
            None => None,
        }
    } else {
        None
    }
}

/// The attachments listed in `fields.attachment` of an issue's JSON; an error
/// when there is no such list, when an element is not an object, or when an
/// element lacks its id, name or type.
pub open spec fn spec_ticket_attachment_list(issue_key: Seq<char>, j: Json) -> Result<Seq<(i64, Seq<char>, Seq<char>, Option<i64>)>, Seq<char>> {
    let list = spec_attachment_array(j);
    match list {
        None => Err("Couldn't extract attachments from the returned json for issue "@ + issue_key),
        Some(a) => if !(forall|i: int| 0 <= i < a.len() ==> (#[trigger] a[i]).value is Object) {
            Err(
                "Invalid json found. Attachment should only contain objects. But at least one elements of "@
                    + issue_key + "'s attachment isn't"@,
            )
        } else {
            let atts = spec_filter_map(a, |x: Json| spec_attachment_from_json(x));
            if atts.len() != a.len() {
                Err("Some object in the attachment array for issue "@ + issue_key + " does not lead to valid attachment data"@)
            } else {
                Ok(atts)
            }
        },
    }
}

/// The attachments listed in an issue's JSON.
#[verifier::loop_isolation(false)]
pub fn get_ticket_attachment_list_from_json(issue_key: &str, json_data: &Json) -> (res: Result<Vec<IssueAttachment>, String>)
    ensures
        match res {
            Ok(v) => spec_ticket_attachment_list(issue_key@, *json_data) == Ok::<_, Seq<char>>(spec_views(v@)),
            Err(e) => spec_ticket_attachment_list(issue_key@, *json_data) == Err::<Seq<(i64, Seq<char>, Seq<char>, Option<i64>)>, _>(e@),
        },
{
    let list = if json_data.is_object() {
        match crate::json::get_object(json_data, "fields") {
            Some(fields) => crate::json::get_array(fields, "attachment"),
            None => None,
        }
    } else {
        None
    };
    let a = match list {
        None => {
            let mut msg = to_owned("Couldn't extract attachments from the returned json for issue ");
            msg.append(issue_key);
            return Err(msg);
        },
        Some(a) => a,
    };
    assert(spec_attachment_array(*json_data) == Some(a@));
    let mut k: usize = 0;
    while k < a.len()
        invariant
            k <= a.len(),
            spec_attachment_array(*json_data) == Some(a@),
            forall|m: int| 0 <= m < k ==> (#[trigger] a@[m]).value is Object,
        decreases a.len() - k,
    {
        if !a[k].is_object() {
            assert(!(a@[k as int].value is Object));
            let mut msg = to_owned("Invalid json found. Attachment should only contain objects. But at least one elements of ");
            msg.append(issue_key);
            msg.append("'s attachment isn't");
            return Err(msg);
        }
        k = k + 1;
    }
    let ghost f = |x: Json| spec_attachment_from_json(x);
    let mut res: Vec<IssueAttachment> = Vec::new();
    let mut i: usize = 0;
    while i < a.len()
        invariant
            i <= a.len(),
            f == (|x: Json| spec_attachment_from_json(x)),
            spec_views(res@) == spec_filter_map(a@.take(i as int), f),
        decreases a.len() - i,
    {
        proof { lemma_filter_map_step(a@, f, i as int); }
        if let Some(att) = attachment_from_json(&a[i]) {
            let ghost before = res@;
            res.push(att);
            assert(spec_views(res@) =~= spec_views(before).push(res@.last()@));
        }
        i = i + 1;
    }
    proof { lemma_take_all(a@); }
    if res.len() != a.len() {
        let mut msg = to_owned("Some object in the attachment array for issue ");
        msg.append(issue_key);
        msg.append(" does not lead to valid attachment data");
        return Err(msg);
    }
    Ok(res)
}

/// The well-formed attachments of the attachment list stored for an issue;
/// none when the stored value is not an array.
pub open spec fn spec_stored_attachments(j: Json) -> Seq<(i64, Seq<char>, Seq<char>, Option<i64>)> {
    match j.value {
        JsonValue::Array(a) => spec_filter_map(a@, |x: Json| spec_attachment_from_json(x)),
        _ => Seq::empty(),
    }
}

/// The well-formed attachments of the attachment list stored for an issue.
pub fn get_attachments_from_stored_json(json_data: &Json) -> (res: Vec<IssueAttachment>)
    ensures
        spec_views(res@) == spec_stored_attachments(*json_data),
{
    let a = match json_data.as_array() {
        None => return Vec::new(),
        Some(a) => a,
    };
    let ghost f = |x: Json| spec_attachment_from_json(x);
    let mut res: Vec<IssueAttachment> = Vec::new();
    let mut i: usize = 0;
    while i < a.len()
        invariant
            i <= a.len(),
            f == (|x: Json| spec_attachment_from_json(x)),
            spec_views(res@) == spec_filter_map(a@.take(i as int), f),
        decreases a.len() - i,
    {
        proof { lemma_filter_map_step(a@, f, i as int); }
        if let Some(att) = attachment_from_json(&a[i]) {
            let ghost before = res@;
            res.push(att);
            assert(spec_views(res@) =~= spec_views(before).push(res@.last()@));
        }
        i = i + 1;
    }
    proof { lemma_take_all(a@); }
    res
}

/// An attachment with what is needed to store it.
pub struct AttachmentWithFileDetails {
    pub attachment_id: i64,
    pub filename: String,
    pub mime_type: String,
    pub size: Option<i64>,
    pub uuid: Option<String>,
    pub issue_id: u32,
}

/// The position of the last `c` in `s`.
pub open spec fn spec_last_index(s: Seq<char>, c: char) -> Option<int>
    decreases s.len(),
{
    if s.len() == 0 {
        None
    } else if s.last() == c {
        Some(s.len() - 1)
    } else {
        spec_last_index(s.drop_last(), c)
    }
}

/// The file name can be split around its last parentheses: it does not have
/// a last `(` after its last `)`.
pub open spec fn spec_parentheses_in_order(filename: Seq<char>) -> bool {
    match (spec_last_index(filename, '('), spec_last_index(filename, ')')) {
        (Some(b), Some(e)) => b < e,
        _ => true,
    }
}

/// The UUID written in a file name: what stands between its last `(` and
/// its last `)`.
pub open spec fn spec_uuid_in_filename(filename: Seq<char>) -> Option<Seq<char>> {
    match (spec_last_index(filename, '('), spec_last_index(filename, ')')) {
        (Some(b), Some(e)) => Some(filename.subrange(b + 1, e)),
        _ => None,
    }
}

/// The position of the last `c`, when there is one, is a position of `c`.
proof fn lemma_last_index_in_range(s: Seq<char>, c: char)
    ensures
        spec_last_index(s, c) matches Some(i) ==> 0 <= i < s.len() && s[i] == c,
    decreases s.len(),
{
    if s.len() > 0 && s.last() != c {
        lemma_last_index_in_range(s.drop_last(), c);
    }
}

/// The position of the last `c` in `chars`.
fn last_index(chars: &Vec<char>, c: char) -> (res: Option<usize>)
    ensures
        match res {
            Some(i) => spec_last_index(chars@, c) == Some(i as int),
            None => spec_last_index(chars@, c) is None,
        },
{
    let mut i: usize = chars.len();
    assert(chars@.take(chars.len() as int) == chars@);
    while i > 0
        invariant
            i <= chars.len(),
            spec_last_index(chars@, c) == spec_last_index(chars@.take(i as int), c),
        decreases i,
    {
        let ghost t = chars@.take(i as int);
        assert(t.drop_last() == chars@.take(i - 1));
        assert(t.last() == chars@[i - 1]);
        if chars[i - 1] == c {
            return Some(i - 1);
        }
        i = i - 1;
    }
    None
}

/// The attachment with the UUID its file name carries, for issue `issue_id`.
pub fn add_details_to_attachment(issue_id: u32, attachment: IssueAttachment) -> (res: AttachmentWithFileDetails)
    requires
        spec_parentheses_in_order(attachment.filename@),
    ensures
        res.attachment_id == attachment.attachment_id,
        res.filename@ == attachment.filename@,
        res.mime_type@ == attachment.mime_type@,
        res.size == attachment.size,
        res.issue_id == issue_id,
        match res.uuid {
            Some(u) => spec_uuid_in_filename(attachment.filename@) == Some(u@),
            None => spec_uuid_in_filename(attachment.filename@) is None,
        },
{
    let chars = chars_of(attachment.filename.as_str());
    proof {
        lemma_last_index_in_range(chars@, '(');
        lemma_last_index_in_range(chars@, ')');
    }
    let uuid = match (last_index(&chars, '('), last_index(&chars, ')')) {
        (Some(b), Some(e)) => Some(string_from_chars(&chars, b + 1, e)),
        _ => None,
    };
    AttachmentWithFileDetails {
        attachment_id: attachment.attachment_id,
        filename: attachment.filename,
        mime_type: attachment.mime_type,
        size: attachment.size,
        uuid,
        issue_id,
    }
}

/// What synchronising an issue's attachments writes: the stored ids the
/// server no longer lists, and the listed attachments not stored yet.
pub struct AttachmentUpdates {
    pub ids_to_delete: Vec<i64>,
    pub attachments_to_insert: Vec<AttachmentWithFileDetails>,
}

/// The stored ids that no listed attachment has, in order.
pub open spec fn spec_ids_not_listed(ids_in_db: Seq<i64>, listed: Seq<(i64, Seq<char>, Seq<char>, Option<i64>)>) -> Seq<i64> {
    ids_in_db.filter(|id: i64| !listed.map_values(|a: (i64, Seq<char>, Seq<char>, Option<i64>)| a.0).contains(id))
}

/// The listed attachments whose id is not stored, in order.
pub open spec fn spec_attachments_not_stored(listed: Seq<(i64, Seq<char>, Seq<char>, Option<i64>)>, ids_in_db: Seq<i64>) -> Seq<(i64, Seq<char>, Seq<char>, Option<i64>)> {
    listed.filter(|a: (i64, Seq<char>, Seq<char>, Option<i64>)| !ids_in_db.contains(a.0))
}

/// Whether `id` is among `ids`.
fn contains_id(ids: &[i64], id: i64) -> (res: bool)
    ensures
        res == ids@.contains(id),
{
    let mut i: usize = 0;
    while i < ids.len()
        invariant
            i <= ids.len(),
            forall|k: int| 0 <= k < i ==> ids@[k] != id,
        decreases ids.len() - i,
    {
        if ids[i] == id {
            return true;
        }
        i = i + 1;
    }
    false
}

/// Deleting the stored attachments the server no longer lists, then storing
/// the listed ones not stored yet, leaves stored exactly the ids the server
/// lists.
pub proof fn lemma_attachment_sync_reaches_listed(ids_in_db: Seq<i64>, listed: Seq<(i64, Seq<char>, Seq<char>, Option<i64>)>)
    ensures
        ids_in_db.to_set().difference(spec_ids_not_listed(ids_in_db, listed).to_set()).union(
            spec_attachments_not_stored(listed, ids_in_db).map_values(
                |a: (i64, Seq<char>, Seq<char>, Option<i64>)| a.0,
            ).to_set(),
        ) == listed.map_values(|a: (i64, Seq<char>, Seq<char>, Option<i64>)| a.0).to_set(),
{
    broadcast use vstd::seq_lib::group_filter_ensures;
    let lid = listed.map_values(|a: (i64, Seq<char>, Seq<char>, Option<i64>)| a.0);
    let not_listed_pred = |id: i64| !lid.contains(id);
    let not_stored_pred = |a: (i64, Seq<char>, Seq<char>, Option<i64>)| !ids_in_db.contains(a.0);
    let not_listed = spec_ids_not_listed(ids_in_db, listed);
    let ins = spec_attachments_not_stored(listed, ids_in_db);
    let ins_ids = ins.map_values(|a: (i64, Seq<char>, Seq<char>, Option<i64>)| a.0);
    assert(not_listed == ids_in_db.filter(not_listed_pred));
    assert(ins == listed.filter(not_stored_pred));
    let lhs = ids_in_db.to_set().difference(not_listed.to_set()).union(ins_ids.to_set());
    assert forall|x: i64| lhs.contains(x) <==> lid.to_set().contains(x) by {
        if ids_in_db.contains(x) && !not_listed.contains(x) && !lid.contains(x) {
            let i = choose|i: int| 0 <= i < ids_in_db.len() && ids_in_db[i] == x;
            ids_in_db.lemma_filter_contains(not_listed_pred, i);
        }
        if ins_ids.contains(x) {
            let k = choose|k: int| 0 <= k < ins_ids.len() && ins_ids[k] == x;
            listed.lemma_filter_contains_rev(not_stored_pred, ins[k]);
            let j = choose|j: int| 0 <= j < listed.len() && listed[j] == ins[k];
            assert(lid[j] == x);
        }
        if lid.contains(x) {
            let j = choose|j: int| 0 <= j < lid.len() && lid[j] == x;
            if ids_in_db.contains(x) {
                if not_listed.contains(x) {
                    let k = choose|k: int| 0 <= k < not_listed.len() && not_listed[k] == x;
                    assert(not_listed_pred(not_listed[k]));
                }
            } else {
                listed.lemma_filter_contains(not_stored_pred, j);
                let k = choose|k: int| 0 <= k < ins.len() && ins[k] == listed[j];
                assert(ins_ids[k] == x);
            }
        }
    }
    assert(lhs =~= lid.to_set());
}

/// Whether every listed attachment that is not stored yet has a file name
/// with its last `(` before its last `)`, so that the UUID between them can be
/// taken. Stored attachments are not looked at: their details are not derived
/// again.
pub fn attachment_names_in_order(attachments: &Vec<IssueAttachment>, ids_in_db: &[i64]) -> (res: bool)
    ensures
        res == forall|i: int|
            0 <= i < attachments@.len() && !ids_in_db@.contains(#[trigger] attachments@[i].attachment_id)
                ==> spec_parentheses_in_order(attachments@[i].filename@),
{
    let mut i: usize = 0;
    while i < attachments.len()
        invariant
            i <= attachments.len(),
            forall|k: int|
                0 <= k < i && !ids_in_db@.contains(#[trigger] attachments@[k].attachment_id)
                    ==> spec_parentheses_in_order(attachments@[k].filename@),
        decreases attachments.len() - i,
    {
        if !contains_id(ids_in_db, attachments[i].attachment_id) {
            let chars = chars_of(attachments[i].filename.as_str());
            let in_order = match (last_index(&chars, '('), last_index(&chars, ')')) {
                (Some(b), Some(e)) => b < e,
                _ => true,
            };
            if !in_order {
                assert(!spec_parentheses_in_order(attachments@[i as int].filename@));
                return false;
            }
        }
        i = i + 1;
    }
    true
}

/// What synchronising an issue's attachments writes.
pub fn plan_attachment_updates(issue_id: u32, attachments: Vec<IssueAttachment>, ids_in_db: &[i64]) -> (res: AttachmentUpdates)
    requires
        forall|i: int|
            0 <= i < attachments@.len() && !ids_in_db@.contains(#[trigger] attachments@[i].attachment_id)
                ==> spec_parentheses_in_order(attachments@[i].filename@),
    ensures
        res.ids_to_delete@ == spec_ids_not_listed(ids_in_db@, spec_views(attachments@)),
        res.attachments_to_insert@.map_values(|a: AttachmentWithFileDetails| (a.attachment_id, a.filename@, a.mime_type@, a.size))
            == spec_attachments_not_stored(spec_views(attachments@), ids_in_db@),
        forall|i: int| 0 <= i < res.attachments_to_insert@.len() ==> {
            let a = #[trigger] res.attachments_to_insert@[i];
            &&& a.issue_id == issue_id
            &&& match a.uuid {
                Some(u) => spec_uuid_in_filename(a.filename@) == Some(u@),
                None => spec_uuid_in_filename(a.filename@) is None,
            }
        },
{
    let ghost av = spec_views(attachments@);
    let ghost listed_ids = av.map_values(|a: (i64, Seq<char>, Seq<char>, Option<i64>)| a.0);
    let mut listed: Vec<i64> = Vec::new();
    let mut k: usize = 0;
    while k < attachments.len()
        invariant
            k <= attachments.len(),
            av == spec_views(attachments@),
            listed@.len() == k,
            forall|m: int| 0 <= m < k ==> #[trigger] listed@[m] == attachments@[m].attachment_id,
        decreases attachments.len() - k,
    {
        listed.push(attachments[k].attachment_id);
        k = k + 1;
    }
    assert(listed@ =~= listed_ids);
    let ghost del_pred = |id: i64| !listed_ids.contains(id);
    let mut ids_to_delete: Vec<i64> = Vec::new();
    let mut i: usize = 0;
    while i < ids_in_db.len()
        invariant
            i <= ids_in_db.len(),
            listed@ == listed_ids,
            del_pred == (|id: i64| !listed_ids.contains(id)),
            ids_to_delete@ == ids_in_db@.take(i as int).filter(del_pred),
        decreases ids_in_db.len() - i,
    {
        assert(ids_in_db@.take(i + 1).drop_last() == ids_in_db@.take(i as int));
        reveal(Seq::filter);
        if !contains_id(listed.as_slice(), ids_in_db[i]) {
            ids_to_delete.push(ids_in_db[i]);
        }
        i = i + 1;
    }
    assert(ids_in_db@.take(ids_in_db.len() as int) == ids_in_db@);
    let ghost ins_pred = |a: (i64, Seq<char>, Seq<char>, Option<i64>)| !ids_in_db@.contains(a.0);
    let mut attachments_to_insert: Vec<AttachmentWithFileDetails> = Vec::new();
    let mut j: usize = 0;
    while j < attachments.len()
        invariant
            j <= attachments.len(),
            av == spec_views(attachments@),
            forall|m: int|
                0 <= m < attachments@.len() && !ids_in_db@.contains(#[trigger] attachments@[m].attachment_id)
                    ==> spec_parentheses_in_order(attachments@[m].filename@),
            ins_pred == (|a: (i64, Seq<char>, Seq<char>, Option<i64>)| !ids_in_db@.contains(a.0)),
            attachments_to_insert@.map_values(|a: AttachmentWithFileDetails| (a.attachment_id, a.filename@, a.mime_type@, a.size))
                == av.take(j as int).filter(ins_pred),
            forall|m: int| 0 <= m < attachments_to_insert@.len() ==> {
                let a = #[trigger] attachments_to_insert@[m];
                &&& a.issue_id == issue_id
                &&& match a.uuid {
                    Some(u) => spec_uuid_in_filename(a.filename@) == Some(u@),
                    None => spec_uuid_in_filename(a.filename@) is None,
                }
            },
        decreases attachments.len() - j,
    {
        let att = &attachments[j];
        assert(av.take(j + 1).drop_last() == av.take(j as int));
        assert(av.take(j + 1).last() == att@);
        reveal(Seq::filter);
        if !contains_id(ids_in_db, att.attachment_id) {
            let ghost before = attachments_to_insert@;
            let copy = IssueAttachment {
                attachment_id: att.attachment_id,
                filename: att.filename.clone(),
                mime_type: att.mime_type.clone(),
                size: att.size,
            };
            let details = add_details_to_attachment(issue_id, copy);
            attachments_to_insert.push(details);
            assert(attachments_to_insert@.map_values(|a: AttachmentWithFileDetails| (a.attachment_id, a.filename@, a.mime_type@, a.size))
                =~= before.map_values(|a: AttachmentWithFileDetails| (a.attachment_id, a.filename@, a.mime_type@, a.size)).push(
                (details.attachment_id, details.filename@, details.mime_type@, details.size),
            ));
        }
        j = j + 1;
    }
    assert(av.take(j as int) == av);
    AttachmentUpdates { ids_to_delete, attachments_to_insert }
}

/// The downloaded content to store for an attachment of the given size: the
/// bytes, when they were downloaded and have that size.
pub fn content_to_store(file_size: i64, downloaded: &file_data) -> (res: Option<&Vec<u8>>)
    ensures
        match res {
            Some(b) => downloaded.bytes == Some(*b) && b@.len() == file_size as usize,
            None => match downloaded.bytes {
                Some(b) => b@.len() != file_size as usize,
                None => true,
            },
        },
{
    match &downloaded.bytes {
        None => None,
        Some(v) => if v.len() == file_size as usize {
            Some(v)
        } else {
            None
        },
    }
}

} // verus!
