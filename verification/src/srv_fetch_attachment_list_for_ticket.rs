use vstd::prelude::*;

use crate::encoding::{base64_of_str, spec_base64};
use crate::get_issue_details::IssueAttachment;
use crate::server::{error_reply, result_reply, spec_param_count_error, split_params, Reply};
use crate::text::{decimal_i64, join, spec_decimal_i64, spec_join, spec_split, str_eq, to_owned};
use crate::utils::spec_views;

verus! {

/// An attachment of a ticket as the client sees it: its UUID and file name.
#[allow(non_camel_case_types)]
pub struct attachment_name_in_db {
    pub uuid: String,
    pub filename: String,
}

impl View for attachment_name_in_db {
    type V = (Seq<char>, Seq<char>);

    open spec fn view(&self) -> (Seq<char>, Seq<char>) {
        (self.uuid@, self.filename@)
    }
}

/// The UUID the local database gives an attachment id.
#[allow(non_camel_case_types)]
pub struct uuid_id {
    pub uuid: String,
    pub id: i64,
}

/// The UUID the database gives the attachment id: that of the first row.
pub open spec fn spec_uuid_for_id(rows: Seq<uuid_id>, id: i64) -> Option<Seq<char>>
    decreases rows.len(),
{
    if rows.len() == 0 {
        None
    } else if rows[0].id == id {
        Some(rows[0].uuid@)
    } else {
        spec_uuid_for_id(rows.drop_first(), id)
    }
}

/// The UUID the database gives the attachment id.
fn uuid_for_id(rows: &[uuid_id], id: i64) -> (res: Option<&String>)
    ensures
        match res {
            Some(u) => spec_uuid_for_id(rows@, id) == Some(u@),
            None => spec_uuid_for_id(rows@, id) is None,
        },
{
    let mut i: usize = 0;
    assert(rows@.skip(0) == rows@);
    while i < rows.len()
        invariant
            i <= rows.len(),
            spec_uuid_for_id(rows@, id) == spec_uuid_for_id(rows@.skip(i as int), id),
        decreases rows.len() - i,
    {
        let ghost rest = rows@.skip(i as int);
        assert(rest[0] == rows@[i as int]);
        assert(rest.drop_first() == rows@.skip(i + 1));
        if rows[i].id == id {
            return Some(&rows[i].uuid);
        }
        i = i + 1;
    }
    None
}

/// The error for an attachment the database has no UUID for.
pub open spec fn spec_missing_uuid(issue_key: Seq<char>, a: (i64, Seq<char>, Seq<char>, Option<i64>)) -> Seq<char> {
    "local db has no uuid for attachment of "@ + issue_key + " with id="@ + spec_decimal_i64(a.0) + " and name "@ + a.1
}

/// The attachments with the UUIDs the database gives them, or, when some
/// have none, the errors for those, one per line.
pub open spec fn spec_add_uuid_to_names(
    attachments: Seq<(i64, Seq<char>, Seq<char>, Option<i64>)>,
    issue_key: Seq<char>,
    rows: Seq<uuid_id>,
) -> Result<Seq<(Seq<char>, Seq<char>)>, Seq<char>> {
    let missing = attachments.filter(|a: (i64, Seq<char>, Seq<char>, Option<i64>)| spec_uuid_for_id(rows, a.0) is None);
    if missing.len() > 0 {
        Err(spec_join(missing.map_values(|a: (i64, Seq<char>, Seq<char>, Option<i64>)| spec_missing_uuid(issue_key, a)), "\n"@))
    } else {
        Ok(attachments.map_values(|a: (i64, Seq<char>, Seq<char>, Option<i64>)| (spec_uuid_for_id(rows, a.0).unwrap(), a.1)))
    }
}

/// The attachments of a ticket with the UUIDs the database gives them.
pub fn add_uuid_to_names(attachment_list: &[IssueAttachment], issue_key: &str, uuid_id_in_db: &[uuid_id]) -> (res: Result<Vec<attachment_name_in_db>, String>)
    ensures
        match res {
            Ok(v) => spec_add_uuid_to_names(spec_views(attachment_list@), issue_key@, uuid_id_in_db@) == Ok::<_, Seq<char>>(spec_views(v@)),
            Err(e) => spec_add_uuid_to_names(spec_views(attachment_list@), issue_key@, uuid_id_in_db@) == Err::<Seq<(Seq<char>, Seq<char>)>, _>(e@),
        },
{
    let ghost av = spec_views(attachment_list@);
    let ghost rows = uuid_id_in_db@;
    let ghost pred = |a: (i64, Seq<char>, Seq<char>, Option<i64>)| spec_uuid_for_id(rows, a.0) is None;
    let ghost msgf = |a: (i64, Seq<char>, Seq<char>, Option<i64>)| spec_missing_uuid(issue_key@, a);
    let mut errors: Vec<String> = Vec::new();
    let mut names: Vec<attachment_name_in_db> = Vec::new();
    let mut i: usize = 0;
    while i < attachment_list.len()
        invariant
            i <= attachment_list.len(),
            av == spec_views(attachment_list@),
            rows == uuid_id_in_db@,
            pred == (|a: (i64, Seq<char>, Seq<char>, Option<i64>)| spec_uuid_for_id(rows, a.0) is None),
            msgf == (|a: (i64, Seq<char>, Seq<char>, Option<i64>)| spec_missing_uuid(issue_key@, a)),
            errors@.map_values(|x: String| x@) == av.take(i as int).filter(pred).map_values(msgf),
            av.take(i as int).filter(pred).len() == 0 ==> spec_views(names@) == av.take(i as int).map_values(
                |a: (i64, Seq<char>, Seq<char>, Option<i64>)| (spec_uuid_for_id(rows, a.0).unwrap(), a.1),
            ),
        decreases attachment_list.len() - i,
    {
        let a = &attachment_list[i];
        assert(av.take(i + 1).drop_last() == av.take(i as int));
        assert(av.take(i + 1).last() == a@);
        reveal(Seq::filter);
        match uuid_for_id(uuid_id_in_db, a.attachment_id) {
            None => {
                let mut msg = to_owned("local db has no uuid for attachment of ");
                msg.append(issue_key);
                msg.append(" with id=");
                msg.append(decimal_i64(a.attachment_id).as_str());
                msg.append(" and name ");
                msg.append(a.filename.as_str());
                let ghost before = errors@;
                errors.push(msg);
                assert(errors@.map_values(|x: String| x@) =~= before.map_values(|x: String| x@).push(msgf(a@)));
            },
            Some(u) => {
                let ghost before = names@;
                names.push(attachment_name_in_db { uuid: u.clone(), filename: a.filename.clone() });
                assert(spec_views(names@) =~= spec_views(before).push(names@.last()@));
            },
        }
        i = i + 1;
    }
    assert(av.take(attachment_list.len() as int) == av);
    if errors.len() > 0 {
        return Err(join(&errors, "\n"));
    }
    Ok(names)
}

/// Both lists have the same length and each attachment of the first is in
/// the second.
pub open spec fn spec_same_attachment_names(p1: Seq<(Seq<char>, Seq<char>)>, p2: Seq<(Seq<char>, Seq<char>)>) -> bool {
    p1.len() == p2.len() && forall|i: int| 0 <= i < p1.len() ==> p2.contains(#[trigger] p1[i])
}

/// Law: the order of the attachments does not matter: a list and any
/// reordering of it name the same attachments.
pub proof fn lemma_reordered_attachment_names_equal(p1: Seq<(Seq<char>, Seq<char>)>, p2: Seq<(Seq<char>, Seq<char>)>)
    requires
        p1.to_multiset() == p2.to_multiset(),
    ensures
        spec_same_attachment_names(p1, p2),
{
    broadcast use vstd::seq_lib::group_to_multiset_ensures;
    assert(p1.len() == p1.to_multiset().len());
    assert forall|i: int| 0 <= i < p1.len() implies p2.contains(#[trigger] p1[i]) by {
        assert(p1.contains(p1[i]));
        assert(p1.to_multiset().count(p1[i]) > 0);
    }
}

/// Whether two lists name the same attachments.
pub fn are_attachment_names_equal(param1: &[attachment_name_in_db], param2: &[attachment_name_in_db]) -> (res: bool)
    ensures
        res == spec_same_attachment_names(spec_views(param1@), spec_views(param2@)),
{
    if param1.len() != param2.len() {
        return false;
    }
    let ghost v2 = spec_views(param2@);
    let mut i: usize = 0;
    while i < param1.len()
        invariant
            i <= param1.len(),
            v2 == spec_views(param2@),
            forall|k: int| 0 <= k < i ==> v2.contains(#[trigger] spec_views(param1@)[k]),
        decreases param1.len() - i,
    {
        let x = &param1[i];
        let mut found = false;
        let mut j: usize = 0;
        while j < param2.len()
            invariant
                j <= param2.len(),
                v2 == spec_views(param2@),
                found ==> v2.contains(x@),
                !found ==> forall|m: int| 0 <= m < j ==> v2[m] != x@,
            decreases param2.len() - j,
        {
            if str_eq(param2[j].uuid.as_str(), x.uuid.as_str()) && str_eq(param2[j].filename.as_str(), x.filename.as_str()) {
                assert(v2[j as int] == x@);
                found = true;
            }
            j = j + 1;
        }
        assert(spec_views(param1@)[i as int] == x@);
        if !found {
            assert(!v2.contains(x@));
            return false;
        }
        i = i + 1;
    }
    true
}

/// One attachment as the client receives it: `<uuid>:<file name in base64>`.
pub open spec fn spec_attachment_entry(a: (Seq<char>, Seq<char>)) -> Seq<char> {
    a.0 + ":"@ + spec_base64(vstd::utf8::encode_utf8(a.1))
}

/// The attachments as the client receives them, separated by commas.
pub open spec fn spec_attachment_list(list: Seq<(Seq<char>, Seq<char>)>) -> Seq<char> {
    spec_join(list.map_values(|a: (Seq<char>, Seq<char>)| spec_attachment_entry(a)), ","@)
}

/// The attachments as the client receives them.
pub fn format_attachment_list(attachment_list: &[attachment_name_in_db]) -> (res: String)
    ensures
        res@ == spec_attachment_list(spec_views(attachment_list@)),
{
    let mut parts: Vec<String> = Vec::new();
    let mut i: usize = 0;
    while i < attachment_list.len()
        invariant
            i <= attachment_list.len(),
            parts@.len() == i,
            forall|k: int| 0 <= k < i ==> (#[trigger] parts@[k])@ == spec_attachment_entry(attachment_list@[k]@),
        decreases attachment_list.len() - i,
    {
        let mut part = attachment_list[i].uuid.clone();
        part.append(":");
        part.append(base64_of_str(attachment_list[i].filename.as_str()).as_str());
        parts.push(part);
        i = i + 1;
    }
    assert(parts@.map_values(|x: String| x@) =~= spec_views(attachment_list@).map_values(
        |a: (Seq<char>, Seq<char>)| spec_attachment_entry(a),
    ));
    join(&parts, ",")
}

/// The ticket's key, or the reply refusing the parameters.
pub fn attachment_list_params(request_id: &str, params: &str) -> (res: Result<String, Reply>)
    ensures
        match res {
            Ok(key) => spec_split(params@, ',').len() == 1 && key@ == spec_split(params@, ',')[0],
            Err(r) => spec_split(params@, ',').len() != 1 && r.0@ == spec_param_count_error(
                request_id@,
                "FETCH_ATTACHMENT_LIST_FOR_TICKET need one parameter (the ticket id, like PROJ-123)"@,
                spec_split(params@, ',').len(),
                params@,
            ),
        },
{
    match split_params(request_id, params, 1, "FETCH_ATTACHMENT_LIST_FOR_TICKET need one parameter (the ticket id, like PROJ-123)") {
        Ok(p) => {
            assert(p@[0]@ == spec_split(params@, ',')[0]);
            Ok(p[0].clone())
        },
        Err(r) => Err(r),
    }
}

/// The reply carrying the list of attachments; the space after `RESULT` is
/// there even for an empty list.
pub fn attachment_list_reply(request_id: &str, data: &Result<Vec<attachment_name_in_db>, String>) -> (res: Reply)
    ensures
        res.0@ == match data {
            Ok(v) => request_id@ + " RESULT "@ + spec_attachment_list(spec_views(v@)) + "\n"@,
            Err(e) => request_id@ + " ERROR "@ + e@ + "\n"@,
        },
{
    match data {
        Ok(v) => result_reply(request_id, format_attachment_list(v.as_slice()).as_str()),
        Err(e) => error_reply(request_id, e.as_str()),
    }
}

/// The reply to send once the list has been read from the server: nothing
/// when it names the same attachments as the stored one.
pub fn newer_attachment_list_reply(
    request_id: &str,
    newest: &Result<Vec<attachment_name_in_db>, String>,
    stored: &Result<Vec<attachment_name_in_db>, String>,
) -> (res: Option<Reply>)
    ensures
        match (newest, stored) {
            (Ok(n), Ok(o)) => if spec_same_attachment_names(spec_views(n@), spec_views(o@)) {
                res is None
            } else {
                res matches Some(r) && r.0@ == request_id@ + " RESULT "@ + spec_attachment_list(spec_views(n@)) + "\n"@
            },
            (Ok(n), Err(_)) => res matches Some(r) && r.0@ == request_id@ + " RESULT "@ + spec_attachment_list(spec_views(n@)) + "\n"@,
            (Err(e), _) => res matches Some(r) && r.0@ == request_id@ + " ERROR "@ + e@ + "\n"@,
        },
{
    if let (Ok(n), Ok(o)) = (newest, stored) {
        if are_attachment_names_equal(n.as_slice(), o.as_slice()) {
            return None;
        }
    }
    Some(attachment_list_reply(request_id, newest))
}

} // verus!
