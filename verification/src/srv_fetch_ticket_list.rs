use vstd::prelude::*;

use crate::server::{error_reply, result_reply_or_empty, Reply};
use crate::text::str_eq;

verus! {

/// The reply carrying the list of ticket keys (`RESULT` alone for an empty
/// list), or the error.
pub open spec fn spec_ticket_list_reply(request_id: Seq<char>, data: Result<Seq<char>, Seq<char>>) -> Seq<char> {
    match data {
        Ok(d) => if d.len() == 0 { request_id + " RESULT\n"@ } else { request_id + " RESULT "@ + d + "\n"@ },
        Err(e) => request_id + " ERROR "@ + e + "\n"@,
    }
}

/// The view of a result of strings.
pub open spec fn spec_result_view(r: Result<String, String>) -> Result<Seq<char>, Seq<char>> {
    match r {
        Ok(d) => Ok(d@),
        Err(e) => Err(e@),
    }
}

/// The reply carrying the list of ticket keys, or the error.
pub fn ticket_list_reply(request_id: &str, data: &Result<String, String>) -> (res: Reply)
    ensures
        res.0@ == spec_ticket_list_reply(request_id@, spec_result_view(*data)),
{
    match data {
        Ok(d) => result_reply_or_empty(request_id, d.as_str()),
        Err(e) => error_reply(request_id, e.as_str()),
    }
}

/// The reply to send once the projects have been synchronised: nothing when
/// the list did not change.
pub fn newer_ticket_list_reply(request_id: &str, newest: &Result<String, String>, stored: &Result<String, String>) -> (res: Option<Reply>)
    ensures
        match (newest, stored) {
            (Ok(n), Ok(o)) => if n@ == o@ {
                res is None
            } else {
                res matches Some(r) && r.0@ == spec_ticket_list_reply(request_id@, spec_result_view(*newest))
            },
            _ => res matches Some(r) && r.0@ == spec_ticket_list_reply(request_id@, spec_result_view(*newest)),
        },
{
    if let (Ok(n), Ok(o)) = (newest, stored) {
        if str_eq(n.as_str(), o.as_str()) {
            return None;
        }
    }
    Some(ticket_list_reply(request_id, newest))
}

} // verus!
