use vstd::prelude::*;

use crate::encoding::{base64_encode, spec_base64};
use crate::server::{error_reply, result_reply, spec_param_count_error, split_params, Reply};
use crate::text::{spec_split, to_owned};

verus! {

/// The content of the stored file with the given UUID, in base64, or the
/// error when the database holds no content for it.
pub open spec fn spec_attachment_content(uuid: Seq<char>, content: Option<Seq<u8>>) -> Result<Seq<char>, Seq<char>> {
    match content {
        None => Err("No data found for file with uuid "@ + uuid + " in local database"@),
        Some(c) => Ok(spec_base64(c)),
    }
}

/// The content of the stored file with the given UUID, in base64.
pub fn get_attachment_content(uuid: &str, content: Option<Vec<u8>>) -> (res: Result<String, String>)
    ensures
        match res {
            Ok(d) => spec_attachment_content(uuid@, match content {
                Some(c) => Some(c@),
                None => None,
            }) == Ok::<_, Seq<char>>(d@),
            Err(e) => spec_attachment_content(uuid@, match content {
                Some(c) => Some(c@),
                None => None,
            }) == Err::<Seq<char>, _>(e@),
        },
{
    match content {
        None => {
            let mut msg = to_owned("No data found for file with uuid ");
            msg.append(uuid);
            msg.append(" in local database");
            Err(msg)
        },
        Some(v) => Ok(base64_encode(v.as_slice())),
    }
}

/// The attachment's UUID, or the reply refusing the parameters.
pub fn attachment_content_params(request_id: &str, params: &str) -> (res: Result<String, Reply>)
    ensures
        match res {
            Ok(uuid) => spec_split(params@, ',').len() == 1 && uuid@ == spec_split(params@, ',')[0],
            Err(r) => spec_split(params@, ',').len() != 1 && r.0@ == spec_param_count_error(
                request_id@,
                "FETCH_ATTACHMENT_LIST_FOR_TICKET need one parameter (the ticket id, like PROJ-123)"@,
                spec_split(params@, ',').len(),
                params@,
            ),
        },
{
    match split_params(request_id, params, 1, "FETCH_ATTACHMENT_LIST_FOR_TICKET need one parameter (the ticket id, like PROJ-123)") {
        Ok(p) => {
            assert(p@[0]@ == spec_split(params@, ',')[0]);
            Ok(p[0].clone())
        },
        Err(r) => Err(r),
    }
}

/// The reply carrying the file's content, or the error.
pub fn attachment_content_reply(request_id: &str, data: &Result<String, String>) -> (res: Reply)
    ensures
        res.0@ == match data {
            Ok(d) => request_id@ + " RESULT "@ + d@ + "\n"@,
            Err(e) => request_id@ + " ERROR "@ + e@ + "\n"@,
        },
{
    match data {
        Ok(d) => result_reply(request_id, d.as_str()),
        Err(e) => error_reply(request_id, e.as_str()),
    }
}

} // verus!
