use vstd::prelude::*;

use crate::server::{result_reply, spec_param_count_error, split_params, Reply};
use crate::text::spec_split;

verus! {

/// The ticket's key, or the reply refusing the parameters.
pub fn synchronise_ticket_params(request_id: &str, params: &str) -> (res: Result<String, Reply>)
    ensures
        match res {
            Ok(key) => spec_split(params@, ',').len() == 1 && key@ == spec_split(params@, ',')[0],
            Err(r) => spec_split(params@, ',').len() != 1 && r.0@ == spec_param_count_error(
                request_id@,
                "SYNCHRONISE_TICKET needs one parameter (a jira issue like PROJ-123)"@,
                spec_split(params@, ',').len(),
                params@,
            ),
        },
{
    match split_params(request_id, params, 1, "SYNCHRONISE_TICKET needs one parameter (a jira issue like PROJ-123)") {
        Ok(p) => {
            assert(p@[0]@ == spec_split(params@, ',')[0]);
            Ok(p[0].clone())
        },
        Err(r) => Err(r),
    }
}

/// `<id> RESULT synchronisation started\n`, sent after the acknowledgement.
pub fn synchronisation_started_reply(request_id: &str) -> (res: Reply)
    ensures
        res.0@ == request_id@ + " RESULT "@ + "synchronisation started"@ + "\n"@,
{
    result_reply(request_id, "synchronisation started")
}

/// `<id> RESULT synchronisation finished\n`, sent once the ticket is synchronised.
pub fn synchronisation_finished_reply(request_id: &str) -> (res: Reply)
    ensures
        res.0@ == request_id@ + " RESULT "@ + "synchronisation finished"@ + "\n"@,
{
    result_reply(request_id, "synchronisation finished")
}

} // verus!
