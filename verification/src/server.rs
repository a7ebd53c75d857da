use vstd::prelude::*;

use crate::text::{chars_of, decimal, string_from_chars, lemma_split_concat, lemma_split_no_sep, spec_decimal, spec_split, split_char, str_eq, to_owned};

verus! {

// ---------------------------------------------------------------------------
// Requests
// ---------------------------------------------------------------------------

/// What a client asks the server to do.
#[allow(non_camel_case_types)]
pub enum RequestKind {
    Fetch_Ticket(String),
    Fetch_Ticket_List,
    Fetch_Ticket_Key_Value_Fields(String),
    Fetch_Attachment_List_For_Ticket(String),
    Fetch_Attachment_Content(String),
    Synchronise_Ticket(String),
    Synchronise_Updated,
    Synchronise_All,
    Exit_Server_After_Requests,
    Exit_Server_Now,
    Push_error_message(String),
}

/// The mathematical counterpart of [`RequestKind`].
pub enum RequestKindView {
    FetchTicket(Seq<char>),
    FetchTicketList,
    FetchTicketKeyValueFields(Seq<char>),
    FetchAttachmentListForTicket(Seq<char>),
    FetchAttachmentContent(Seq<char>),
    SynchroniseTicket(Seq<char>),
    SynchroniseUpdated,
    SynchroniseAll,
    ExitServerAfterRequests,
    ExitServerNow,
    PushErrorMessage(Seq<char>),
}

impl View for RequestKind {
    type V = RequestKindView;

    open spec fn view(&self) -> RequestKindView {
        match self {
            RequestKind::Fetch_Ticket(p) => RequestKindView::FetchTicket(p@),
            RequestKind::Fetch_Ticket_List => RequestKindView::FetchTicketList,
            RequestKind::Fetch_Ticket_Key_Value_Fields(p) => RequestKindView::FetchTicketKeyValueFields(p@),
            RequestKind::Fetch_Attachment_List_For_Ticket(p) => RequestKindView::FetchAttachmentListForTicket(p@),
            RequestKind::Fetch_Attachment_Content(p) => RequestKindView::FetchAttachmentContent(p@),
            RequestKind::Synchronise_Ticket(p) => RequestKindView::SynchroniseTicket(p@),
            RequestKind::Synchronise_Updated => RequestKindView::SynchroniseUpdated,
            RequestKind::Synchronise_All => RequestKindView::SynchroniseAll,
            RequestKind::Exit_Server_After_Requests => RequestKindView::ExitServerAfterRequests,
            RequestKind::Exit_Server_Now => RequestKindView::ExitServerNow,
            RequestKind::Push_error_message(p) => RequestKindView::PushErrorMessage(p@),
        }
    }
}

/// A request: the client's token and what it asks for.
pub struct Request {
    pub request_id: String,
    pub request_kind: RequestKind,
}

/// The mathematical counterpart of [`Request`].
pub struct RequestView {
    pub id: Seq<char>,
    pub kind: RequestKindView,
}

impl View for Request {
    type V = RequestView;

    open spec fn view(&self) -> RequestView {
        RequestView { id: self.request_id@, kind: self.request_kind@ }
    }
}

/// A character allowed in a request token: ASCII letters, digits and `-`.
pub open spec fn spec_is_token_char(c: char) -> bool {
    ||| ('a' <= c && c <= 'z')
    ||| ('A' <= c && c <= 'Z')
    ||| ('0' <= c && c <= '9')
    ||| c == '-'
}

/// A valid request token: non-empty, made of token characters only.
pub open spec fn spec_is_valid_request_id(id: Seq<char>) -> bool {
    id.len() > 0 && forall|i: int| 0 <= i < id.len() ==> spec_is_token_char(#[trigger] id[i])
}

/// Looks like a Jira issue key: upper-case letters, one dash, digits.
pub open spec fn spec_is_valid_issue_key(key: Seq<char>) -> bool {
    let chunks = spec_split(key, '-');
    &&& chunks.len() == 2
    &&& forall|i: int| 0 <= i < chunks[0].len() ==> 'A' <= #[trigger] chunks[0][i] <= 'Z'
    &&& forall|i: int| 0 <= i < chunks[1].len() ==> '0' <= #[trigger] chunks[1][i] <= '9'
}

/// The request kind named by `command` with its optional parameter, or the
/// error message explaining why the pair is refused.
pub open spec fn spec_command(command: Seq<char>, param: Option<Seq<char>>) -> Result<RequestKindView, Seq<char>> {
    if command == "FETCH_TICKET"@ {
        match param {
            None => Err("Invalid request. Fetch_Ticket takes parameters."@),
            Some(p) => Ok(RequestKindView::FetchTicket(p)),
        }
    } else if command == "FETCH_TICKET_LIST"@ {
        match param {
            None => Ok(RequestKindView::FetchTicketList),
            Some(p) => Err("Invalid request. Fetch_Ticket_List doesn't take parameter, but given ["@ + p + "]"@),
        }
    } else if command == "FETCH_TICKET_KEY_VALUE_FIELDS"@ {
        match param {
            None => Err("Invalid request. Fetch_Ticket_Key_Value_Fields takes a jira issue key as parameter. Something like PROJ-123"@),
            Some(p) => Ok(RequestKindView::FetchTicketKeyValueFields(p)),
        }
    } else if command == "FETCH_ATTACHMENT_LIST_FOR_TICKET"@ {
        match param {
            None => Err("Invalid request. Fetch_Attachment_List_For_Ticket takes a jira issue key as parameter. Something like PROJ-123"@),
            Some(p) => Ok(RequestKindView::FetchAttachmentListForTicket(p)),
        }
    } else if command == "FETCH_ATTACHMENT_CONTENT"@ {
        match param {
            None => Err("Invalid request. Fetch_Attachment_Content takes a uuid as parameter. Something like PROJ-123"@),
            Some(p) => Ok(RequestKindView::FetchAttachmentContent(p)),
        }
    } else if command == "SYNCHRONISE_TICKET"@ {
        match param {
            None => Err("Invalid request. Synchronise_Ticket takes a jira issue key as parameter. Something like PROJ-123"@),
            Some(p) => Ok(RequestKindView::SynchroniseTicket(p)),
        }
    } else if command == "SYNCHRONISE_UPDATED"@ {
        match param {
            None => Ok(RequestKindView::SynchroniseUpdated),
            Some(p) => Err("Invalid request. Synchronise_Updated doesn't take parameter. Got ["@ + p + "]"@),
        }
    } else if command == "SYNCHRONISE_ALL"@ {
        match param {
            None => Ok(RequestKindView::SynchroniseAll),
            Some(p) => Err("Invalid request. Synchronise_All doesn't take parameter. Got ["@ + p + "]"@),
        }
    } else if command == "EXIT_SERVER_AFTER_REQUESTS"@ {
        match param {
            None => Ok(RequestKindView::ExitServerAfterRequests),
            Some(p) => Err("Invalid request. Exit_Server_After_Requests doesn't take parameter. Got ["@ + p + "]"@),
        }
    } else if command == "EXIT_SERVER_NOW"@ {
        match param {
            None => Ok(RequestKindView::ExitServerNow),
            Some(p) => Err("Invalid request. Exit_Server_Now doesn't take parameter. Got ["@ + p + "]"@),
        }
    } else {
        Err("invalid request, unknown command ["@ + command + "]"@)
    }
}

/// What a request line means: `<token> <command>[ <parameters>]`, or the
/// error message explaining why it is refused.
pub open spec fn spec_parse_request(line: Seq<char>) -> Result<RequestView, Seq<char>> {
    let chunks = spec_split(line, ' ');
    if chunks.len() != 3 && chunks.len() != 2 {
        Err("invalid request. Must contain three space separated chunks (last chunk potentially being the empty string)"@)
    } else if !spec_is_valid_request_id(chunks[0]) {
        Err("Invalid request. Request id should only contain ascii alphanum characters or dashed"@)
    } else {
        let param = if chunks.len() == 2 { None } else { Some(chunks[2]) };
        match spec_command(chunks[1], param) {
            Ok(kind) => Ok(RequestView { id: chunks[0], kind }),
            Err(e) => Err(e),
        }
    }
}

/// The characters of an optional string.
pub open spec fn spec_opt_view(o: Option<String>) -> Option<Seq<char>> {
    match o {
        Some(s) => Some(s@),
        None => None,
    }
}

/// Whether `c` is an ASCII letter or digit (`char::is_ascii_alphanumeric`).
fn is_ascii_alphanumeric(c: char) -> (res: bool)
    ensures
        res == (('a' <= c && c <= 'z') || ('A' <= c && c <= 'Z') || ('0' <= c && c <= '9')),
{
    ('a' <= c && c <= 'z') || ('A' <= c && c <= 'Z') || ('0' <= c && c <= '9')
}

/// Whether `candidate` is a valid request token.
pub fn is_valid_request_id(candidate: &str) -> (res: bool)
    ensures
        res == spec_is_valid_request_id(candidate@),
{
    if candidate.is_empty() {
        return false;
    }
    let chars = chars_of(candidate);
    let mut i: usize = 0;
    while i < chars.len()
        invariant
            i <= chars.len(),
            chars@ == candidate@,
            forall|k: int| 0 <= k < i ==> spec_is_token_char(#[trigger] chars@[k]),
        decreases chars.len() - i,
    {
        let c = chars[i];
        if !(is_ascii_alphanumeric(c) || c == '-') {
            assert(!spec_is_token_char(candidate@[i as int]));
            return false;
        }
        i = i + 1;
    }
    true
}

/// Whether every character of `s` lies in `lo..=hi`.
fn all_in_range(s: &str, lo: char, hi: char) -> (res: bool)
    ensures
        res == (forall|i: int| 0 <= i < s@.len() ==> lo <= #[trigger] s@[i] <= hi),
{
    let chars = chars_of(s);
    let mut i: usize = 0;
    while i < chars.len()
        invariant
            i <= chars.len(),
            chars@ == s@,
            forall|k: int| 0 <= k < i ==> lo <= #[trigger] chars@[k] <= hi,
        decreases chars.len() - i,
    {
        if chars[i] < lo || chars[i] > hi {
            assert(!(lo <= s@[i as int] <= hi));
            return false;
        }
        i = i + 1;
    }
    true
}

/// Whether `candidate` looks like a Jira issue key such as `PROJ-123`.
pub fn is_valid_issue_key(candidate: &str) -> (res: bool)
    ensures
        res == spec_is_valid_issue_key(candidate@),
{
    let chunks = split_char(candidate, '-');
    proof {
        let v = chunks@.map_values(|x: String| x@);
        assert(v.len() == chunks.len());
    }
    if chunks.len() != 2 {
        return false;
    }
    proof {
        let v = chunks@.map_values(|x: String| x@);
        assert(v[0] == chunks[0]@);
        assert(v[1] == chunks[1]@);
    }
    let is_likely_jira_proj = all_in_range(chunks[0].as_str(), 'A', 'Z');
    let is_likely_ticket_number = all_in_range(chunks[1].as_str(), '0', '9');
    is_likely_jira_proj && is_likely_ticket_number
}

/// A request kind that takes a parameter, or the given error message.
fn with_parameter(param: Option<String>, make: u8, missing: &str) -> (res: Result<RequestKind, String>)
    requires
        make < 5,
    ensures
        match param {
            None => res matches Err(e) && e@ == missing@,
            Some(p) => res matches Ok(k) && k@ == (if make == 0 {
                RequestKindView::FetchTicket(p@)
            } else if make == 1 {
                RequestKindView::FetchTicketKeyValueFields(p@)
            } else if make == 2 {
                RequestKindView::FetchAttachmentListForTicket(p@)
            } else if make == 3 {
                RequestKindView::FetchAttachmentContent(p@)
            } else {
                RequestKindView::SynchroniseTicket(p@)
            }),
        },
{
    match param {
        None => Err(to_owned(missing)),
        Some(p) => {
            if make == 0 {
                Ok(RequestKind::Fetch_Ticket(p))
            } else if make == 1 {
                Ok(RequestKind::Fetch_Ticket_Key_Value_Fields(p))
            } else if make == 2 {
                Ok(RequestKind::Fetch_Attachment_List_For_Ticket(p))
            } else if make == 3 {
                Ok(RequestKind::Fetch_Attachment_Content(p))
            } else {
                Ok(RequestKind::Synchronise_Ticket(p))
            }
        },
    }
}

/// `before + p + after` as a new string.
fn surround(before: &str, p: &str, after: &str) -> (res: String)
    ensures
        res@ == before@ + p@ + after@,
{
    let mut res = to_owned(before);
    res.append(p);
    res.append(after);
    res
}

/// A request kind that takes no parameter, or an error message built from
/// `refusal` and the parameter that was given.
fn without_parameter(param: Option<String>, make: u8, refusal: &str) -> (res: Result<RequestKind, String>)
    requires
        make < 5,
    ensures
        match param {
            Some(p) => res matches Err(e) && e@ == refusal@ + p@ + "]"@,
            None => res matches Ok(k) && k@ == (if make == 0 {
                RequestKindView::FetchTicketList
            } else if make == 1 {
                RequestKindView::SynchroniseUpdated
            } else if make == 2 {
                RequestKindView::SynchroniseAll
            } else if make == 3 {
                RequestKindView::ExitServerAfterRequests
            } else {
                RequestKindView::ExitServerNow
            }),
        },
{
    match param {
        Some(p) => Err(surround(refusal, p.as_str(), "]")),
        None => {
            if make == 0 {
                Ok(RequestKind::Fetch_Ticket_List)
            } else if make == 1 {
                Ok(RequestKind::Synchronise_Updated)
            } else if make == 2 {
                Ok(RequestKind::Synchronise_All)
            } else if make == 3 {
                Ok(RequestKind::Exit_Server_After_Requests)
            } else {
                Ok(RequestKind::Exit_Server_Now)
            }
        },
    }
}

/// The request kind named by `command`, with its parameter.
fn command_to_kind(command: &str, param: Option<String>) -> (res: Result<RequestKind, String>)
    ensures
        match res {
            Ok(k) => spec_command(command@, spec_opt_view(param)) == Ok::<RequestKindView, Seq<char>>(k@),
            Err(e) => spec_command(command@, spec_opt_view(param)) == Err::<RequestKindView, Seq<char>>(e@),
        },
{
    if str_eq(command, "FETCH_TICKET") {
        with_parameter(param, 0, "Invalid request. Fetch_Ticket takes parameters.")
    } else if str_eq(command, "FETCH_TICKET_LIST") {
        without_parameter(param, 0, "Invalid request. Fetch_Ticket_List doesn't take parameter, but given [")
    } else if str_eq(command, "FETCH_TICKET_KEY_VALUE_FIELDS") {
        with_parameter(param, 1, "Invalid request. Fetch_Ticket_Key_Value_Fields takes a jira issue key as parameter. Something like PROJ-123")
    } else if str_eq(command, "FETCH_ATTACHMENT_LIST_FOR_TICKET") {
        with_parameter(param, 2, "Invalid request. Fetch_Attachment_List_For_Ticket takes a jira issue key as parameter. Something like PROJ-123")
    } else if str_eq(command, "FETCH_ATTACHMENT_CONTENT") {
        with_parameter(param, 3, "Invalid request. Fetch_Attachment_Content takes a uuid as parameter. Something like PROJ-123")
    } else if str_eq(command, "SYNCHRONISE_TICKET") {
        with_parameter(param, 4, "Invalid request. Synchronise_Ticket takes a jira issue key as parameter. Something like PROJ-123")
    } else if str_eq(command, "SYNCHRONISE_UPDATED") {
        without_parameter(param, 1, "Invalid request. Synchronise_Updated doesn't take parameter. Got [")
    } else if str_eq(command, "SYNCHRONISE_ALL") {
        without_parameter(param, 2, "Invalid request. Synchronise_All doesn't take parameter. Got [")
    } else if str_eq(command, "EXIT_SERVER_AFTER_REQUESTS") {
        without_parameter(param, 3, "Invalid request. Exit_Server_After_Requests doesn't take parameter. Got [")
    } else if str_eq(command, "EXIT_SERVER_NOW") {
        without_parameter(param, 4, "Invalid request. Exit_Server_Now doesn't take parameter. Got [")
    } else {
        Err(surround("invalid request, unknown command [", command, "]"))
    }
}

impl Request {
    /// Parses one request line (without its newline).
    pub fn from(line: &str) -> (res: Result<Request, String>)
        ensures
            match res {
                Ok(r) => spec_parse_request(line@) == Ok::<RequestView, Seq<char>>(r@),
                Err(e) => spec_parse_request(line@) == Err::<RequestView, Seq<char>>(e@),
            },
            res is Ok ==> spec_is_valid_request_id(res->Ok_0.request_id@),
    {
        let chunks = split_char(line, ' ');
        let ghost cv = chunks@.map_values(|x: String| x@);
        assert(cv.len() == chunks.len());
        let nr_chunks = chunks.len();
        if nr_chunks != 3 && nr_chunks != 2 {
            return Err(to_owned("invalid request. Must contain three space separated chunks (last chunk potentially being the empty string)"));
        }
        assert(cv[0] == chunks[0]@);
        assert(cv[1] == chunks[1]@);
        if !is_valid_request_id(chunks[0].as_str()) {
            return Err(to_owned("Invalid request. Request id should only contain ascii alphanum characters or dashed"));
        }
        let command_parameter: Option<String> = if nr_chunks == 2 {
            None
        } else {
            assert(cv[2] == chunks[2]@);
            Some(chunks[2].clone())
        };
        let request_id = chunks[0].clone();
        match command_to_kind(chunks[1].as_str(), command_parameter) {
            Ok(kind) => Ok(Request { request_id, request_kind: kind }),
            Err(e) => Err(e),
        }
    }
}


/// The command word of a request kind sent by clients.
pub open spec fn spec_command_name(kind: RequestKindView) -> Seq<char> {
    match kind {
        RequestKindView::FetchTicket(_) => "FETCH_TICKET"@,
        RequestKindView::FetchTicketList => "FETCH_TICKET_LIST"@,
        RequestKindView::FetchTicketKeyValueFields(_) => "FETCH_TICKET_KEY_VALUE_FIELDS"@,
        RequestKindView::FetchAttachmentListForTicket(_) => "FETCH_ATTACHMENT_LIST_FOR_TICKET"@,
        RequestKindView::FetchAttachmentContent(_) => "FETCH_ATTACHMENT_CONTENT"@,
        RequestKindView::SynchroniseTicket(_) => "SYNCHRONISE_TICKET"@,
        RequestKindView::SynchroniseUpdated => "SYNCHRONISE_UPDATED"@,
        RequestKindView::SynchroniseAll => "SYNCHRONISE_ALL"@,
        RequestKindView::ExitServerAfterRequests => "EXIT_SERVER_AFTER_REQUESTS"@,
        RequestKindView::ExitServerNow => "EXIT_SERVER_NOW"@,
        RequestKindView::PushErrorMessage(_) => Seq::empty(),
    }
}

/// The parameter string of a request kind, if it takes one.
pub open spec fn spec_parameter(kind: RequestKindView) -> Option<Seq<char>> {
    match kind {
        RequestKindView::FetchTicket(p) => Some(p),
        RequestKindView::FetchTicketKeyValueFields(p) => Some(p),
        RequestKindView::FetchAttachmentListForTicket(p) => Some(p),
        RequestKindView::FetchAttachmentContent(p) => Some(p),
        RequestKindView::SynchroniseTicket(p) => Some(p),
        _ => None,
    }
}

/// The request line a client writes for `kind` with token `id`.
pub open spec fn spec_format_request(id: Seq<char>, kind: RequestKindView) -> Seq<char> {
    match spec_parameter(kind) {
        Some(p) => id.push(' ') + spec_command_name(kind).push(' ') + p,
        None => id.push(' ') + spec_command_name(kind),
    }
}

/// A request that a client can send (anything but an internal error message).
pub open spec fn spec_is_client_request(kind: RequestKindView) -> bool {
    !(kind is PushErrorMessage)
}

/// Law: a request line written by a client with a valid token, and with a
/// parameter that holds no space, is read back as that very request.
pub proof fn lemma_request_round_trip(id: Seq<char>, kind: RequestKindView)
    requires
        spec_is_valid_request_id(id),
        spec_is_client_request(kind),
        spec_parameter(kind) matches Some(p) ==> !p.contains(' '),
    ensures
        spec_parse_request(spec_format_request(id, kind)) == Ok::<RequestView, Seq<char>>(
            RequestView { id, kind },
        ),
{
    reveal_strlit("FETCH_TICKET");
    reveal_strlit("FETCH_TICKET_LIST");
    reveal_strlit("FETCH_TICKET_KEY_VALUE_FIELDS");
    reveal_strlit("FETCH_ATTACHMENT_LIST_FOR_TICKET");
    reveal_strlit("FETCH_ATTACHMENT_CONTENT");
    reveal_strlit("SYNCHRONISE_TICKET");
    reveal_strlit("SYNCHRONISE_UPDATED");
    reveal_strlit("SYNCHRONISE_ALL");
    reveal_strlit("EXIT_SERVER_AFTER_REQUESTS");
    reveal_strlit("EXIT_SERVER_NOW");
    let name = spec_command_name(kind);
    assert(!id.contains(' ')) by {
        if id.contains(' ') {
            let k = choose|k: int| 0 <= k < id.len() && id[k] == ' ';
            assert(spec_is_token_char(id[k]));
        }
    }
    assert(!name.contains(' '));
    lemma_split_no_sep(id, ' ');
    lemma_split_no_sep(name, ' ');
    lemma_split_concat(id, name, ' ');
    match spec_parameter(kind) {
        Some(p) => {
            lemma_split_no_sep(p, ' ');
            lemma_split_concat(name, p, ' ');
            lemma_split_concat(id, name.push(' ') + p, ' ');
            assert(spec_format_request(id, kind) == id.push(' ') + (name.push(' ') + p));
            assert(spec_split(spec_format_request(id, kind), ' ') == seq![id, name, p]);
        },
        None => {
            assert(spec_split(spec_format_request(id, kind), ' ') == seq![id, name]);
        },
    }
}

/// Law: a command that takes no parameter is refused when it is followed by
/// a space, even with nothing after it.
pub proof fn lemma_empty_parameter_refused(id: Seq<char>, kind: RequestKindView)
    requires
        spec_is_valid_request_id(id),
        spec_is_client_request(kind),
        spec_parameter(kind) is None,
    ensures
        spec_parse_request(spec_format_request(id, kind).push(' ')) is Err,
{
    reveal_strlit("FETCH_TICKET");
    reveal_strlit("FETCH_TICKET_LIST");
    reveal_strlit("FETCH_TICKET_KEY_VALUE_FIELDS");
    reveal_strlit("FETCH_ATTACHMENT_LIST_FOR_TICKET");
    reveal_strlit("FETCH_ATTACHMENT_CONTENT");
    reveal_strlit("SYNCHRONISE_TICKET");
    reveal_strlit("SYNCHRONISE_UPDATED");
    reveal_strlit("SYNCHRONISE_ALL");
    reveal_strlit("EXIT_SERVER_AFTER_REQUESTS");
    reveal_strlit("EXIT_SERVER_NOW");
    let name = spec_command_name(kind);
    assert(!id.contains(' ')) by {
        if id.contains(' ') {
            let k = choose|k: int| 0 <= k < id.len() && id[k] == ' ';
            assert(spec_is_token_char(id[k]));
        }
    }
    assert(!name.contains(' '));
    lemma_split_no_sep(id, ' ');
    lemma_split_no_sep(name, ' ');
    lemma_split_concat(id, name, ' ');
    lemma_split_concat(name, Seq::empty(), ' ');
    lemma_split_no_sep(Seq::<char>::empty(), ' ');
    lemma_split_concat(id, name.push(' ') + Seq::<char>::empty(), ' ');
    assert(spec_format_request(id, kind).push(' ') == id.push(' ') + (name.push(' ') + Seq::<char>::empty()));
    assert(spec_split(spec_format_request(id, kind).push(' '), ' ') == seq![id, name, Seq::<char>::empty()]);
}


// ---------------------------------------------------------------------------
// Replies
// ---------------------------------------------------------------------------

/// A reply sent to the client, a whole line with its newline.
#[derive(Debug)]
pub struct Reply(pub String);

/// `<id> ACK\n`: the request is acknowledged.
pub fn ack_reply(request_id: &str) -> (res: Reply)
    ensures
        res.0@ == request_id@ + " ACK\n"@,
{
    let mut s = to_owned(request_id);
    s.append(" ACK\n");
    Reply(s)
}

/// `<id> FINISHED\n`: the request is over.
pub fn finished_reply(request_id: &str) -> (res: Reply)
    ensures
        res.0@ == request_id@ + " FINISHED\n"@,
{
    let mut s = to_owned(request_id);
    s.append(" FINISHED\n");
    Reply(s)
}

/// `<id> ERROR <message>\n`; the space after `ERROR` is there even when the
/// message is empty.
pub fn error_reply(request_id: &str, message: &str) -> (res: Reply)
    ensures
        res.0@ == request_id@ + " ERROR "@ + message@ + "\n"@,
{
    let mut s = to_owned(request_id);
    s.append(" ERROR ");
    s.append(message);
    s.append("\n");
    Reply(s)
}

/// `<id> RESULT <data>\n`.
pub fn result_reply(request_id: &str, data: &str) -> (res: Reply)
    ensures
        res.0@ == request_id@ + " RESULT "@ + data@ + "\n"@,
{
    let mut s = to_owned(request_id);
    s.append(" RESULT ");
    s.append(data);
    s.append("\n");
    Reply(s)
}

/// `<id> RESULT <data>\n`, or `<id> RESULT\n` when there is no data.
pub fn result_reply_or_empty(request_id: &str, data: &str) -> (res: Reply)
    ensures
        data@.len() == 0 ==> res.0@ == request_id@ + " RESULT\n"@,
        data@.len() > 0 ==> res.0@ == request_id@ + " RESULT "@ + data@ + "\n"@,
{
    if data.is_empty() {
        let mut s = to_owned(request_id);
        s.append(" RESULT\n");
        Reply(s)
    } else {
        result_reply(request_id, data)
    }
}

/// The request that one line read from the client stands for: `None` for an
/// empty line, the parsed request, or an error message addressed to `_`.
pub fn request_from_input_line(line: &str) -> (res: Option<Request>)
    ensures
        ({
            let l = if line@.len() > 0 && line@.last() == '\n' { line@.drop_last() } else { line@ };
            &&& l.len() == 0 ==> res is None
            &&& l.len() > 0 ==> res is Some && match spec_parse_request(l) {
                Ok(r) => res->Some_0@ == r,
                Err(e) => res->Some_0@ == RequestView {
                    id: "_"@,
                    kind: RequestKindView::PushErrorMessage(
                        "Failed to get a request out of ["@ + l + "]: Err: "@ + e,
                    ),
                },
            }
        }),
{
    let chars = chars_of(line);
    let n = chars.len();
    let without_suffix = if n > 0 && chars[n - 1] == '\n' {
        string_from_chars(&chars, 0, n - 1)
    } else {
        assert(chars@.subrange(0, n as int) == chars@);
        string_from_chars(&chars, 0, n)
    };
    if without_suffix.as_str().is_empty() {
        return None;
    }
    match Request::from(without_suffix.as_str()) {
        Ok(r) => Some(r),
        Err(e) => {
            let mut msg = to_owned("Failed to get a request out of [");
            msg.append(without_suffix.as_str());
            msg.append("]: Err: ");
            msg.append(e.as_str());
            Some(Request { request_id: to_owned("_"), request_kind: RequestKind::Push_error_message(msg) })
        },
    }
}

/// The reply that serves an internal error message.
pub fn push_error_reply(request_id: &str, message: &str) -> (res: Reply)
    ensures
        res.0@ == request_id@ + " ERROR "@ + message@ + "\n"@,
{
    error_reply(request_id, message)
}

/// How a request is answered around the work of its handler: a request that
/// was understood is acknowledged first and finished last; a line that could
/// not be read gets its error reply alone, with neither `ACK` nor `FINISHED`.
pub fn request_frame(request: &Request) -> (res: (Reply, Option<Reply>))
    ensures
        match request@.kind {
            RequestKindView::PushErrorMessage(m) => res.0.0@ == request@.id + " ERROR "@ + m + "\n"@ && res.1 is None,
            _ => res.0.0@ == request@.id + " ACK\n"@ && (res.1 matches Some(f) && f.0@ == request@.id + " FINISHED\n"@),
        },
{
    match &request.request_kind {
        RequestKind::Push_error_message(m) => (push_error_reply(request.request_id.as_str(), m.as_str()), None),
        _ => (ack_reply(request.request_id.as_str()), Some(finished_reply(request.request_id.as_str()))),
    }
}

// ---------------------------------------------------------------------------
// The loop that dispatches requests
// ---------------------------------------------------------------------------

/// What the dispatcher learns when it looks for the next request.
pub enum IncomingEvent {
    Received(Request),
    NothingYet,
    ChannelClosed,
}

/// What the dispatcher must do after an event.
pub enum LoopAction {
    SendReply(Reply),
    Serve(Request),
    Wait,
    Nothing,
}

/// The dispatcher's state: whether exiting was requested, and by whom.
pub struct EventLoopState {
    pub exit_requested: bool,
    pub exit_immediately_requested: bool,
    pub id_of_exit_request: String,
    pub id_of_exit_immediate_request: String,
}

/// The mathematical counterpart of [`EventLoopState`].
pub struct EventLoopView {
    pub exit_requested: bool,
    pub exit_immediately_requested: bool,
    pub id_of_exit_request: Seq<char>,
    pub id_of_exit_immediate_request: Seq<char>,
}

impl View for EventLoopState {
    type V = EventLoopView;

    open spec fn view(&self) -> EventLoopView {
        EventLoopView {
            exit_requested: self.exit_requested,
            exit_immediately_requested: self.exit_immediately_requested,
            id_of_exit_request: self.id_of_exit_request@,
            id_of_exit_immediate_request: self.id_of_exit_immediate_request@,
        }
    }
}

/// The mathematical counterpart of an [`IncomingEvent`].
pub enum EventView {
    Received(RequestView),
    NothingYet,
    ChannelClosed,
}

/// The mathematical counterpart of a [`LoopAction`].
pub enum ActionView {
    SendReply(Seq<char>),
    Serve(RequestView),
    Wait,
    Nothing,
}

pub open spec fn spec_event_view(e: IncomingEvent) -> EventView {
    match e {
        IncomingEvent::Received(r) => EventView::Received(r@),
        IncomingEvent::NothingYet => EventView::NothingYet,
        IncomingEvent::ChannelClosed => EventView::ChannelClosed,
    }
}

pub open spec fn spec_action_view(a: LoopAction) -> ActionView {
    match a {
        LoopAction::SendReply(r) => ActionView::SendReply(r.0@),
        LoopAction::Serve(r) => ActionView::Serve(r@),
        LoopAction::Wait => ActionView::Wait,
        LoopAction::Nothing => ActionView::Nothing,
    }
}

/// One step of the dispatcher: while no exit was requested it serves every
/// request and acknowledges exit requests; afterwards it only waits for the
/// running requests, listening for an immediate exit.
pub open spec fn spec_step(s: EventLoopView, e: EventView, has_running_tasks: bool) -> (EventLoopView, ActionView) {
    if !s.exit_requested {
        match e {
            EventView::Received(r) => match r.kind {
                RequestKindView::ExitServerAfterRequests => (
                    EventLoopView { exit_requested: true, id_of_exit_request: r.id, ..s },
                    ActionView::SendReply(r.id + " ACK\n"@),
                ),
                RequestKindView::ExitServerNow => (
                    EventLoopView {
                        exit_requested: true,
                        exit_immediately_requested: true,
                        id_of_exit_immediate_request: r.id,
                        ..s
                    },
                    ActionView::SendReply(r.id + " ACK\n"@),
                ),
                _ => (s, ActionView::Serve(r)),
            },
            EventView::NothingYet => (s, ActionView::Wait),
            EventView::ChannelClosed => (EventLoopView { exit_requested: true, ..s }, ActionView::Nothing),
        }
    } else {
        match e {
            EventView::Received(r) => match r.kind {
                RequestKindView::ExitServerNow => (
                    EventLoopView {
                        exit_immediately_requested: true,
                        id_of_exit_immediate_request: r.id,
                        ..s
                    },
                    ActionView::SendReply(r.id + " ACK\n"@),
                ),
                _ => (s, ActionView::Nothing),
            },
            EventView::NothingYet => (s, if has_running_tasks { ActionView::Wait } else { ActionView::Nothing }),
            EventView::ChannelClosed => (EventLoopView { exit_immediately_requested: true, ..s }, ActionView::Nothing),
        }
    }
}

/// The last replies of the dispatcher: one `FINISHED` per exit request.
pub open spec fn spec_closing_replies(s: EventLoopView) -> Seq<Seq<char>> {
    let a = if s.id_of_exit_request.len() > 0 { seq![s.id_of_exit_request + " FINISHED\n"@] } else { Seq::empty() };
    let b = if s.id_of_exit_immediate_request.len() > 0 { seq![s.id_of_exit_immediate_request + " FINISHED\n"@] } else { Seq::empty() };
    a + b
}

impl EventLoopState {
    /// A dispatcher that accepts requests.
    pub fn new() -> (res: EventLoopState)
        ensures
            res@ == (EventLoopView {
                exit_requested: false,
                exit_immediately_requested: false,
                id_of_exit_request: Seq::empty(),
                id_of_exit_immediate_request: Seq::empty(),
            }),
    {
        EventLoopState {
            exit_requested: false,
            exit_immediately_requested: false,
            id_of_exit_request: String::new(),
            id_of_exit_immediate_request: String::new(),
        }
    }

    /// Whether new requests are still served.
    pub fn is_accepting(&self) -> (res: bool)
        ensures
            res == !self@.exit_requested,
    {
        !self.exit_requested
    }

    /// Whether the dispatcher still waits for running requests.
    pub fn is_draining(&self, has_running_tasks: bool) -> (res: bool)
        ensures
            res == (!self@.exit_immediately_requested && has_running_tasks),
    {
        !self.exit_immediately_requested && has_running_tasks
    }

    /// Handles one event and says what to do next.
    pub fn step(&mut self, event: IncomingEvent, has_running_tasks: bool) -> (res: LoopAction)
        ensures
            spec_step(old(self)@, spec_event_view(event), has_running_tasks)
                == (final(self)@, spec_action_view(res)),
    {
        if !self.exit_requested {
            match event {
                IncomingEvent::Received(request) => match request.request_kind {
                    RequestKind::Exit_Server_After_Requests => {
                        self.exit_requested = true;
                        let reply = ack_reply(request.request_id.as_str());
                        self.id_of_exit_request = request.request_id;
                        LoopAction::SendReply(reply)
                    },
                    RequestKind::Exit_Server_Now => {
                        self.exit_requested = true;
                        self.exit_immediately_requested = true;
                        let reply = ack_reply(request.request_id.as_str());
                        self.id_of_exit_immediate_request = request.request_id;
                        LoopAction::SendReply(reply)
                    },
                    kind => LoopAction::Serve(Request { request_id: request.request_id, request_kind: kind }),
                },
                IncomingEvent::NothingYet => LoopAction::Wait,
                IncomingEvent::ChannelClosed => {
                    self.exit_requested = true;
                    LoopAction::Nothing
                },
            }
        } else {
            match event {
                IncomingEvent::Received(request) => match request.request_kind {
                    RequestKind::Exit_Server_Now => {
                        self.exit_immediately_requested = true;
                        let reply = ack_reply(request.request_id.as_str());
                        self.id_of_exit_immediate_request = request.request_id;
                        LoopAction::SendReply(reply)
                    },
                    _ => LoopAction::Nothing,
                },
                IncomingEvent::NothingYet => if has_running_tasks {
                    LoopAction::Wait
                } else {
                    LoopAction::Nothing
                },
                IncomingEvent::ChannelClosed => {
                    self.exit_immediately_requested = true;
                    LoopAction::Nothing
                },
            }
        }
    }

    /// The replies sent once every request is over.
    pub fn closing_replies(&self) -> (res: Vec<Reply>)
        ensures
            res@.map_values(|r: Reply| r.0@) == spec_closing_replies(self@),
    {
        let mut res: Vec<Reply> = Vec::new();
        if !self.id_of_exit_request.as_str().is_empty() {
            res.push(finished_reply(self.id_of_exit_request.as_str()));
        }
        if !self.id_of_exit_immediate_request.as_str().is_empty() {
            res.push(finished_reply(self.id_of_exit_immediate_request.as_str()));
        }
        assert(res@.map_values(|r: Reply| r.0@) == spec_closing_replies(self@));
        res
    }
}

/// Whether the dispatcher goes on, or stops with the replies that end it.
pub enum LoopControl {
    KeepGoing,
    Stop(Vec<Reply>),
}

/// The dispatcher stops once an exit was requested and either the exit is
/// immediate or no request is running any more.
pub open spec fn spec_should_stop(s: EventLoopView, has_running_tasks: bool) -> bool {
    s.exit_requested && (s.exit_immediately_requested || !has_running_tasks)
}

impl EventLoopState {
    /// Whether to stop, given whether requests are still running; on
    /// stopping, the replies that end the conversation, to be sent last.
    pub fn control(&self, has_running_tasks: bool) -> (res: LoopControl)
        ensures
            match res {
                LoopControl::KeepGoing => !spec_should_stop(self@, has_running_tasks),
                LoopControl::Stop(v) => spec_should_stop(self@, has_running_tasks) && v@.map_values(|r: Reply| r.0@)
                    == spec_closing_replies(self@),
            },
    {
        if self.exit_requested && (self.exit_immediately_requested || !has_running_tasks) {
            LoopControl::Stop(self.closing_replies())
        } else {
            LoopControl::KeepGoing
        }
    }
}

/// The dispatcher run over a sequence of events, each with whether requests
/// were running then: the state reached and the actions taken, in order.
pub open spec fn spec_run(s: EventLoopView, events: Seq<(EventView, bool)>) -> (EventLoopView, Seq<ActionView>)
    decreases events.len(),
{
    if events.len() == 0 {
        (s, Seq::empty())
    } else {
        let (t, a) = spec_step(s, events[0].0, events[0].1);
        let (u, acts) = spec_run(t, events.drop_first());
        (u, seq![a] + acts)
    }
}

/// Events of a client that keeps its side open and sends no immediate exit.
pub open spec fn spec_open_without_exit_now(events: Seq<(EventView, bool)>) -> bool {
    forall|i: int| 0 <= i < events.len() ==> match #[trigger] events[i].0 {
        EventView::Received(q) => !(q.kind is ExitServerNow),
        EventView::NothingYet => true,
        EventView::ChannelClosed => false,
    }
}

/// While the dispatcher waits for running requests, events other than an
/// immediate exit or a closed input change nothing and get no reply.
proof fn lemma_run_while_draining(t: EventLoopView, events: Seq<(EventView, bool)>)
    requires
        t.exit_requested,
        !t.exit_immediately_requested,
        spec_open_without_exit_now(events),
    ensures
        spec_run(t, events).0 == t,
        spec_run(t, events).1.len() == events.len(),
        forall|i: int| 0 <= i < spec_run(t, events).1.len() ==> !(#[trigger] spec_run(t, events).1[i] is Serve)
            && !(spec_run(t, events).1[i] is SendReply),
    decreases events.len(),
{
    if events.len() > 0 {
        let rest = events.drop_first();
        assert(spec_open_without_exit_now(rest)) by {
            assert forall|i: int| 0 <= i < rest.len() implies match #[trigger] rest[i].0 {
                EventView::Received(q) => !(q.kind is ExitServerNow),
                EventView::NothingYet => true,
                EventView::ChannelClosed => false,
            } by {
                assert(rest[i] == events[i + 1]);
            }
        }
        assert(match events[0].0 {
            EventView::Received(q) => !(q.kind is ExitServerNow),
            EventView::NothingYet => true,
            EventView::ChannelClosed => false,
        });
        lemma_run_while_draining(t, rest);
        let (t1, a) = spec_step(t, events[0].0, events[0].1);
        assert(t1 == t);
        let acts = spec_run(t, events).1;
        assert forall|i: int| 0 <= i < acts.len() implies !(#[trigger] acts[i] is Serve) && !(acts[i] is SendReply) by {
            if i > 0 {
                assert(acts[i] == spec_run(t, rest).1[i - 1]);
            }
        }
    }
}

/// Law: after a request to exit once the running requests are over, and as
/// long as the client keeps its side open and sends no immediate exit, the
/// request is acknowledged at once, no later request is served or
/// acknowledged, the dispatcher stops only when no request runs any more,
/// and its last reply is then the `FINISHED` of the exit request.
pub proof fn lemma_exit_after_requests_finishes_last(
    s: EventLoopView,
    r: RequestView,
    running_at_exit: bool,
    later: Seq<(EventView, bool)>,
)
    requires
        !s.exit_requested,
        !s.exit_immediately_requested,
        s.id_of_exit_immediate_request.len() == 0,
        r.kind is ExitServerAfterRequests,
        spec_is_valid_request_id(r.id),
        spec_open_without_exit_now(later),
    ensures
        ({
            let (t, acts) = spec_run(s, seq![(EventView::Received(r), running_at_exit)] + later);
            &&& acts.len() == later.len() + 1
            &&& acts[0] == ActionView::SendReply(r.id + " ACK\n"@)
            &&& forall|i: int| 1 <= i < acts.len() ==> !(#[trigger] acts[i] is Serve) && !(acts[i] is SendReply)
            &&& t.exit_requested && !t.exit_immediately_requested
            &&& forall|running: bool| #[trigger] spec_should_stop(t, running) ==> !running
            &&& spec_closing_replies(t) == seq![r.id + " FINISHED\n"@]
        }),
{
    let events = seq![(EventView::Received(r), running_at_exit)] + later;
    assert(events.drop_first() =~= later);
    assert(events[0] == (EventView::Received(r), running_at_exit));
    let (t1, a) = spec_step(s, EventView::Received(r), running_at_exit);
    lemma_run_while_draining(t1, later);
    let acts = spec_run(s, events).1;
    assert forall|i: int| 1 <= i < acts.len() implies !(#[trigger] acts[i] is Serve) && !(acts[i] is SendReply) by {
        assert(acts[i] == spec_run(t1, later).1[i - 1]);
    }
    let t = spec_run(s, events).0;
    assert(t == t1);
    assert(spec_closing_replies(t) =~= seq![r.id + " FINISHED\n"@]);
}

/// Law: once an exit was requested no further request is served, and the
/// exit stays requested.
pub proof fn lemma_no_request_served_after_exit(s: EventLoopView, e: EventView, has_running_tasks: bool)
    requires
        s.exit_requested,
    ensures
        !(spec_step(s, e, has_running_tasks).1 is Serve),
        spec_step(s, e, has_running_tasks).0.exit_requested,
        s.exit_immediately_requested ==> spec_step(s, e, has_running_tasks).0.exit_immediately_requested,
{
}

/// Law: while requests are accepted, every request other than an exit
/// request is served unchanged and leaves the state as it was.
pub proof fn lemma_requests_served_while_accepting(s: EventLoopView, r: RequestView, has_running_tasks: bool)
    requires
        !s.exit_requested,
        !(r.kind is ExitServerAfterRequests),
        !(r.kind is ExitServerNow),
    ensures
        spec_step(s, EventView::Received(r), has_running_tasks) == (s, ActionView::Serve(r)),
{
}

/// Law: while the dispatcher waits for the running requests to end, an
/// immediate exit request is still acknowledged, and stops the waiting.
pub proof fn lemma_exit_now_accepted_while_draining(s: EventLoopView, r: RequestView, has_running_tasks: bool)
    requires
        s.exit_requested,
        r.kind is ExitServerNow,
    ensures
        spec_step(s, EventView::Received(r), has_running_tasks).1 == ActionView::SendReply(r.id + " ACK\n"@),
        spec_step(s, EventView::Received(r), has_running_tasks).0.exit_immediately_requested,
{
}

/// Law: an exit request is acknowledged at once, and its token ends the
/// conversation with a `FINISHED` reply.
pub proof fn lemma_exit_request_acknowledged_then_finished(s: EventLoopView, r: RequestView, has_running_tasks: bool)
    requires
        !s.exit_requested,
        r.kind is ExitServerAfterRequests || r.kind is ExitServerNow,
        spec_is_valid_request_id(r.id),
    ensures
        spec_step(s, EventView::Received(r), has_running_tasks).1 == ActionView::SendReply(r.id + " ACK\n"@),
        spec_closing_replies(spec_step(s, EventView::Received(r), has_running_tasks).0).contains(
            r.id + " FINISHED\n"@,
        ),
{
    let t = spec_step(s, EventView::Received(r), has_running_tasks).0;
    if r.kind is ExitServerAfterRequests {
        assert(spec_closing_replies(t)[0] == r.id + " FINISHED\n"@);
    } else {
        let c = spec_closing_replies(t);
        assert(c[c.len() - 1] == r.id + " FINISHED\n"@);
    }
}


// ---------------------------------------------------------------------------
// Parameters of the requests
// ---------------------------------------------------------------------------

/// The reply refusing parameters of the wrong number: `what` says what was
/// expected, then comes the number received and the parameters.
pub open spec fn spec_param_count_error(request_id: Seq<char>, what: Seq<char>, n: nat, params: Seq<char>) -> Seq<char> {
    request_id + " ERROR "@ + "invalid parameters. "@ + what + " but got "@ + spec_decimal(n) + " instead. Params=["@ + params
        + "]"@ + "\n"@
}

/// The parameters of a request, split at the commas, when there are
/// `expected` of them; otherwise the reply refusing them.
pub fn split_params(request_id: &str, params: &str, expected: usize, what: &str) -> (res: Result<Vec<String>, Reply>)
    ensures
        match res {
            Ok(v) => v@.map_values(|x: String| x@) == spec_split(params@, ',') && spec_split(params@, ',').len() == expected,
            Err(r) => spec_split(params@, ',').len() != expected && r.0@ == spec_param_count_error(
                request_id@,
                what@,
                spec_split(params@, ',').len(),
                params@,
            ),
        },
{
    let parts = split_char(params, ',');
    let n = parts.len();
    if n != expected {
        let mut msg = to_owned("invalid parameters. ");
        msg.append(what);
        msg.append(" but got ");
        msg.append(decimal(n as u64).as_str());
        msg.append(" instead. Params=[");
        msg.append(params);
        msg.append("]");
        let r = error_reply(request_id, msg.as_str());
        return Err(r);
    }
    Ok(parts)
}

} // verus!
