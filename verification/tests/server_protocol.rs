use local_jira::server::{
    ack_reply, error_reply, finished_reply, is_valid_issue_key, is_valid_request_id, push_error_reply,
    request_frame, request_from_input_line, result_reply, result_reply_or_empty, split_params, EventLoopState, IncomingEvent,
    LoopAction, LoopControl, Request, RequestKind,
};

fn parse(line: &str) -> Request {
    match Request::from(line) {
        Ok(r) => r,
        Err(e) => panic!("refused [{line}]: {e}"),
    }
}

fn refusal(line: &str) -> String {
    match Request::from(line) {
        Ok(_) => panic!("accepted [{line}]"),
        Err(e) => e,
    }
}

#[test]
fn fetch_ticket_with_parameters_is_parsed() {
    let r = parse("req-1 FETCH_TICKET PROJ-123,HTML");
    assert_eq!(r.request_id, "req-1");
    match r.request_kind {
        RequestKind::Fetch_Ticket(p) => assert_eq!(p, "PROJ-123,HTML"),
        _ => panic!("wrong kind"),
    }
}

#[test]
fn every_command_is_recognised() {
    assert!(matches!(parse("a FETCH_TICKET_LIST").request_kind, RequestKind::Fetch_Ticket_List));
    assert!(matches!(
        parse("a FETCH_TICKET_KEY_VALUE_FIELDS K-1").request_kind,
        RequestKind::Fetch_Ticket_Key_Value_Fields(p) if p == "K-1"
    ));
    assert!(matches!(
        parse("a FETCH_ATTACHMENT_LIST_FOR_TICKET K-2").request_kind,
        RequestKind::Fetch_Attachment_List_For_Ticket(p) if p == "K-2"
    ));
    assert!(matches!(
        parse("a FETCH_ATTACHMENT_CONTENT 1234").request_kind,
        RequestKind::Fetch_Attachment_Content(p) if p == "1234"
    ));
    assert!(matches!(
        parse("a SYNCHRONISE_TICKET K-3").request_kind,
        RequestKind::Synchronise_Ticket(p) if p == "K-3"
    ));
    assert!(matches!(parse("a SYNCHRONISE_UPDATED").request_kind, RequestKind::Synchronise_Updated));
    assert!(matches!(parse("a SYNCHRONISE_ALL").request_kind, RequestKind::Synchronise_All));
    assert!(matches!(parse("a EXIT_SERVER_AFTER_REQUESTS").request_kind, RequestKind::Exit_Server_After_Requests));
    assert!(matches!(parse("a EXIT_SERVER_NOW").request_kind, RequestKind::Exit_Server_Now));
}

#[test]
fn parameterless_command_with_trailing_space_is_refused() {
    assert_eq!(
        refusal("a FETCH_TICKET_LIST "),
        "Invalid request. Fetch_Ticket_List doesn't take parameter, but given []"
    );
    assert_eq!(refusal("a SYNCHRONISE_ALL "), "Invalid request. Synchronise_All doesn't take parameter. Got []");
    assert_eq!(refusal("a EXIT_SERVER_NOW x"), "Invalid request. Exit_Server_Now doesn't take parameter. Got [x]");
}

#[test]
fn command_needing_parameter_without_one_is_refused() {
    assert_eq!(refusal("a FETCH_TICKET"), "Invalid request. Fetch_Ticket takes parameters.");
    assert_eq!(
        refusal("a SYNCHRONISE_TICKET"),
        "Invalid request. Synchronise_Ticket takes a jira issue key as parameter. Something like PROJ-123"
    );
}

#[test]
fn malformed_lines_are_refused() {
    assert_eq!(
        refusal("just_one_chunk"),
        "invalid request. Must contain three space separated chunks (last chunk potentially being the empty string)"
    );
    assert_eq!(
        refusal("a b c d"),
        "invalid request. Must contain three space separated chunks (last chunk potentially being the empty string)"
    );
    assert_eq!(
        refusal("asdf_df12 FETCH_TICKET_LIST"),
        "Invalid request. Request id should only contain ascii alphanum characters or dashed"
    );
    assert_eq!(refusal("a NOT_A_COMMAND"), "invalid request, unknown command [NOT_A_COMMAND]");
}

#[test]
fn request_tokens_follow_the_protocol() {
    assert!(is_valid_request_id("DL-TICKET-PROJ-124-ffhxe"));
    assert!(!is_valid_request_id("asdf_df12"));
    assert!(!is_valid_request_id(""));
}

#[test]
fn issue_keys_are_recognised() {
    assert!(is_valid_issue_key("PROJ-123"));
    assert!(!is_valid_issue_key("proj-123"));
    assert!(!is_valid_issue_key("PROJ123"));
    assert!(!is_valid_issue_key("PROJ-12-3"));
    assert!(!is_valid_issue_key("PROJ-12a"));
}

#[test]
fn replies_have_the_documented_shape() {
    assert_eq!(ack_reply("t1").0, "t1 ACK\n");
    assert_eq!(finished_reply("t1").0, "t1 FINISHED\n");
    assert_eq!(error_reply("t1", "").0, "t1 ERROR \n");
    assert_eq!(error_reply("_", "invalid request").0, "_ ERROR invalid request\n");
    assert_eq!(result_reply("t1", "").0, "t1 RESULT \n");
    assert_eq!(result_reply("t1", "A-1,B-2").0, "t1 RESULT A-1,B-2\n");
    assert_eq!(result_reply_or_empty("t1", "").0, "t1 RESULT\n");
    assert_eq!(result_reply_or_empty("t1", "x").0, "t1 RESULT x\n");
    assert_eq!(push_error_reply("_", "boom").0, "_ ERROR boom\n");
}

#[test]
fn input_lines_become_requests() {
    assert!(request_from_input_line("\n").is_none());
    assert!(request_from_input_line("").is_none());
    let r = request_from_input_line("t-9 SYNCHRONISE_ALL\n").unwrap();
    assert_eq!(r.request_id, "t-9");
    assert!(matches!(r.request_kind, RequestKind::Synchronise_All));
    let bad = request_from_input_line("t-9 BAD\n").unwrap();
    assert_eq!(bad.request_id, "_");
    match bad.request_kind {
        RequestKind::Push_error_message(m) => {
            assert_eq!(m, "Failed to get a request out of [t-9 BAD]: Err: invalid request, unknown command [BAD]")
        },
        _ => panic!("wrong kind"),
    }
}

#[test]
fn parameters_are_split_on_every_comma() {
    let ok = split_params("t", "PROJ-1,HTML", 2, "expected two").unwrap();
    assert_eq!(ok, vec!["PROJ-1".to_string(), "HTML".to_string()]);
    let empty_middle = split_params("t", "a,,b", 3, "x").unwrap();
    assert_eq!(empty_middle, vec!["a".to_string(), String::new(), "b".to_string()]);
    let trailing = split_params("t", "a,", 2, "x").unwrap();
    assert_eq!(trailing, vec!["a".to_string(), String::new()]);
    match split_params("t", "PROJ-1", 2, "Expected two parameters") {
        Ok(_) => panic!("accepted"),
        Err(r) => assert_eq!(
            r.0,
            "t ERROR invalid parameters. Expected two parameters but got 1 instead. Params=[PROJ-1]\n"
        ),
    }
}

fn received(line: &str) -> IncomingEvent {
    IncomingEvent::Received(parse(line))
}

#[test]
fn dispatcher_serves_requests_then_exits_after_them() {
    let mut s = EventLoopState::new();
    assert!(s.is_accepting());
    assert!(matches!(s.step(received("a FETCH_TICKET_LIST"), false), LoopAction::Serve(r) if r.request_id == "a"));
    assert!(matches!(s.step(IncomingEvent::NothingYet, false), LoopAction::Wait));
    match s.step(received("x EXIT_SERVER_AFTER_REQUESTS"), true) {
        LoopAction::SendReply(r) => assert_eq!(r.0, "x ACK\n"),
        _ => panic!("no ack"),
    }
    assert!(!s.is_accepting());
    assert!(s.is_draining(true));
    assert!(matches!(s.step(received("b FETCH_TICKET_LIST"), true), LoopAction::Nothing));
    assert!(matches!(s.step(IncomingEvent::NothingYet, true), LoopAction::Wait));
    assert!(matches!(s.step(IncomingEvent::NothingYet, false), LoopAction::Nothing));
    let closing: Vec<String> = s.closing_replies().into_iter().map(|r| r.0).collect();
    assert_eq!(closing, vec!["x FINISHED\n".to_string()]);
}

#[test]
fn dispatcher_accepts_exit_now_while_draining() {
    let mut s = EventLoopState::new();
    assert!(matches!(s.step(received("x EXIT_SERVER_AFTER_REQUESTS"), true), LoopAction::SendReply(_)));
    match s.step(received("y EXIT_SERVER_NOW"), true) {
        LoopAction::SendReply(r) => assert_eq!(r.0, "y ACK\n"),
        _ => panic!("no ack"),
    }
    assert!(!s.is_draining(true));
    let closing: Vec<String> = s.closing_replies().into_iter().map(|r| r.0).collect();
    assert_eq!(closing, vec!["x FINISHED\n".to_string(), "y FINISHED\n".to_string()]);
}

#[test]
fn dispatcher_stops_when_input_closes() {
    let mut s = EventLoopState::new();
    assert!(matches!(s.step(IncomingEvent::ChannelClosed, true), LoopAction::Nothing));
    assert!(!s.is_accepting());
    assert!(s.closing_replies().is_empty());
}

#[test]
fn understood_requests_are_acknowledged_and_finished() {
    let (ack, finished) = request_frame(&parse("t-1 SYNCHRONISE_ALL"));
    assert_eq!(ack.0, "t-1 ACK\n");
    assert_eq!(finished.unwrap().0, "t-1 FINISHED\n");
    let bad = request_from_input_line("t-1 NOPE").unwrap();
    let (error, none) = request_frame(&bad);
    assert_eq!(error.0, "_ ERROR Failed to get a request out of [t-1 NOPE]: Err: invalid request, unknown command [NOPE]\n");
    assert!(none.is_none());
}

#[test]
fn dispatcher_stops_only_after_running_requests_then_finishes() {
    let mut s = EventLoopState::new();
    assert!(matches!(s.control(true), LoopControl::KeepGoing));
    assert!(matches!(s.step(received("e1 EXIT_SERVER_AFTER_REQUESTS"), true), LoopAction::SendReply(_)));
    assert!(matches!(s.control(true), LoopControl::KeepGoing));
    assert!(matches!(s.step(received("q FETCH_TICKET_LIST"), true), LoopAction::Nothing));
    match s.control(false) {
        LoopControl::Stop(replies) => {
            let texts: Vec<String> = replies.into_iter().map(|r| r.0).collect();
            assert_eq!(texts, vec!["e1 FINISHED\n".to_string()]);
        },
        LoopControl::KeepGoing => panic!("kept going"),
    }
    let mut now = EventLoopState::new();
    assert!(matches!(now.step(received("n EXIT_SERVER_NOW"), true), LoopAction::SendReply(_)));
    assert!(matches!(now.control(true), LoopControl::Stop(_)));
}
