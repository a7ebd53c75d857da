use local_jira::find_issues_that_need_updating::{
    check_issue, fields_to_upsert, get_issues_that_need_updating, get_issues_to_check, get_page_starts,
    get_pagination, issues_to_upsert, next_page_start, scan_is_defined, FoundIssueUpToDate, IssueCheck, StoredTimestamp,
};
use local_jira::get_attachment_content::file_data;
use local_jira::get_issue_details::{
    add_details_to_attachment, attachment_names_in_order, content_to_store, get_attachments_from_stored_json, get_properties_from_json,
    get_ticket_attachment_list_from_json, plan_attachment_updates, IssueAttachment,
};
use local_jira::json::{Json, JsonMap, JsonNumber, JsonValue};
use local_jira::manage_interesting_projects::{
    get_id, get_issue_links_from_json, get_issues_from_json, get_link_type, plan_link_updates, IssueLink,
};
use local_jira::manage_issue_comments::{
    comment_times_well_formed, comments_to_rows, get_comments_from_json, get_difference_in_comments,
    plan_comment_updates, AccountId,
};
use local_jira::utils::{get_inputs_in_db_not_in_remote, get_inputs_in_remote_not_in_db};

fn to_json(v: &serde_json::Value) -> Json {
    let value = match v {
        serde_json::Value::Null => JsonValue::Null,
        serde_json::Value::Bool(b) => JsonValue::Bool(*b),
        serde_json::Value::Number(n) => {
            if let Some(u) = n.as_u64() {
                JsonValue::Number(JsonNumber::PosInt(u))
            } else if let Some(i) = n.as_i64() {
                JsonValue::Number(JsonNumber::NegInt(i))
            } else {
                JsonValue::Number(JsonNumber::Float(n.to_string()))
            }
        },
        serde_json::Value::String(s) => JsonValue::String(s.clone()),
        serde_json::Value::Array(a) => JsonValue::Array(a.iter().map(to_json).collect()),
        serde_json::Value::Object(o) => JsonValue::Object(JsonMap {
            entries: o.iter().map(|(k, x)| (k.clone(), to_json(x))).collect(),
        }),
    };
    Json { value, text: v.to_string() }
}

fn parse(text: &str) -> Json {
    to_json(&serde_json::from_str::<serde_json::Value>(text).unwrap())
}

const SEARCH_RESULT: &str = r#"{"startAt":0,"maxResults":2,"total":5,"issues":[
  {"id":"103","key":"P-3","fields":{"updated":"2024-03-03","summary":"c","issuelinks":[
     {"id":"9","type":{"id":"7"},"outwardIssue":{"id":"101"}}]}},
  {"id":"102","key":"P-2","fields":{"updated":"2024-02-02","summary":"b"}},
  {"id":"101","key":"P-1","fields":{"updated":"2024-01-01","summary":"a","issuelinks":[
     {"id":"9","type":{"id":"7"},"outwardIssue":{"id":"103"}}]}},
  {"id":"x","key":"P-0","fields":{"updated":"2023"}}
]}"#;

#[test]
fn search_results_give_issues_and_links() {
    let (issues, links) = get_issues_to_check(parse(SEARCH_RESULT)).unwrap();
    let keys: Vec<&str> = issues.iter().map(|i| i.jira_issue.as_str()).collect();
    assert_eq!(keys, vec!["P-3", "P-2", "P-1"]);
    assert_eq!(issues[0].id, 103);
    assert_eq!(issues[0].last_updated, "2024-03-03");
    assert_eq!(links.len(), 1);
    assert_eq!(links[0].jira_id, 9);
    assert_eq!(links[0].link_type_id, 7);
    assert_eq!(links[0].inward_issue_id, 103);
    assert_eq!(links[0].outward_issue_id, 101);
    match get_issues_to_check(parse(r#"{"total":0}"#)) {
        Ok(_) => panic!("accepted"),
        Err(e) => assert_eq!(e, "No issue was found in the json passed to get_issues_from_json_that_need_updating"),
    }
}

#[test]
fn scan_stops_at_first_issue_up_to_date() {
    let (issues, _) = get_issues_to_check(parse(SEARCH_RESULT)).unwrap();
    let stored = vec![
        StoredTimestamp::NotFound,
        StoredTimestamp::Failed,
        StoredTimestamp::Found("\"2024-01-01\"".to_string()),
    ];
    let (kept, found) = get_issues_that_need_updating(issues, &stored);
    assert_eq!(found, FoundIssueUpToDate::ONE_ISSUE_IS_UP_TO_DATE);
    let keys: Vec<&str> = kept.iter().map(|i| i.jira_issue.as_str()).collect();
    assert_eq!(keys, vec!["P-3"]);
}

#[test]
fn scan_without_up_to_date_issue_keeps_all_that_changed() {
    let (issues, _) = get_issues_to_check(parse(SEARCH_RESULT)).unwrap();
    let stored = vec![
        StoredTimestamp::Found("2024-03-01".to_string()),
        StoredTimestamp::NotFound,
        StoredTimestamp::NotFound,
    ];
    let (kept, found) = get_issues_that_need_updating(issues, &stored);
    assert_eq!(found, FoundIssueUpToDate::NO_ISSUE_IS_UP_TO_DATE);
    assert_eq!(kept.len(), 3);
}

#[test]
fn issue_checks() {
    assert_eq!(check_issue(&StoredTimestamp::Found("\"t\"".to_string()), "t"), IssueCheck::UpToDate);
    assert_eq!(check_issue(&StoredTimestamp::Found("t".to_string()), "t"), IssueCheck::UpToDate);
    assert_eq!(check_issue(&StoredTimestamp::Found("u".to_string()), "t"), IssueCheck::NeedsUpdate);
    assert_eq!(check_issue(&StoredTimestamp::NotFound, "t"), IssueCheck::NeedsUpdate);
    assert_eq!(check_issue(&StoredTimestamp::Failed, "t"), IssueCheck::Skip);
}

#[test]
fn pagination_reaches_the_total() {
    assert_eq!(get_pagination(&parse(SEARCH_RESULT)), (2, Some(5)));
    assert_eq!(get_pagination(&parse(r#"{"issues":[]}"#)), (100, None));
    assert_eq!(get_page_starts(5, 2), vec![2, 4]);
    assert_eq!(get_page_starts(4, 2), vec![2, 4]);
    assert_eq!(get_page_starts(2, 2), Vec::<i64>::new());
    assert_eq!(get_page_starts(250, 100), vec![100, 200]);
}

#[test]
fn rows_to_write_for_updated_issues() {
    let (issues, _) = get_issues_to_check(parse(SEARCH_RESULT)).unwrap();
    let rows = issues_to_upsert(&issues, "P");
    assert_eq!(rows.len(), 3);
    assert_eq!((rows[0].jira_id, rows[0].key.as_str(), rows[0].project_key.as_str()), (103, "P-3", "P"));
    let fields = fields_to_upsert(&issues);
    let ids: Vec<u32> = fields.iter().map(|f| f.issue_id).collect();
    assert_eq!(ids, vec![101, 102, 103]);
    let keys: Vec<&str> = fields[1].properties.iter().map(|p| p.key.as_str()).collect();
    assert_eq!(keys, vec!["summary", "updated"]);
    assert_eq!(fields[1].properties[0].value, "\"b\"");
}

#[test]
fn issues_and_links_of_a_project() {
    let issues = get_issues_from_json(&parse(SEARCH_RESULT), "P").unwrap();
    let ids: Vec<u32> = issues.iter().map(|i| i.jira_id).collect();
    assert_eq!(ids, vec![103, 102, 101]);
    assert_eq!(issues[2].key, "P-1");
    match get_issues_from_json(&parse(r#"{"issues":3}"#), "P") {
        Ok(_) => panic!("accepted"),
        Err(e) => assert_eq!(e, "Error: the fields named 'issues' isn't a json array"),
    }
    match get_issue_links_from_json(&parse("{}")) {
        Ok(_) => panic!("accepted"),
        Err(e) => assert_eq!(e, "No field named 'issues' in the json"),
    }
    assert_eq!(get_id(&parse(r#"{"id":"42"}"#)), Some(42));
    assert_eq!(get_id(&parse(r#"{"id":42}"#)), None);
    assert_eq!(get_link_type(&parse(r#"{"id":"1","type":{"id":"2"},"outwardIssue":{"id":"3"}}"#)), Some((1, true, 3, 2)));
    assert_eq!(get_link_type(&parse(r#"{"id":"1","type":{"id":"2"},"inwardIssue":{"id":"3"}}"#)), Some((1, false, 3, 2)));
    assert_eq!(get_link_type(&parse(r#"{"id":"1","type":{"id":"2"}}"#)), None);
}

const COMMENTS: &str = r#"{"comments":[
  {"id":"11","author":{"accountId":"acc-1","displayName":"Ann"},"created":"\"2024-01-01\"","updated":"2024-01-02","body":{"type":"doc"}},
  {"id":"12","author":{"accountId":"acc-2","displayName":"Bob"},"created":"2024-01-03","updated":"2024-01-03","body":"hi"},
  {"id":"13","created":"x","updated":"y","body":1}
]}"#;

#[test]
fn comments_are_read_and_planned() {
    let comments = get_comments_from_json(&parse(COMMENTS), 7).unwrap();
    assert_eq!(comments.len(), 2);
    assert_eq!(comments[0].created, "2024-01-01");
    assert_eq!(comments[0].content, "{\"type\":\"doc\"}");
    assert_eq!(comments[1].author.displayName, "Bob");
    assert_eq!(comments[1].issue_id, 7);
    assert!(get_comments_from_json(&parse("[]"), 7).is_none());

    let stored = comments_to_rows(get_comments_from_json(&parse(COMMENTS), 7).unwrap());
    assert_eq!(stored[1].position_in_array, 1);
    assert_eq!(stored[1].author, "acc-2");

    let known = vec![AccountId { account_id: "acc-1".to_string() }];
    let plan = plan_comment_updates(comments, &stored[..1], &known);
    let new_authors: Vec<&str> = plan.authors_to_insert.iter().map(|a| a.accountId.as_str()).collect();
    assert_eq!(new_authors, vec!["acc-2"]);
    assert!(plan.comments_to_remove.is_empty());
    assert_eq!(plan.comments_to_insert.len(), 1);
    assert_eq!(plan.comments_to_insert[0].id, 12);
}

#[test]
fn comment_differences_go_both_ways() {
    let rows = comments_to_rows(get_comments_from_json(&parse(COMMENTS), 7).unwrap());
    let diff = get_difference_in_comments(&rows[..1], &rows[1..]);
    assert_eq!(diff.comments_in_remote_not_in_db.len(), 1);
    assert_eq!(diff.comments_in_remote_not_in_db[0].id, 11);
    assert_eq!(diff.comments_in_db_not_in_remote.len(), 1);
    assert_eq!(diff.comments_in_db_not_in_remote[0].id, 12);
}

fn link(id: u32) -> IssueLink {
    IssueLink { jira_id: id, link_type_id: 1, outward_issue_id: 2, inward_issue_id: 3 }
}

#[test]
fn set_differences_keep_first_occurrences_once() {
    let remote = vec![link(1), link(2), link(2), link(3)];
    let db = vec![link(3), link(4), link(4)];
    let a: Vec<u32> = get_inputs_in_remote_not_in_db(&remote, &db).into_iter().map(|l| l.jira_id).collect();
    let b: Vec<u32> = get_inputs_in_db_not_in_remote(&remote, &db).into_iter().map(|l| l.jira_id).collect();
    assert_eq!(a, vec![1, 2]);
    assert_eq!(b, vec![4]);
}

#[test]
fn link_updates_follow_the_server_and_an_empty_list_changes_nothing() {
    let remote = vec![link(1), link(2), link(2), link(3)];
    let db = vec![link(3), link(4), link(4)];
    let plan = plan_link_updates(&remote, &db);
    let removed: Vec<u32> = plan.links_to_remove.into_iter().map(|l| l.jira_id).collect();
    let inserted: Vec<u32> = plan.links_to_insert.into_iter().map(|l| l.jira_id).collect();
    assert_eq!(removed, vec![4]);
    assert_eq!(inserted, vec![1, 2]);
    let plan = plan_link_updates(&[], &db);
    assert!(plan.links_to_remove.is_empty());
    assert!(plan.links_to_insert.is_empty());
}

#[test]
fn further_pages_stop_at_an_up_to_date_issue() {
    let starts = get_page_starts(250, 100);
    assert_eq!(next_page_start(FoundIssueUpToDate::NO_ISSUE_IS_UP_TO_DATE, &starts, 0), Some(100));
    assert_eq!(next_page_start(FoundIssueUpToDate::NO_ISSUE_IS_UP_TO_DATE, &starts, 1), Some(200));
    assert_eq!(next_page_start(FoundIssueUpToDate::NO_ISSUE_IS_UP_TO_DATE, &starts, 2), None);
    assert_eq!(next_page_start(FoundIssueUpToDate::ONE_ISSUE_IS_UP_TO_DATE, &starts, 0), None);
    assert_eq!(next_page_start(FoundIssueUpToDate::NO_ISSUE_IS_UP_TO_DATE, &Vec::new(), 0), None);
}

const ISSUE_WITH_ATTACHMENTS: &str = r#"{"id":"55","key":"P-5","fields":{"attachment":[
  {"id":"1","filename":"spec (b23f95f0-db34-4739-9fde-2c0a107d9c97).pdf","mimeType":"application/pdf","size":3},
  {"id":"2","filename":"plain.txt","mimeType":"text/plain"}
]}}"#;

#[test]
fn attachments_are_listed_and_planned() {
    let list = get_ticket_attachment_list_from_json("P-5", &parse(ISSUE_WITH_ATTACHMENTS)).unwrap();
    assert_eq!(list.len(), 2);
    assert_eq!(list[0].attachment_id, 1);
    assert_eq!(list[0].size, Some(3));
    assert_eq!(list[1].size, None);
    match get_ticket_attachment_list_from_json("P-5", &parse(r#"{"fields":{}}"#)) {
        Ok(_) => panic!("accepted"),
        Err(e) => assert_eq!(e, "Couldn't extract attachments from the returned json for issue P-5"),
    }
    match get_ticket_attachment_list_from_json("P-5", &parse(r#"{"fields":{"attachment":[1]}}"#)) {
        Ok(_) => panic!("accepted"),
        Err(e) => assert_eq!(
            e,
            "Invalid json found. Attachment should only contain objects. But at least one elements of P-5's attachment isn't"
        ),
    }
    match get_ticket_attachment_list_from_json("P-5", &parse(r#"{"fields":{"attachment":[{"id":"1"}]}}"#)) {
        Ok(_) => panic!("accepted"),
        Err(e) => assert_eq!(e, "Some object in the attachment array for issue P-5 does not lead to valid attachment data"),
    }

    let plan = plan_attachment_updates(55, list, &[2, 9]);
    assert_eq!(plan.ids_to_delete, vec![9]);
    assert_eq!(plan.attachments_to_insert.len(), 1);
    let a = &plan.attachments_to_insert[0];
    assert_eq!(a.attachment_id, 1);
    assert_eq!(a.issue_id, 55);
    assert_eq!(a.uuid, Some("b23f95f0-db34-4739-9fde-2c0a107d9c97".to_string()));
}

#[test]
fn attachment_uuid_comes_from_the_last_parentheses() {
    let a = IssueAttachment { attachment_id: 3, filename: "a (x) (y).png".to_string(), mime_type: "image/png".to_string(), size: None };
    let d = add_details_to_attachment(4, a);
    assert_eq!(d.uuid, Some("y".to_string()));
    let b = IssueAttachment { attachment_id: 3, filename: "none.png".to_string(), mime_type: "image/png".to_string(), size: None };
    assert_eq!(add_details_to_attachment(4, b).uuid, None);
}

#[test]
fn stored_attachment_lists_and_downloads() {
    let stored = get_attachments_from_stored_json(&parse(
        r#"[{"id":"4","filename":"f","mimeType":"m"},{"bad":true}]"#,
    ));
    assert_eq!(stored.len(), 1);
    assert_eq!(stored[0].attachment_id, 4);
    let downloaded = file_data { uuid: None, bytes: Some(vec![1, 2, 3]) };
    assert_eq!(content_to_store(3, &downloaded), Some(&vec![1, 2, 3]));
    assert_eq!(content_to_store(4, &downloaded), None);
}

#[test]
fn properties_of_an_issue() {
    let props = get_properties_from_json("P-9", &parse(r#"{"id":"9","fields":{"summary":"s","empty":null}}"#)).unwrap();
    assert_eq!(props.issue_id, 9);
    let keys: Vec<&str> = props.properties.iter().map(|p| p.key.as_str()).collect();
    assert_eq!(keys, vec!["summary"]);
    assert_eq!(props.properties[0].value, "\"s\"");
    match get_properties_from_json("P-9", &parse(r#"{"fields":{}}"#)) {
        Ok(_) => panic!("accepted"),
        Err(e) => assert_eq!(
            e,
            "error: while trying to get properties from json data. Json for P-9 does not contain an \"id\" fields"
        ),
    }
}

#[test]
fn set_differences_work_on_integers() {
    let remote = vec![1u32, 2, 2, 3];
    let db = vec![3u32, 4, 4];
    let a: Vec<u32> = get_inputs_in_remote_not_in_db(&remote, &db).into_iter().copied().collect();
    let b: Vec<u32> = get_inputs_in_db_not_in_remote(&remote, &db).into_iter().copied().collect();
    assert_eq!(a, vec![1, 2]);
    assert_eq!(b, vec![4]);
}

#[test]
fn scan_is_defined_up_to_where_it_stops() {
    let (issues, _) = get_issues_to_check(parse(SEARCH_RESULT)).unwrap();
    let lone = || StoredTimestamp::Found("\"".to_string());
    let stops_first = vec![StoredTimestamp::Found("2024-03-03".to_string()), lone(), lone()];
    assert!(scan_is_defined(&issues, &stops_first));
    let reaches_lone = vec![StoredTimestamp::NotFound, lone(), StoredTimestamp::NotFound];
    assert!(!scan_is_defined(&issues, &reaches_lone));
    let (kept, found) = get_issues_that_need_updating(issues, &stops_first);
    assert!(kept.is_empty());
    assert_eq!(found, FoundIssueUpToDate::ONE_ISSUE_IS_UP_TO_DATE);
}

#[test]
fn lone_quote_times_and_misplaced_parentheses_are_detected() {
    assert!(comment_times_well_formed(&parse(COMMENTS)));
    let bad = r#"{"comments":[{"id":"1","author":{"accountId":"a","displayName":"A"},"created":"\"","updated":"x","body":1}]}"#;
    assert!(!comment_times_well_formed(&parse(bad)));
    let badly_formed = r#"{"comments":[{"id":"1","created":"\"","updated":"x","body":1}]}"#;
    assert!(comment_times_well_formed(&parse(badly_formed)));
    let ok = vec![IssueAttachment { attachment_id: 1, filename: "a (u).png".to_string(), mime_type: "m".to_string(), size: None }];
    assert!(attachment_names_in_order(&ok, &[]));
    let bad = vec![IssueAttachment { attachment_id: 1, filename: "a ) (u.png".to_string(), mime_type: "m".to_string(), size: None }];
    assert!(!attachment_names_in_order(&bad, &[]));
    assert!(!attachment_names_in_order(&bad, &[2]));
    // A stored attachment keeps its details, so its name is not looked at.
    assert!(attachment_names_in_order(&bad, &[1]));
    let plan = plan_attachment_updates(7, bad, &[1, 3]);
    assert_eq!(plan.ids_to_delete, vec![3]);
    assert!(plan.attachments_to_insert.is_empty());
}
