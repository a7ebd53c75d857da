use local_jira::atlassian_document_format_html_output::FileData;
use local_jira::encoding::base64_of_str;
use local_jira::get_issue_details::IssueAttachment;
use local_jira::json::{Json, JsonMap, JsonNumber, JsonValue};
use local_jira::manage_field_table;
use local_jira::srv_fetch_attachment_content::{attachment_content_params, attachment_content_reply, get_attachment_content};
use local_jira::srv_fetch_attachment_list_for_ticket::{
    add_uuid_to_names, are_attachment_names_equal, attachment_list_params, attachment_list_reply,
    format_attachment_list, newer_attachment_list_reply, attachment_name_in_db, uuid_id,
};
use local_jira::srv_fetch_ticket::{
    fetch_ticket_params, format_links_for_markdown, format_ticket, get_comments_from_json, get_fields_from_json,
    get_inward_links_from_json, get_outward_links_from_json, get_summary, newer_ticket_reply, output_format,
    stored_ticket_reply, ticket_from_remote_json, try_format_ticket, try_ticket_from_remote_json, Field, Relations,
    comments_render_as_text, description_renders_as_text, remote_ticket_renders_as_text,
};
use local_jira::srv_fetch_ticket_key_value_list::{
    format_key_value_list, get_ticket_key_value_list_from_json, is_same_key_value_vector, key_human_name,
    key_value_in_db, key_value_reply, missing_names_reply, newer_key_value_reply,
};
use local_jira::srv_fetch_ticket_list::{newer_ticket_list_reply, ticket_list_reply};
use local_jira::srv_synchronise_ticket::{
    synchronisation_finished_reply, synchronisation_started_reply, synchronise_ticket_params,
};

fn to_json(v: &serde_json::Value) -> Json {
    let value = match v {
        serde_json::Value::Null => JsonValue::Null,
        serde_json::Value::Bool(b) => JsonValue::Bool(*b),
        serde_json::Value::Number(n) => {
            if let Some(u) = n.as_u64() {
                JsonValue::Number(JsonNumber::PosInt(u))
            } else if let Some(i) = n.as_i64() {
                JsonValue::Number(JsonNumber::NegInt(i))
            } else {
                JsonValue::Number(JsonNumber::Float(n.to_string()))
            }
        },
        serde_json::Value::String(s) => JsonValue::String(s.clone()),
        serde_json::Value::Array(a) => JsonValue::Array(a.iter().map(to_json).collect()),
        serde_json::Value::Object(o) => JsonValue::Object(JsonMap {
            entries: o.iter().map(|(k, x)| (k.clone(), to_json(x))).collect(),
        }),
    };
    Json { value, text: v.to_string() }
}

fn parse(text: &str) -> Json {
    to_json(&serde_json::from_str::<serde_json::Value>(text).unwrap())
}

const ISSUE: &str = r#"{"id":"10","key":"P-1","fields":{
  "summary":"Fix <it>",
  "description":{"type":"doc","content":[{"type":"paragraph","content":[{"type":"text","text":"Steps"}]}]},
  "customfield_1":"team",
  "nothing":null,
  "issuelinks":[
    {"id":"5","type":{"inward":"is blocked by","outward":"blocks"},"outwardIssue":{"key":"P-2","fields":{"summary":"Other"}}},
    {"id":"6","type":{"inward":"is cloned by","outward":"clones"},"inwardIssue":{"key":"P-3"}}
  ],
  "comment":{"comments":[
    {"body":{"type":"doc","content":[{"type":"paragraph","content":[{"type":"text","text":"ok"}]}]},
     "author":{"displayName":"Ann"},"created":"c1","updated":"u1"}
  ]}
}}"#;

fn fields_in_db() -> Vec<manage_field_table::Field> {
    let f = |id: &str, name: &str, custom: bool| manage_field_table::Field {
        jira_id: id.to_string(),
        key: id.to_string(),
        human_name: name.to_string(),
        schema: String::new(),
        is_custom: custom,
    };
    vec![f("summary", "Summary", false), f("description", "Description", false), f("customfield_1", "Team", true)]
}

#[test]
fn ticket_parts_are_read_from_json() {
    let issue = parse(ISSUE);
    let outward = get_outward_links_from_json(&issue).unwrap();
    assert_eq!(outward.len(), 1);
    assert_eq!(outward[0].link_name, "blocks");
    assert_eq!(outward[0].other_issue_key, "P-2");
    assert_eq!(outward[0].other_issue_summary, Some("Other".to_string()));
    let inward = get_inward_links_from_json(&issue).unwrap();
    assert_eq!(inward.len(), 1);
    assert_eq!(inward[0].link_name, "is cloned by");
    assert_eq!(inward[0].other_issue_summary, None);
    let fields = get_fields_from_json(&issue, &fields_in_db()).unwrap();
    let custom: Vec<&str> = fields.custom_fields.iter().map(|f| f.name.as_str()).collect();
    assert_eq!(custom, vec!["Team"]);
    assert_eq!(get_summary(&fields.system_fields), "Fix <it>");
    let comments = get_comments_from_json(&issue).unwrap();
    assert_eq!(comments.len(), 1);
    assert_eq!(comments[0].author, "Ann");
    assert_eq!(comments[0].last_modification, "u1");
    match get_outward_links_from_json(&parse(r#"{"fields":{}}"#)) {
        Ok(_) => panic!("accepted"),
        Err(e) => assert_eq!(e, "No issuelinks array found in json when looking for outward issues"),
    }
}

#[test]
fn ticket_is_rendered_as_markdown() {
    let issue = parse(ISSUE);
    let files: Vec<(String, FileData)> = Vec::new();
    let text = ticket_from_remote_json(&output_format::MARKDOWN, "P-1", &issue, &fields_in_db(), &files).unwrap();
    assert_eq!(
        text,
        "P-1: Fix <it>\n=========\n\nDescription:\n----\nSteps\n\nLinks:\n----\nblocks P-2: Other\nis cloned by P-3: \n\nComments:\n-----\ncomment from: Ann\nlast edited on: u1\nok\n"
    );
}

#[test]
fn ticket_is_rendered_as_html() {
    let issue = parse(ISSUE);
    let files: Vec<(String, FileData)> = Vec::new();
    let html = ticket_from_remote_json(&output_format::HTML, "P-1", &issue, &fields_in_db(), &files).unwrap();
    assert!(html.starts_with("<!DOCTYPE html>\n<html lang=\"en-GB\">"));
    assert!(html.contains("    <h1>P-1: Fix &lt;it&gt;</h1>\n"));
    assert!(html.contains("      <p>\n      Steps\n"));
    assert!(html.contains("        <div class=\"relation\">blocks</div>"));
    assert!(html.contains("comment author: Ann"));
    assert!(html.ends_with("    </div>\n  </body>\n</html>\n"));
}

#[test]
fn ticket_without_links_or_comments() {
    let summary = parse(r#""S""#);
    let system = vec![Field { name: "Summary".to_string(), value: &summary }];
    let files: Vec<(String, FileData)> = Vec::new();
    let text = format_ticket("K-1", &output_format::MARKDOWN, &files, &[], &[], &[], &system, &[]).unwrap();
    assert_eq!(
        text,
        "K-1: S\n=========\n\nDescription:\n----\nno description provided\n\nLinks:\n----\nNo link to other issues found\n\nComments:\n-----\nno comment found\n"
    );
    let r = Relations { link_name: "blocks".to_string(), other_issue_key: "K-2".to_string(), other_issue_summary: None };
    assert_eq!(format_links_for_markdown(&[], &[r]), "blocks K-2: ");
    assert_eq!(get_summary(&[]), "no summary provided");
}

#[test]
fn fetch_ticket_parameters() {
    let (key, format) = fetch_ticket_params("t", "P-1,HTML").unwrap();
    assert_eq!(key, "P-1");
    assert_eq!(format, output_format::HTML);
    match fetch_ticket_params("t", "P-1,PDF") {
        Ok(_) => panic!("accepted"),
        Err(r) => assert_eq!(
            r.0,
            "t ERROR failed to find a suitable format. Err: Unknown format for ticket output. Supported: MARKDOWN and HTML. Requested: PDF\n"
        ),
    }
    match fetch_ticket_params("t", "P-1") {
        Ok(_) => panic!("accepted"),
        Err(r) => assert_eq!(
            r.0,
            "t ERROR invalid parameters. FETCH_TICKET needs two parameters separated by commas but got 1 instead. Params=[P-1]\n"
        ),
    }
    assert_eq!(output_format::try_new("MARKDOWN"), Ok(output_format::MARKDOWN));
}

#[test]
fn ticket_replies_are_base64() {
    assert_eq!(stored_ticket_reply("t", &Ok("abc".to_string())).0, "t RESULT YWJj\n");
    assert_eq!(stored_ticket_reply("t", &Ok(String::new())).0, "t RESULT\n");
    assert_eq!(stored_ticket_reply("t", &Err("no such ticket".to_string())).0, "t ERROR no such ticket\n");
    assert!(newer_ticket_reply("t", &Ok("abc".to_string()), &Ok("abc".to_string())).is_none());
    assert_eq!(newer_ticket_reply("t", &Ok("abd".to_string()), &Ok("abc".to_string())).unwrap().0, "t RESULT YWJk\n");
    assert_eq!(
        newer_ticket_reply("t", &Err("down".to_string()), &Ok("abc".to_string())).unwrap().0,
        "t ERROR failed to get data from remote to see if local data is up to date or note: Err \"down\"\n"
    );
}

fn name(uuid: &str, filename: &str) -> attachment_name_in_db {
    attachment_name_in_db { uuid: uuid.to_string(), filename: filename.to_string() }
}

#[test]
fn attachment_lists() {
    let list = vec![
        name("b23f95f0-db34-4739-9fde-2c0a107d9c97", "specification.pdf\n"),
        name("b7680c80-a28c-4f09-9ee8-272ec6682ae5", "addendum.png\n"),
    ];
    assert_eq!(
        attachment_list_reply("get_attchlist-lkt54er", &Ok(list)).0,
        "get_attchlist-lkt54er RESULT b23f95f0-db34-4739-9fde-2c0a107d9c97:c3BlY2lmaWNhdGlvbi5wZGYK,b7680c80-a28c-4f09-9ee8-272ec6682ae5:YWRkZW5kdW0ucG5nCg==\n"
    );
    assert_eq!(attachment_list_reply("t", &Ok(Vec::new())).0, "t RESULT \n");
    assert_eq!(format_attachment_list(&[name("u", "a")]), format!("u:{}", base64_of_str("a")));
    let a = vec![name("1", "x"), name("2", "y")];
    let b = vec![name("2", "y"), name("1", "x")];
    assert!(are_attachment_names_equal(&a, &b));
    assert!(!are_attachment_names_equal(&a, &b[..1]));
    assert!(newer_attachment_list_reply("t", &Ok(a), &Ok(b)).is_none());
    assert_eq!(attachment_list_params("t", "P-1").unwrap(), "P-1");
}

#[test]
fn attachment_uuids_come_from_the_database() {
    let atts = vec![
        IssueAttachment { attachment_id: 1, filename: "a".to_string(), mime_type: "m".to_string(), size: None },
        IssueAttachment { attachment_id: 2, filename: "b".to_string(), mime_type: "m".to_string(), size: None },
    ];
    let rows = vec![uuid_id { uuid: "u1".to_string(), id: 1 }, uuid_id { uuid: "u2".to_string(), id: 2 }];
    let named = add_uuid_to_names(&atts, "P-1", &rows).unwrap();
    assert_eq!((named[1].uuid.as_str(), named[1].filename.as_str()), ("u2", "b"));
    match add_uuid_to_names(&atts, "P-1", &rows[..1]) {
        Ok(_) => panic!("accepted"),
        Err(e) => assert_eq!(e, "local db has no uuid for attachment of P-1 with id=2 and name b"),
    }
}

#[test]
fn attachment_content_replies() {
    assert_eq!(get_attachment_content("u", Some(vec![1, 2, 3])), Ok("AQID".to_string()));
    assert_eq!(
        get_attachment_content("u", None),
        Err("No data found for file with uuid u in local database".to_string())
    );
    assert_eq!(attachment_content_reply("t", &Ok("AQID".to_string())).0, "t RESULT AQID\n");
    assert_eq!(
        attachment_content_reply("t", &Err("no such uuid in local database".to_string())).0,
        "t ERROR no such uuid in local database\n"
    );
    assert_eq!(attachment_content_params("t", "abc").unwrap(), "abc");
    assert!(attachment_content_params("t", "a,b").is_err());
}

fn kv(k: &str, v: &str) -> key_value_in_db {
    key_value_in_db { field_key: k.to_string(), field_value: v.to_string() }
}

#[test]
fn key_value_lists() {
    let names = vec![key_human_name { jira_field_key: "k1".to_string(), human_name: "description\n".to_string() }];
    let list = vec![kv("k1", "dummy ticket to test something on jira server\n"), kv("status\n", "Done\n")];
    assert_eq!(
        format_key_value_list(&list, &names),
        "ZGVzY3JpcHRpb24K:ZHVtbXkgdGlja2V0IHRvIHRlc3Qgc29tZXRoaW5nIG9uIGppcmEgc2VydmVyCg==,c3RhdHVzCg==:RG9uZQo="
    );
    assert_eq!(key_value_reply("t", &Ok(Vec::new()), &names).0, "t RESULT\n");
    assert_eq!(key_value_reply("t", &Err("e".to_string()), &names).0, "t ERROR e\n");
    assert_eq!(
        missing_names_reply("t", "x").0,
        "t ERROR failed to get the mapping jira field key to human key from local db. Err: x\n"
    );
    let reordered = vec![kv("status\n", "Done\n"), kv("k1", "dummy ticket to test something on jira server\n")];
    assert!(is_same_key_value_vector(&list, &reordered));
    assert!(!is_same_key_value_vector(&list, &reordered[..1]));
    assert!(newer_key_value_reply("t", &Ok(reordered), &Ok(list), &names).is_none());
}

#[test]
fn key_values_of_a_ticket() {
    let kvs = get_ticket_key_value_list_from_json("P-1", &parse(r#"{"fields":{"a":"x","b":null,"c":3}}"#)).unwrap();
    let pairs: Vec<(&str, &str)> = kvs.iter().map(|k| (k.field_key.as_str(), k.field_value.as_str())).collect();
    assert_eq!(pairs, vec![("a", "\"x\""), ("c", "3")]);
    match get_ticket_key_value_list_from_json("P-1", &parse("{}")) {
        Ok(_) => panic!("accepted"),
        Err(e) => assert_eq!(e, "Error: failed to extract fields' list from json for issue P-1"),
    }
}

#[test]
fn ticket_list_and_synchronisation_replies() {
    assert_eq!(ticket_list_reply("t", &Ok("A-1,B-2".to_string())).0, "t RESULT A-1,B-2\n");
    assert_eq!(ticket_list_reply("t", &Err("db".to_string())).0, "t ERROR db\n");
    assert!(newer_ticket_list_reply("t", &Ok("A-1".to_string()), &Ok("A-1".to_string())).is_none());
    assert_eq!(
        newer_ticket_list_reply("t", &Ok("A-1,A-2".to_string()), &Ok("A-1".to_string())).unwrap().0,
        "t RESULT A-1,A-2\n"
    );
    assert_eq!(synchronisation_started_reply("t").0, "t RESULT synchronisation started\n");
    assert_eq!(synchronisation_finished_reply("t").0, "t RESULT synchronisation finished\n");
    assert_eq!(synchronise_ticket_params("t", "P-4").unwrap(), "P-4");
    match synchronise_ticket_params("t", "") {
        Ok(k) => assert_eq!(k, ""),
        Err(_) => panic!("one empty parameter is one parameter"),
    }
}

#[test]
fn renderable_tickets_are_formatted_by_the_checking_functions() {
    let issue = parse(ISSUE);
    let files: Vec<(String, FileData)> = Vec::new();
    assert!(remote_ticket_renders_as_text(&issue, &fields_in_db()));
    let checked = try_ticket_from_remote_json(&output_format::MARKDOWN, "P-1", &issue, &fields_in_db(), &files);
    let direct = ticket_from_remote_json(&output_format::MARKDOWN, "P-1", &issue, &fields_in_db(), &files);
    assert_eq!(checked, Some(direct));
    let fields = get_fields_from_json(&issue, &fields_in_db()).unwrap();
    let comments = get_comments_from_json(&issue).unwrap();
    assert!(description_renders_as_text(&fields.system_fields));
    assert!(comments_render_as_text(&comments));
    let text = try_format_ticket("P-1", &output_format::MARKDOWN, &files, &[], &[], &[], &fields.system_fields, &comments);
    assert!(text.unwrap().unwrap().starts_with("P-1: Fix <it>\n=========\n\nDescription:\n----\nSteps\n"));
}
