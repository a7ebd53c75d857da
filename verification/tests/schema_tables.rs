use local_jira::json::{Json, JsonMap, JsonNumber, JsonValue};
use local_jira::manage_field_table::{
    get_fields_from_json, get_fields_in_db_not_in_remote, get_fields_in_remote_not_in_db, unexpected, Field,
};
use local_jira::manage_issuelinktype_table::{get_issue_link_types_from_json, get_link_types_not_in_db};
use local_jira::manage_issuetype_table::{get_issue_types_from_json, get_issue_types_not_in_db};
use local_jira::manage_project_table::{
    get_issue_types_per_project, get_issue_types_per_project_not_in_db, get_projects_from_json, get_projects_not_in_db,
    IssueTypePerProject,
};
use local_jira::text::{join, split_char};

fn to_json(v: &serde_json::Value) -> Json {
    let value = match v {
        serde_json::Value::Null => JsonValue::Null,
        serde_json::Value::Bool(b) => JsonValue::Bool(*b),
        serde_json::Value::Number(n) => {
            if let Some(u) = n.as_u64() {
                JsonValue::Number(JsonNumber::PosInt(u))
            } else if let Some(i) = n.as_i64() {
                JsonValue::Number(JsonNumber::NegInt(i))
            } else {
                JsonValue::Number(JsonNumber::Float(n.to_string()))
            }
        },
        serde_json::Value::String(s) => JsonValue::String(s.clone()),
        serde_json::Value::Array(a) => JsonValue::Array(a.iter().map(to_json).collect()),
        serde_json::Value::Object(o) => JsonValue::Object(JsonMap {
            entries: o.iter().map(|(k, x)| (k.clone(), to_json(x))).collect(),
        }),
    };
    Json { value, text: v.to_string() }
}

fn parse(text: &str) -> Json {
    to_json(&serde_json::from_str::<serde_json::Value>(text).unwrap())
}

#[test]
fn fields_of_the_server() {
    let fields = get_fields_from_json(&parse(
        r#"[{"id":"summary","name":"Summary","key":"summary","schema":{"type":"string"},"custom":false},
            {"id":"customfield_1","name":"Team","key":"cf1","schema":{},"custom":true},
            {"id":"broken","name":"No schema","key":"b","custom":false},
            {"id":"x","name":"X","key":"x","schema":{},"custom":"yes"}]"#,
    ))
    .unwrap();
    assert_eq!(fields.len(), 2);
    assert_eq!(fields[0].jira_id, "summary");
    assert_eq!(fields[0].human_name, "Summary");
    assert_eq!(fields[0].schema, "{\"type\":\"string\"}");
    assert!(!fields[0].is_custom);
    assert_eq!(fields[1].key, "cf1");
    assert!(fields[1].is_custom);
    match get_fields_from_json(&parse(r#"{"a":1}"#)) {
        Ok(_) => panic!("accepted"),
        Err(e) => assert_eq!(e, "Error: Returned data is unexpected. Expecting a json object, got [{\"a\":1}]"),
    }
    assert_eq!(unexpected("x", &parse("3")), "Error: Returned data is unexpected. Expecting x, got [3]");
}

fn field(id: &str, name: &str) -> Field {
    Field { jira_id: id.to_string(), key: id.to_string(), human_name: name.to_string(), schema: "{}".to_string(), is_custom: false }
}

#[test]
fn field_table_differences() {
    let remote = vec![field("a", "A"), field("b", "B2")];
    let db = vec![field("b", "B"), field("c", "C")];
    let insert: Vec<&str> = get_fields_in_remote_not_in_db(&remote, &db).iter().map(|f| f.human_name.as_str()).collect();
    let remove: Vec<&str> = get_fields_in_db_not_in_remote(&remote, &db).iter().map(|f| f.human_name.as_str()).collect();
    assert_eq!(insert, vec!["A", "B2"]);
    assert_eq!(remove, vec!["B", "C"]);
}

#[test]
fn link_types_of_the_server() {
    let types = get_issue_link_types_from_json(&parse(
        r#"{"issueLinkTypes":[{"id":"10","name":"Blocks","inward":"is blocked by","outward":"blocks"},{"id":"x","name":"N","inward":"i","outward":"o"}]}"#,
    ))
    .unwrap();
    assert_eq!(types.len(), 1);
    assert_eq!((types[0].jira_id, types[0].outward_name.as_str(), types[0].inward_name.as_str()), (10, "blocks", "is blocked by"));
    match get_issue_link_types_from_json(&parse("[]")) {
        Ok(_) => panic!("accepted"),
        Err(e) => assert_eq!(e, "Error: Returned data is unexpected. Expecting a json object, got [[]]"),
    }
    match get_issue_link_types_from_json(&parse("{}")) {
        Ok(_) => panic!("accepted"),
        Err(e) => assert_eq!(e, "Error: Returned data is unexpected. Expecting a key named issueLinkTypes, got [{}]"),
    }
    match get_issue_link_types_from_json(&parse(r#"{"issueLinkTypes":1}"#)) {
        Ok(_) => panic!("accepted"),
        Err(e) => assert_eq!(e, "Error: Returned data is unexpected. Expecting a json array, got [{\"issueLinkTypes\":1}]"),
    }
    let in_db = get_issue_link_types_from_json(&parse(
        r#"{"issueLinkTypes":[{"id":"10","name":"Blocks","inward":"is blocked by","outward":"blocks"}]}"#,
    ))
    .unwrap();
    assert!(get_link_types_not_in_db(&types, &in_db).is_empty());
}

#[test]
fn issue_types_of_the_server() {
    let types = get_issue_types_from_json(&parse(
        r#"[{"id":"1","name":"Bug","description":"A problem"},{"id":"2","name":"Task"}]"#,
    ))
    .unwrap();
    assert_eq!(types.len(), 1);
    assert_eq!((types[0].jira_id, types[0].name.as_str(), types[0].description.as_str()), (1, "Bug", "A problem"));
    assert!(get_issue_types_from_json(&parse("{}")).is_err());
    assert_eq!(get_issue_types_not_in_db(&types, &Vec::new()).len(), 1);
}

#[test]
fn projects_of_the_server() {
    let json = parse(
        r#"[{"id":"100","key":"PROJ","name":"Project","description":"d","archived":true,"issueTypes":[{"id":"1"},{"id":"2"},{"name":"no id"}]},
            {"id":"101","key":"OLD","name":"Other","description":"","issueTypes":[{"id":"1"}]},
            {"id":"102","key":"NODESC","name":"N"}]"#,
    );
    let projects = get_projects_from_json(&json).unwrap();
    assert_eq!(projects.len(), 2);
    assert!(projects[0].is_archived);
    assert!(!projects[1].is_archived);
    assert_eq!(projects[1].key, "OLD");
    let per_project = get_issue_types_per_project(&json);
    let pairs: Vec<(u32, u32)> = per_project.iter().map(|p| (p.project_id, p.issue_type_id)).collect();
    assert_eq!(pairs, vec![(100, 1), (100, 2), (101, 1)]);
    let in_db = vec![IssueTypePerProject { project_id: 100, issue_type_id: 1 }];
    let missing: Vec<(u32, u32)> = get_issue_types_per_project_not_in_db(&per_project, &in_db)
        .iter()
        .map(|p| (p.project_id, p.issue_type_id))
        .collect();
    assert_eq!(missing, vec![(100, 2), (101, 1)]);
    assert_eq!(get_projects_not_in_db(&projects, &Vec::new()).len(), 2);
    assert!(get_issue_types_per_project(&parse("{}")).is_empty());
}

#[test]
fn splitting_then_joining_gives_the_text_back() {
    for text in ["", ",", "a", "a,,b", ",a,", "PROJ-1,HTML"] {
        let parts = split_char(text, ',');
        assert_eq!(parts.len(), text.matches(',').count() + 1);
        assert!(parts.iter().all(|p| !p.contains(',')));
        assert_eq!(join(&parts, ","), text);
    }
}

#[test]
fn synchronising_a_table_reaches_the_server_contents() {
    let remote = vec![field("a", "A"), field("b", "B2"), field("d", "D")];
    let db = vec![field("b", "B"), field("c", "C"), field("d", "D")];
    let to_remove: Vec<String> = get_fields_in_db_not_in_remote(&remote, &db).iter().map(|f| f.human_name.clone()).collect();
    let to_insert: Vec<String> = get_fields_in_remote_not_in_db(&remote, &db).iter().map(|f| f.human_name.clone()).collect();
    let mut after: Vec<String> = db.iter().map(|f| f.human_name.clone()).filter(|n| !to_remove.contains(n)).collect();
    after.extend(to_insert.iter().cloned());
    after.sort();
    let mut expected: Vec<String> = remote.iter().map(|f| f.human_name.clone()).collect();
    expected.sort();
    assert_eq!(after, expected);
    assert!(to_insert.iter().all(|n| !to_remove.contains(n)));
}
