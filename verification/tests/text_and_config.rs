use local_jira::atlassian_document_format_html_output::to_html_verbatim;
use local_jira::encoding::base64_of_str;
use local_jira::srv_fetch_attachment_content::get_attachment_content;
use local_jira::srv_fetch_ticket::newer_ticket_reply;
use local_jira::get_attachment_content::{
    downloaded_file_data, is_cookie_valid, is_cookie_valid_at, is_uuid, no_file_data, uuid_from_download_path,
    CookieExpiration,
};
use local_jira::get_config::{api_token_from_env, default_database_path, get_config, ConfigFile, JIRA_API_TOKEN_ENV_VAR};
use local_jira::text::{
    decimal, decimal_i64, indent_with, join, lines, parse_i64, parse_u32, replace, split_char, trim,
};
use local_jira::utils::{get_str_without_surrounding_quotes, remove_surrounding_quotes};
use std::path::PathBuf;

#[test]
fn surrounding_quotes_are_removed_only_when_safe() {
    assert_eq!(remove_surrounding_quotes("\"John\"".to_string()), "John");
    assert_eq!(remove_surrounding_quotes("John".to_string()), "John");
    assert_eq!(
        remove_surrounding_quotes("\"John Doe\" is nicer than \"M. 23\"".to_string()),
        "\"John Doe\" is nicer than \"M. 23\""
    );
    assert_eq!(remove_surrounding_quotes("\"\"".to_string()), "");
    assert_eq!(get_str_without_surrounding_quotes("\"a\"b\""), "a\"b");
    assert_eq!(get_str_without_surrounding_quotes("\"abc"), "\"abc");
}

#[test]
fn removing_quotes_twice_changes_nothing_more() {
    let once = remove_surrounding_quotes("\"\"x\"\"".to_string());
    let twice = remove_surrounding_quotes(once.clone());
    assert_eq!(once, twice);
}

#[test]
fn numbers_are_parsed_and_written() {
    assert_eq!(parse_u32("10042"), Some(10042));
    assert_eq!(parse_u32(""), None);
    assert_eq!(parse_u32("12a"), None);
    assert_eq!(parse_u32("4294967296"), None);
    assert_eq!(parse_u32("4294967295"), Some(u32::MAX));
    assert_eq!(parse_i64("-17"), Some(-17));
    assert_eq!(parse_i64("9223372036854775807"), Some(i64::MAX));
    assert_eq!(parse_i64("9223372036854775808"), None);
    assert_eq!(decimal(0), "0");
    assert_eq!(decimal(1234), "1234");
    assert_eq!(decimal_i64(-45), "-45");
    assert_eq!(decimal_i64(i64::MIN), "-9223372036854775808");
}

#[test]
fn text_helpers_behave_like_std() {
    assert_eq!(split_char("a,,b,", ','), vec!["a", "", "b", ""]);
    assert_eq!(split_char("", ','), vec![""]);
    assert_eq!(lines("one\r\ntwo\n"), vec!["one", "two"]);
    assert_eq!(join(&vec!["a".to_string(), "b".to_string()], ", "), "a, b");
    assert_eq!(trim("  x y \n"), "x y");
    assert_eq!(replace("a-b-c", "-", "+"), "a+b+c");
    assert_eq!(indent_with("a\nb", "> "), "> a\n> b");
}

#[test]
fn html_is_escaped() {
    assert_eq!(
        to_html_verbatim("<a href='x'>&</a>"),
        "<verbatim>&lt;a href=&#x27;x&#x27;&gt;&amp;&lt;&#x2F;a&gt;</verbatim>"
    );
    assert_eq!(to_html_verbatim("plain"), "<verbatim>plain</verbatim>");
    let escaped = to_html_verbatim("\"<>'");
    let inner = &escaped["<verbatim>".len()..escaped.len() - "</verbatim>".len()];
    assert!(!inner.contains('<') && !inner.contains('>') && !inner.contains('"') && !inner.contains('\''));
}

#[test]
fn base64_is_standard_and_padded() {
    assert_eq!(get_attachment_content("u", Some(Vec::new())), Ok(String::new()));
    assert_eq!(get_attachment_content("u", Some(b"f".to_vec())), Ok("Zg==".to_string()));
    assert_eq!(get_attachment_content("u", Some(b"fo".to_vec())), Ok("Zm8=".to_string()));
    assert_eq!(get_attachment_content("u", Some(b"foo".to_vec())), Ok("Zm9v".to_string()));
    assert_eq!(base64_of_str("status\n"), "c3RhdHVzCg==");
    assert_eq!(base64_of_str("specification.pdf\n"), "c3BlY2lmaWNhdGlvbi5wZGYK");
}

#[test]
fn errors_from_the_server_are_quoted_in_replies() {
    assert_eq!(
        newer_ticket_reply("t", &Err("a\"b".to_string()), &Ok(String::new())).unwrap().0,
        "t ERROR failed to get data from remote to see if local data is up to date or note: Err \"a\\\"b\"\n"
    );
}

fn config_file(api_token: Option<&str>) -> ConfigFile {
    ConfigFile {
        server_address: "https://jira.example.com".to_string(),
        user_login: "me@example.com".to_string(),
        api_token: api_token.map(|t| t.to_string()),
        local_database: None,
        interesting_projects: Some(vec!["PROJ".to_string()]),
        max_file_size_to_download: None,
        mozilla_cookies_db: None,
    }
}

#[test]
fn config_derives_credentials_and_defaults() {
    let c = get_config(config_file(Some("secret")), "/home/me/.config/local_jira/local_jira.toml", Err("unset".to_string())).unwrap();
    assert_eq!(c.server_address(), "https://jira.example.com");
    assert_eq!(c.user_login(), "me@example.com");
    assert_eq!(c.api_token(), "secret");
    assert_eq!(c.auth_token(), base64_of_str("me@example.com:secret"));
    assert_eq!(c.local_database(), &PathBuf::from("/home/me/.config/local_jira/local_jira.sqlite"));
    assert_eq!(c.interesting_projects(), &vec!["PROJ".to_string()]);
    assert!(c.get_mozilla_cookies_db().is_none());
}

#[test]
fn config_takes_the_token_from_the_environment() {
    let c = get_config(config_file(None), "local_jira.toml", Ok("from-env".to_string())).unwrap();
    assert_eq!(c.api_token(), "from-env");
    assert_eq!(c.local_database(), &PathBuf::from("local_jira.sqlite"));
    let mut named = config_file(Some("t"));
    named.local_database = Some(PathBuf::from("/data/jira.db"));
    let c = get_config(named, "/etc/x.toml", Err(String::new())).unwrap();
    assert_eq!(c.local_database(), &PathBuf::from("/data/jira.db"));
    assert_eq!(default_database_path("/"), PathBuf::from("/local_jira.sqlite"));
    match get_config(config_file(None), "local_jira.toml", Err("not present".to_string())) {
        Ok(_) => panic!("accepted"),
        Err(e) => assert_eq!(
            e,
            format!(
                "Config file does not contain an api_token and couldn't get it from environment variable.\nError: Couldn't get environment variable {}: not present",
                JIRA_API_TOKEN_ENV_VAR
            )
        ),
    }
    assert_eq!(
        api_token_from_env(Err("x".to_string())),
        Err("Couldn't get environment variable JIRA_API_TOKEN: x".to_string())
    );
    assert_eq!(api_token_from_env(Ok("t".to_string())), Ok("t".to_string()));
}

#[test]
fn uuids_are_recognised() {
    assert!(is_uuid("b23f95f0-db34-4739-9fde-2c0a107d9c97"));
    assert!(is_uuid("B23F95F0-DB34-4739-9FDE-2C0A107D9C97"));
    assert!(!is_uuid("b23f95f0-db34-4739-9fde-2c0a107d9c9"));
    assert!(!is_uuid("b23f95f0db34-4739-9fde-2c0a107d9c97-"));
    assert!(!is_uuid("g23f95f0-db34-4739-9fde-2c0a107d9c97"));
}

#[test]
fn cookies_expire_five_seconds_early() {
    let cookie = CookieExpiration { value: Some("abc".to_string()), expiry: Some(1000) };
    assert!(is_cookie_valid_at(&cookie, 994));
    assert!(!is_cookie_valid_at(&cookie, 995));
    let no_value = CookieExpiration { value: None, expiry: None };
    assert!(!is_cookie_valid_at(&no_value, 0));
    assert!(!is_cookie_valid(&no_value));
    let forever = CookieExpiration { value: Some("v".to_string()), expiry: None };
    assert!(is_cookie_valid(&forever));
}

#[test]
fn downloads_name_their_uuid() {
    let path = "/file/b23f95f0-db34-4739-9fde-2c0a107d9c97/spec.pdf";
    assert_eq!(uuid_from_download_path(path), Some("b23f95f0-db34-4739-9fde-2c0a107d9c97".to_string()));
    assert_eq!(uuid_from_download_path("/files/b23f95f0-db34-4739-9fde-2c0a107d9c97/x"), None);
    assert_eq!(uuid_from_download_path("/file/not-a-uuid/x"), None);
    let d = downloaded_file_data(path, Some(vec![1, 2, 3]));
    assert_eq!(d.uuid, Some("b23f95f0-db34-4739-9fde-2c0a107d9c97".to_string()));
    assert_eq!(d.bytes, Some(vec![1, 2, 3]));
    let n = no_file_data();
    assert!(n.uuid.is_none() && n.bytes.is_none());
}
