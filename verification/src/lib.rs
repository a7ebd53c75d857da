//! A local cache of Jira tickets: the request protocol of the server, the
//! rendering of Atlassian Document Format content to text and HTML, and the
//! bookkeeping that decides what must change in the local database.
pub mod text;
pub mod server;
pub mod json;
pub mod encoding;
pub mod atlassian_document_utils;
pub mod atlassian_document_format;
pub mod atlassian_document_format_html_output;
pub mod utils;
pub mod get_config;
pub mod get_attachment_content;
pub mod manage_interesting_projects;
pub mod manage_issue_field;
pub mod manage_field_table;
pub mod manage_issuelinktype_table;
pub mod manage_issuetype_table;
pub mod manage_project_table;
pub mod manage_issue_comments;
pub mod get_issue_details;
pub mod find_issues_that_need_updating;
pub mod srv_fetch_ticket;
pub mod srv_fetch_attachment_list_for_ticket;
pub mod srv_fetch_attachment_content;
pub mod srv_fetch_ticket_list;
pub mod srv_synchronise_ticket;
pub mod srv_fetch_ticket_key_value_list;
