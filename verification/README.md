# local_jira

A local cache of Jira tickets. A server process keeps a SQLite copy of the
tickets of a few projects and answers requests on stdin/stdout in
milliseconds, while it synchronises the copy with the Jira server in the
background.

The project is written in Verus. The decisions the server takes are proved
against their specifications:

- `src/` is the verified library: the request protocol (parsing, replies, the
  dispatcher's state machine), the rendering of Atlassian Document Format
  content to text and to HTML, the reading of the server's JSON answers, and
  the bookkeeping that decides what the local database must insert, update or
  delete. Laws that span functions (a written request reads back as itself,
  a synchronisation leaves the database holding what the server holds, ...)
  are public proof functions next to the code they speak of.
- `app/` is the program around it: configuration file, SQLite access, HTTP
  requests, the tokio runtime and the stdin/stdout plumbing.
- `tests/` runs the library on concrete values.

The protocol is the one of the `jira_gui` client: one request per line,
`<token> <COMMAND>[ <parameters separated by commas>]`, answered by
`<token> ACK`, any number of `RESULT`/`ERROR` lines and `<token> FINISHED`.
