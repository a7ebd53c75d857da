use vstd::prelude::*;

use crate::json::{get_str_for_key, spec_get, spec_opt_array, spec_opt_object, spec_opt_str, Json};
use crate::text::{parse_i64, spec_parse_i64, str_eq};
use crate::utils::{
    get_inputs_in_db_not_in_remote, get_inputs_in_remote_not_in_db, lemma_filter_map_step,
    lemma_take_all, remove_surrounding_quotes, spec_difference, spec_filter_map, spec_ref_views,
    spec_remove_surrounding_quotes, spec_views, ViewEq,
};

verus! {

/// The author of a comment.
#[allow(non_snake_case)]
pub struct Author {
    pub accountId: String,
    pub displayName: String,
}

impl View for Author {
    type V = (Seq<char>, Seq<char>);

    open spec fn view(&self) -> (Seq<char>, Seq<char>) {
        (self.accountId@, self.displayName@)
    }
}

/// A comment of an issue as the server gives it.
#[allow(non_camel_case_types)]
pub struct commentFromJson {
    pub author: Author,
    pub created: String,
    pub modified: String,
    pub content: String,
    pub issue_id: u32,
    pub id: i64,
}

/// The mathematical counterpart of [`commentFromJson`].
pub struct CommentView {
    pub author: (Seq<char>, Seq<char>),
    pub created: Seq<char>,
    pub modified: Seq<char>,
    pub content: Seq<char>,
    pub issue_id: u32,
    pub id: i64,
}

impl View for commentFromJson {
    type V = CommentView;

    open spec fn view(&self) -> CommentView {
        CommentView {
            author: self.author@,
            created: self.created@,
            modified: self.modified@,
            content: self.content@,
            issue_id: self.issue_id,
            id: self.id,
        }
    }
}

/// The parts of a well-formed comment: author, creation and update times as
/// written, body as JSON text, and id.
pub open spec fn spec_comment_parts(x: Json) -> Option<((Seq<char>, Seq<char>), Seq<char>, Seq<char>, Seq<char>, i64)> {
    if !(x.value is Object) {
        None
    } else {
        match (
            spec_opt_str(spec_get(x, "created"@)),
            spec_opt_str(spec_get(x, "updated"@)),
            spec_get(x, "body"@),
            spec_opt_object(spec_get(x, "author"@)),
        ) {
            (Some(created), Some(modified), Some(body), Some(author)) => match (
                spec_opt_str(spec_get(author, "accountId"@)),
                spec_opt_str(spec_get(author, "displayName"@)),
                spec_opt_str(spec_get(x, "id"@)),
            ) {
                (Some(account_id), Some(display_name), Some(id)) => match spec_parse_i64(id) {
                    Some(id) => Some(((account_id, display_name), created, modified, body.text@, id)),
                    None => None,
                },
                _ => None,
            },
            _ => None,
        }
    }
}

/// A comment of issue `issue_id`, its times without surrounding quotes.
pub open spec fn spec_comment_from_json(x: Json, issue_id: u32) -> Option<CommentView> {
    match spec_comment_parts(x) {
        Some((author, created, modified, content, id)) => Some(
            CommentView {
                author,
                created: spec_remove_surrounding_quotes(created),
                modified: spec_remove_surrounding_quotes(modified),
                content,
                issue_id,
                id,
            },
        ),
        None => None,
    }
}

/// The comments array of the server's answer, if it has the expected shape.
pub open spec fn spec_comments_array(j: Json) -> Option<Seq<Json>> {
    if !(j.value is Object) {
        None
    } else {
        spec_opt_array(spec_get(j, "comments"@))
    }
}

/// No well-formed comment has a time made of a lone double quote (on which
/// removing the surrounding quotes is not defined).
pub open spec fn spec_comment_times_well_formed(j: Json) -> bool {
    match spec_comments_array(j) {
        Some(a) => forall|i: int| 0 <= i < a.len() ==> match #[trigger] spec_comment_parts(a[i]) {
            Some((_, created, modified, _, _)) => created != seq!['"'] && modified != seq!['"'],
            None => true,
        },
        None => true,
    }
}

/// The comments of the server's answer (`{"comments": [...]}`); `None` when
/// the answer does not have that shape.
pub open spec fn spec_comments_from_json(j: Json, issue_id: u32) -> Option<Seq<CommentView>> {
    match spec_comments_array(j) {
        Some(a) => Some(spec_filter_map(a, |x: Json| spec_comment_from_json(x, issue_id))),
        None => None,
    }
}

/// The well-formed comments of the server's answer for issue `issue_id`.
pub fn get_comments_from_json(comments: &Json, issue_id: u32) -> (res: Option<Vec<commentFromJson>>)
    requires
        spec_comment_times_well_formed(*comments),
    ensures
        match res {
            Some(v) => spec_comments_from_json(*comments, issue_id) == Some(spec_views(v@)),
            None => spec_comments_from_json(*comments, issue_id) is None,
        },
{
    if !comments.is_object() {
        return None;
    }
    let a = match crate::json::get_array(comments, "comments") {
        None => return None,
        Some(a) => a,
    };
    let ghost f = |x: Json| spec_comment_from_json(x, issue_id);
    let mut res: Vec<commentFromJson> = Vec::new();
    let mut i: usize = 0;
    while i < a.len()
        invariant
            i <= a.len(),
            spec_comments_array(*comments) == Some(a@),
            spec_comment_times_well_formed(*comments),
            f == (|x: Json| spec_comment_from_json(x, issue_id)),
            spec_views(res@) == spec_filter_map(a@.take(i as int), f),
        decreases a.len() - i,
    {
        proof { lemma_filter_map_step(a@, f, i as int); }
        let x = &a[i];
        assert(match spec_comment_parts(a@[i as int]) {
            Some((_, created, modified, _, _)) => created != seq!['"'] && modified != seq!['"'],
            None => true,
        });
        if let Some(c) = comment_from_json(x, issue_id) {
            let ghost before = res@;
            res.push(c);
            assert(spec_views(res@) =~= spec_views(before).push(res@.last()@));
        }
        i = i + 1;
    }
    proof { lemma_take_all(a@); }
    Some(res)
}

/// Whether a comment, when it is well formed, has times other than a lone
/// double quote.
fn comment_times_ok(x: &Json) -> (res: bool)
    ensures
        res == match spec_comment_parts(*x) {
            Some((_, created, modified, _, _)) => created != seq!['"'] && modified != seq!['"'],
            None => true,
        },
{
    if !x.is_object() {
        return true;
    }
    let created = get_str_for_key(x, "created");
    let modified = get_str_for_key(x, "updated");
    let body = x.get("body");
    let author = crate::json::get_object(x, "author");
    if created.is_none() || modified.is_none() || body.is_none() || author.is_none() {
        return true;
    }
    let author = author.unwrap();
    let account_id = get_str_for_key(author, "accountId");
    let display_name = get_str_for_key(author, "displayName");
    let id = get_str_for_key(x, "id");
    if account_id.is_none() || display_name.is_none() || id.is_none() {
        return true;
    }
    if parse_i64(id.unwrap().as_str()).is_none() {
        return true;
    }
    proof { reveal_strlit("\""); }
    assert("\""@ =~= seq!['"']);
    !str_eq(created.unwrap().as_str(), "\"") && !str_eq(modified.unwrap().as_str(), "\"")
}

/// Whether no well-formed comment of the server's answer has a time made of
/// a lone double quote, so that its comments can be read.
pub fn comment_times_well_formed(comments: &Json) -> (res: bool)
    ensures
        res == spec_comment_times_well_formed(*comments),
{
    if !comments.is_object() {
        return true;
    }
    let a = match crate::json::get_array(comments, "comments") {
        None => return true,
        Some(a) => a,
    };
    let mut i: usize = 0;
    while i < a.len()
        invariant
            i <= a.len(),
            spec_comments_array(*comments) == Some(a@),
            forall|k: int| 0 <= k < i ==> match #[trigger] spec_comment_parts(a@[k]) {
                Some((_, created, modified, _, _)) => created != seq!['"'] && modified != seq!['"'],
                None => true,
            },
        decreases a.len() - i,
    {
        if !comment_times_ok(&a[i]) {
            assert(!match spec_comment_parts(a@[i as int]) {
                Some((_, created, modified, _, _)) => created != seq!['"'] && modified != seq!['"'],
                None => true,
            });
            return false;
        }
        i = i + 1;
    }
    true
}

/// One comment, if it is well formed.
fn comment_from_json(x: &Json, issue_id: u32) -> (res: Option<commentFromJson>)
    requires
        match spec_comment_parts(*x) {
            Some((_, created, modified, _, _)) => created != seq!['"'] && modified != seq!['"'],
            None => true,
        },
    ensures
        match res {
            Some(c) => spec_comment_from_json(*x, issue_id) == Some(c@),
            None => spec_comment_from_json(*x, issue_id) is None,
        },
{
    if !x.is_object() {
        return None;
    }
    let created = get_str_for_key(x, "created");
    let modified = get_str_for_key(x, "updated");
    let body = x.get("body");
    let author = crate::json::get_object(x, "author");
    if created.is_none() || modified.is_none() || body.is_none() || author.is_none() {
        return None;
    }
    let author = author.unwrap();
    let account_id = get_str_for_key(author, "accountId");
    let display_name = get_str_for_key(author, "displayName");
    let id = get_str_for_key(x, "id");
    if account_id.is_none() || display_name.is_none() || id.is_none() {
        return None;
    }
    let id = match parse_i64(id.unwrap().as_str()) {
        Some(v) => v,
        None => return None,
    };
    let created = remove_surrounding_quotes(created.unwrap().clone());
    let modified = remove_surrounding_quotes(modified.unwrap().clone());
    Some(
        commentFromJson {
            author: Author { accountId: account_id.unwrap().clone(), displayName: display_name.unwrap().clone() },
            created,
            modified,
            content: body.unwrap().text.clone(),
            issue_id,
            id,
        },
    )
}

/// An author already known to the local database.
pub struct AccountId {
    pub account_id: String,
}

/// The authors whose account the database does not know, in order, repeats kept.
pub open spec fn spec_authors_not_in_db(authors: Seq<(Seq<char>, Seq<char>)>, in_db: Seq<Seq<char>>) -> Seq<(Seq<char>, Seq<char>)> {
    authors.filter(|a: (Seq<char>, Seq<char>)| !in_db.contains(a.0))
}

/// Whether an account id is among the known ones.
fn account_known(authors_in_db: &[AccountId], id: &str) -> (res: bool)
    ensures
        res == authors_in_db@.map_values(|a: AccountId| a.account_id@).contains(id@),
{
    let ghost ids = authors_in_db@.map_values(|a: AccountId| a.account_id@);
    let mut i: usize = 0;
    while i < authors_in_db.len()
        invariant
            i <= authors_in_db.len(),
            ids == authors_in_db@.map_values(|a: AccountId| a.account_id@),
            forall|k: int| 0 <= k < i ==> ids[k] != id@,
        decreases authors_in_db.len() - i,
    {
        if str_eq(authors_in_db[i].account_id.as_str(), id) {
            assert(ids[i as int] == id@);
            return true;
        }
        i = i + 1;
    }
    false
}

/// The authors of comments whose account the database does not know yet.
pub fn get_authors_in_comments_not_in_db<'a>(authors_in_comments: &[&'a Author], authors_in_db: &[AccountId]) -> (res: Vec<&'a Author>)
    ensures
        spec_ref_views(res@) == spec_authors_not_in_db(
            spec_ref_views(authors_in_comments@),
            authors_in_db@.map_values(|a: AccountId| a.account_id@),
        ),
{
    let ghost av = spec_ref_views(authors_in_comments@);
    let ghost ids = authors_in_db@.map_values(|a: AccountId| a.account_id@);
    let ghost pred = |a: (Seq<char>, Seq<char>)| !ids.contains(a.0);
    let mut res: Vec<&'a Author> = Vec::new();
    let mut i: usize = 0;
    while i < authors_in_comments.len()
        invariant
            i <= authors_in_comments.len(),
            av == spec_ref_views(authors_in_comments@),
            ids == authors_in_db@.map_values(|a: AccountId| a.account_id@),
            pred == (|a: (Seq<char>, Seq<char>)| !ids.contains(a.0)),
            spec_ref_views(res@) == av.take(i as int).filter(pred),
        decreases authors_in_comments.len() - i,
    {
        assert(av.take(i + 1).drop_last() == av.take(i as int));
        assert(av.take(i + 1).last() == authors_in_comments@[i as int]@);
        reveal(Seq::filter);
        let a: &'a Author = authors_in_comments[i];
        if !account_known(authors_in_db, a.accountId.as_str()) {
            let ghost before = res@;
            res.push(a);
            assert(spec_ref_views(res@) =~= spec_ref_views(before).push(a@));
        }
        i = i + 1;
    }
    assert(av.take(authors_in_comments.len() as int) == av);
    res
}

/// A comment as a row of the local database.
pub struct CommentsFromDbForIssue {
    pub id: i64,
    pub position_in_array: u32,
    pub content_data: String,
    pub author: String,
    pub creation_time: String,
    pub last_modification_time: String,
}

impl View for CommentsFromDbForIssue {
    type V = (i64, u32, Seq<char>, Seq<char>, Seq<char>, Seq<char>);

    open spec fn view(&self) -> (i64, u32, Seq<char>, Seq<char>, Seq<char>, Seq<char>) {
        (self.id, self.position_in_array, self.content_data@, self.author@, self.creation_time@, self.last_modification_time@)
    }
}

impl ViewEq for CommentsFromDbForIssue {
    fn view_eq(&self, other: &Self) -> (res: bool) {
        self.id == other.id && self.position_in_array == other.position_in_array && str_eq(
            self.content_data.as_str(),
            other.content_data.as_str(),
        ) && str_eq(self.author.as_str(), other.author.as_str()) && str_eq(
            self.creation_time.as_str(),
            other.creation_time.as_str(),
        ) && str_eq(self.last_modification_time.as_str(), other.last_modification_time.as_str())
    }
}

/// The row stored for the comment at position `pos` of an issue's comments.
pub open spec fn spec_comment_row(c: CommentView, pos: int) -> (i64, u32, Seq<char>, Seq<char>, Seq<char>, Seq<char>) {
    (c.id, pos as u32, c.content, c.author.0, c.created, c.modified)
}

/// The row stored for a comment read from the server carries the comment's
/// id, its position, its body as JSON text and its author's account id, then,
/// as creation time, the comment's `created` time and, as last modification
/// time, its `updated` time (each without surrounding quotes).
pub proof fn lemma_comment_row_keeps_times(x: Json, issue_id: u32, pos: int)
    requires
        spec_comment_from_json(x, issue_id) is Some,
    ensures
        ({
            let row = spec_comment_row(spec_comment_from_json(x, issue_id).unwrap(), pos);
            let author = spec_opt_object(spec_get(x, "author"@)).unwrap();
            &&& row.0 == spec_parse_i64(spec_opt_str(spec_get(x, "id"@)).unwrap()).unwrap()
            &&& row.1 == pos as u32
            &&& row.2 == spec_get(x, "body"@).unwrap().text@
            &&& row.3 == spec_opt_str(spec_get(author, "accountId"@)).unwrap()
            &&& row.4 == spec_remove_surrounding_quotes(spec_opt_str(spec_get(x, "created"@)).unwrap())
            &&& row.5 == spec_remove_surrounding_quotes(spec_opt_str(spec_get(x, "updated"@)).unwrap())
        }),
{
}

/// The rows stored for an issue's comments keep each comment's own times:
/// the row at position `i` has the `i`-th comment's creation time as creation
/// time and its modification time as last modification time.
pub proof fn lemma_comment_rows_keep_times(comments: Seq<CommentView>)
    ensures
        spec_comment_rows(comments).len() == comments.len(),
        forall|i: int|
            0 <= i < comments.len() ==> {
                let row = #[trigger] spec_comment_rows(comments)[i];
                &&& row.0 == comments[i].id
                &&& row.1 == i as u32
                &&& row.4 == comments[i].created
                &&& row.5 == comments[i].modified
            },
{
}

/// The rows stored for an issue's comments, numbered by position.
pub fn comments_to_rows(comments: Vec<commentFromJson>) -> (res: Vec<CommentsFromDbForIssue>)
    ensures
        res@.len() == comments@.len(),
        forall|i: int| 0 <= i < res@.len() ==> (#[trigger] res@[i])@ == spec_comment_row(comments@[i]@, i),
{
    let mut res: Vec<CommentsFromDbForIssue> = Vec::new();
    let mut i: usize = 0;
    while i < comments.len()
        invariant
            i <= comments.len(),
            res@.len() == i,
            forall|k: int| 0 <= k < i ==> (#[trigger] res@[k])@ == spec_comment_row(comments@[k]@, k),
        decreases comments.len() - i,
    {
        let c = &comments[i];
        res.push(
            CommentsFromDbForIssue {
                id: c.id,
                position_in_array: i as u32,
                content_data: c.content.clone(),
                author: c.author.accountId.clone(),
                creation_time: c.created.clone(),
                last_modification_time: c.modified.clone(),
            },
        );
        i = i + 1;
    }
    res
}

/// The comments to delete and the comments to write.
pub struct CommentsDifference<'a> {
    pub comments_in_db_not_in_remote: Vec<&'a CommentsFromDbForIssue>,
    pub comments_in_remote_not_in_db: Vec<&'a CommentsFromDbForIssue>,
}

/// The stored comments the server no longer has as they are, and the
/// server's comments not stored as they are, each once.
pub fn get_difference_in_comments<'a>(
    comments_in_remote: &'a [CommentsFromDbForIssue],
    comments_in_db: &'a [CommentsFromDbForIssue],
) -> (res: CommentsDifference<'a>)
    ensures
        spec_ref_views(res.comments_in_db_not_in_remote@) == spec_difference(
            spec_views(comments_in_db@),
            spec_views(comments_in_remote@),
        ),
        spec_ref_views(res.comments_in_remote_not_in_db@) == spec_difference(
            spec_views(comments_in_remote@),
            spec_views(comments_in_db@),
        ),
{
    let comments_in_remote_not_in_db = get_inputs_in_remote_not_in_db(comments_in_remote, comments_in_db);
    let comments_in_db_not_in_remote = get_inputs_in_db_not_in_remote(comments_in_remote, comments_in_db);
    CommentsDifference { comments_in_db_not_in_remote, comments_in_remote_not_in_db }
}


impl Author {
    /// A copy of the author.
    pub fn copy(&self) -> (res: Author)
        ensures
            res@ == self@,
    {
        Author { accountId: self.accountId.clone(), displayName: self.displayName.clone() }
    }
}

impl CommentsFromDbForIssue {
    /// A copy of the row.
    pub fn copy(&self) -> (res: CommentsFromDbForIssue)
        ensures
            res@ == self@,
    {
        CommentsFromDbForIssue {
            id: self.id,
            position_in_array: self.position_in_array,
            content_data: self.content_data.clone(),
            author: self.author.clone(),
            creation_time: self.creation_time.clone(),
            last_modification_time: self.last_modification_time.clone(),
        }
    }
}

/// Copies of the referenced rows.
fn copy_rows(rows: &Vec<&CommentsFromDbForIssue>) -> (res: Vec<CommentsFromDbForIssue>)
    ensures
        spec_views(res@) == spec_ref_views(rows@),
{
    let mut res: Vec<CommentsFromDbForIssue> = Vec::new();
    let mut i: usize = 0;
    while i < rows.len()
        invariant
            i <= rows.len(),
            res@.len() == i,
            forall|k: int| 0 <= k < i ==> (#[trigger] res@[k])@ == rows@[k]@,
        decreases rows.len() - i,
    {
        res.push(rows[i].copy());
        i = i + 1;
    }
    assert(spec_views(res@) =~= spec_ref_views(rows@));
    res
}

/// What synchronising an issue's comments writes to the local database.
pub struct CommentUpdates {
    pub authors_to_insert: Vec<Author>,
    pub comments_to_remove: Vec<CommentsFromDbForIssue>,
    pub comments_to_insert: Vec<CommentsFromDbForIssue>,
}

/// The rows stored for an issue's comments.
pub open spec fn spec_comment_rows(comments: Seq<CommentView>) -> Seq<(i64, u32, Seq<char>, Seq<char>, Seq<char>, Seq<char>)> {
    Seq::new(comments.len(), |i: int| spec_comment_row(comments[i], i))
}

/// What synchronising an issue's comments writes: the authors the database
/// does not know, the stored comments the server no longer has as they
/// are, and the server's comments (numbered by position) not stored as they are.
pub fn plan_comment_updates(
    comments_in_remote: Vec<commentFromJson>,
    comments_in_db: &[CommentsFromDbForIssue],
    authors_in_db: &[AccountId],
) -> (res: CommentUpdates)
    ensures
        spec_views(res.authors_to_insert@) == spec_authors_not_in_db(
            spec_views(comments_in_remote@).map_values(|c: CommentView| c.author),
            authors_in_db@.map_values(|a: AccountId| a.account_id@),
        ),
        spec_views(res.comments_to_remove@) == spec_difference(
            spec_views(comments_in_db@),
            spec_comment_rows(spec_views(comments_in_remote@)),
        ),
        spec_views(res.comments_to_insert@) == spec_difference(
            spec_comment_rows(spec_views(comments_in_remote@)),
            spec_views(comments_in_db@),
        ),
{
    let ghost cv = spec_views(comments_in_remote@);
    let mut authors: Vec<&Author> = Vec::new();
    let mut i: usize = 0;
    while i < comments_in_remote.len()
        invariant
            i <= comments_in_remote.len(),
            authors@.len() == i,
            forall|k: int| 0 <= k < i ==> (#[trigger] authors@[k])@ == comments_in_remote@[k].author@,
        decreases comments_in_remote.len() - i,
    {
        authors.push(&comments_in_remote[i].author);
        i = i + 1;
    }
    assert(spec_ref_views(authors@) =~= cv.map_values(|c: CommentView| c.author));
    let new_authors = get_authors_in_comments_not_in_db(authors.as_slice(), authors_in_db);
    let mut authors_to_insert: Vec<Author> = Vec::new();
    let mut j: usize = 0;
    while j < new_authors.len()
        invariant
            j <= new_authors.len(),
            authors_to_insert@.len() == j,
            forall|k: int| 0 <= k < j ==> (#[trigger] authors_to_insert@[k])@ == new_authors@[k]@,
        decreases new_authors.len() - j,
    {
        authors_to_insert.push(new_authors[j].copy());
        j = j + 1;
    }
    assert(spec_views(authors_to_insert@) =~= spec_ref_views(new_authors@));
    let rows = comments_to_rows(comments_in_remote);
    assert(spec_views(rows@) =~= spec_comment_rows(cv));
    let diff = get_difference_in_comments(rows.as_slice(), comments_in_db);
    let comments_to_remove = copy_rows(&diff.comments_in_db_not_in_remote);
    let comments_to_insert = copy_rows(&diff.comments_in_remote_not_in_db);
    CommentUpdates { authors_to_insert, comments_to_remove, comments_to_insert }
}

} // verus!
