use vstd::prelude::*;

use crate::text::{spec_split, split_char, str_eq};

verus! {

/// `c` is an ASCII hexadecimal digit.
pub open spec fn spec_is_hex_char(c: char) -> bool {
    ('0' <= c && c <= '9') || ('a' <= c && c <= 'f') || ('A' <= c && c <= 'F')
}

/// Every character of `s` is a hexadecimal digit.
pub open spec fn spec_all_hex(s: Seq<char>) -> bool {
    forall|i: int| 0 <= i < s.len() ==> spec_is_hex_char(#[trigger] s[i])
}

/// `s` is a UUID in its textual form: five groups of 8, 4, 4, 4 and 12
/// hexadecimal digits separated by dashes.
pub open spec fn spec_is_uuid(s: Seq<char>) -> bool {
    let parts = spec_split(s, '-');
    &&& s.len() == 36
    &&& parts.len() == 5
    &&& parts[0].len() == 8
    &&& parts[1].len() == 4
    &&& parts[2].len() == 4
    &&& parts[3].len() == 4
    &&& parts[4].len() == 12
    &&& forall|i: int| 0 <= i < 5 ==> spec_all_hex(#[trigger] parts[i])
}

/// Whether every character of `s` is a hexadecimal digit.
fn all_hex(s: &str) -> (res: bool)
    ensures
        res == spec_all_hex(s@),
{
    let chars = crate::text::chars_of(s);
    let mut i: usize = 0;
    while i < chars.len()
        invariant
            i <= chars.len(),
            chars@ == s@,
            forall|k: int| 0 <= k < i ==> spec_is_hex_char(#[trigger] s@[k]),
        decreases chars.len() - i,
    {
        let c = chars[i];
        if !(('0' <= c && c <= '9') || ('a' <= c && c <= 'f') || ('A' <= c && c <= 'F')) {
            assert(!spec_is_hex_char(s@[i as int]));
            return false;
        }
        i = i + 1;
    }
    true
}

/// Whether `candidate` is a UUID in its textual form.
pub fn is_uuid(candidate: &str) -> (res: bool)
    ensures
        res == spec_is_uuid(candidate@),
{
    let n = crate::text::chars_of(candidate).len();
    if n != 36 {
        return false;
    }
    let parts = split_char(candidate, '-');
    let ghost pv = parts@.map_values(|x: String| x@);
    assert(pv == spec_split(candidate@, '-'));
    if parts.len() != 5 {
        return false;
    }
    assert(pv[0] == parts@[0]@ && pv[1] == parts@[1]@ && pv[2] == parts@[2]@ && pv[3] == parts@[3]@ && pv[4] == parts@[4]@);
    let expected: [usize; 5] = [8, 4, 4, 4, 12];
    let mut j: usize = 0;
    while j < 5
        invariant
            j <= 5,
            parts@.len() == 5,
            pv == parts@.map_values(|x: String| x@),
            expected@ == seq![8usize, 4, 4, 4, 12],
            pv == spec_split(candidate@, '-'),
            forall|k: int| 0 <= k < j ==> (#[trigger] pv[k]).len() == expected@[k],
        decreases 5 - j,
    {
        let len = crate::text::chars_of(parts[j].as_str()).len();
        assert(pv[j as int] == parts@[j as int]@);
        if len != expected[j] {
            return false;
        }
        j = j + 1;
    }
    assert(pv[0].len() == expected@[0] && pv[1].len() == expected@[1] && pv[2].len() == expected@[2]
        && pv[3].len() == expected@[3] && pv[4].len() == expected@[4]);
    let mut i: usize = 0;
    while i < 5
        invariant
            i <= 5,
            parts@.len() == 5,
            pv == parts@.map_values(|x: String| x@),
            pv == spec_split(candidate@, '-'),
            candidate@.len() == 36,
            pv[0].len() == 8 && pv[1].len() == 4 && pv[2].len() == 4 && pv[3].len() == 4 && pv[4].len() == 12,
            forall|k: int| 0 <= k < i ==> spec_all_hex(#[trigger] pv[k]),
        decreases 5 - i,
    {
        if !all_hex(parts[i].as_str()) {
            assert(!spec_all_hex(pv[i as int]));
            return false;
        }
        i = i + 1;
    }
    true
}

/// The Jira session cookie found in the browser's cookie database.
pub struct CookieExpiration {
    pub value: Option<String>,
    pub expiry: Option<i64>,
}

/// The cookie can be sent at time `now` (seconds since the Unix epoch): it
/// has a value and does not expire within five seconds.
pub open spec fn spec_is_cookie_valid_at(cookie: CookieExpiration, now: u64) -> bool {
    match cookie.value {
        None => false,
        Some(_) => match cookie.expiry {
            None => true,
            Some(expiry) => now + 5 < (expiry as u64),
        },
    }
}

/// The number of seconds since the Unix epoch (`SystemTime::now`), 0 if the
/// clock is set before the epoch. Nothing is claimed of the value.
#[verifier::external_body]
fn seconds_since_epoch() -> (res: u64) {
    match std::time::SystemTime::now().duration_since(std::time::UNIX_EPOCH) {
        Ok(d) => d.as_secs(),
        Err(_) => 0,
    }
}

/// Whether the cookie can be sent at time `now` (seconds since the Unix epoch).
pub fn is_cookie_valid_at(cookie: &CookieExpiration, now: u64) -> (res: bool)
    ensures
        res == spec_is_cookie_valid_at(*cookie, now),
{
    if cookie.value.is_none() {
        return false;
    }
    match cookie.expiry {
        None => true,
        Some(expiry) => (now as u128) + 5 < ((expiry as u64) as u128),
    }
}

/// Whether the cookie can be sent now.
pub fn is_cookie_valid(cookie: &CookieExpiration) -> (res: bool)
    ensures
        cookie.value is None ==> !res,
        cookie.value is Some && cookie.expiry is None ==> res,
        res ==> exists|now: u64| spec_is_cookie_valid_at(*cookie, now),
{
    let now = seconds_since_epoch();
    is_cookie_valid_at(cookie, now)
}

/// What downloading an attachment gave: the UUID under which Jira stores the
/// file, and the file's bytes.
#[allow(non_camel_case_types)]
pub struct file_data {
    pub uuid: Option<String>,
    pub bytes: Option<Vec<u8>>,
}

/// The UUID in the path of a download's final URL: `/file/<uuid>/...`.
pub open spec fn spec_uuid_from_download_path(path: Seq<char>) -> Option<Seq<char>> {
    let parts = spec_split(path, '/');
    if parts.len() >= 3 && parts[0].len() == 0 && parts[1] == "file"@ && spec_is_uuid(parts[2]) {
        Some(parts[2])
    } else {
        None
    }
}

/// The UUID in the path of a download's final URL, if it has the form
/// `/file/<uuid>/...`.
pub fn uuid_from_download_path(path: &str) -> (res: Option<String>)
    ensures
        match res {
            Some(u) => spec_uuid_from_download_path(path@) == Some(u@),
            None => spec_uuid_from_download_path(path@) is None,
        },
{
    let parts = split_char(path, '/');
    let ghost pv = parts@.map_values(|x: String| x@);
    assert(pv == spec_split(path@, '/'));
    if parts.len() >= 3 {
        assert(pv[0] == parts@[0]@ && pv[1] == parts@[1]@ && pv[2] == parts@[2]@);
        if parts[0].as_str().is_empty() && str_eq(parts[1].as_str(), "file") && is_uuid(parts[2].as_str()) {
            return Some(parts[2].clone());
        }
    }
    None
}

/// What a download gave: the UUID taken from the final URL's path, and the
/// bytes when the body could be read.
pub fn downloaded_file_data(final_path: &str, bytes: Option<Vec<u8>>) -> (res: file_data)
    ensures
        match res.uuid {
            Some(u) => spec_uuid_from_download_path(final_path@) == Some(u@),
            None => spec_uuid_from_download_path(final_path@) is None,
        },
        res.bytes == bytes,
{
    file_data { uuid: uuid_from_download_path(final_path), bytes }
}

/// Nothing downloaded.
pub fn no_file_data() -> (res: file_data)
    ensures
        res.uuid is None,
        res.bytes is None,
{
    file_data { uuid: None, bytes: None }
}

} // verus!
