use vstd::prelude::*;

verus! {

/// A JSON number as the parser classifies it: a non-negative integer, a
/// negative integer, or any other number kept as its text.
pub enum JsonNumber {
    PosInt(u64),
    NegInt(i64),
    Float(String),
}

/// The entries of a JSON object, in the order the parser gives them.
pub struct JsonMap {
    pub entries: Vec<(String, Json)>,
}

/// The shape of a JSON value.
pub enum JsonValue {
    Null,
    Bool(bool),
    Number(JsonNumber),
    String(String),
    Array(Vec<Json>),
    Object(JsonMap),
}

/// A JSON value together with its compact serialisation (`text`), as the
/// JSON library writes it.
pub struct Json {
    pub value: JsonValue,
    pub text: String,
}

/// The position of the first entry named `key`.
pub open spec fn spec_find_key(entries: Seq<(String, Json)>, key: Seq<char>) -> Option<int>
    decreases entries.len(),
{
    if entries.len() == 0 {
        None
    } else if entries[0].0@ == key {
        Some(0)
    } else {
        match spec_find_key(entries.drop_first(), key) {
            Some(i) => Some(i + 1),
            None => None,
        }
    }
}

pub proof fn lemma_find_key_in_range(entries: Seq<(String, Json)>, key: Seq<char>)
    ensures
        spec_find_key(entries, key) matches Some(i) ==> 0 <= i < entries.len() && entries[i].0@ == key,
    decreases entries.len(),
{
    if entries.len() > 0 && entries[0].0@ != key {
        lemma_find_key_in_range(entries.drop_first(), key);
    }
}

/// The value of the first entry named `key`.
pub open spec fn spec_map_get(m: JsonMap, key: Seq<char>) -> Option<Json> {
    match spec_find_key(m.entries@, key) {
        Some(i) => Some(m.entries@[i].1),
        None => None,
    }
}

/// `j[key]` when `j` is an object holding `key` (`Value::get`).
pub open spec fn spec_get(j: Json, key: Seq<char>) -> Option<Json> {
    match j.value {
        JsonValue::Object(m) => spec_map_get(m, key),
        _ => None,
    }
}

/// The string held by `j`, if it is a string.
pub open spec fn spec_as_str(j: Json) -> Option<Seq<char>> {
    match j.value {
        JsonValue::String(s) => Some(s@),
        _ => None,
    }
}

/// The integer held by `j` when it fits in a `u64` (`Value::as_u64`).
pub open spec fn spec_as_u64(j: Json) -> Option<u64> {
    match j.value {
        JsonValue::Number(JsonNumber::PosInt(n)) => Some(n),
        _ => None,
    }
}

/// The integer held by `j` when it fits in an `i64` (`Value::as_i64`).
pub open spec fn spec_as_i64(j: Json) -> Option<i64> {
    match j.value {
        JsonValue::Number(JsonNumber::PosInt(n)) => if n <= i64::MAX { Some(n as i64) } else { None },
        JsonValue::Number(JsonNumber::NegInt(n)) => Some(n),
        _ => None,
    }
}

/// The boolean held by `j`, if it is one.
pub open spec fn spec_as_bool(j: Json) -> Option<bool> {
    match j.value {
        JsonValue::Bool(b) => Some(b),
        _ => None,
    }
}

/// `o[key]` when `o` holds an object with `key`.
pub open spec fn spec_opt_get(o: Option<Json>, key: Seq<char>) -> Option<Json> {
    match o {
        Some(j) => spec_get(j, key),
        None => None,
    }
}

/// The string at `o`, if `o` holds a string.
pub open spec fn spec_opt_str(o: Option<Json>) -> Option<Seq<char>> {
    match o {
        Some(j) => spec_as_str(j),
        None => None,
    }
}

/// `o` when it holds an object.
pub open spec fn spec_opt_object(o: Option<Json>) -> Option<Json> {
    match o {
        Some(j) => if j.value is Object { Some(j) } else { None },
        None => None,
    }
}

/// The elements at `o`, when `o` holds an array.
pub open spec fn spec_opt_array(o: Option<Json>) -> Option<Seq<Json>> {
    match o {
        Some(j) => match j.value {
            JsonValue::Array(a) => Some(a@),
            _ => None,
        },
        None => None,
    }
}

/// The pretty-printed form of the JSON text `compact` (two-space indents),
/// or `compact` itself when it does not parse.
pub uninterp spec fn spec_pretty_json(compact: Seq<char>) -> Seq<char>;

/// Re-indents JSON text: `serde_json::from_str` then `serde_json::to_string_pretty`,
/// giving back the input when either fails. Nothing is claimed of the result
/// beyond its being a function of the input text.
#[verifier::external_body]
pub(crate) fn pretty_json(compact: &str) -> (res: String)
    ensures
        res@ == spec_pretty_json(compact@),
{
    match serde_json::from_str::<serde_json::Value>(compact) {
        Ok(v) => match serde_json::to_string_pretty(&v) {
            Ok(pretty) => pretty,
            Err(_) => compact.to_string(),
        },
        Err(_) => compact.to_string(),
    }
}

impl JsonMap {
    /// The value of the first entry named `key` (`Map::get`).
    pub fn get(&self, key: &str) -> (res: Option<&Json>)
        ensures
            match res {
                Some(v) => spec_map_get(*self, key@) == Some(*v),
                None => spec_map_get(*self, key@) is None,
            },
    {
        let mut i: usize = 0;
        assert(self.entries@.skip(0) == self.entries@);
        while i < self.entries.len()
            invariant
                i <= self.entries.len(),
                spec_find_key(self.entries@, key@) == (match spec_find_key(self.entries@.skip(i as int), key@) {
                    Some(k) => Some(k + i),
                    None => None::<int>,
                }),
            decreases self.entries.len() - i,
        {
            let ghost rest = self.entries@.skip(i as int);
            assert(rest[0] == self.entries@[i as int]);
            assert(rest.drop_first() == self.entries@.skip(i + 1));
            if crate::text::str_eq(self.entries[i].0.as_str(), key) {
                return Some(&self.entries[i].1);
            }
            i = i + 1;
        }
        None
    }
}

impl Json {
    /// `self[key]` when `self` is an object holding `key` (`Value::get`).
    pub fn get(&self, key: &str) -> (res: Option<&Json>)
        ensures
            match res {
                Some(v) => spec_get(*self, key@) == Some(*v),
                None => spec_get(*self, key@) is None,
            },
    {
        match &self.value {
            JsonValue::Object(m) => m.get(key),
            _ => None,
        }
    }

    /// The string held, if any (`Value::as_str`).
    pub fn as_str(&self) -> (res: Option<&String>)
        ensures
            match res {
                Some(s) => spec_as_str(*self) == Some(s@),
                None => spec_as_str(*self) is None,
            },
    {
        match &self.value {
            JsonValue::String(s) => Some(s),
            _ => None,
        }
    }

    /// The elements held, if this is an array (`Value::as_array`).
    pub fn as_array(&self) -> (res: Option<&Vec<Json>>)
        ensures
            match res {
                Some(a) => self.value == JsonValue::Array(*a),
                None => !(self.value is Array),
            },
    {
        match &self.value {
            JsonValue::Array(a) => Some(a),
            _ => None,
        }
    }

    /// Whether this is an object (`Value::is_object`).
    pub fn is_object(&self) -> (res: bool)
        ensures
            res == (self.value is Object),
    {
        match &self.value {
            JsonValue::Object(_) => true,
            _ => false,
        }
    }

    /// Whether this is `null` (`Value::is_null`).
    pub fn is_null(&self) -> (res: bool)
        ensures
            res == (self.value is Null),
    {
        match &self.value {
            JsonValue::Null => true,
            _ => false,
        }
    }

    /// The integer held, if it fits in a `u64` (`Value::as_u64`).
    pub fn as_u64(&self) -> (res: Option<u64>)
        ensures
            res == spec_as_u64(*self),
    {
        match &self.value {
            JsonValue::Number(JsonNumber::PosInt(n)) => Some(*n),
            _ => None,
        }
    }

    /// The integer held, if it fits in an `i64` (`Value::as_i64`).
    pub fn as_i64(&self) -> (res: Option<i64>)
        ensures
            res == spec_as_i64(*self),
    {
        match &self.value {
            JsonValue::Number(JsonNumber::PosInt(n)) => if *n <= 9223372036854775807u64 {
                Some(*n as i64)
            } else {
                None
            },
            JsonValue::Number(JsonNumber::NegInt(n)) => Some(*n),
            _ => None,
        }
    }

    /// The boolean held, if any (`Value::as_bool`).
    pub fn as_bool(&self) -> (res: Option<bool>)
        ensures
            res == spec_as_bool(*self),
    {
        match &self.value {
            JsonValue::Bool(b) => Some(*b),
            _ => None,
        }
    }
}


/// The elements of `j["content"]`, when it is an array.
pub open spec fn spec_content(j: Json) -> Option<Seq<Json>> {
    spec_opt_array(spec_get(j, "content"@))
}

/// A value found under a key of `j` is smaller than `j`.
pub proof fn lemma_get_decreases(j: Json, key: Seq<char>)
    ensures
        spec_get(j, key) matches Some(c) ==> decreases_to!(j => c),
{
    if let JsonValue::Object(m) = j.value {
        lemma_find_key_in_range(m.entries@, key);
        if let Some(i) = spec_find_key(m.entries@, key) {
            assert(decreases_to!(j => j.value));
            assert(decreases_to!(j.value => m));
            assert(decreases_to!(m => m.entries));
            assert(decreases_to!(m.entries => m.entries@));
            assert(decreases_to!(m.entries@ => m.entries@[i]));
            assert(decreases_to!(m.entries@[i] => m.entries@[i].1));
        }
    }
}

/// The elements of `j["content"]` are smaller than `j`.
pub proof fn lemma_content_decreases(j: Json)
    ensures
        spec_content(j) matches Some(a) ==> decreases_to!(j => a),
{
    lemma_get_decreases(j, "content"@);
    if let Some(c) = spec_get(j, "content"@) {
        if let JsonValue::Array(v) = c.value {
            assert(decreases_to!(c => c.value));
            assert(decreases_to!(c.value => v));
            assert(decreases_to!(v => v@));
        }
    }
}


/// The string at `key` of an object (`x[key]` when it is a string).
pub fn get_str_for_key<'a>(x: &'a Json, key_name: &str) -> (res: Option<&'a String>)
    ensures
        match res {
            Some(s) => spec_opt_str(spec_get(*x, key_name@)) == Some(s@),
            None => spec_opt_str(spec_get(*x, key_name@)) is None,
        },
{
    match x.get(key_name) {
        None => None,
        Some(k) => k.as_str(),
    }
}

/// `j[key]` when `j` is an object holding `key` and the value is an object.
pub fn get_object<'a>(j: &'a Json, key: &str) -> (res: Option<&'a Json>)
    ensures
        match res {
            Some(v) => spec_opt_object(spec_get(*j, key@)) == Some(*v),
            None => spec_opt_object(spec_get(*j, key@)) is None,
        },
{
    match j.get(key) {
        None => None,
        Some(v) => if v.is_object() { Some(v) } else { None },
    }
}

/// The elements of `j[key]` when it is an array.
pub fn get_array<'a>(j: &'a Json, key: &str) -> (res: Option<&'a Vec<Json>>)
    ensures
        match res {
            Some(a) => spec_opt_array(spec_get(*j, key@)) == Some(a@),
            None => spec_opt_array(spec_get(*j, key@)) is None,
        },
{
    match j.get(key) {
        None => None,
        Some(v) => v.as_array(),
    }
}


impl JsonMap {
    /// The position of the first entry named `key`.
    pub fn find(&self, key: &str) -> (res: Option<usize>)
        ensures
            match res {
                Some(i) => spec_find_key(self.entries@, key@) == Some(i as int) && i < self.entries@.len(),
                None => spec_find_key(self.entries@, key@) is None,
            },
    {
        let mut i: usize = 0;
        assert(self.entries@.skip(0) == self.entries@);
        while i < self.entries.len()
            invariant
                i <= self.entries.len(),
                spec_find_key(self.entries@, key@) == (match spec_find_key(self.entries@.skip(i as int), key@) {
                    Some(k) => Some(k + i),
                    None => None::<int>,
                }),
            decreases self.entries.len() - i,
        {
            let ghost rest = self.entries@.skip(i as int);
            assert(rest[0] == self.entries@[i as int]);
            assert(rest.drop_first() == self.entries@.skip(i + 1));
            if crate::text::str_eq(self.entries[i].0.as_str(), key) {
                return Some(i);
            }
            i = i + 1;
        }
        None
    }
}

/// Takes the value of the first entry named `key` out of an object.
pub fn take_entry(j: Json, key: &str) -> (res: Option<Json>)
    ensures
        res == spec_get(j, key@),
{
    match j.value {
        JsonValue::Object(m) => {
            let ghost mg = m;
            match m.find(key) {
                Some(i) => {
                    let mut entries = m.entries;
                    let e = entries.remove(i);
                    assert(e == mg.entries@[i as int]);
                    Some(e.1)
                },
                None => None,
            }
        },
        _ => None,
    }
}

} // verus!
