use vstd::prelude::*;
use vstd::string::StringSliceAdditionalSpecFns;

use crate::text::{chars_of, contains_char, to_owned};

verus! {

// ---------------------------------------------------------------------------
// Quotes around field values
// ---------------------------------------------------------------------------

/// `s` without a double quote at each end, when it has one at each end.
pub open spec fn spec_without_surrounding_quotes(s: Seq<char>) -> Seq<char> {
    if s.len() >= 2 && s[0] == '"' && s.last() == '"' {
        s.subrange(1, s.len() - 1)
    } else {
        s
    }
}

/// The value Jira meant: the quotes around `s` removed, unless that would
/// leave a double quote inside (and so change the meaning of the text).
pub open spec fn spec_remove_surrounding_quotes(s: Seq<char>) -> Seq<char> {
    let inner = spec_without_surrounding_quotes(s);
    if inner.len() == s.len() || inner.contains('"') {
        s
    } else {
        inner
    }
}

/// The UTF-8 encoding of a concatenation is the concatenation of the encodings.
proof fn lemma_encode_utf8_concat(a: Seq<char>, b: Seq<char>)
    ensures
        vstd::utf8::encode_utf8(a + b) == vstd::utf8::encode_utf8(a) + vstd::utf8::encode_utf8(b),
    decreases a.len(),
{
    if a.len() == 0 {
        assert(a + b == b);
    } else {
        assert((a + b)[0] == a[0]);
        assert((a + b).drop_first() == a.drop_first() + b);
        lemma_encode_utf8_concat(a.drop_first(), b);
    }
}

/// A double quote is encoded as the single byte 0x22.
proof fn lemma_encode_quote()
    ensures
        vstd::utf8::encode_utf8(seq!['"']) == seq![34u8],
{
    let q = seq!['"'];
    assert(q[0] as u32 == 34u32);
    assert((34u32 & 0x7Fu32) as u8 == 34u8) by (bit_vector);
    assert(q.drop_first().len() == 0);
    assert(vstd::utf8::encode_utf8(q.drop_first()) == Seq::<u8>::empty());
    assert(vstd::utf8::encode_scalar(q[0] as u32) == seq![34u8]);
    assert(vstd::utf8::encode_utf8(q) == seq![34u8] + Seq::<u8>::empty());
}

/// The first byte of a non-empty encoding is not a continuation byte.
proof fn lemma_encode_first_byte(c: Seq<char>)
    requires
        c.len() > 0,
    ensures
        !vstd::utf8::is_continuation_byte(vstd::utf8::encode_utf8(c)[0]),
{
    vstd::utf8::encode_utf8_first_scalar(c);
}

/// `input` without the double quotes at both ends, when it has one at each
/// end; `input` itself otherwise.
pub fn get_str_without_surrounding_quotes(input: &str) -> (res: &str)
    requires
        input@ != seq!['"'],
    ensures
        res@ == spec_without_surrounding_quotes(input@),
{
    let chars = chars_of(input);
    let n = chars.len();
    if n == 0 || chars[0] != '"' || chars[n - 1] != '"' {
        return input;
    }
    let ghost s = input@;
    assert(chars@ == s);
    assert(n >= 2) by {
        if n == 1 {
            assert(s =~= seq!['"']);
        }
    }
    let ghost mid = s.subrange(1, s.len() - 1);
    let ghost q = seq!['"'];
    proof {
        assert(s =~= q + (mid + q));
        lemma_encode_utf8_concat(q, mid + q);
        lemma_encode_utf8_concat(mid, q);
        lemma_encode_quote();
        broadcast use vstd::utf8::encode_utf8_valid_utf8;
        broadcast use vstd::utf8::encode_utf8_decode_utf8;
        let bytes = vstd::utf8::encode_utf8(s);
        assert(bytes == seq![34u8] + (vstd::utf8::encode_utf8(mid) + seq![34u8]));
        if mid.len() > 0 {
            lemma_encode_first_byte(mid);
            assert(bytes[1] == vstd::utf8::encode_utf8(mid)[0]);
        } else {
            assert(bytes[1] == 34u8);
        }
        vstd::utf8::is_char_boundary_iff_not_is_continuation_byte(bytes, 1);
    }
    let len = input.as_bytes().len();
    let (_, rest) = input.split_at(1);
    proof {
        broadcast use vstd::utf8::encode_utf8_valid_utf8;
        broadcast use vstd::utf8::encode_utf8_decode_utf8;
        let bytes = vstd::utf8::encode_utf8(s);
        assert(bytes.subrange(1, bytes.len() as int) == vstd::utf8::encode_utf8(mid) + seq![34u8]);
        assert(vstd::utf8::encode_utf8(rest@) == vstd::utf8::encode_utf8(mid + q));
        assert(rest@ == vstd::utf8::decode_utf8(vstd::utf8::encode_utf8(rest@)));
        assert(rest@ == mid + q);
        let rb = vstd::utf8::encode_utf8(rest@);
        assert(len == bytes.len());
        assert(rb == rest.spec_bytes());
        assert(rb.len() == len - 1);
        assert(rb[len - 2] == 34u8);
        vstd::utf8::is_char_boundary_iff_not_is_continuation_byte(rb, len - 2);
    }
    let (inner, _) = rest.split_at(len - 2);
    proof {
        broadcast use vstd::utf8::encode_utf8_decode_utf8;
        let rb = vstd::utf8::encode_utf8(rest@);
        assert(rb.subrange(0, len - 2) == vstd::utf8::encode_utf8(mid));
        assert(inner@ == vstd::utf8::decode_utf8(vstd::utf8::encode_utf8(inner@)));
    }
    inner
}


/// Removes the double quotes around a value when that does not leave one
/// inside: `"John"` becomes `John`, but `"John" and "Jane"` stays as it is.
pub fn remove_surrounding_quotes(in_str: String) -> (res: String)
    requires
        in_str@ != seq!['"'],
    ensures
        res@ == spec_remove_surrounding_quotes(in_str@),
{
    let substr = get_str_without_surrounding_quotes(in_str.as_str());
    let same_len = chars_of(substr).len() == chars_of(in_str.as_str()).len();
    if same_len || contains_char(substr, '"') {
        in_str
    } else {
        to_owned(substr)
    }
}

/// Removing the quotes a second time changes nothing.
pub proof fn lemma_remove_surrounding_quotes_idempotent(s: Seq<char>)
    ensures
        spec_remove_surrounding_quotes(spec_remove_surrounding_quotes(s)) == spec_remove_surrounding_quotes(s),
{
    let r = spec_remove_surrounding_quotes(s);
    let inner = spec_without_surrounding_quotes(s);
    if !(inner.len() == s.len() || inner.contains('"')) {
        assert(r == inner);
        if r.len() >= 2 && r[0] == '"' {
            assert(r.contains('"'));
        }
        assert(spec_without_surrounding_quotes(r) == r);
    }
}

// ---------------------------------------------------------------------------
// Differences between what the server holds and what the local database holds
// ---------------------------------------------------------------------------

/// Values that can be compared by their views.
pub trait ViewEq: View + Sized {
    /// Whether the two values have the same view.
    fn view_eq(&self, other: &Self) -> (res: bool)
        ensures
            res == (self@ == other@);
}

impl ViewEq for u8 {
    fn view_eq(&self, other: &Self) -> (res: bool) {
        *self == *other
    }
}

impl ViewEq for u16 {
    fn view_eq(&self, other: &Self) -> (res: bool) {
        *self == *other
    }
}

impl ViewEq for u32 {
    fn view_eq(&self, other: &Self) -> (res: bool) {
        *self == *other
    }
}

impl ViewEq for u64 {
    fn view_eq(&self, other: &Self) -> (res: bool) {
        *self == *other
    }
}

impl ViewEq for usize {
    fn view_eq(&self, other: &Self) -> (res: bool) {
        *self == *other
    }
}

impl ViewEq for i8 {
    fn view_eq(&self, other: &Self) -> (res: bool) {
        *self == *other
    }
}

impl ViewEq for i16 {
    fn view_eq(&self, other: &Self) -> (res: bool) {
        *self == *other
    }
}

impl ViewEq for i32 {
    fn view_eq(&self, other: &Self) -> (res: bool) {
        *self == *other
    }
}

impl ViewEq for i64 {
    fn view_eq(&self, other: &Self) -> (res: bool) {
        *self == *other
    }
}

impl ViewEq for isize {
    fn view_eq(&self, other: &Self) -> (res: bool) {
        *self == *other
    }
}

/// The views of the values.
pub open spec fn spec_views<T: View>(s: Seq<T>) -> Seq<T::V> {
    s.map_values(|x: T| x@)
}

/// The views of the referenced values.
pub open spec fn spec_ref_views<T: View>(s: Seq<&T>) -> Seq<T::V> {
    s.map_values(|x: &T| x@)
}

/// The values of `a` not in `b`, each once, in the order of their first
/// occurrence in `a`.
pub open spec fn spec_difference<V>(a: Seq<V>, b: Seq<V>) -> Seq<V>
    decreases a.len(),
{
    if a.len() == 0 {
        Seq::empty()
    } else {
        let p = spec_difference(a.drop_last(), b);
        let x = a.last();
        if b.contains(x) || p.contains(x) { p } else { p.push(x) }
    }
}

/// What the difference holds: each value of `a` that `b` lacks, once.
pub proof fn lemma_difference_set<V>(a: Seq<V>, b: Seq<V>)
    ensures
        spec_difference(a, b).no_duplicates(),
        spec_difference(a, b).to_set() == a.to_set().difference(b.to_set()),
        forall|x: V| spec_difference(a, b).contains(x) <==> (a.contains(x) && !b.contains(x)),
    decreases a.len(),
{
    if a.len() > 0 {
        let p = spec_difference(a.drop_last(), b);
        lemma_difference_set(a.drop_last(), b);
        let x = a.last();
        assert forall|y: V| a.contains(y) <==> (a.drop_last().contains(y) || y == x) by {
            if a.contains(y) {
                let i = choose|i: int| 0 <= i < a.len() && a[i] == y;
                if i < a.len() - 1 {
                    assert(a.drop_last()[i] == y);
                }
            }
            if a.drop_last().contains(y) {
                let i = choose|i: int| 0 <= i < a.len() - 1 && a.drop_last()[i] == y;
                assert(a[i] == y);
            }
        }
        if !(b.contains(x) || p.contains(x)) {
            assert forall|y: V| p.push(x).contains(y) <==> (p.contains(y) || y == x) by {
                if p.push(x).contains(y) {
                    let i = choose|i: int| 0 <= i < p.len() + 1 && p.push(x)[i] == y;
                    if i < p.len() {
                        assert(p[i] == y);
                    }
                }
                if p.contains(y) {
                    let i = choose|i: int| 0 <= i < p.len() && p[i] == y;
                    assert(p.push(x)[i] == y);
                }
                if y == x {
                    assert(p.push(x)[p.len() as int] == y);
                }
            }
        }
    } else {
        assert(a.to_set() =~= Set::empty());
    }
    assert(spec_difference(a, b).to_set() =~= a.to_set().difference(b.to_set()));
}

/// Whether a value with the same view as `x` is in `s`.
pub fn contains_view<T: ViewEq>(s: &[T], x: &T) -> (res: bool)
    ensures
        res == spec_views(s@).contains(x@),
{
    let mut i: usize = 0;
    while i < s.len()
        invariant
            i <= s.len(),
            forall|k: int| 0 <= k < i ==> s@[k]@ != x@,
        decreases s.len() - i,
    {
        if s[i].view_eq(x) {
            assert(spec_views(s@)[i as int] == x@);
            return true;
        }
        i = i + 1;
    }
    assert forall|k: int| 0 <= k < spec_views(s@).len() implies spec_views(s@)[k] != x@ by {
        assert(spec_views(s@)[k] == s@[k]@);
    }
    false
}

/// Whether a referenced value with the same view as `x` is in `s`.
fn contains_ref_view<T: ViewEq>(s: &Vec<&T>, x: &T) -> (res: bool)
    ensures
        res == spec_ref_views(s@).contains(x@),
{
    let mut i: usize = 0;
    while i < s.len()
        invariant
            i <= s.len(),
            forall|k: int| 0 <= k < i ==> s@[k]@ != x@,
        decreases s.len() - i,
    {
        if s[i].view_eq(x) {
            assert(spec_ref_views(s@)[i as int] == x@);
            return true;
        }
        i = i + 1;
    }
    assert forall|k: int| 0 <= k < spec_ref_views(s@).len() implies spec_ref_views(s@)[k] != x@ by {
        assert(spec_ref_views(s@)[k] == s@[k]@);
    }
    false
}

/// The values of `a` that `b` lacks, each once, in the order of their first
/// occurrence in `a`.
fn difference<'a, T: ViewEq>(a: &'a [T], b: &[T]) -> (res: Vec<&'a T>)
    ensures
        spec_ref_views(res@) == spec_difference(spec_views(a@), spec_views(b@)),
{
    let ghost av = spec_views(a@);
    let ghost bv = spec_views(b@);
    let mut res: Vec<&'a T> = Vec::new();
    let mut i: usize = 0;
    while i < a.len()
        invariant
            i <= a.len(),
            av == spec_views(a@),
            bv == spec_views(b@),
            spec_ref_views(res@) == spec_difference(av.take(i as int), bv),
        decreases a.len() - i,
    {
        assert(av.take(i + 1).drop_last() == av.take(i as int));
        assert(av.take(i + 1).last() == a@[i as int]@);
        let x = &a[i];
        if !contains_view(b, x) && !contains_ref_view(&res, x) {
            let ghost before = res@;
            res.push(x);
            assert(spec_ref_views(res@) =~= spec_ref_views(before).push(x@));
        }
        i = i + 1;
    }
    assert(av.take(a.len() as int) == av);
    res
}

/// The values found on the server but not in the local database, each once.
pub fn get_inputs_in_remote_not_in_db<'a, T: ViewEq>(inputs_in_remote: &'a [T], inputs_in_db: &'a [T]) -> (res: Vec<&'a T>)
    ensures
        spec_ref_views(res@) == spec_difference(spec_views(inputs_in_remote@), spec_views(inputs_in_db@)),
{
    difference(inputs_in_remote, inputs_in_db)
}

/// The values found in the local database but no longer on the server, each once.
pub fn get_inputs_in_db_not_in_remote<'a, T: ViewEq>(inputs_in_remote: &'a [T], inputs_in_db: &'a [T]) -> (res: Vec<&'a T>)
    ensures
        spec_ref_views(res@) == spec_difference(spec_views(inputs_in_db@), spec_views(inputs_in_remote@)),
{
    difference(inputs_in_db, inputs_in_remote)
}

/// Deleting from the local database what the server no longer has, then
/// inserting what the server has and the database lacks, leaves the database
/// holding exactly what the server holds.
pub proof fn lemma_synchronisation_reaches_remote<V>(remote: Seq<V>, db: Seq<V>)
    ensures
        db.to_set().difference(spec_difference(db, remote).to_set()).union(spec_difference(remote, db).to_set())
            == remote.to_set(),
{
    lemma_difference_set(db, remote);
    lemma_difference_set(remote, db);
    assert(db.to_set().difference(spec_difference(db, remote).to_set()).union(spec_difference(remote, db).to_set())
        =~= remote.to_set());
}

/// Nothing is both inserted and deleted by a synchronisation.
pub proof fn lemma_insertions_and_deletions_disjoint<V>(remote: Seq<V>, db: Seq<V>)
    ensures
        spec_difference(remote, db).to_set().disjoint(spec_difference(db, remote).to_set()),
{
    lemma_difference_set(db, remote);
    lemma_difference_set(remote, db);
}


// ---------------------------------------------------------------------------
// Sequences built element by element
// ---------------------------------------------------------------------------

/// The results of `f` on the elements of `s` that give one, in order.
pub open spec fn spec_filter_map<A, B>(s: Seq<A>, f: spec_fn(A) -> Option<B>) -> Seq<B>
    decreases s.len(),
{
    if s.len() == 0 {
        Seq::empty()
    } else {
        let p = spec_filter_map(s.drop_last(), f);
        match f(s.last()) {
            Some(b) => p.push(b),
            None => p,
        }
    }
}

/// One more element considered by a filter-map.
pub proof fn lemma_filter_map_step<A, B>(s: Seq<A>, f: spec_fn(A) -> Option<B>, i: int)
    requires
        0 <= i < s.len(),
    ensures
        spec_filter_map(s.take(i + 1), f) == (match f(s[i]) {
            Some(b) => spec_filter_map(s.take(i), f).push(b),
            None => spec_filter_map(s.take(i), f),
        }),
{
    assert(s.take(i + 1).drop_last() == s.take(i));
    assert(s.take(i + 1).last() == s[i]);
}

/// The results of `f` on the elements of `s`, put end to end.
pub open spec fn spec_flat_map<A, B>(s: Seq<A>, f: spec_fn(A) -> Seq<B>) -> Seq<B>
    decreases s.len(),
{
    if s.len() == 0 {
        Seq::empty()
    } else {
        spec_flat_map(s.drop_last(), f) + f(s.last())
    }
}

/// One more element considered by a flat-map.
pub proof fn lemma_flat_map_step<A, B>(s: Seq<A>, f: spec_fn(A) -> Seq<B>, i: int)
    requires
        0 <= i < s.len(),
    ensures
        spec_flat_map(s.take(i + 1), f) == spec_flat_map(s.take(i), f) + f(s[i]),
{
    assert(s.take(i + 1).drop_last() == s.take(i));
    assert(s.take(i + 1).last() == s[i]);
}

/// The whole sequence is its longest prefix.
pub proof fn lemma_take_all<A>(s: Seq<A>)
    ensures
        s.take(s.len() as int) == s,
{
    assert(s.take(s.len() as int) =~= s);
}

} // verus!
