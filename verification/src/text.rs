use vstd::prelude::*;

verus! {

// ---------------------------------------------------------------------------
// Specifications of the string operations the rest of the crate relies on.
// ---------------------------------------------------------------------------

/// `s` split on every occurrence of `sep`; always at least one piece.
pub open spec fn spec_split(s: Seq<char>, sep: char) -> Seq<Seq<char>>
    decreases s.len(),
{
    if s.len() == 0 {
        seq![Seq::<char>::empty()]
    } else {
        let p = spec_split(s.drop_last(), sep);
        if s.last() == sep {
            p.push(Seq::<char>::empty())
        } else {
            p.update(p.len() - 1, p.last().push(s.last()))
        }
    }
}

/// The line without its final carriage return, if it has one.
pub open spec fn spec_strip_cr(line: Seq<char>) -> Seq<char> {
    if line.len() > 0 && line.last() == '\r' {
        line.drop_last()
    } else {
        line
    }
}

/// The lines of `s` as `str::lines` yields them: split at `\n`, a `\r`
/// before the `\n` removed, and no empty line after a final `\n`.
pub open spec fn spec_lines(s: Seq<char>) -> Seq<Seq<char>> {
    if s.len() == 0 {
        Seq::empty()
    } else {
        let p = spec_split(s, '\n');
        let q = if p.last().len() == 0 { p.drop_last() } else { p };
        Seq::new(q.len(), |i: int| if i < p.len() - 1 { spec_strip_cr(q[i]) } else { q[i] })
    }
}

/// The pieces put end to end with `sep` between two consecutive pieces.
pub open spec fn spec_join(parts: Seq<Seq<char>>, sep: Seq<char>) -> Seq<char>
    decreases parts.len(),
{
    if parts.len() == 0 {
        Seq::empty()
    } else if parts.len() == 1 {
        parts[0]
    } else {
        spec_join(parts.drop_last(), sep) + sep + parts.last()
    }
}

/// Every line of `text` with `starter` in front of it, joined by newlines.
pub open spec fn spec_indent(text: Seq<char>, starter: Seq<char>) -> Seq<char> {
    spec_join(spec_lines(text).map_values(|l: Seq<char>| starter + l), seq!['\n'])
}

/// The characters with the Unicode `White_Space` property (`char::is_whitespace`).
pub open spec fn spec_is_whitespace(c: char) -> bool {
    ||| ('\t' <= c && c <= '\r')
    ||| c == ' '
    ||| c == '\u{85}'
    ||| c == '\u{a0}'
    ||| c == '\u{1680}'
    ||| ('\u{2000}' <= c && c <= '\u{200a}')
    ||| c == '\u{2028}'
    ||| c == '\u{2029}'
    ||| c == '\u{202f}'
    ||| c == '\u{205f}'
    ||| c == '\u{3000}'
}

/// `s` without its leading white space.
pub open spec fn spec_trim_start(s: Seq<char>) -> Seq<char>
    decreases s.len(),
{
    if s.len() > 0 && spec_is_whitespace(s[0]) {
        spec_trim_start(s.drop_first())
    } else {
        s
    }
}

/// `s` without its trailing white space.
pub open spec fn spec_trim_end(s: Seq<char>) -> Seq<char>
    decreases s.len(),
{
    if s.len() > 0 && spec_is_whitespace(s.last()) {
        spec_trim_end(s.drop_last())
    } else {
        s
    }
}

/// `s` without leading and trailing white space (`str::trim`).
pub open spec fn spec_trim(s: Seq<char>) -> Seq<char> {
    spec_trim_end(spec_trim_start(s))
}

/// `n` copies of `c`.
pub open spec fn spec_repeat(c: char, n: nat) -> Seq<char> {
    Seq::new(n, |i: int| c)
}

/// The decimal digit of value `d` (`d < 10`).
pub open spec fn spec_digit(d: nat) -> char {
    ((48 + d) as u32) as char
}

/// `n` written in decimal, without leading zeros.
pub open spec fn spec_decimal(n: nat) -> Seq<char>
    decreases n,
{
    if n < 10 {
        seq![spec_digit(n)]
    } else {
        spec_decimal(n / 10).push(spec_digit(n % 10))
    }
}

/// `prefix` is the beginning of `s`.
pub open spec fn spec_starts_with(s: Seq<char>, prefix: Seq<char>) -> bool {
    prefix.len() <= s.len() && s.take(prefix.len() as int) == prefix
}

/// `suffix` is the end of `s`.
pub open spec fn spec_ends_with(s: Seq<char>, suffix: Seq<char>) -> bool {
    suffix.len() <= s.len() && s.skip(s.len() - suffix.len()) == suffix
}

// ---------------------------------------------------------------------------
// Executable string operations.
// ---------------------------------------------------------------------------

/// Appends one character at the end of a string (`String::push`).
#[verifier::external_body]
pub(crate) fn push_char(s: &mut String, c: char)
    ensures
        final(s)@ == old(s)@.push(c),
{
    s.push(c);
}

/// The characters of `s`, in order.
pub fn chars_of(s: &str) -> (res: Vec<char>)
    ensures
        res@ == s@,
{
    let mut res: Vec<char> = Vec::new();
    for c in it: s.chars()
        invariant
            res@ == it.seq().take(it.index() as int),
    {
        res.push(c);
    }
    res
}

/// The string made of the characters `chars[from..to]`.
pub fn string_from_chars(chars: &Vec<char>, from: usize, to: usize) -> (res: String)
    requires
        from <= to <= chars.len(),
    ensures
        res@ == chars@.subrange(from as int, to as int),
{
    let mut res = String::new();
    let mut i = from;
    while i < to
        invariant
            from <= i <= to <= chars.len(),
            res@ == chars@.subrange(from as int, i as int),
        decreases to - i,
    {
        push_char(&mut res, chars[i]);
        assert(chars@.subrange(from as int, i + 1) == chars@.subrange(from as int, i as int).push(chars@[i as int]));
        i = i + 1;
    }
    res
}

/// A fresh copy of `s` (`str::to_string`).
pub fn to_owned(s: &str) -> (res: String)
    ensures
        res@ == s@,
{
    s.to_owned()
}

/// `s` split on every occurrence of `sep` (`str::split` with a character).
pub fn split_char(s: &str, sep: char) -> (res: Vec<String>)
    ensures
        res@.map_values(|x: String| x@) == spec_split(s@, sep),
{
    let chars = chars_of(s);
    let mut res: Vec<String> = Vec::new();
    let mut cur = String::new();
    let mut i: usize = 0;
    while i < chars.len()
        invariant
            i <= chars.len(),
            chars@ == s@,
            res@.map_values(|x: String| x@).push(cur@) == spec_split(chars@.take(i as int), sep),
        decreases chars.len() - i,
    {
        let c = chars[i];
        let ghost prefix = chars@.take(i as int);
        assert(chars@.take(i + 1).drop_last() == prefix);
        if c == sep {
            let done = cur;
            res.push(done);
            cur = String::new();
            assert(res@.map_values(|x: String| x@) == spec_split(prefix, sep));
        } else {
            let ghost before = res@.map_values(|x: String| x@);
            push_char(&mut cur, c);
            assert(before.push(cur@) == before.push(cur@.drop_last()).update(
                before.len() as int,
                cur@,
            ));
        }
        i = i + 1;
    }
    assert(chars@.take(chars.len() as int) == chars@);
    res.push(cur);
    res
}


/// `s` without a final carriage return.
pub fn strip_cr(s: &str) -> (res: String)
    ensures
        res@ == spec_strip_cr(s@),
{
    let chars = chars_of(s);
    let n = chars.len();
    if n > 0 && chars[n - 1] == '\r' {
        string_from_chars(&chars, 0, n - 1)
    } else {
        assert(chars@.subrange(0, n as int) == chars@);
        string_from_chars(&chars, 0, n)
    }
}

/// Splitting always gives at least one piece.
pub proof fn lemma_split_nonempty(s: Seq<char>, sep: char)
    ensures
        spec_split(s, sep).len() >= 1,
    decreases s.len(),
{
    if s.len() > 0 {
        lemma_split_nonempty(s.drop_last(), sep);
    }
}

/// A piece without separator splits into itself alone.
pub proof fn lemma_split_no_sep(s: Seq<char>, sep: char)
    requires
        !s.contains(sep),
    ensures
        spec_split(s, sep) == seq![s],
    decreases s.len(),
{
    if s.len() > 0 {
        assert(!s.drop_last().contains(sep)) by {
            if s.drop_last().contains(sep) {
                let k = choose|k: int| 0 <= k < s.drop_last().len() && s.drop_last()[k] == sep;
                assert(s[k] == sep);
            }
        }
        lemma_split_no_sep(s.drop_last(), sep);
        assert(s.last() != sep) by {
            assert(s[s.len() - 1] == s.last());
        }
        assert(s.drop_last().push(s.last()) == s);
        let p = spec_split(s.drop_last(), sep);
        assert(p == seq![s.drop_last()]);
        assert(p.update(p.len() - 1, p.last().push(s.last())) == seq![s]);
    } else {
        assert(s == Seq::<char>::empty());
    }
}

/// Splitting `a`, a separator, then `b` gives the pieces of `a` followed by those of `b`.
pub proof fn lemma_split_concat(a: Seq<char>, b: Seq<char>, sep: char)
    ensures
        spec_split(a.push(sep) + b, sep) == spec_split(a, sep) + spec_split(b, sep),
    decreases b.len(),
{
    let s = a.push(sep) + b;
    if b.len() == 0 {
        assert(s == a.push(sep));
        assert(s.drop_last() == a);
    } else {
        lemma_split_concat(a, b.drop_last(), sep);
        lemma_split_nonempty(b.drop_last(), sep);
        assert(s.drop_last() == a.push(sep) + b.drop_last());
        assert(s.last() == b.last());
    }
}

/// Separators split with no exception: there is one more piece than there
/// are separators (so two separators in a row, or one at an end, give an
/// empty piece), no piece holds a separator, and putting the separators back
/// between the pieces gives the text again.
pub proof fn lemma_split_join(s: Seq<char>, sep: char)
    ensures
        spec_split(s, sep).len() == s.filter(|c: char| c == sep).len() + 1,
        forall|i: int| 0 <= i < spec_split(s, sep).len() ==> !(#[trigger] spec_split(s, sep)[i]).contains(sep),
        spec_join(spec_split(s, sep), seq![sep]) == s,
    decreases s.len(),
{
    let is_sep = |c: char| c == sep;
    if s.len() == 0 {
        assert(s.filter(is_sep).len() == 0) by {
            reveal(Seq::filter);
        }
        assert(spec_split(s, sep)[0] == Seq::<char>::empty());
    } else {
        let t = s.drop_last();
        let c = s.last();
        lemma_split_join(t, sep);
        lemma_split_nonempty(t, sep);
        assert(t.push(c) == s);
        t.lemma_filter_push(c, is_sep);
        let p = spec_split(t, sep);
        if c == sep {
            let q = p.push(Seq::<char>::empty());
            assert(q.drop_last() == p);
            assert forall|i: int| 0 <= i < q.len() implies !(#[trigger] q[i]).contains(sep) by {
                if i < p.len() {
                    assert(q[i] == p[i]);
                }
            }
            assert(spec_join(q, seq![sep]) == spec_join(p, seq![sep]) + seq![sep] + Seq::<char>::empty());
        } else {
            let last = p.last().push(c);
            let q = p.update(p.len() - 1, last);
            assert forall|i: int| 0 <= i < q.len() implies !(#[trigger] q[i]).contains(sep) by {
                if i < p.len() - 1 {
                    assert(q[i] == p[i]);
                } else {
                    assert(!p[p.len() - 1].contains(sep));
                    if last.contains(sep) {
                        let k = choose|k: int| 0 <= k < last.len() && last[k] == sep;
                        assert(p.last()[k] == sep);
                    }
                }
            }
            if p.len() == 1 {
                assert(spec_join(p, seq![sep]) == p[0]);
                assert(q[0] == last);
            } else {
                assert(q.drop_last() == p.drop_last());
                assert(spec_join(q, seq![sep]) == (spec_join(p.drop_last(), seq![sep]) + seq![sep]) + last);
                assert(spec_join(p, seq![sep]) == (spec_join(p.drop_last(), seq![sep]) + seq![sep]) + p.last());
                assert((spec_join(p.drop_last(), seq![sep]) + seq![sep]) + last == ((spec_join(p.drop_last(), seq![sep]) + seq![sep])
                    + p.last()).push(c));
            }
        }
    }
}

/// The lines of `s` (`str::lines`).
pub fn lines(s: &str) -> (res: Vec<String>)
    ensures
        res@.map_values(|x: String| x@) == spec_lines(s@),
{
    let mut res: Vec<String> = Vec::new();
    if s.is_empty() {
        assert(res@.map_values(|x: String| x@) == spec_lines(s@));
        return res;
    }
    let p = split_char(s, '\n');
    proof { lemma_split_nonempty(s@, '\n'); }
    let ghost pv = p@.map_values(|x: String| x@);
    assert(pv.len() == p.len());
    let n = p.len();
    let q_len = if p[n - 1].as_str().is_empty() { n - 1 } else { n };
    assert(pv[n - 1] == p[n - 1 as int]@);
    let ghost q = if pv.last().len() == 0 { pv.drop_last() } else { pv };
    assert(q.len() == q_len);
    let mut i: usize = 0;
    while i < q_len
        invariant
            i <= q_len <= n == p.len() == pv.len(),
            pv == p@.map_values(|x: String| x@),
            pv == spec_split(s@, '\n'),
            q == (if pv.last().len() == 0 { pv.drop_last() } else { pv }),
            q.len() == q_len,
            res@.len() == i,
            forall|k: int| 0 <= k < i ==> #[trigger] res@[k]@ == (if k < pv.len() - 1 { spec_strip_cr(q[k]) } else { q[k] }),
        decreases q_len - i,
    {
        assert(pv[i as int] == p[i as int]@);
        assert(q[i as int] == pv[i as int]);
        if i < n - 1 {
            let l = strip_cr(p[i].as_str());
            res.push(l);
        } else {
            let l = p[i].clone();
            res.push(l);
        }
        i = i + 1;
    }
    assert(res@.map_values(|x: String| x@) == spec_lines(s@));
    res
}

/// The pieces put end to end with `sep` between them (`reduce` with a separator).
pub fn join(parts: &Vec<String>, sep: &str) -> (res: String)
    ensures
        res@ == spec_join(parts@.map_values(|x: String| x@), sep@),
{
    let ghost pv = parts@.map_values(|x: String| x@);
    let mut res = String::new();
    let mut i: usize = 0;
    while i < parts.len()
        invariant
            i <= parts.len(),
            pv == parts@.map_values(|x: String| x@),
            res@ == spec_join(pv.take(i as int), sep@),
        decreases parts.len() - i,
    {
        assert(pv.take(i + 1).drop_last() == pv.take(i as int));
        assert(pv[i as int] == parts[i as int]@);
        if i > 0 {
            res.append(sep);
        }
        res.append(parts[i].as_str());
        i = i + 1;
    }
    assert(pv.take(parts.len() as int) == pv);
    res
}

/// Every line of `text` prefixed with `starter`, joined by newlines.
pub fn indent_with(text: &str, starter: &str) -> (res: String)
    ensures
        res@ == spec_indent(text@, starter@),
{
    let ls = lines(text);
    let ghost lv = ls@.map_values(|x: String| x@);
    let mut prefixed: Vec<String> = Vec::new();
    let mut i: usize = 0;
    while i < ls.len()
        invariant
            i <= ls.len(),
            lv == ls@.map_values(|x: String| x@),
            prefixed@.len() == i,
            forall|k: int| 0 <= k < i ==> #[trigger] prefixed@[k]@ == starter@ + lv[k],
        decreases ls.len() - i,
    {
        let mut l = to_owned(starter);
        l.append(ls[i].as_str());
        prefixed.push(l);
        i = i + 1;
    }
    let res = join(&prefixed, "\n");
    proof {
        reveal_strlit("\n");
        assert("\n"@ == seq!['\n']);
        assert(prefixed@.map_values(|x: String| x@) == lv.map_values(|l: Seq<char>| starter@ + l));
        assert(lv == spec_lines(text@));
    }
    res
}


/// Whether `c` is white space (`char::is_whitespace`).
pub fn is_whitespace(c: char) -> (res: bool)
    ensures
        res == spec_is_whitespace(c),
{
    ('\t' <= c && c <= '\r') || c == ' ' || c == '\u{85}' || c == '\u{a0}' || c == '\u{1680}'
        || ('\u{2000}' <= c && c <= '\u{200a}') || c == '\u{2028}' || c == '\u{2029}'
        || c == '\u{202f}' || c == '\u{205f}' || c == '\u{3000}'
}

/// `s` without leading and trailing white space (`str::trim`).
pub fn trim(s: &str) -> (res: String)
    ensures
        res@ == spec_trim(s@),
{
    let chars = chars_of(s);
    let n = chars.len();
    let mut start: usize = 0;
    assert(chars@.skip(0) == chars@);
    while start < n && is_whitespace(chars[start])
        invariant
            start <= n == chars.len(),
            chars@ == s@,
            spec_trim_start(chars@) == spec_trim_start(chars@.skip(start as int)),
        decreases n - start,
    {
        assert(chars@.skip(start as int).drop_first() == chars@.skip(start + 1));
        start = start + 1;
    }
    let ghost t = chars@.skip(start as int);
    assert(spec_trim_start(chars@) == t);
    let mut end: usize = n;
    assert(chars@.subrange(start as int, n as int) == t);
    while end > start && is_whitespace(chars[end - 1])
        invariant
            start <= end <= n == chars.len(),
            t == chars@.skip(start as int),
            spec_trim_end(t) == spec_trim_end(chars@.subrange(start as int, end as int)),
        decreases end - start,
    {
        assert(chars@.subrange(start as int, end as int).drop_last() == chars@.subrange(
            start as int,
            end - 1,
        ));
        end = end - 1;
    }
    string_from_chars(&chars, start, end)
}

/// `n` copies of `c` (`str::repeat` on a one-character string).
pub fn repeat_char(c: char, n: usize) -> (res: String)
    ensures
        res@ == spec_repeat(c, n as nat),
{
    let mut res = String::new();
    let mut i: usize = 0;
    while i < n
        invariant
            i <= n,
            res@ == spec_repeat(c, i as nat),
        decreases n - i,
    {
        push_char(&mut res, c);
        i = i + 1;
        assert(res@ == spec_repeat(c, i as nat));
    }
    res
}

/// The decimal digit of value `d`.
pub fn digit(d: u64) -> (c: char)
    requires
        d < 10,
    ensures
        c == spec_digit(d as nat),
{
    ((d as u8) + 48u8) as char
}

/// `n` written in decimal (`u64` formatted with `{}`).
pub fn decimal(n: u64) -> (res: String)
    ensures
        res@ == spec_decimal(n as nat),
    decreases n,
{
    if n < 10 {
        let mut res = String::new();
        push_char(&mut res, digit(n));
        res
    } else {
        let mut res = decimal(n / 10);
        push_char(&mut res, digit(n % 10));
        res
    }
}

/// Whether `prefix` is the beginning of `s` (`str::starts_with`).
pub fn starts_with(s: &str, prefix: &str) -> (res: bool)
    ensures
        res == spec_starts_with(s@, prefix@),
{
    let a = chars_of(s);
    let b = chars_of(prefix);
    if b.len() > a.len() {
        return false;
    }
    let mut i: usize = 0;
    while i < b.len()
        invariant
            i <= b.len() <= a.len(),
            a@ == s@,
            b@ == prefix@,
            forall|k: int| 0 <= k < i ==> a@[k] == b@[k],
        decreases b.len() - i,
    {
        if a[i] != b[i] {
            assert(s@.take(prefix@.len() as int)[i as int] != prefix@[i as int]);
            return false;
        }
        i = i + 1;
    }
    assert(s@.take(prefix@.len() as int) == prefix@);
    true
}

/// Whether `suffix` is the end of `s` (`str::ends_with`).
pub fn ends_with(s: &str, suffix: &str) -> (res: bool)
    ensures
        res == spec_ends_with(s@, suffix@),
{
    let a = chars_of(s);
    let b = chars_of(suffix);
    if b.len() > a.len() {
        return false;
    }
    let off = a.len() - b.len();
    let mut i: usize = 0;
    while i < b.len()
        invariant
            i <= b.len() <= a.len(),
            off == a.len() - b.len(),
            a@ == s@,
            b@ == suffix@,
            forall|k: int| 0 <= k < i ==> a@[off + k] == b@[k],
        decreases b.len() - i,
    {
        if a[off + i] != b[i] {
            assert(s@.skip(off as int)[i as int] != suffix@[i as int]);
            return false;
        }
        i = i + 1;
    }
    assert(s@.skip(off as int) == suffix@);
    true
}

/// Whether `c` occurs in `s` (`str::contains` with a character).
pub fn contains_char(s: &str, c: char) -> (res: bool)
    ensures
        res == s@.contains(c),
{
    let a = chars_of(s);
    let mut i: usize = 0;
    while i < a.len()
        invariant
            i <= a.len(),
            a@ == s@,
            forall|k: int| 0 <= k < i ==> a@[k] != c,
        decreases a.len() - i,
    {
        if a[i] == c {
            assert(s@[i as int] == c);
            return true;
        }
        i = i + 1;
    }
    false
}

/// Whether two strings hold the same characters.
pub fn str_eq(a: &str, b: &str) -> (res: bool)
    ensures
        res == (a@ == b@),
{
    let x = chars_of(a);
    let y = chars_of(b);
    if x.len() != y.len() {
        return false;
    }
    let mut i: usize = 0;
    while i < x.len()
        invariant
            i <= x.len() == y.len(),
            x@ == a@,
            y@ == b@,
            forall|k: int| 0 <= k < i ==> x@[k] == y@[k],
        decreases x.len() - i,
    {
        if x[i] != y[i] {
            return false;
        }
        i = i + 1;
    }
    assert(x@ == y@);
    true
}


/// `s` with every occurrence of the non-empty `from`, found from left to
/// right without overlap, replaced by `to` (`str::replace`).
pub open spec fn spec_replace(s: Seq<char>, from: Seq<char>, to: Seq<char>) -> Seq<char>
    recommends
        from.len() > 0,
    decreases s.len(),
{
    if s.len() == 0 || from.len() == 0 {
        s
    } else if spec_starts_with(s, from) {
        to + spec_replace(s.skip(from.len() as int), from, to)
    } else {
        seq![s[0]] + spec_replace(s.drop_first(), from, to)
    }
}

/// Whether `pat` occurs in `chars` at position `i`.
fn occurs_at(chars: &Vec<char>, pat: &Vec<char>, i: usize) -> (res: bool)
    requires
        i <= chars.len(),
    ensures
        res == spec_starts_with(chars@.skip(i as int), pat@),
{
    if pat.len() > chars.len() - i {
        return false;
    }
    let mut k: usize = 0;
    while k < pat.len()
        invariant
            k <= pat.len() <= chars.len() - i,
            forall|m: int| 0 <= m < k ==> chars@[i + m] == pat@[m],
        decreases pat.len() - k,
    {
        if chars[i + k] != pat[k] {
            assert(chars@.skip(i as int).take(pat@.len() as int)[k as int] != pat@[k as int]);
            return false;
        }
        k = k + 1;
    }
    assert(chars@.skip(i as int).take(pat@.len() as int) =~= pat@);
    true
}

/// `s` with every occurrence of `from` replaced by `to` (`str::replace`).
pub fn replace(s: &str, from: &str, to: &str) -> (res: String)
    requires
        from@.len() > 0,
    ensures
        res@ == spec_replace(s@, from@, to@),
{
    let chars = chars_of(s);
    let pat = chars_of(from);
    let mut res = String::new();
    let mut i: usize = 0;
    assert(chars@.skip(0) == chars@);
    while i < chars.len()
        invariant
            i <= chars.len(),
            chars@ == s@,
            pat@ == from@,
            pat@.len() > 0,
            spec_replace(s@, from@, to@) == res@ + spec_replace(chars@.skip(i as int), from@, to@),
        decreases chars.len() - i,
    {
        let ghost rest = chars@.skip(i as int);
        if occurs_at(&chars, &pat, i) {
            res.append(to);
            assert(rest.skip(pat@.len() as int) == chars@.skip(i + pat@.len()));
            i = i + pat.len();
        } else {
            push_char(&mut res, chars[i]);
            assert(rest.drop_first() == chars@.skip(i + 1));
            assert(rest[0] == chars@[i as int]);
            i = i + 1;
        }
    }
    res
}


// ---------------------------------------------------------------------------
// Parsing decimal integers (`str::parse` on integer types)
// ---------------------------------------------------------------------------

/// `c` is an ASCII decimal digit.
pub open spec fn spec_is_digit(c: char) -> bool {
    '0' <= c && c <= '9'
}

/// Every character of `s` is a decimal digit.
pub open spec fn spec_all_digits(s: Seq<char>) -> bool {
    forall|i: int| 0 <= i < s.len() ==> spec_is_digit(#[trigger] s[i])
}

/// The number written by the decimal digits `s`.
pub open spec fn spec_digits_value(s: Seq<char>) -> nat
    decreases s.len(),
{
    if s.len() == 0 {
        0
    } else {
        spec_digits_value(s.drop_last()) * 10 + ((s.last() as u32) - 48) as nat
    }
}

/// `s` as `str::parse::<u32>` reads it: an optional `+`, then at least one
/// decimal digit, the value fitting in a `u32`.
pub open spec fn spec_parse_u32(s: Seq<char>) -> Option<u32> {
    let d = if s.len() > 0 && s[0] == '+' { s.drop_first() } else { s };
    if d.len() > 0 && spec_all_digits(d) && spec_digits_value(d) <= u32::MAX {
        Some(spec_digits_value(d) as u32)
    } else {
        None
    }
}

/// `s` as `str::parse::<i64>` reads it: an optional `+` or `-`, then at least
/// one decimal digit, the value fitting in an `i64`.
pub open spec fn spec_parse_i64(s: Seq<char>) -> Option<i64> {
    let negative = s.len() > 0 && s[0] == '-';
    let d = if s.len() > 0 && (s[0] == '+' || s[0] == '-') { s.drop_first() } else { s };
    if d.len() > 0 && spec_all_digits(d) {
        if negative {
            if spec_digits_value(d) <= 0x8000_0000_0000_0000 {
                Some((0 - spec_digits_value(d)) as i64)
            } else {
                None
            }
        } else if spec_digits_value(d) <= i64::MAX {
            Some(spec_digits_value(d) as i64)
        } else {
            None
        }
    } else {
        None
    }
}

/// The value of a prefix of digits is at most the value of the whole.
pub proof fn lemma_digits_value_prefix(s: Seq<char>, i: int)
    requires
        0 <= i <= s.len(),
        spec_all_digits(s),
    ensures
        spec_digits_value(s.take(i)) <= spec_digits_value(s),
    decreases s.len() - i,
{
    if i < s.len() {
        lemma_digits_value_prefix(s, i + 1);
        assert(s.take(i + 1).drop_last() == s.take(i));
        assert(spec_is_digit(s[i]));
    } else {
        assert(s.take(i) == s);
    }
}

/// The digits of `chars[from..]` as a number, if they are all digits, there
/// is at least one and the value is at most `limit`.
fn digits_value(chars: &Vec<char>, from: usize, limit: u64) -> (res: Option<u64>)
    requires
        from <= chars.len(),
        limit >= 9,
    ensures
        match res {
            Some(v) => {
                let d = chars@.skip(from as int);
                &&& d.len() > 0
                &&& spec_all_digits(d)
                &&& spec_digits_value(d) <= limit
                &&& v == spec_digits_value(d)
            },
            None => {
                let d = chars@.skip(from as int);
                !(d.len() > 0 && spec_all_digits(d) && spec_digits_value(d) <= limit)
            },
        },
{
    let ghost d = chars@.skip(from as int);
    if from == chars.len() {
        return None;
    }
    let mut acc: u64 = 0;
    let mut i: usize = from;
    while i < chars.len()
        invariant
            from <= i <= chars.len(),
            limit >= 9,
            d == chars@.skip(from as int),
            spec_all_digits(d.take(i - from)),
            acc == spec_digits_value(d.take(i - from)),
            acc <= limit,
        decreases chars.len() - i,
    {
        let c = chars[i];
        assert(d[i - from] == c);
        if c < '0' || c > '9' {
            assert(!spec_is_digit(d[i - from]));
            return None;
        }
        let digit = (c as u32 - 48) as u64;
        assert(d.take(i + 1 - from).drop_last() == d.take(i - from));
        assert(d.take(i + 1 - from).last() == c);
        if acc > (limit - digit) / 10 {
            proof {
                assert(acc * 10 + digit > limit) by (nonlinear_arith)
                    requires
                        acc > (limit - digit) / 10,
                        digit <= 9,
                        limit >= 9;
                assert forall|k: int| 0 <= k < d.take(i + 1 - from).len() implies spec_is_digit(
                    #[trigger] d.take(i + 1 - from)[k],
                ) by {
                    if k < i - from {
                        assert(d.take(i + 1 - from)[k] == d.take(i - from)[k]);
                    }
                }
                if spec_all_digits(d) {
                    lemma_digits_value_prefix(d, i + 1 - from);
                }
            }
            return None;
        }
        proof {
            assert(acc * 10 + digit <= limit) by (nonlinear_arith)
                requires
                    acc <= (limit - digit) / 10,
                    digit <= 9,
                    limit >= 9;
            assert forall|k: int| 0 <= k < d.take(i + 1 - from).len() implies spec_is_digit(
                #[trigger] d.take(i + 1 - from)[k],
            ) by {
                if k < i - from {
                    assert(d.take(i + 1 - from)[k] == d.take(i - from)[k]);
                }
            }
        }
        acc = acc * 10 + digit;
        i = i + 1;
    }
    assert(d.take(chars.len() - from) == d);
    Some(acc)
}

/// Reads a `u32` written in decimal (`str::parse::<u32>`).
pub fn parse_u32(s: &str) -> (res: Option<u32>)
    ensures
        res == spec_parse_u32(s@),
{
    let chars = chars_of(s);
    let from: usize = if chars.len() > 0 && chars[0] == '+' { 1 } else { 0 };
    assert(from == 1 ==> chars@.skip(1) == s@.drop_first());
    assert(chars@.skip(0) == s@);
    match digits_value(&chars, from, 0xFFFF_FFFF) {
        Some(v) => Some(v as u32),
        None => None,
    }
}

/// Reads an `i64` written in decimal (`str::parse::<i64>`).
pub fn parse_i64(s: &str) -> (res: Option<i64>)
    ensures
        res == spec_parse_i64(s@),
{
    let chars = chars_of(s);
    let negative = chars.len() > 0 && chars[0] == '-';
    let from: usize = if chars.len() > 0 && (chars[0] == '+' || chars[0] == '-') { 1 } else { 0 };
    assert(from == 1 ==> chars@.skip(1) == s@.drop_first());
    assert(chars@.skip(0) == s@);
    if negative {
        match digits_value(&chars, from, 0x8000_0000_0000_0000) {
            Some(v) => if v == 0x8000_0000_0000_0000 {
                Some(-9223372036854775807i64 - 1)
            } else {
                Some(-(v as i64))
            },
            None => None,
        }
    } else {
        match digits_value(&chars, from, 0x7FFF_FFFF_FFFF_FFFF) {
            Some(v) => Some(v as i64),
            None => None,
        }
    }
}


/// `n` written in decimal, with a minus sign when negative.
pub open spec fn spec_decimal_i64(n: i64) -> Seq<char> {
    if n < 0 {
        seq!['-'] + spec_decimal((0 - n) as nat)
    } else {
        spec_decimal(n as nat)
    }
}

/// `n` written in decimal (`i64` formatted with `{}`).
pub fn decimal_i64(n: i64) -> (res: String)
    ensures
        res@ == spec_decimal_i64(n),
{
    if n < 0 {
        let magnitude: u64 = if n == -9223372036854775807i64 - 1 {
            9223372036854775808u64
        } else {
            (-n) as u64
        };
        let mut res = String::new();
        push_char(&mut res, '-');
        res.append(decimal(magnitude).as_str());
        assert(Seq::<char>::empty().push('-') == seq!['-']);
        res
    } else {
        decimal(n as u64)
    }
}

// ---------------------------------------------------------------------------
// Where a piece of text occurs in a larger one
// ---------------------------------------------------------------------------

/// `t` occurs in `s` as a contiguous piece.
pub open spec fn spec_contains(s: Seq<char>, t: Seq<char>) -> bool {
    exists|k: int| 0 <= k && k + t.len() <= s.len() && #[trigger] s.subrange(k, k + t.len()) == t
}

/// A piece occurs in any text it stands in the middle of.
pub proof fn lemma_contains_middle(a: Seq<char>, t: Seq<char>, b: Seq<char>)
    ensures
        spec_contains(a + t + b, t),
{
    let s = a + t + b;
    assert(s.subrange(a.len() as int, (a.len() + t.len()) as int) =~= t);
}

/// A piece of `s` is a piece of anything `s` stands in the middle of.
pub proof fn lemma_contains_extend(s: Seq<char>, t: Seq<char>, a: Seq<char>, b: Seq<char>)
    requires
        spec_contains(s, t),
    ensures
        spec_contains(a + s + b, t),
{
    let k = choose|k: int| 0 <= k && k + t.len() <= s.len() && #[trigger] s.subrange(k, k + t.len()) == t;
    let w = a + s + b;
    assert(w.subrange(a.len() + k, a.len() + k + t.len()) =~= s.subrange(k, k + t.len()));
}

/// Occurring in is transitive.
pub proof fn lemma_contains_trans(s: Seq<char>, t: Seq<char>, u: Seq<char>)
    requires
        spec_contains(s, t),
        spec_contains(t, u),
    ensures
        spec_contains(s, u),
{
    let k = choose|k: int| 0 <= k && k + t.len() <= s.len() && #[trigger] s.subrange(k, k + t.len()) == t;
    let m = choose|m: int| 0 <= m && m + u.len() <= t.len() && #[trigger] t.subrange(m, m + u.len()) == u;
    assert(s.subrange(k + m, k + m + u.len()) =~= t.subrange(m, m + u.len()));
}

/// Every piece put in a join occurs in it.
pub proof fn lemma_join_contains(parts: Seq<Seq<char>>, sep: Seq<char>, i: int)
    requires
        0 <= i < parts.len(),
    ensures
        spec_contains(spec_join(parts, sep), parts[i]),
    decreases parts.len(),
{
    if parts.len() == 1 {
        lemma_contains_middle(Seq::empty(), parts[0], Seq::empty());
        assert(Seq::<char>::empty() + parts[0] + Seq::<char>::empty() =~= parts[0]);
    } else if i == parts.len() - 1 {
        lemma_contains_middle(spec_join(parts.drop_last(), sep) + sep, parts.last(), Seq::empty());
        assert(spec_join(parts.drop_last(), sep) + sep + parts.last() + Seq::<char>::empty()
            =~= spec_join(parts.drop_last(), sep) + sep + parts.last());
    } else {
        lemma_join_contains(parts.drop_last(), sep, i);
        assert(parts.drop_last()[i] == parts[i]);
        lemma_contains_extend(spec_join(parts.drop_last(), sep), parts[i], Seq::empty(), sep + parts.last());
        assert(Seq::<char>::empty() + spec_join(parts.drop_last(), sep) + (sep + parts.last())
            =~= spec_join(parts.drop_last(), sep) + sep + parts.last());
    }
}

/// Reading back the decimal writing of `n` gives `n`: the writing is made of
/// digits only, and two different numbers are never written alike.
pub proof fn lemma_decimal_reads_back(n: nat)
    ensures
        spec_all_digits(spec_decimal(n)),
        spec_digits_value(spec_decimal(n)) == n,
    decreases n,
{
    lemma_digit_code(n % 10);
    if n < 10 {
        assert(spec_decimal(n).drop_last() =~= Seq::<char>::empty());
        assert(n % 10 == n);
        assert(spec_digits_value(Seq::<char>::empty()) == 0);
        assert(spec_digits_value(spec_decimal(n)) == n);
    } else {
        assert(n == (n / 10) * 10 + n % 10) by (nonlinear_arith);
        lemma_decimal_reads_back(n / 10);
        assert(spec_decimal(n).drop_last() =~= spec_decimal(n / 10));
        assert(spec_digits_value(spec_decimal(n)) == spec_digits_value(spec_decimal(n / 10)) * 10 + n % 10);
        assert(spec_digits_value(spec_decimal(n)) == n);
    }
}

/// The digit of `d` is the character with code `48 + d`.
proof fn lemma_digit_code(d: nat)
    requires
        d < 10,
    ensures
        spec_digit(d) as u32 == 48 + d,
        spec_is_digit(spec_digit(d)),
{
}

/// Different numbers have different decimal writings.
pub proof fn lemma_decimal_injective(m: nat, n: nat)
    requires
        m != n,
    ensures
        spec_decimal(m) != spec_decimal(n),
{
    lemma_decimal_reads_back(m);
    lemma_decimal_reads_back(n);
}

} // verus!
