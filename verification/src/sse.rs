//! Framing of a server-sent-events stream whose JSON payloads may be split
//! across network chunks.  Complete `{...}` objects are extracted by brace
//! matching rather than by splitting on newlines.
use vstd::prelude::*;
use vstd::string::StringSliceAdditionalSpecFns;

use crate::text::{
    byte_len, char_is_ws, chars_to_string, count_before, is_ws, lemma_take_full, str_to_chars,
};

verus! {

/// What [`drain_next_event`] found at the front of the buffer.
pub enum DrainResult {
    /// The stream's `[DONE]` marker.
    Done,
    /// More bytes are needed.
    Incomplete,
    /// A line that is not an event was dropped.
    Skipped,
    /// One complete JSON object.
    Json(String),
}

/// Abstract outcome of draining one event.
pub enum Drained {
    Done,
    Incomplete,
    Skipped,
    Json(Seq<char>),
}

pub open spec fn drain_result_is(r: DrainResult, d: Drained) -> bool {
    match (r, d) {
        (DrainResult::Done, Drained::Done) => true,
        (DrainResult::Incomplete, Drained::Incomplete) => true,
        (DrainResult::Skipped, Drained::Skipped) => true,
        (DrainResult::Json(s), Drained::Json(t)) => s@ == t,
        _ => false,
    }
}

/// `s` without its leading whitespace (`str::trim_start`).
pub open spec fn skip_ws(s: Seq<char>) -> Seq<char>
    decreases s.len(),
{
    if s.len() > 0 && is_ws(s[0]) {
        skip_ws(s.drop_first())
    } else {
        s
    }
}

pub open spec fn data_prefix() -> Seq<char> {
    seq!['d', 'a', 't', 'a', ':']
}

pub open spec fn done_marker() -> Seq<char> {
    seq!['[', 'D', 'O', 'N', 'E', ']']
}

pub open spec fn starts_with(s: Seq<char>, p: Seq<char>) -> bool {
    s.len() >= p.len() && s.take(p.len() as int) == p
}

/// Scanner state after reading `s`: (brace depth, inside a string, after a
/// backslash inside a string).
pub open spec fn json_scan(s: Seq<char>) -> (int, bool, bool)
    decreases s.len(),
{
    if s.len() == 0 {
        (0, false, false)
    } else {
        let st = json_scan(s.drop_last());
        let c = s.last();
        if st.2 {
            (st.0, st.1, false)
        } else if c == '\\' && st.1 {
            (st.0, st.1, true)
        } else if c == '"' {
            (st.0, !st.1, false)
        } else if c == '{' && !st.1 {
            (st.0 + 1, st.1, false)
        } else if c == '}' && !st.1 {
            (st.0 - 1, st.1, false)
        } else {
            st
        }
    }
}

/// Character `i` of `s` is the `}` that closes the top-level object.
pub open spec fn closes_at(s: Seq<char>, i: int) -> bool {
    let st = json_scan(s.take(i));
    0 <= i < s.len() && !st.2 && !st.1 && s[i] == '}' && st.0 == 1
}

/// The first closing position at or after `i`.
pub open spec fn first_close_from(s: Seq<char>, i: int) -> Option<int>
    decreases s.len() - i,
{
    if i < 0 || i >= s.len() {
        None
    } else if closes_at(s, i) {
        Some(i)
    } else {
        first_close_from(s, i + 1)
    }
}

/// Number of characters of the complete object at the front of `s`, if any.
pub open spec fn json_object_len(s: Seq<char>) -> Option<int> {
    if s.len() > 0 && s[0] == '{' {
        match first_close_from(s, 0) {
            Some(i) => Some(i + 1),
            None => None,
        }
    } else {
        None
    }
}

/// Index just past the first `'\n'` of `s`, if there is one.
pub open spec fn past_newline(s: Seq<char>) -> Option<int> {
    if count_before(s, '\n') < s.len() {
        Some(count_before(s, '\n') + 1int)
    } else {
        None
    }
}

pub proof fn lemma_skip_ws_len(s: Seq<char>)
    ensures
        skip_ws(s).len() <= s.len(),
        exists|k: int| 0 <= k <= s.len() && skip_ws(s) == #[trigger] s.skip(k),
    decreases s.len(),
{
    if s.len() > 0 && is_ws(s[0]) {
        lemma_skip_ws_len(s.drop_first());
        let k = choose|k: int|
            0 <= k <= s.drop_first().len() && skip_ws(s.drop_first()) == #[trigger] s.drop_first().skip(
                k,
            );
        assert(s.drop_first().skip(k) =~= s.skip(k + 1));
    } else {
        assert(s.skip(0) =~= s);
    }
}

pub proof fn lemma_count_before_len(s: Seq<char>, c: char)
    ensures
        count_before(s, c) <= s.len(),
        count_before(s, c) < s.len() ==> s[count_before(s, c) as int] == c,
        forall|j: int| 0 <= j < count_before(s, c) ==> s[j] != c,
    decreases s.len(),
{
    if s.len() > 0 && s[0] != c {
        lemma_count_before_len(s.drop_first(), c);
        assert forall|j: int| 0 <= j < count_before(s, c) implies s[j] != c by {
            if j > 0 {
                assert(s[j] == s.drop_first()[j - 1]);
            }
        }
    }
}

/// The event at the front of `b` and the buffer left behind.
pub open spec fn drain_spec(b: Seq<char>) -> (Drained, Seq<char>)
    decreases b.len(),
{
    let t = skip_ws(b);
    proof {
        lemma_skip_ws_len(b);
        lemma_count_before_len(t, '\n');
    }
    if t.len() == 0 {
        (Drained::Incomplete, t)
    } else if t[0] == ':' {
        match past_newline(t) {
            None => (Drained::Incomplete, t),
            Some(p) => drain_spec(t.skip(p)),
        }
    } else if starts_with(t, data_prefix()) {
        drain_spec(t.skip(5))
    } else if starts_with(t, done_marker()) {
        (Drained::Done, Seq::<char>::empty())
    } else if t[0] != '{' {
        match past_newline(t) {
            None => (Drained::Incomplete, t),
            Some(p) => (Drained::Skipped, t.skip(p)),
        }
    } else {
        match json_object_len(t) {
            None => (Drained::Incomplete, t),
            Some(k) => (Drained::Json(t.take(k)), skip_ws(t.skip(k))),
        }
    }
}

/// Position of the first non-whitespace character at or after `pos`.
fn skip_ws_from(v: &Vec<char>, pos: usize) -> (r: usize)
    requires
        pos <= v.len(),
    ensures
        pos <= r <= v.len(),
        v@.skip(r as int) == skip_ws(v@.skip(pos as int)),
{
    let mut i = pos;
    while i < v.len() && char_is_ws(v[i])
        invariant
            pos <= i <= v.len(),
            skip_ws(v@.skip(pos as int)) == skip_ws(v@.skip(i as int)),
        decreases v.len() - i,
    {
        assert(v@.skip(i as int).drop_first() =~= v@.skip(i + 1));
        i = i + 1;
    }
    i
}

/// Index just past the first `'\n'` at or after `pos`.
fn past_newline_from(v: &Vec<char>, pos: usize) -> (r: Option<usize>)
    requires
        pos <= v.len(),
    ensures
        match past_newline(v@.skip(pos as int)) {
            Some(p) => r == Some((pos + p) as usize),
            None => r is None,
        },
{
    let mut i = pos;
    assert(v@.skip(pos as int).skip(0) =~= v@.skip(pos as int));
    while i < v.len() && v[i] != '\n'
        invariant
            pos <= i <= v.len(),
            count_before(v@.skip(pos as int), '\n') == (i - pos) + count_before(
                v@.skip(i as int),
                '\n',
            ),
        decreases v.len() - i,
    {
        assert(v@.skip(i as int).drop_first() =~= v@.skip(i + 1));
        i = i + 1;
    }
    if i < v.len() {
        Some(i + 1)
    } else {
        None
    }
}

/// `v[pos..]` starts with the given characters.
fn starts_with_at(v: &Vec<char>, pos: usize, p: &[char]) -> (r: bool)
    requires
        pos <= v.len(),
    ensures
        r == starts_with(v@.skip(pos as int), p@),
{
    if v.len() - pos < p.len() {
        return false;
    }
    let mut j: usize = 0;
    while j < p.len()
        invariant
            j <= p@.len(),
            pos + p@.len() <= v.len(),
            forall|q: int| 0 <= q < j ==> v@[pos + q] == p@[q],
        decreases p.len() - j,
    {
        if v[pos + j] != p[j] {
            assert(v@.skip(pos as int).take(p@.len() as int)[j as int] != p@[j as int]);
            return false;
        }
        j = j + 1;
    }
    assert(v@.skip(pos as int).take(p@.len() as int) =~= p@);
    true
}

proof fn lemma_first_close_bound(s: Seq<char>, i: int)
    ensures
        first_close_from(s, i) matches Some(j) ==> i <= j < s.len(),
    decreases s.len() - i,
{
    if 0 <= i < s.len() && !closes_at(s, i) {
        lemma_first_close_bound(s, i + 1);
    }
}

/// Number of characters of the complete object starting at `pos`.
fn json_object_len_from(v: &Vec<char>, pos: usize) -> (r: Option<usize>)
    requires
        pos <= v.len(),
    ensures
        match json_object_len(v@.skip(pos as int)) {
            Some(k) => 0 < k <= v.len() - pos && r == Some(k as usize),
            None => r is None,
        },
{
    let ghost s = v@.skip(pos as int);
    if pos >= v.len() || v[pos] != '{' {
        return None;
    }
    let mut depth: usize = 0;
    let mut in_string = false;
    let mut escape = false;
    let mut i: usize = 0;
    let n = v.len() - pos;
    assert(s.take(0) =~= Seq::<char>::empty());
    while i < n
        invariant
            n == s.len(),
            s == v@.skip(pos as int),
            pos + n == v.len(),
            i <= n,
            n > 0 && s[0] == '{',
            json_scan(s.take(i as int)) == (depth as int, in_string, escape),
            i > 0 ==> depth >= 1,
            depth <= i,
            first_close_from(s, 0) == first_close_from(s, i as int),
        decreases n - i,
    {
        let c = v[pos + i];
        assert(s.take(i + 1).drop_last() =~= s.take(i as int));
        assert(s[i as int] == c);
        if escape {
            escape = false;
        } else if c == '\\' && in_string {
            escape = true;
        } else if c == '"' {
            in_string = !in_string;
        } else if c == '{' && !in_string {
            depth = depth + 1;
        } else if c == '}' && !in_string {
            if depth == 1 {
                assert(closes_at(s, i as int));
                proof {
                    lemma_first_close_bound(s, i as int);
                }
                return Some(i + 1);
            }
            if i == 0 {
                assert(false);
            }
            depth = depth - 1;
        }
        assert(!closes_at(s, i as int));
        i = i + 1;
    }
    None
}

/// Byte length of a complete top-level JSON object starting at `{`.
pub fn complete_json_end(s: &str) -> (r: Option<usize>)
    ensures
        match json_object_len(s@) {
            Some(k) => r == Some(byte_len(s@.take(k)) as usize) && byte_len(s@.take(k))
                <= usize::MAX,
            None => r is None,
        },
{
    let v = str_to_chars(s);
    assert(v@.skip(0) =~= v@);
    match json_object_len_from(&v, 0) {
        None => None,
        Some(k) => {
            let n = byte_len_prefix(s, &v, k);
            Some(n)
        },
    }
}

/// Byte length of the first `k` characters of `s` (whose characters are `v`).
fn byte_len_prefix(s: &str, v: &Vec<char>, k: usize) -> (n: usize)
    requires
        v@ == s@,
        k <= v.len(),
    ensures
        n == byte_len(s@.take(k as int)),
        byte_len(s@.take(k as int)) <= usize::MAX,
{
    let bytes = s.as_bytes().len();
    proof {
        broadcast use vstd::slice::axiom_spec_len;

        crate::text::lemma_byte_len_take_grows(s@, k as int, s@.len() as int);
        lemma_str_len_bytes(s);
    }
    let mut prefix: Vec<char> = Vec::new();
    let mut j: usize = 0;
    while j < k
        invariant
            j <= k <= v@.len(),
            prefix@ == v@.take(j as int),
        decreases k - j,
    {
        prefix.push(v[j]);
        assert(v@.take(j as int).push(v@[j as int]) =~= v@.take(j + 1));
        j = j + 1;
    }
    crate::text::byte_len_of(&prefix)
}

/// `str::len` counts the UTF-8 bytes of the characters.
proof fn lemma_str_len_bytes(s: &str)
    ensures
        s.spec_bytes().len() == byte_len(s@),
{
    lemma_encode_len(s@);
}

proof fn lemma_encode_len(s: Seq<char>)
    ensures
        vstd::utf8::encode_utf8(s).len() == byte_len(s),
    decreases s.len(),
{
    if s.len() > 0 {
        lemma_encode_len(s.drop_first());
        lemma_byte_len_first(s);
        lemma_encode_scalar_len(s[0]);
        assert(vstd::utf8::encode_utf8(s) == vstd::utf8::encode_scalar(s[0] as u32)
            + vstd::utf8::encode_utf8(s.drop_first()));
    }
}

proof fn lemma_byte_len_first(s: Seq<char>)
    requires
        s.len() > 0,
    ensures
        byte_len(s) == crate::text::utf8_width(s[0]) + byte_len(s.drop_first()),
{
    assert(s =~= seq![s[0]] + s.drop_first());
    crate::text::lemma_byte_len_append(seq![s[0]], s.drop_first());
    crate::text::lemma_byte_len_push(Seq::<char>::empty(), s[0]);
    assert(Seq::<char>::empty().push(s[0]) =~= seq![s[0]]);
}

proof fn lemma_encode_scalar_len(c: char)
    ensures
        vstd::utf8::encode_scalar(c as u32).len() == crate::text::utf8_width(c),
{
    vstd::utf8::char_is_scalar(c);
}

/// Pulls the next event from the buffer.  Leading whitespace, `:` comment
/// lines and `data:` prefixes are consumed; `[DONE]` empties the buffer; a
/// line that starts with anything other than `{` is dropped; a complete
/// object is removed together with the whitespace after it.  When more bytes
/// are needed, the buffer keeps what has not been consumed.
pub fn drain_next_event(buffer: &mut String) -> (r: DrainResult)
    ensures
        drain_result_is(r, drain_spec(old(buffer)@).0),
        final(buffer)@ == drain_spec(old(buffer)@).1,
{
    let v = str_to_chars(buffer.as_str());
    let mut pos: usize = 0;
    assert(v@.skip(0) =~= v@);
    loop
        invariant
            pos <= v.len(),
            drain_spec(old(buffer)@) == drain_spec(v@.skip(pos as int)),
        decreases v.len() - pos,
    {
        let ghost b = v@.skip(pos as int);
        let t = skip_ws_from(&v, pos);
        proof {
            lemma_count_before_len(v@.skip(t as int), '\n');
        }
        if t == v.len() {
            *buffer = String::new();
            proof {
                assert(v@.skip(t as int) =~= Seq::<char>::empty());
            }
            return DrainResult::Incomplete;
        }
        if v[t] == ':' {
            match past_newline_from(&v, t) {
                None => {
                    *buffer = rest_from(&v, t);
                    return DrainResult::Incomplete;
                },
                Some(p) => {
                    assert(v@.skip(t as int).skip(p - t) =~= v@.skip(p as int));
                    pos = p;
                    continue ;
                },
            }
        }
        if starts_with_at(&v, t, &['d', 'a', 't', 'a', ':']) {
            proof {
                assert(seq!['d', 'a', 't', 'a', ':'] =~= data_prefix());
            }
            assert(v@.skip(t as int).skip(5) =~= v@.skip(t + 5));
            pos = t + 5;
            continue ;
        }
        proof {
            assert(seq!['d', 'a', 't', 'a', ':'] =~= data_prefix());
        }
        if starts_with_at(&v, t, &['[', 'D', 'O', 'N', 'E', ']']) {
            proof {
                assert(seq!['[', 'D', 'O', 'N', 'E', ']'] =~= done_marker());
            }
            *buffer = String::new();
            return DrainResult::Done;
        }
        proof {
            assert(seq!['[', 'D', 'O', 'N', 'E', ']'] =~= done_marker());
        }
        if v[t] != '{' {
            match past_newline_from(&v, t) {
                None => {
                    *buffer = rest_from(&v, t);
                    return DrainResult::Incomplete;
                },
                Some(p) => {
                    assert(v@.skip(t as int).skip(p - t) =~= v@.skip(p as int));
                    *buffer = rest_from(&v, p);
                    return DrainResult::Skipped;
                },
            }
        }
        match json_object_len_from(&v, t) {
            None => {
                *buffer = rest_from(&v, t);
                return DrainResult::Incomplete;
            },
            Some(k) => {
                let json = slice_string(&v, t, t + k);
                let after = skip_ws_from(&v, t + k);
                proof {
                    assert(v@.skip(t as int).skip(k as int) =~= v@.skip(t + k));
                    assert(v@.subrange(t as int, t + k) =~= v@.skip(t as int).take(k as int));
                    let tt = v@.skip(t as int);
                    assert(tt == skip_ws(v@.skip(pos as int)));
                    assert(tt[0] == '{');
                    assert(json_object_len(tt) == Some(k as int));
                    assert(drain_spec(v@.skip(pos as int)) == (Drained::Json(tt.take(k as int)), skip_ws(tt.skip(k as int))));
                }
                *buffer = rest_from(&v, after);
                return DrainResult::Json(json);
            },
        }
    }
}

/// `v[from..]` as a `String`.
fn rest_from(v: &Vec<char>, from: usize) -> (r: String)
    requires
        from <= v.len(),
    ensures
        r@ == v@.skip(from as int),
{
    let r = slice_string(v, from, v.len());
    assert(v@.subrange(from as int, v@.len() as int) =~= v@.skip(from as int));
    r
}

/// `v[from..to]` as a `String`.
fn slice_string(v: &Vec<char>, from: usize, to: usize) -> (r: String)
    requires
        from <= to <= v.len(),
    ensures
        r@ == v@.subrange(from as int, to as int),
{
    let mut out: Vec<char> = Vec::new();
    let mut j = from;
    while j < to
        invariant
            from <= j <= to <= v@.len(),
            out@ == v@.subrange(from as int, j as int),
        decreases to - j,
    {
        out.push(v[j]);
        assert(v@.subrange(from as int, j as int).push(v@[j as int]) =~= v@.subrange(
            from as int,
            j + 1,
        ));
        j = j + 1;
    }
    chars_to_string(&out)
}

/// Removes the leading whitespace of the buffer.
pub fn drain_prefix_whitespace(buffer: &mut String)
    ensures
        final(buffer)@ == skip_ws(old(buffer)@),
{
    let v = str_to_chars(buffer.as_str());
    assert(v@.skip(0) =~= v@);
    let t = skip_ws_from(&v, 0);
    if t > 0 {
        *buffer = rest_from(&v, t);
    } else {
        assert(v@.skip(0) =~= v@);
    }
}

} // verus!

verus! {

proof fn lemma_skip_ws_idem(s: Seq<char>)
    ensures
        skip_ws(skip_ws(s)) == skip_ws(s),
        skip_ws(s).len() > 0 ==> !is_ws(skip_ws(s)[0]),
    decreases s.len(),
{
    if s.len() > 0 && is_ws(s[0]) {
        lemma_skip_ws_idem(s.drop_first());
    }
}

proof fn lemma_skip_ws_append(a: Seq<char>, c: Seq<char>)
    ensures
        skip_ws(a).len() > 0 ==> skip_ws(a + c) == skip_ws(a) + c,
        skip_ws(a).len() == 0 ==> skip_ws(a + c) == skip_ws(c),
    decreases a.len(),
{
    if a.len() == 0 {
        assert(a + c =~= c);
    } else if is_ws(a[0]) {
        lemma_skip_ws_append(a.drop_first(), c);
        assert((a + c).drop_first() =~= a.drop_first() + c);
        assert((a + c)[0] == a[0]);
    } else {
        assert((a + c)[0] == a[0]);
    }
}

proof fn lemma_drain_trim(x: Seq<char>)
    ensures
        drain_spec(x) == drain_spec(skip_ws(x)),
{
    lemma_skip_ws_idem(x);
    lemma_skip_ws_len(x);
    assert(drain_spec(skip_ws(x)) == drain_spec(x));
}

proof fn lemma_count_before_append(a: Seq<char>, c: Seq<char>, x: char)
    requires
        count_before(a, x) < a.len(),
    ensures
        count_before(a + c, x) == count_before(a, x),
    decreases a.len(),
{
    assert((a + c)[0] == a[0]);
    if a[0] != x {
        lemma_count_before_append(a.drop_first(), c, x);
        assert((a + c).drop_first() =~= a.drop_first() + c);
    }
}

proof fn lemma_starts_with_append(a: Seq<char>, c: Seq<char>, p: Seq<char>)
    requires
        starts_with(a, p),
    ensures
        starts_with(a + c, p),
{
    assert((a + c).take(p.len() as int) =~= a.take(p.len() as int));
}

/// Waiting for more bytes loses nothing: when the buffer `b` is incomplete,
/// receiving `c` next gives the same events as if the buffer left behind had
/// received `c`.  A JSON object split across chunks comes out whole.
pub proof fn law_incomplete_resumes(b: Seq<char>, c: Seq<char>)
    requires
        drain_spec(b).0 is Incomplete,
    ensures
        drain_spec(b + c) == drain_spec(drain_spec(b).1 + c),
    decreases b.len(),
{
    let t = skip_ws(b);
    lemma_skip_ws_len(b);
    lemma_count_before_len(t, '\n');
    lemma_skip_ws_append(b, c);
    lemma_drain_trim(b + c);
    if t.len() == 0 {
        assert(drain_spec(b).1 == t);
        assert(t + c =~= c);
        lemma_drain_trim(c);
    } else {
        lemma_skip_ws_idem(b);
        assert(t + c == skip_ws(b + c));
        assert((t + c)[0] == t[0]);
        lemma_skip_ws_append(t, c);
        lemma_skip_ws_idem(t + c);
        if t[0] == ':' {
            match past_newline(t) {
                None => {},
                Some(p) => {
                    lemma_count_before_append(t, c, '\n');
                    assert((t + c).skip(p) =~= t.skip(p) + c);
                    law_incomplete_resumes(t.skip(p), c);
                },
            }
        } else if starts_with(t, data_prefix()) {
            lemma_starts_with_append(t, c, data_prefix());
            assert((t + c).skip(5) =~= t.skip(5) + c);
            law_incomplete_resumes(t.skip(5), c);
        } else {
            assert(drain_spec(b).1 == t);
        }
    }
}


/// Draining shortens the buffer, strictly when an event or a line was taken.
pub proof fn lemma_drain_shrinks(b: Seq<char>)
    ensures
        drain_spec(b).1.len() <= b.len(),
        (drain_spec(b).0 is Skipped || drain_spec(b).0 is Json) ==> drain_spec(b).1.len() < b.len(),
    decreases b.len(),
{
    let t = skip_ws(b);
    lemma_skip_ws_len(b);
    lemma_count_before_len(t, '\n');
    if t.len() == 0 {
    } else if t[0] == ':' {
        match past_newline(t) {
            None => {},
            Some(p) => {
                lemma_drain_shrinks(t.skip(p));
            },
        }
    } else if starts_with(t, data_prefix()) {
        lemma_drain_shrinks(t.skip(5));
    } else if starts_with(t, done_marker()) {
    } else if t[0] != '{' {
    } else {
        lemma_first_close_bound(t, 0);
        match json_object_len(t) {
            None => {},
            Some(k) => {
                lemma_skip_ws_len(t.skip(k));
            },
        }
    }
}

/// Every event drained from the front of `b`, in order, until more bytes are
/// needed or the stream is done, and the buffer left behind.
pub open spec fn drain_all(b: Seq<char>) -> (Seq<Drained>, Seq<char>)
    decreases b.len(),
{
    let x = drain_spec(b);
    proof {
        lemma_drain_shrinks(b);
    }
    match x.0 {
        Drained::Incomplete => (Seq::empty(), x.1),
        Drained::Done => (seq![Drained::Done], x.1),
        _ => {
            let y = drain_all(x.1);
            (seq![x.0] + y.0, y.1)
        },
    }
}

/// The events end with the stream's end marker.
pub open spec fn ends_done(ds: Seq<Drained>) -> bool {
    ds.len() > 0 && ds.last() is Done
}

proof fn lemma_skip_ws_absorb(x: Seq<char>, c: Seq<char>)
    ensures
        skip_ws(x + c) == skip_ws(skip_ws(x) + c),
{
    lemma_skip_ws_append(x, c);
    lemma_skip_ws_idem(x);
    lemma_skip_ws_append(skip_ws(x), c);
    if skip_ws(x).len() == 0 {
        assert(skip_ws(x) + c =~= c);
    }
}

proof fn lemma_first_close_append(t: Seq<char>, c: Seq<char>, i: int)
    requires
        first_close_from(t, i) is Some,
    ensures
        first_close_from(t + c, i) == first_close_from(t, i),
    decreases t.len() - i,
{
    assert((t + c).take(i) =~= t.take(i));
    assert((t + c)[i] == t[i]);
    if !closes_at(t, i) {
        lemma_first_close_append(t, c, i + 1);
    }
}

/// A text holding a newline before its end, and not starting with the
/// newline-free `p`, does not start with `p` whatever follows it.
proof fn lemma_not_starts(t: Seq<char>, c: Seq<char>, p: Seq<char>)
    requires
        count_before(t, '\n') < t.len(),
        !starts_with(t, p),
        forall|q: int| 0 <= q < p.len() ==> p[q] != '\n',
    ensures
        !starts_with(t + c, p),
{
    lemma_count_before_len(t, '\n');
    if t.len() >= p.len() {
        assert((t + c).take(p.len() as int) =~= t.take(p.len() as int));
    } else if starts_with(t + c, p) {
        let q = count_before(t, '\n') as int;
        assert((t + c).take(p.len() as int)[q] == (t + c)[q]);
        assert((t + c)[q] == t[q]);
    }
}

/// The front event of a buffer stays when more bytes arrive behind it, and
/// what is left behind grows by those bytes (up to leading whitespace).
proof fn lemma_drain_prefix(a: Seq<char>, c: Seq<char>)
    requires
        !(drain_spec(a).0 is Incomplete),
    ensures
        drain_spec(a + c).0 == drain_spec(a).0,
        !(drain_spec(a).0 is Done) ==> skip_ws(drain_spec(a + c).1) == skip_ws(drain_spec(a).1 + c),
    decreases a.len(),
{
    let t = skip_ws(a);
    lemma_skip_ws_len(a);
    lemma_count_before_len(t, '\n');
    lemma_skip_ws_append(a, c);
    lemma_skip_ws_idem(a);
    lemma_drain_trim(a + c);
    lemma_skip_ws_append(t, c);
    assert(skip_ws(a + c) == t + c);
    assert(skip_ws(t + c) == t + c);
    assert((t + c)[0] == t[0]);
    assert(drain_spec(a + c) == drain_spec(t + c));
    assert(forall|q: int| 0 <= q < data_prefix().len() ==> data_prefix()[q] != '\n');
    assert(forall|q: int| 0 <= q < done_marker().len() ==> done_marker()[q] != '\n');
    if t[0] == ':' {
        let p = past_newline(t)->0;
        lemma_count_before_append(t, c, '\n');
        assert((t + c).skip(p) =~= t.skip(p) + c);
        lemma_drain_prefix(t.skip(p), c);
    } else if starts_with(t, data_prefix()) {
        lemma_starts_with_append(t, c, data_prefix());
        assert((t + c).skip(5) =~= t.skip(5) + c);
        lemma_drain_prefix(t.skip(5), c);
    } else if starts_with(t, done_marker()) {
        lemma_starts_with_append(t, c, done_marker());
        if starts_with(t + c, data_prefix()) {
            assert((t + c).take(5)[0] == (t + c)[0]);
            assert(t.take(6)[0] == t[0]);
        }
    } else if t[0] != '{' {
        let p = past_newline(t)->0;
        lemma_count_before_append(t, c, '\n');
        lemma_not_starts(t, c, data_prefix());
        lemma_not_starts(t, c, done_marker());
        assert((t + c).skip(p) =~= t.skip(p) + c);
        assert(drain_spec(a).1 == t.skip(p));
        assert(drain_spec(a + c).1 == t.skip(p) + c);
    } else {
        if starts_with(t + c, data_prefix()) {
            assert((t + c).take(5)[0] == (t + c)[0]);
        }
        if starts_with(t + c, done_marker()) {
            assert((t + c).take(6)[0] == (t + c)[0]);
        }
        let k = json_object_len(t)->0;
        lemma_first_close_bound(t, 0);
        lemma_first_close_append(t, c, 0);
        assert((t + c).take(k) =~= t.take(k));
        assert((t + c).skip(k) =~= t.skip(k) + c);
        lemma_skip_ws_absorb(t.skip(k), c);
        lemma_skip_ws_idem(t.skip(k) + c);
    }
}

/// Buffers that agree but for leading whitespace drain alike.
proof fn lemma_drain_all_trim(x: Seq<char>, y: Seq<char>)
    requires
        skip_ws(x) == skip_ws(y),
    ensures
        drain_all(x) == drain_all(y),
{
    lemma_drain_trim(x);
    lemma_drain_trim(y);
    assert(drain_spec(x) == drain_spec(y));
}

/// Buffers with the same front event and the same rest drain alike.
proof fn lemma_drain_all_same(x: Seq<char>, y: Seq<char>)
    requires
        drain_spec(x) == drain_spec(y),
    ensures
        drain_all(x) == drain_all(y),
{
}

/// A stream split anywhere drains as it does whole: the events drained from
/// the first part, then (unless the stream ended there) those drained after
/// the second part is appended to what was left behind, are the events of
/// the whole text, and the same buffer is left behind.  No event is lost,
/// cut in two or given twice.
pub proof fn law_split_drains_alike(a: Seq<char>, c: Seq<char>)
    ensures
        ends_done(drain_all(a).0) ==> drain_all(a + c).0 == drain_all(a).0,
        !ends_done(drain_all(a).0) ==> drain_all(a + c).0 == drain_all(a).0 + drain_all(
            drain_all(a).1 + c,
        ).0 && drain_all(a + c).1 == drain_all(drain_all(a).1 + c).1,
    decreases a.len(),
{
    let x = drain_spec(a);
    lemma_drain_shrinks(a);
    match x.0 {
        Drained::Incomplete => {
            law_incomplete_resumes(a, c);
            lemma_drain_all_same(a + c, x.1 + c);
            assert(drain_all(a).0 == Seq::<Drained>::empty());
            assert(Seq::<Drained>::empty() + drain_all(x.1 + c).0 =~= drain_all(x.1 + c).0);
        },
        Drained::Done => {
            lemma_drain_prefix(a, c);
        },
        _ => {
            lemma_drain_prefix(a, c);
            let y = drain_spec(a + c);
            lemma_drain_all_trim(y.1, x.1 + c);
            law_split_drains_alike(x.1, c);
            let rest = drain_all(x.1);
            assert(drain_all(a) == (seq![x.0] + rest.0, rest.1));
            assert(drain_all(a + c) == (seq![x.0] + drain_all(y.1).0, drain_all(y.1).1));
            if ends_done(rest.0) {
                assert((seq![x.0] + rest.0).last() == rest.0.last());
            } else {
                if rest.0.len() > 0 {
                    assert((seq![x.0] + rest.0).last() == rest.0.last());
                }
                assert(seq![x.0] + (rest.0 + drain_all(rest.1 + c).0) =~= (seq![x.0] + rest.0)
                    + drain_all(rest.1 + c).0);
            }
        },
    }
}


/// Drains every event the buffer holds, in order, until more bytes are
/// needed or the stream is done (a `Done` is the last event given); the
/// buffer keeps what is left.
pub fn drain_available(buffer: &mut String) -> (r: Vec<DrainResult>)
    ensures
        r@.len() == drain_all(old(buffer)@).0.len(),
        forall|i: int| 0 <= i < r@.len() ==> drain_result_is(#[trigger] r@[i], drain_all(old(buffer)@).0[i]),
        final(buffer)@ == drain_all(old(buffer)@).1,
{
    let ghost all = drain_all(buffer@);
    let mut out: Vec<DrainResult> = Vec::new();
    loop
        invariant
            out@.len() + drain_all(buffer@).0.len() == all.0.len(),
            forall|i: int| 0 <= i < out@.len() ==> drain_result_is(#[trigger] out@[i], all.0[i]),
            forall|i: int|
                0 <= i < drain_all(buffer@).0.len() ==> #[trigger] drain_all(buffer@).0[i] == all.0[out@.len() + i],
            drain_all(buffer@).1 == all.1,
            all == drain_all(old(buffer)@),
        decreases buffer@.len(),
    {
        let ghost before = buffer@;
        proof {
            lemma_drain_shrinks(before);
        }
        let r = drain_next_event(buffer);
        match r {
            DrainResult::Incomplete => {
                assert(drain_all(before).0.len() == 0);
                assert(buffer@ == drain_all(before).1);
                return out;
            },
            DrainResult::Done => {
                assert(drain_all(before).0 == seq![Drained::Done]);
                assert(buffer@ == drain_all(before).1);
                out.push(r);
                return out;
            },
            _ => {
                let ghost d = drain_spec(before).0;
                assert(drain_all(before).0 == seq![d] + drain_all(buffer@).0);
                assert(drain_all(before).0[0] == d);
                out.push(r);
                assert forall|i: int| 0 <= i < drain_all(buffer@).0.len() implies #[trigger] drain_all(
                    buffer@,
                ).0[i] == all.0[out@.len() + i] by {
                    assert(drain_all(before).0[i + 1] == drain_all(buffer@).0[i]);
                }
            },
        }
    }
}

} // verus!
