//! Line framing of a streamed body: complete lines are taken off the front of
//! a buffer, trimmed, and what follows the last newline waits for more data.
use vstd::prelude::*;

use crate::text::{chars_to_string, is_ws, lacks, str_to_chars, char_is_ws};

verus! {

/// `s[a..b]` is `s` without its leading and trailing whitespace.
pub open spec fn trim_bounds(s: Seq<char>, a: int, b: int) -> bool {
    &&& 0 <= a <= b <= s.len()
    &&& forall|i: int| 0 <= i < a ==> is_ws(#[trigger] s[i])
    &&& forall|i: int| b <= i < s.len() ==> is_ws(#[trigger] s[i])
    &&& a < b ==> !is_ws(s[a]) && !is_ws(s[b - 1])
}

/// `s` without leading and trailing whitespace (`str::trim`).
pub open spec fn trim_ws(s: Seq<char>) -> Seq<char> {
    let (a, b) = choose|a: int, b: int| trim_bounds(s, a, b);
    s.subrange(a, b)
}

proof fn lemma_trim_unique(s: Seq<char>, a: int, b: int)
    requires
        trim_bounds(s, a, b),
    ensures
        trim_ws(s) == s.subrange(a, b),
{
    let (a2, b2) = choose|a2: int, b2: int| trim_bounds(s, a2, b2);
    assert(trim_bounds(s, a2, b2));
    if a < b {
        assert(!is_ws(s[a]));
        assert(!is_ws(s[b - 1]));
        if a2 == b2 {
            if a < a2 {
                assert(is_ws(s[a]));
            } else {
                assert(is_ws(s[a]));
            }
        }
        assert(a2 < b2);
        if a2 < a {
            assert(is_ws(s[a2]));
        }
        if a < a2 {
            assert(is_ws(s[a]));
        }
        if b2 < b {
            assert(is_ws(s[b - 1]));
        }
        if b < b2 {
            assert(is_ws(s[b2 - 1]));
        }
        assert(a == a2 && b == b2);
    } else {
        if a2 < b2 {
            assert(!is_ws(s[a2]));
            if a2 < a {
                assert(is_ws(s[a2]));
            } else {
                assert(is_ws(s[a2]));
            }
        }
        assert(s.subrange(a, b) =~= s.subrange(a2, b2));
    }
}

/// `s` without leading and trailing whitespace.
pub fn trim_chars(s: &Vec<char>) -> (r: Vec<char>)
    ensures
        r@ == trim_ws(s@),
{
    let mut a: usize = 0;
    while a < s.len() && char_is_ws(s[a])
        invariant
            a <= s@.len(),
            forall|i: int| 0 <= i < a ==> is_ws(#[trigger] s@[i]),
        decreases s.len() - a,
    {
        a = a + 1;
    }
    let mut b: usize = s.len();
    while b > a && char_is_ws(s[b - 1])
        invariant
            a <= b <= s@.len(),
            forall|i: int| b <= i < s@.len() ==> is_ws(#[trigger] s@[i]),
        decreases b,
    {
        b = b - 1;
    }
    let mut out: Vec<char> = Vec::new();
    let mut i: usize = a;
    while i < b
        invariant
            a <= i <= b <= s@.len(),
            out@ == s@.subrange(a as int, i as int),
        decreases b - i,
    {
        out.push(s[i]);
        assert(s@.subrange(a as int, i as int).push(s@[i as int]) =~= s@.subrange(
            a as int,
            i + 1,
        ));
        i = i + 1;
    }
    proof {
        assert(trim_bounds(s@, a as int, b as int));
        lemma_trim_unique(s@, a as int, b as int);
    }
    out
}

/// `k` is where the first newline of `s` stands.
pub open spec fn first_newline(s: Seq<char>, k: int) -> bool {
    0 <= k < s.len() && s[k] == '\n' && lacks(s.take(k), '\n')
}

/// Takes the first complete line off the buffer: the text before the first
/// newline, trimmed.  The buffer keeps what follows that newline.  Without a
/// newline, nothing is taken.
pub fn next_line(buffer: &mut String) -> (r: Option<String>)
    ensures
        match r {
            None => lacks(old(buffer)@, '\n') && final(buffer)@ == old(buffer)@,
            Some(line) => exists|k: int|
                #[trigger] first_newline(old(buffer)@, k) && line@ == trim_ws(old(buffer)@.take(k))
                    && final(buffer)@ == old(buffer)@.skip(k + 1),
        },
{
    let v = str_to_chars(buffer.as_str());
    let mut k: usize = 0;
    while k < v.len() && v[k] != '\n'
        invariant
            k <= v@.len(),
            lacks(v@.take(k as int), '\n'),
        decreases v.len() - k,
    {
        assert(v@.take(k + 1) =~= v@.take(k as int).push(v@[k as int]));
        k = k + 1;
    }
    if k == v.len() {
        assert(v@.take(k as int) =~= v@);
        return None;
    }
    let mut head: Vec<char> = Vec::new();
    let mut i: usize = 0;
    while i < k
        invariant
            i <= k < v@.len(),
            head@ == v@.take(i as int),
        decreases k - i,
    {
        head.push(v[i]);
        assert(v@.take(i as int).push(v@[i as int]) =~= v@.take(i + 1));
        i = i + 1;
    }
    let mut tail: Vec<char> = Vec::new();
    let mut j: usize = k + 1;
    while j < v.len()
        invariant
            k + 1 <= j <= v@.len(),
            tail@ == v@.subrange(k + 1, j as int),
        decreases v.len() - j,
    {
        tail.push(v[j]);
        assert(v@.subrange(k + 1, j as int).push(v@[j as int]) =~= v@.subrange(k + 1, j + 1));
        j = j + 1;
    }
    let line = trim_chars(&head);
    *buffer = chars_to_string(&tail);
    assert(v@.subrange(k + 1, v@.len() as int) =~= v@.skip(k + 1));
    assert(first_newline(v@, k as int));
    Some(chars_to_string(&line))
}

} // verus!
