//! Character-level text model shared by the editing and parsing modules.
//!
//! Text is held as `Vec<char>` (viewed as `Seq<char>`), while positions that
//! the renderer and the protocol code see are UTF-8 byte offsets, as `String`
//! indices are.  This module relates the two.
use vstd::prelude::*;

verus! {

/// Number of bytes of the UTF-8 encoding of `c` (what `char::len_utf8` returns).
pub open spec fn utf8_width(c: char) -> nat {
    if (c as u32) < 0x80 {
        1
    } else if (c as u32) < 0x800 {
        2
    } else if (c as u32) < 0x10000 {
        3
    } else {
        4
    }
}

/// Number of bytes of the UTF-8 encoding of `s` (what `str::len` returns).
pub open spec fn byte_len(s: Seq<char>) -> nat
    decreases s.len(),
{
    if s.len() == 0 {
        0
    } else {
        byte_len(s.drop_last()) + utf8_width(s.last())
    }
}

/// `b` is a byte offset of `s` that falls between two characters.
pub open spec fn is_char_boundary(s: Seq<char>, b: int) -> bool {
    exists|k: int| 0 <= k <= s.len() && #[trigger] byte_len(s.take(k)) == b
}

/// The character index that sits at byte offset `b` of `s` (meaningful when
/// `is_char_boundary(s, b)`).
pub open spec fn char_index(s: Seq<char>, b: int) -> int {
    choose|k: int| 0 <= k <= s.len() && #[trigger] byte_len(s.take(k)) == b
}

/// Unicode `White_Space` property, as `char::is_whitespace` documents it.
pub open spec fn is_ws(c: char) -> bool {
    let v = c as u32;
    (0x9 <= v && v <= 0xd) || v == 0x20 || v == 0x85 || v == 0xa0 || v == 0x1680 || (0x2000 <= v
        && v <= 0x200a) || v == 0x2028 || v == 0x2029 || v == 0x202f || v == 0x205f || v == 0x3000
}

/// Every character of `s` is whitespace (so `s.trim()` is empty).
pub open spec fn all_ws(s: Seq<char>) -> bool {
    forall|i: int| 0 <= i < s.len() ==> is_ws(#[trigger] s[i])
}

/// `s` holds no occurrence of `c`.
pub open spec fn lacks(s: Seq<char>, c: char) -> bool {
    forall|i: int| 0 <= i < s.len() ==> #[trigger] s[i] != c
}

/// The pieces of `s` between occurrences of `sep` (what `str::split(sep)` yields);
/// there is always at least one piece.
pub open spec fn split_on(s: Seq<char>, sep: char) -> Seq<Seq<char>>
    decreases s.len(),
{
    if s.len() == 0 {
        seq![Seq::<char>::empty()]
    } else {
        let p = split_on(s.drop_last(), sep);
        if s.last() == sep {
            p.push(Seq::<char>::empty())
        } else {
            p.update(p.len() - 1, p.last().push(s.last()))
        }
    }
}

/// The whitespace-separated words of `s` (what `str::split_whitespace` yields).
pub open spec fn words(s: Seq<char>) -> Seq<Seq<char>>
    decreases s.len(),
{
    if s.len() == 0 {
        Seq::<Seq<char>>::empty()
    } else {
        let w = words(s.drop_last());
        let c = s.last();
        if is_ws(c) {
            w
        } else if s.len() > 1 && !is_ws(s.drop_last().last()) {
            w.update(w.len() - 1, w.last().push(c))
        } else {
            w.push(seq![c])
        }
    }
}

/// `s` without its leading run of `c` (what `str::trim_start_matches(c)` yields).
pub open spec fn trim_start_char(s: Seq<char>, c: char) -> Seq<char>
    decreases s.len(),
{
    if s.len() > 0 && s[0] == c {
        trim_start_char(s.drop_first(), c)
    } else {
        s
    }
}

/// `s` without one trailing `c`, if it ends with one.
pub open spec fn strip_last(s: Seq<char>, c: char) -> Seq<char> {
    if s.len() > 0 && s.last() == c {
        s.drop_last()
    } else {
        s
    }
}

/// The lines of `s` as `str::lines` yields them: pieces between `'\n'`, a
/// `'\r'` right before a `'\n'` dropped, and no empty piece after a final `'\n'`.
pub open spec fn lines_of(s: Seq<char>) -> Seq<Seq<char>> {
    let p = split_on(s, '\n');
    let kept = if p.last().len() == 0 {
        p.drop_last()
    } else {
        p
    };
    Seq::new(
        kept.len(),
        |i: int|
            if i < p.len() - 1 {
                strip_last(kept[i], '\r')
            } else {
                kept[i]
            },
    )
}

/// The lines of `ls` joined with `sep` between them (what `[..].join(sep)` yields).
pub open spec fn join_with(ls: Seq<Seq<char>>, sep: char) -> Seq<char>
    decreases ls.len(),
{
    if ls.len() == 0 {
        Seq::<char>::empty()
    } else if ls.len() == 1 {
        ls[0]
    } else {
        join_with(ls.drop_last(), sep).push(sep) + ls.last()
    }
}

/// Number of characters of `s` before the first `c` (all of `s` if none).
pub open spec fn count_before(s: Seq<char>, c: char) -> nat
    decreases s.len(),
{
    if s.len() == 0 {
        0
    } else if s[0] == c {
        0
    } else {
        1 + count_before(s.drop_first(), c)
    }
}

/// The character sequences held by a vector of character vectors.
pub open spec fn seq_view(v: Seq<Vec<char>>) -> Seq<Seq<char>> {
    Seq::new(v.len(), |i: int| v[i]@)
}

/// Bytes of all lines, counting one terminator byte per line.
pub open spec fn total_bytes(ls: Seq<Seq<char>>) -> nat
    decreases ls.len(),
{
    if ls.len() == 0 {
        0
    } else {
        total_bytes(ls.drop_last()) + byte_len(ls.last()) + 1
    }
}

// ---------------------------------------------------------------------------
// Lemmas
// ---------------------------------------------------------------------------

pub proof fn lemma_byte_len_append(a: Seq<char>, b: Seq<char>)
    ensures
        byte_len(a + b) == byte_len(a) + byte_len(b),
    decreases b.len(),
{
    if b.len() == 0 {
        assert(a + b =~= a);
    } else {
        lemma_byte_len_append(a, b.drop_last());
        assert((a + b).drop_last() =~= a + b.drop_last());
    }
}

pub proof fn lemma_byte_len_ge_len(s: Seq<char>)
    ensures
        s.len() <= byte_len(s) <= 4 * s.len(),
    decreases s.len(),
{
    if s.len() > 0 {
        lemma_byte_len_ge_len(s.drop_last());
    }
}

pub proof fn lemma_byte_len_push(s: Seq<char>, c: char)
    ensures
        byte_len(s.push(c)) == byte_len(s) + utf8_width(c),
{
    assert(s.push(c).drop_last() =~= s);
}

/// Each further character adds at least one byte.
pub proof fn lemma_byte_len_take_grows(s: Seq<char>, i: int, j: int)
    requires
        0 <= i <= j <= s.len(),
    ensures
        byte_len(s.take(i)) + (j - i) <= byte_len(s.take(j)),
        byte_len(s.take(j)) <= byte_len(s),
{
    assert(s.take(j) =~= s.take(i) + s.subrange(i, j));
    lemma_byte_len_append(s.take(i), s.subrange(i, j));
    lemma_byte_len_ge_len(s.subrange(i, j));
    assert(s =~= s.take(j) + s.skip(j));
    lemma_byte_len_append(s.take(j), s.skip(j));
}

/// A boundary names exactly one character index.
pub proof fn lemma_char_index_unique(s: Seq<char>, k: int)
    requires
        0 <= k <= s.len(),
    ensures
        is_char_boundary(s, byte_len(s.take(k)) as int),
        char_index(s, byte_len(s.take(k)) as int) == k,
{
    let b = byte_len(s.take(k)) as int;
    assert(byte_len(s.take(k)) == b);
    let j = char_index(s, b);
    if j < k {
        lemma_byte_len_take_grows(s, j, k);
    } else if j > k {
        lemma_byte_len_take_grows(s, k, j);
    }
}

pub proof fn lemma_take_full(s: Seq<char>)
    ensures
        s.take(s.len() as int) =~= s,
{
}

pub proof fn lemma_split_on_nonempty(s: Seq<char>, sep: char)
    ensures
        split_on(s, sep).len() >= 1,
        forall|i: int|
            0 <= i < split_on(s, sep).len() ==> lacks(#[trigger] split_on(s, sep)[i], sep),
    decreases s.len(),
{
    if s.len() > 0 {
        lemma_split_on_nonempty(s.drop_last(), sep);
        let p = split_on(s.drop_last(), sep);
        if s.last() != sep {
            assert forall|i: int| 0 <= i < split_on(s, sep).len() implies lacks(
                #[trigger] split_on(s, sep)[i],
                sep,
            ) by {
                if i == p.len() - 1 {
                    assert(lacks(p[i], sep));
                    assert(split_on(s, sep)[i] =~= p[i].push(s.last()));
                } else {
                    assert(lacks(p[i], sep));
                }
            }
        } else {
            assert forall|i: int| 0 <= i < split_on(s, sep).len() implies lacks(
                #[trigger] split_on(s, sep)[i],
                sep,
            ) by {
                if i < p.len() {
                    assert(lacks(p[i], sep));
                }
            }
        }
    }
}

pub proof fn lemma_total_bytes_append(a: Seq<Seq<char>>, b: Seq<Seq<char>>)
    ensures
        total_bytes(a + b) == total_bytes(a) + total_bytes(b),
    decreases b.len(),
{
    if b.len() == 0 {
        assert(a + b =~= a);
    } else {
        lemma_total_bytes_append(a, b.drop_last());
        assert((a + b).drop_last() =~= a + b.drop_last());
    }
}

pub proof fn lemma_total_bytes_single(x: Seq<char>)
    ensures
        total_bytes(seq![x]) == byte_len(x) + 1,
{
    assert(seq![x].drop_last() =~= Seq::<Seq<char>>::empty());
    assert(total_bytes(Seq::<Seq<char>>::empty()) == 0);
    assert(seq![x].last() == x);
}

/// Replacing the lines `take(i)..skip(j)` by `mid` changes the total accordingly.
pub proof fn lemma_total_bytes_splice(ls: Seq<Seq<char>>, i: int, j: int, mid: Seq<Seq<char>>)
    requires
        0 <= i <= j <= ls.len(),
    ensures
        total_bytes(ls.take(i) + mid + ls.skip(j)) + total_bytes(ls.subrange(i, j)) == total_bytes(
            ls,
        ) + total_bytes(mid),
{
    assert(ls =~= ls.take(i) + ls.subrange(i, j) + ls.skip(j));
    lemma_total_bytes_append(ls.take(i), ls.subrange(i, j));
    lemma_total_bytes_append(ls.take(i) + ls.subrange(i, j), ls.skip(j));
    lemma_total_bytes_append(ls.take(i), mid);
    lemma_total_bytes_append(ls.take(i) + mid, ls.skip(j));
}

/// Every line counts at least its terminator.
pub proof fn lemma_total_bytes_ge_len(ls: Seq<Seq<char>>)
    ensures
        ls.len() <= total_bytes(ls),
    decreases ls.len(),
{
    if ls.len() > 0 {
        lemma_total_bytes_ge_len(ls.drop_last());
    }
}

/// A single line never holds more bytes than the total.
pub proof fn lemma_total_bytes_line(ls: Seq<Seq<char>>, i: int)
    requires
        0 <= i < ls.len(),
    ensures
        byte_len(ls[i]) + 1 <= total_bytes(ls),
{
    lemma_total_bytes_splice(ls, i, i + 1, Seq::<Seq<char>>::empty());
    assert(ls.subrange(i, i + 1) =~= seq![ls[i]]);
    lemma_total_bytes_single(ls[i]);
}

/// Splitting on a separator turns each separator byte into a line terminator.
pub proof fn lemma_total_bytes_split(s: Seq<char>, sep: char)
    requires
        utf8_width(sep) == 1,
    ensures
        total_bytes(split_on(s, sep)) == byte_len(s) + 1,
    decreases s.len(),
{
    if s.len() == 0 {
        lemma_total_bytes_single(Seq::<char>::empty());
    } else {
        let p = split_on(s.drop_last(), sep);
        lemma_total_bytes_split(s.drop_last(), sep);
        lemma_split_on_nonempty(s.drop_last(), sep);
        if s.last() == sep {
            assert(p.push(Seq::<char>::empty()) =~= p + seq![Seq::<char>::empty()]);
            lemma_total_bytes_append(p, seq![Seq::<char>::empty()]);
            lemma_total_bytes_single(Seq::<char>::empty());
        } else {
            let n = p.len() - 1;
            lemma_total_bytes_splice(p, n, n + 1, seq![p.last().push(s.last())]);
            assert(p.take(n) + seq![p.last().push(s.last())] + p.skip(n + 1) =~= p.update(
                n,
                p.last().push(s.last()),
            ));
            assert(p.subrange(n, n + 1) =~= seq![p.last()]);
            lemma_total_bytes_single(p.last());
            lemma_total_bytes_single(p.last().push(s.last()));
            lemma_byte_len_push(p.last(), s.last());
        }
        lemma_byte_len_push(s.drop_last(), s.last());
        assert(s.drop_last().push(s.last()) =~= s);
    }
}

/// Joining lines with a one-byte separator takes one byte less than the total.
pub proof fn lemma_join_bytes(ls: Seq<Seq<char>>, sep: char)
    requires
        ls.len() >= 1,
        utf8_width(sep) == 1,
    ensures
        byte_len(join_with(ls, sep)) + 1 == total_bytes(ls),
    decreases ls.len(),
{
    if ls.len() == 1 {
        lemma_total_bytes_single(ls[0]);
        assert(ls =~= seq![ls[0]]);
    } else {
        lemma_join_bytes(ls.drop_last(), sep);
        let j = join_with(ls.drop_last(), sep);
        lemma_byte_len_push(j, sep);
        lemma_byte_len_append(j.push(sep), ls.last());
    }
}

/// Dropping characters never adds bytes.
pub proof fn lemma_strip_last_bytes(s: Seq<char>, c: char)
    ensures
        byte_len(strip_last(s, c)) <= byte_len(s),
        strip_last(s, c).len() <= s.len(),
        forall|i: int| 0 <= i < strip_last(s, c).len() ==> strip_last(s, c)[i] == s[i],
{
    if s.len() > 0 && s.last() == c {
        lemma_byte_len_push(s.drop_last(), c);
        assert(s.drop_last().push(c) =~= s);
    }
}

/// Lines whose sizes are pointwise no larger take no more bytes in total.
pub proof fn lemma_total_bytes_pointwise(a: Seq<Seq<char>>, b: Seq<Seq<char>>)
    requires
        a.len() == b.len(),
        forall|i: int| 0 <= i < a.len() ==> byte_len(#[trigger] a[i]) <= byte_len(b[i]),
    ensures
        total_bytes(a) <= total_bytes(b),
    decreases a.len(),
{
    if a.len() > 0 {
        assert forall|i: int| 0 <= i < a.drop_last().len() implies byte_len(
            #[trigger] a.drop_last()[i],
        ) <= byte_len(b.drop_last()[i]) by {
            assert(byte_len(a[i]) <= byte_len(b[i]));
        }
        lemma_total_bytes_pointwise(a.drop_last(), b.drop_last());
        assert(byte_len(a[a.len() - 1]) <= byte_len(b[b.len() - 1]));
    }
}

/// The lines of a text are free of newlines and fit in one byte more than the text.
pub proof fn lemma_lines_of(s: Seq<char>)
    ensures
        total_bytes(lines_of(s)) <= byte_len(s) + 1,
        forall|i: int| 0 <= i < lines_of(s).len() ==> lacks(#[trigger] lines_of(s)[i], '\n'),
{
    let p = split_on(s, '\n');
    lemma_split_on_nonempty(s, '\n');
    lemma_total_bytes_split(s, '\n');
    let kept = if p.last().len() == 0 {
        p.drop_last()
    } else {
        p
    };
    let l = lines_of(s);
    assert(kept.len() == l.len());
    assert forall|i: int| 0 <= i < l.len() implies byte_len(#[trigger] l[i]) <= byte_len(
        kept[i],
    ) && lacks(l[i], '\n') by {
        lemma_strip_last_bytes(kept[i], '\r');
        assert(lacks(p[i], '\n'));
        assert(kept[i] == p[i]);
    }
    lemma_total_bytes_pointwise(l, kept);
    if p.last().len() == 0 {
        assert(p =~= p.drop_last() + seq![p.last()]);
        lemma_total_bytes_append(p.drop_last(), seq![p.last()]);
        lemma_total_bytes_single(p.last());
    }
}

// ---------------------------------------------------------------------------
// Executable helpers
// ---------------------------------------------------------------------------

/// Appends one character (`String::push`).
#[verifier::external_body]
fn string_push(s: &mut String, c: char)
    ensures
        final(s)@ == old(s)@.push(c),
{
    s.push(c);
}

/// The characters of `v` as a `String`.
pub fn chars_to_string(v: &Vec<char>) -> (r: String)
    ensures
        r@ == v@,
{
    let mut s = String::new();
    let mut i: usize = 0;
    while i < v.len()
        invariant
            i <= v.len(),
            s@ == v@.take(i as int),
        decreases v.len() - i,
    {
        string_push(&mut s, v[i]);
        assert(v@.take(i as int).push(v@[i as int]) =~= v@.take((i + 1) as int));
        i = i + 1;
    }
    assert(v@.take(v.len() as int) =~= v@);
    s
}

/// The characters of `s`.
pub fn str_to_chars(s: &str) -> (r: Vec<char>)
    ensures
        r@ == s@,
{
    let mut v: Vec<char> = Vec::new();
    for c in it: s.chars()
        invariant
            v@ == it.seq().take(it.index() as int),
    {
        v.push(c);
    }
    v
}

/// `char::len_utf8`.
pub fn char_utf8_width(c: char) -> (w: usize)
    ensures
        w as nat == utf8_width(c),
        1 <= w <= 4,
{
    let v = c as u32;
    if v < 0x80 {
        1
    } else if v < 0x800 {
        2
    } else if v < 0x10000 {
        3
    } else {
        4
    }
}

/// `char::is_whitespace`.
pub fn char_is_ws(c: char) -> (r: bool)
    ensures
        r == is_ws(c),
{
    let v = c as u32;
    (0x9 <= v && v <= 0xd) || v == 0x20 || v == 0x85 || v == 0xa0 || v == 0x1680 || (0x2000 <= v
        && v <= 0x200a) || v == 0x2028 || v == 0x2029 || v == 0x202f || v == 0x205f || v == 0x3000
}

/// Number of UTF-8 bytes of `s`.
pub fn byte_len_of(s: &Vec<char>) -> (n: usize)
    requires
        byte_len(s@) <= usize::MAX,
    ensures
        n == byte_len(s@),
{
    let mut n: usize = 0;
    let mut i: usize = 0;
    while i < s.len()
        invariant
            i <= s.len(),
            n == byte_len(s@.take(i as int)),
            byte_len(s@) <= usize::MAX,
        decreases s.len() - i,
    {
        proof {
            lemma_byte_len_take_grows(s@, (i + 1) as int, s.len() as int);
            assert(s@.take(i + 1).drop_last() =~= s@.take(i as int));
        }
        n = n + char_utf8_width(s[i]);
        i = i + 1;
    }
    assert(s@.take(s.len() as int) =~= s@);
    n
}

/// The character index at byte offset `b`, or `None` when `b` is not a
/// character boundary of `s`.
pub fn char_index_of_byte(s: &Vec<char>, b: usize) -> (r: Option<usize>)
    ensures
        match r {
            Some(k) => k <= s.len() && byte_len(s@.take(k as int)) == b && char_index(s@, b as int)
                == k && is_char_boundary(s@, b as int),
            None => !is_char_boundary(s@, b as int),
        },
{
    let mut k: usize = 0;
    let mut acc: usize = 0;
    while acc < b && k < s.len()
        invariant
            k <= s.len(),
            acc <= b,
            acc == byte_len(s@.take(k as int)),
        decreases s.len() - k,
    {
        let w = char_utf8_width(s[k]);
        assert(s@.take(k + 1).drop_last() =~= s@.take(k as int));
        if w > b - acc {
            proof {
                assert forall|j: int| 0 <= j <= s.len() implies #[trigger] byte_len(s@.take(j))
                    != b by {
                    if j <= k {
                        lemma_byte_len_take_grows(s@, j, k as int);
                    } else {
                        lemma_byte_len_take_grows(s@, (k + 1) as int, j);
                    }
                }
            }
            return None;
        }
        acc = acc + w;
        k = k + 1;
    }
    if acc == b {
        proof {
            lemma_char_index_unique(s@, k as int);
        }
        Some(k)
    } else {
        proof {
            assert(k == s.len());
            assert forall|j: int| 0 <= j <= s.len() implies #[trigger] byte_len(s@.take(j)) != b by {
                lemma_byte_len_take_grows(s@, j, k as int);
            }
        }
        None
    }
}

/// Splits `s` on `sep` (`str::split`).
pub fn split_chars(s: &Vec<char>, sep: char) -> (r: Vec<Vec<char>>)
    ensures
        r@.len() == split_on(s@, sep).len(),
        forall|i: int| 0 <= i < r@.len() ==> (#[trigger] r@[i])@ == split_on(s@, sep)[i],
{
    let mut out: Vec<Vec<char>> = Vec::new();
    let mut cur: Vec<char> = Vec::new();
    let mut i: usize = 0;
    while i < s.len()
        invariant
            i <= s.len(),
            out@.len() + 1 == split_on(s@.take(i as int), sep).len(),
            forall|j: int|
                0 <= j < out@.len() ==> (#[trigger] out@[j])@ == split_on(s@.take(i as int), sep)[j],
            cur@ == split_on(s@.take(i as int), sep).last(),
        decreases s.len() - i,
    {
        assert(s@.take(i + 1).drop_last() =~= s@.take(i as int));
        let c = s[i];
        if c == sep {
            out.push(cur);
            cur = Vec::new();
        } else {
            cur.push(c);
        }
        i = i + 1;
    }
    assert(s@.take(s.len() as int) =~= s@);
    out.push(cur);
    out
}

/// Splits `s` into whitespace-separated words (`str::split_whitespace`).
pub fn split_words(s: &Vec<char>) -> (r: Vec<Vec<char>>)
    ensures
        r@.len() == words(s@).len(),
        forall|i: int| 0 <= i < r@.len() ==> (#[trigger] r@[i])@ == words(s@)[i],
{
    let mut out: Vec<Vec<char>> = Vec::new();
    let mut in_word = false;
    let mut i: usize = 0;
    while i < s.len()
        invariant
            i <= s.len(),
            out@.len() == words(s@.take(i as int)).len(),
            forall|j: int|
                0 <= j < out@.len() ==> (#[trigger] out@[j])@ == words(s@.take(i as int))[j],
            in_word == (i > 0 && !is_ws(s@[i - 1])),
            in_word ==> out@.len() > 0,
        decreases s.len() - i,
    {
        let ghost t = s@.take(i + 1);
        assert(t.drop_last() =~= s@.take(i as int));
        let c = s[i];
        if char_is_ws(c) {
            in_word = false;
        } else if in_word {
            let last = out.len() - 1;
            let mut w = out.remove(last);
            w.push(c);
            out.push(w);
            proof {
                assert(t.drop_last().last() == s@[i - 1]);
            }
        } else {
            let mut w: Vec<char> = Vec::new();
            w.push(c);
            assert(w@ =~= seq![c]);
            out.push(w);
            in_word = true;
        }
        i = i + 1;
        proof {
            assert(s@[i - 1] == c);
            assert forall|j: int| 0 <= j < out@.len() implies (#[trigger] out@[j])@ == words(
                s@.take(i as int),
            )[j] by {}
        }
    }
    assert(s@.take(s.len() as int) =~= s@);
    r_identity(out)
}

fn r_identity(v: Vec<Vec<char>>) -> (r: Vec<Vec<char>>)
    ensures
        r@ == v@,
{
    v
}

/// `s` without its leading run of `c` (`str::trim_start_matches`).
pub fn trim_start(s: &Vec<char>, c: char) -> (r: Vec<char>)
    ensures
        r@ == trim_start_char(s@, c),
{
    let mut i: usize = 0;
    assert(s@.skip(0) =~= s@);
    while i < s.len() && s[i] == c
        invariant
            i <= s.len(),
            trim_start_char(s@, c) == trim_start_char(s@.skip(i as int), c),
        decreases s.len() - i,
    {
        assert(s@.skip(i as int).drop_first() =~= s@.skip(i + 1));
        i = i + 1;
    }
    let mut out: Vec<char> = Vec::new();
    let mut j: usize = i;
    while j < s.len()
        invariant
            i <= j <= s.len(),
            out@ == s@.subrange(i as int, j as int),
        decreases s.len() - j,
    {
        out.push(s[j]);
        assert(s@.subrange(i as int, j as int).push(s@[j as int]) =~= s@.subrange(
            i as int,
            j + 1,
        ));
        j = j + 1;
    }
    assert(out@ =~= s@.skip(i as int));
    out
}

/// Whether every character of `s` is whitespace (`s.trim().is_empty()`).
pub fn is_blank(s: &Vec<char>) -> (r: bool)
    ensures
        r == all_ws(s@),
{
    let mut i: usize = 0;
    while i < s.len()
        invariant
            i <= s.len(),
            forall|j: int| 0 <= j < i ==> is_ws(#[trigger] s@[j]),
        decreases s.len() - i,
    {
        if !char_is_ws(s[i]) {
            return false;
        }
        i = i + 1;
    }
    true
}

/// The lines of `ls` joined with `sep` (`[..].join(sep)`).
pub fn join_chars(ls: &Vec<Vec<char>>, sep: char) -> (r: Vec<char>)
    ensures
        r@ == join_with(seq_view(ls@), sep),
{
    let ghost m = seq_view(ls@);
    let mut out: Vec<char> = Vec::new();
    let mut i: usize = 0;
    while i < ls.len()
        invariant
            i <= ls.len(),
            m == seq_view(ls@),
            out@ == join_with(m.take(i as int), sep),
        decreases ls.len() - i,
    {
        assert(m.take(i + 1).drop_last() =~= m.take(i as int));
        if i > 0 {
            out.push(sep);
        }
        let line = &ls[i];
        let mut j: usize = 0;
        let ghost base = out@;
        while j < line.len()
            invariant
                j <= line.len(),
                out@ == base + line@.take(j as int),
            decreases line.len() - j,
        {
            out.push(line[j]);
            assert(base + line@.take(j as int) + seq![line@[j as int]] =~= base + line@.take(
                j + 1,
            ));
            assert(out@ =~= base + line@.take(j + 1));
            j = j + 1;
        }
        assert(line@.take(line.len() as int) =~= line@);
        proof {
            if i == 0 {
                assert(m.take(1) =~= seq![m[0]]);
                assert(out@ =~= m[0]);
            } else {
                assert(m.take(i + 1).last() == m[i as int]);
            }
        }
        i = i + 1;
    }
    assert(m.take(ls.len() as int) =~= m);
    out
}


/// The lines of `s` as strings, as `str::lines` yields them.
pub fn split_lines(s: &str) -> (r: Vec<String>)
    ensures
        r@.len() == lines_of(s@).len(),
        forall|j: int| 0 <= j < r@.len() ==> (#[trigger] r@[j])@ == lines_of(s@)[j],
{
    let chars = str_to_chars(s);
    let ls = text_lines(&chars);
    let mut out: Vec<String> = Vec::new();
    let mut i: usize = 0;
    while i < ls.len()
        invariant
            i <= ls@.len(),
            out@.len() == i,
            ls@.len() == lines_of(s@).len(),
            forall|j: int| 0 <= j < ls@.len() ==> (#[trigger] ls@[j])@ == lines_of(s@)[j],
            forall|j: int| 0 <= j < i ==> (#[trigger] out@[j])@ == lines_of(s@)[j],
        decreases ls.len() - i,
    {
        out.push(chars_to_string(&ls[i]));
        i = i + 1;
    }
    out
}

/// Number of lines `str::lines` yields for `s`.
pub fn line_count(s: &str) -> (r: usize)
    ensures
        r == lines_of(s@).len(),
{
    let chars = str_to_chars(s);
    let parts = split_chars(&chars, '\n');
    proof {
        lemma_split_on_nonempty(s@, '\n');
    }
    let n = parts.len();
    if parts[n - 1].len() == 0 {
        n - 1
    } else {
        n
    }
}


/// `needle` occurs in `hay` starting at character `i`.
pub open spec fn occurs_at(hay: Seq<char>, needle: Seq<char>, i: int) -> bool {
    0 <= i && i + needle.len() <= hay.len() && hay.subrange(i, i + needle.len()) == needle
}

/// `needle` occurs somewhere in `hay` (what `str::contains` tests).
pub open spec fn contains_seq(hay: Seq<char>, needle: Seq<char>) -> bool {
    exists|i: int| #[trigger] occurs_at(hay, needle, i)
}

/// Whether `n` occurs in `h` at character `i`.
pub fn matches_at(h: &Vec<char>, n: &Vec<char>, i: usize) -> (r: bool)
    requires
        i + n@.len() <= h@.len(),
    ensures
        r == occurs_at(h@, n@, i as int),
{
    let hl = h.len();
    let mut j: usize = 0;
    while j < n.len()
        invariant
            j <= n@.len(),
            hl == h@.len(),
            i + n@.len() <= h@.len(),
            forall|k: int| 0 <= k < j ==> h@[i + k] == n@[k],
        decreases n.len() - j,
    {
        if h[i + j] != n[j] {
            assert(h@.subrange(i as int, i + n@.len())[j as int] != n@[j as int]);
            return false;
        }
        j = j + 1;
    }
    assert(h@.subrange(i as int, i + n@.len()) =~= n@);
    true
}

/// Whether `needle` occurs in `hay`.
pub fn contains_str(hay: &str, needle: &str) -> (r: bool)
    ensures
        r == contains_seq(hay@, needle@),
{
    let h = str_to_chars(hay);
    let n = str_to_chars(needle);
    if n.len() > h.len() {
        assert forall|i: int| !#[trigger] occurs_at(hay@, needle@, i) by {}
        return false;
    }
    let last = h.len() - n.len();
    let mut i: usize = 0;
    while i < last
        invariant
            i <= last,
            last + n@.len() == h@.len(),
            h@ == hay@,
            n@ == needle@,
            forall|k: int| 0 <= k < i ==> !#[trigger] occurs_at(hay@, needle@, k),
        decreases last - i,
    {
        if matches_at(&h, &n, i) {
            return true;
        }
        i = i + 1;
    }
    let r = matches_at(&h, &n, last);
    if !r {
        assert forall|k: int| !#[trigger] occurs_at(hay@, needle@, k) by {
            if 0 <= k && k < last as int {
                assert(!occurs_at(hay@, needle@, k));
            }
        }
    }
    r
}


/// Character `i` is the first place `needle` occurs in `hay`.
pub open spec fn first_occurrence(hay: Seq<char>, needle: Seq<char>, i: int) -> bool {
    occurs_at(hay, needle, i) && forall|k: int| 0 <= k < i ==> !#[trigger] occurs_at(hay, needle, k)
}

/// The first place `needle` occurs in `hay` (what `str::find` gives, counted
/// in characters), or `None`.
pub fn find_chars(h: &Vec<char>, n: &Vec<char>) -> (r: Option<usize>)
    ensures
        match r {
            Some(i) => first_occurrence(h@, n@, i as int),
            None => !contains_seq(h@, n@),
        },
{
    if n.len() > h.len() {
        assert forall|i: int| !#[trigger] occurs_at(h@, n@, i) by {}
        return None;
    }
    let last = h.len() - n.len();
    let mut i: usize = 0;
    while i <= last
        invariant
            last + n@.len() == h@.len(),
            i <= last + 1,
            forall|k: int| 0 <= k < i ==> !#[trigger] occurs_at(h@, n@, k),
        decreases last + 1 - i,
    {
        if matches_at(h, n, i) {
            return Some(i);
        }
        if i == last {
            assert forall|k: int| !#[trigger] occurs_at(h@, n@, k) by {
                if 0 <= k && k < i {
                    assert(!occurs_at(h@, n@, k));
                }
            }
            return None;
        }
        i = i + 1;
    }
    None
}


/// The digit character of `d < 10`.
pub open spec fn digit_char(d: nat) -> char {
    ((d + 48) as u32) as char
}

/// The decimal writing of `n` (what `to_string` gives for an unsigned integer).
pub open spec fn decimal(n: nat) -> Seq<char>
    decreases n,
{
    if n < 10 {
        seq![digit_char(n)]
    } else {
        decimal(n / 10).push(digit_char(n % 10))
    }
}

/// The decimal writing of a signed integer: a minus sign before negatives.
pub open spec fn signed_decimal(n: int) -> Seq<char> {
    if n < 0 {
        seq!['-'] + decimal((-n) as nat)
    } else {
        decimal(n as nat)
    }
}

fn digit(d: u64) -> (c: char)
    requires
        d < 10,
    ensures
        c == digit_char(d as nat),
{
    let b: u8 = (d as u8) + 48;
    let c = b as char;
    assert(c == ((d + 48) as u32) as char);
    c
}

fn decimal_chars(n: u64) -> (r: Vec<char>)
    ensures
        r@ == decimal(n as nat),
    decreases n,
{
    if n < 10 {
        let mut v: Vec<char> = Vec::new();
        v.push(digit(n));
        assert(v@ =~= seq![digit_char(n as nat)]);
        v
    } else {
        let mut v = decimal_chars(n / 10);
        v.push(digit(n % 10));
        v
    }
}

/// `n.to_string()` for an unsigned integer.
pub fn u64_to_string(n: u64) -> (r: String)
    ensures
        r@ == decimal(n as nat),
{
    chars_to_string(&decimal_chars(n))
}

/// `n.to_string()` for a signed integer.
pub fn i64_to_string(n: i64) -> (r: String)
    ensures
        r@ == signed_decimal(n as int),
{
    if n < 0 {
        let m: u64 = if n == i64::MIN {
            9223372036854775808u64
        } else {
            (-n) as u64
        };
        let mut v: Vec<char> = Vec::new();
        v.push('-');
        let mut d = decimal_chars(m);
        v.append(&mut d);
        assert(v@ =~= seq!['-'] + decimal((-(n as int)) as nat));
        chars_to_string(&v)
    } else {
        u64_to_string(n as u64)
    }
}


/// The lines of `text` (`str::lines`).
pub fn text_lines(text: &Vec<char>) -> (r: Vec<Vec<char>>)
    ensures
        r@.len() == lines_of(text@).len(),
        forall|j: int| 0 <= j < r@.len() ==> (#[trigger] r@[j])@ == lines_of(text@)[j],
{
    let pieces = split_chars(text, '\n');
    proof {
        lemma_split_on_nonempty(text@, '\n');
    }
    let n = pieces.len();
    let keep = if pieces[n - 1].len() == 0 {
        n - 1
    } else {
        n
    };
    let mut lines: Vec<Vec<char>> = Vec::new();
    let mut i: usize = 0;
    while i < keep
        invariant
            keep <= n,
            n == pieces@.len(),
            n == split_on(text@, '\n').len(),
            forall|j: int| 0 <= j < n ==> (#[trigger] pieces@[j])@ == split_on(text@, '\n')[j],
            keep == (if split_on(text@, '\n').last().len() == 0 {
                n - 1
            } else {
                n as int
            }),
            i <= keep,
            lines@.len() == i,
            forall|j: int| 0 <= j < i ==> (#[trigger] lines@[j])@ == lines_of(text@)[j],
        decreases keep - i,
    {
        let mut piece = pieces[i].clone();
        proof {
            assert(piece@ =~= pieces@[i as int]@);
        }
        if i + 1 < n && piece.len() > 0 && piece[piece.len() - 1] == '\r' {
            piece.pop();
        }
        proof {
            assert(piece@ =~= lines_of(text@)[i as int]);
        }
        lines.push(piece);
        i = i + 1;
    }
    lines
}

/// `a` comes no later than `b` in code point order (the order of their
/// UTF-8 bytes).
pub open spec fn lex_le(a: Seq<char>, b: Seq<char>) -> bool
    decreases a.len(),
{
    if a.len() == 0 {
        true
    } else if b.len() == 0 {
        false
    } else if a[0] != b[0] {
        (a[0] as int) < (b[0] as int)
    } else {
        lex_le(a.drop_first(), b.drop_first())
    }
}

/// Every two texts are ordered one way or the other.
pub proof fn lemma_lex_total(a: Seq<char>, b: Seq<char>)
    ensures
        lex_le(a, b) || lex_le(b, a),
    decreases a.len(),
{
    if a.len() > 0 && b.len() > 0 && a[0] == b[0] {
        lemma_lex_total(a.drop_first(), b.drop_first());
    }
}

pub proof fn lemma_lex_trans(a: Seq<char>, b: Seq<char>, c: Seq<char>)
    requires
        lex_le(a, b),
        lex_le(b, c),
    ensures
        lex_le(a, c),
    decreases a.len(),
{
    if a.len() > 0 && b.len() > 0 && c.len() > 0 && a[0] == b[0] && b[0] == c[0] {
        lemma_lex_trans(a.drop_first(), b.drop_first(), c.drop_first());
    }
}

/// Whether `a` comes no later than `b` in code point order.
pub fn chars_le(a: &Vec<char>, b: &Vec<char>) -> (r: bool)
    ensures
        r == lex_le(a@, b@),
{
    let mut i: usize = 0;
    assert(a@.skip(0) =~= a@);
    assert(b@.skip(0) =~= b@);
    while i < a.len() && i < b.len() && a[i] == b[i]
        invariant
            i <= a@.len(),
            i <= b@.len(),
            lex_le(a@, b@) == lex_le(a@.skip(i as int), b@.skip(i as int)),
        decreases a.len() - i,
    {
        assert(a@.skip(i as int).drop_first() =~= a@.skip(i + 1));
        assert(b@.skip(i as int).drop_first() =~= b@.skip(i + 1));
        i = i + 1;
    }
    if i == a.len() {
        assert(a@.skip(i as int).len() == 0);
        true
    } else if i == b.len() {
        assert(b@.skip(i as int).len() == 0);
        false
    } else {
        assert(a@.skip(i as int)[0] == a@[i as int]);
        assert(b@.skip(i as int)[0] == b@[i as int]);
        a[i] < b[i]
    }
}

/// The texts of a sequence of strings.
pub open spec fn strs(s: Seq<String>) -> Seq<Seq<char>> {
    Seq::new(s.len(), |i: int| s[i]@)
}

/// Sorted in code point order.
pub open spec fn sorted_lex(s: Seq<Seq<char>>) -> bool {
    forall|i: int, j: int| 0 <= i < j < s.len() ==> lex_le(#[trigger] s[i], #[trigger] s[j])
}

/// The strings sorted in code point order (what `sort` does to a vector of
/// strings).
pub fn sort_strings(v: &Vec<String>) -> (r: Vec<String>)
    ensures
        strs(r@).to_multiset() == strs(v@).to_multiset(),
        sorted_lex(strs(r@)),
{
    broadcast use vstd::seq_lib::group_to_multiset_ensures;

    let mut out: Vec<String> = Vec::new();
    let mut i: usize = 0;
    while i < v.len()
        invariant
            i <= v@.len(),
            strs(out@).to_multiset() == strs(v@.take(i as int)).to_multiset(),
            sorted_lex(strs(out@)),
        decreases v.len() - i,
    {
        let x = v[i].clone();
        assert(x@ == v@[i as int]@);
        let xc = str_to_chars(x.as_str());
        let mut j: usize = 0;
        while j < out.len()
            invariant
                j <= out@.len(),
                xc@ == x@,
                forall|k: int| 0 <= k < j ==> lex_le(strs(out@)[k], x@),
            ensures
                j <= out@.len(),
                forall|k: int| 0 <= k < j ==> lex_le(strs(out@)[k], x@),
                j < out@.len() ==> !lex_le(strs(out@)[j as int], x@),
            decreases out.len() - j,
        {
            let oc = str_to_chars(out[j].as_str());
            if !chars_le(&oc, &xc) {
                break;
            }
            j = j + 1;
        }
        let ghost before = strs(out@);
        proof {
            if j < out@.len() {
                lemma_lex_total(before[j as int], x@);
            }
        }
        out.insert(j, x);
        proof {
            let after = strs(out@);
            assert(after =~= before.insert(j as int, x@));
            vstd::seq_lib::to_multiset_insert(before, j as int, x@);
            assert(after.to_multiset() == before.to_multiset().insert(x@));
            assert(strs(v@.take(i + 1)) =~= strs(v@.take(i as int)).push(v@[i as int]@));
            vstd::seq_lib::to_multiset_build(strs(v@.take(i as int)), x@);
            assert forall|p: int, q: int| 0 <= p < q < after.len() implies lex_le(
                #[trigger] after[p],
                #[trigger] after[q],
            ) by {
                if q < j {
                    assert(lex_le(before[p], before[q]));
                } else if q == j {
                    assert(lex_le(before[p], x@));
                } else if p < j {
                    assert(lex_le(before[p], before[q - 1]));
                } else if p == j {
                    if q - 1 > j {
                        assert(lex_le(before[j as int], before[q - 1]));
                        lemma_lex_trans(x@, before[j as int], before[q - 1]);
                    }
                } else {
                    assert(lex_le(before[p - 1], before[q - 1]));
                }
            }
        }
        i = i + 1;
    }
    assert(v@.take(v@.len() as int) =~= v@);
    out
}

} // verus!
