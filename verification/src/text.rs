//! Character-level text operations with their specifications: trimming,
//! searching, ASCII case folding, splitting into words and lines, joining,
//! pattern replacement and decimal numbers.
use vstd::prelude::*;

verus! {

/// `String::push` appends one character to the end of the string.
pub assume_specification[ String::push ](s: &mut String, ch: char)
    ensures
        final(s)@ == old(s)@.push(ch),
;

// ---------------------------------------------------------------------------
// Conversions between strings and character vectors
// ---------------------------------------------------------------------------

/// The characters of `s`, in order.
pub fn chars_of(s: &str) -> (v: Vec<char>)
    ensures
        v@ == s@,
{
    let mut v: Vec<char> = Vec::new();
    for c in it: s.chars()
        invariant
            it.seq() == s@,
            v@ == it.seq().take(it.index() as int),
    {
        v.push(c);
    }
    v
}

/// The string made of the characters `v[from..to]`.
pub fn string_of_range(v: &Vec<char>, from: usize, to: usize) -> (s: String)
    requires
        from <= to <= v.len(),
    ensures
        s@ == v@.subrange(from as int, to as int),
{
    let mut s = String::new();
    let mut i = from;
    while i < to
        invariant
            from <= i <= to <= v.len(),
            s@ == v@.subrange(from as int, i as int),
        decreases to - i,
    {
        s.push(v[i]);
        i = i + 1;
    }
    s
}

/// The string made of all the characters of `v`.
pub fn string_of(v: &Vec<char>) -> (s: String)
    ensures
        s@ == v@,
{
    string_of_range(v, 0, v.len())
}

/// `a` followed by `b`, as a new string.
pub fn concat2(a: &str, b: &str) -> (s: String)
    ensures
        s@ == a@ + b@,
{
    let mut s = String::from_str(a);
    s.append(b);
    s
}

/// `a`, `b` and `c` one after the other, as a new string.
pub fn concat3(a: &str, b: &str, c: &str) -> (s: String)
    ensures
        s@ == a@ + b@ + c@,
{
    let mut s = String::from_str(a);
    s.append(b);
    s.append(c);
    s
}

/// A copy of `s`.
pub fn copy_str(s: &str) -> (r: String)
    ensures
        r@ == s@,
{
    String::from_str(s)
}

/// Whether two strings hold the same characters.
pub fn str_eq(a: &str, b: &str) -> (r: bool)
    ensures
        r == (a@ == b@),
{
    let va = chars_of(a);
    let vb = chars_of(b);
    if va.len() != vb.len() {
        return false;
    }
    let mut i: usize = 0;
    while i < va.len()
        invariant
            va@ == a@,
            vb@ == b@,
            va.len() == vb.len(),
            i <= va.len(),
            forall|k: int| 0 <= k < i ==> va@[k] == vb@[k],
        decreases va.len() - i,
    {
        if va[i] != vb[i] {
            return false;
        }
        i = i + 1;
    }
    assert(va@ =~= vb@);
    true
}

// ---------------------------------------------------------------------------
// Whitespace and trimming
// ---------------------------------------------------------------------------

/// Unicode `White_Space`, the property that `char::is_whitespace` tests.
pub open spec fn is_ws(c: char) -> bool {
    let u = c as u32;
    ||| (0x09 <= u && u <= 0x0d)
    ||| u == 0x20
    ||| u == 0x85
    ||| u == 0xa0
    ||| u == 0x1680
    ||| (0x2000 <= u && u <= 0x200a)
    ||| u == 0x2028
    ||| u == 0x2029
    ||| u == 0x202f
    ||| u == 0x205f
    ||| u == 0x3000
}

pub fn is_whitespace(c: char) -> (r: bool)
    ensures
        r == is_ws(c),
{
    let u = c as u32;
    (0x09 <= u && u <= 0x0d) || u == 0x20 || u == 0x85 || u == 0xa0 || u == 0x1680 || (0x2000
        <= u && u <= 0x200a) || u == 0x2028 || u == 0x2029 || u == 0x202f || u == 0x205f || u
        == 0x3000
}

/// `s` without its leading whitespace.
pub open spec fn trim_start(s: Seq<char>) -> Seq<char>
    decreases s.len(),
{
    if s.len() > 0 && is_ws(s[0]) {
        trim_start(s.drop_first())
    } else {
        s
    }
}

/// `s` without its trailing whitespace.
pub open spec fn trim_end(s: Seq<char>) -> Seq<char>
    decreases s.len(),
{
    if s.len() > 0 && is_ws(s.last()) {
        trim_end(s.drop_last())
    } else {
        s
    }
}

/// `s` without leading and trailing whitespace, as `str::trim` gives it.
pub open spec fn trim(s: Seq<char>) -> Seq<char> {
    trim_end(trim_start(s))
}

proof fn lemma_trim_start_at(s: Seq<char>, i: int)
    requires
        0 <= i <= s.len(),
        forall|k: int| 0 <= k < i ==> is_ws(s[k]),
        i == s.len() || !is_ws(s[i]),
    ensures
        trim_start(s) == s.subrange(i, s.len() as int),
    decreases i,
{
    if i == 0 {
        assert(s.subrange(0, s.len() as int) =~= s);
    } else {
        lemma_trim_start_at(s.drop_first(), i - 1);
        assert(s.drop_first().subrange(i - 1, s.len() - 1) =~= s.subrange(i, s.len() as int));
    }
}

proof fn lemma_trim_end_at(s: Seq<char>, j: int)
    requires
        0 <= j <= s.len(),
        forall|k: int| j <= k < s.len() ==> is_ws(s[k]),
        j == 0 || !is_ws(s[j - 1]),
    ensures
        trim_end(s) == s.subrange(0, j),
    decreases s.len() - j,
{
    if j == s.len() {
        assert(s.subrange(0, j) =~= s);
    } else {
        lemma_trim_end_at(s.drop_last(), j);
        assert(s.drop_last().subrange(0, j) =~= s.subrange(0, j));
    }
}

/// The bounds `(i, j)` of `trim(v)` inside `v`.
pub fn trim_bounds(v: &Vec<char>, from: usize, to: usize) -> (r: (usize, usize))
    requires
        from <= to <= v.len(),
    ensures
        from <= r.0 <= r.1 <= to,
        v@.subrange(r.0 as int, r.1 as int) == trim(v@.subrange(from as int, to as int)),
{
    let ghost s = v@.subrange(from as int, to as int);
    let mut i = from;
    while i < to && is_whitespace(v[i])
        invariant
            from <= i <= to <= v.len(),
            forall|k: int| from <= k < i ==> is_ws(v@[k]),
        decreases to - i,
    {
        i = i + 1;
    }
    proof {
        lemma_trim_start_at(s, i - from);
        assert(s.subrange(i - from, s.len() as int) =~= v@.subrange(i as int, to as int));
    }
    let mut j = to;
    while j > i && is_whitespace(v[j - 1])
        invariant
            from <= i <= j <= to <= v.len(),
            forall|k: int| j <= k < to ==> is_ws(v@[k]),
        decreases j - i,
    {
        j = j - 1;
    }
    proof {
        let t = v@.subrange(i as int, to as int);
        if j == i {
            assert forall|k: int| (j - i) <= k < t.len() implies is_ws(t[k]) by {
                assert(t[k] == v@[i + k]);
            }
        }
        lemma_trim_end_at(t, j - i);
        assert(t.subrange(0, j - i) =~= v@.subrange(i as int, j as int));
    }
    (i, j)
}

/// `s` with leading and trailing whitespace removed.
pub fn trim_str(s: &str) -> (r: String)
    ensures
        r@ == trim(s@),
{
    let v = chars_of(s);
    let (i, j) = trim_bounds(&v, 0, v.len());
    assert(v@.subrange(0, v@.len() as int) =~= v@);
    string_of_range(&v, i, j)
}

// ---------------------------------------------------------------------------
// Searching
// ---------------------------------------------------------------------------

/// `p` occurs in `s` starting at index `i`.
pub open spec fn occurs_at(s: Seq<char>, p: Seq<char>, i: int) -> bool {
    0 <= i && i + p.len() <= s.len() && s.subrange(i, i + p.len()) == p
}

/// `p` occurs somewhere in `s`, as `str::contains` tests.
pub open spec fn contains(s: Seq<char>, p: Seq<char>) -> bool {
    exists|i: int| occurs_at(s, p, i)
}

/// `s` begins with `p`.
pub open spec fn starts_with(s: Seq<char>, p: Seq<char>) -> bool {
    occurs_at(s, p, 0)
}

/// `s` ends with `p`.
pub open spec fn ends_with(s: Seq<char>, p: Seq<char>) -> bool {
    occurs_at(s, p, s.len() - p.len())
}

/// Whether `p` occurs in `s` at `i`, for a vector and a pattern vector.
fn matches_at(s: &Vec<char>, p: &Vec<char>, i: usize) -> (r: bool)
    requires
        i + p.len() <= s.len(),
    ensures
        r == occurs_at(s@, p@, i as int),
{
    let mut k: usize = 0;
    while k < p.len()
        invariant
            i + p.len() <= s.len(),
            k <= p.len(),
            forall|m: int| 0 <= m < k ==> s@[i + m] == p@[m],
        decreases p.len() - k,
    {
        if s[i + k] != p[k] {
            assert(s@.subrange(i as int, i + p.len())[k as int] != p@[k as int]);
            return false;
        }
        k = k + 1;
    }
    assert(s@.subrange(i as int, i + p.len()) =~= p@);
    true
}

/// Whether the vector `s` holds `p` somewhere.
pub fn vec_contains(s: &Vec<char>, p: &Vec<char>) -> (r: bool)
    ensures
        r == contains(s@, p@),
{
    if p.len() > s.len() {
        assert(!contains(s@, p@));
        return false;
    }
    if p.len() == 0 {
        assert(occurs_at(s@, p@, 0)) by {
            assert(s@.subrange(0, 0) =~= p@);
        }
        return true;
    }
    let last = s.len() - p.len();
    let mut i: usize = 0;
    while i <= last
        invariant
            last == s.len() - p.len(),
            0 < p.len() <= s.len(),
            i <= last + 1,
            forall|k: int| 0 <= k < i ==> !occurs_at(s@, p@, k),
        decreases last + 1 - i,
    {
        if matches_at(s, p, i) {
            return true;
        }
        i = i + 1;
    }
    assert forall|k: int| !occurs_at(s@, p@, k) by {
        if 0 <= k && k + p@.len() <= s@.len() {
            assert(k < i);
        }
    }
    false
}

/// Whether `p` occurs in `s`.
pub fn str_contains(s: &str, p: &str) -> (r: bool)
    ensures
        r == contains(s@, p@),
{
    let vs = chars_of(s);
    let vp = chars_of(p);
    vec_contains(&vs, &vp)
}

/// Whether `s` begins with `p`.
pub fn vec_starts_with(s: &Vec<char>, p: &str) -> (r: bool)
    ensures
        r == starts_with(s@, p@),
{
    let vp = chars_of(p);
    if vp.len() > s.len() {
        return false;
    }
    matches_at(s, &vp, 0)
}

// ---------------------------------------------------------------------------
// ASCII case folding
// ---------------------------------------------------------------------------

/// Whether `c` is an ASCII upper-case letter.
pub open spec fn is_ascii_upper(c: char) -> bool {
    'A' <= c && c <= 'Z'
}

/// The ASCII lower-case form of `c`; other characters are left alone.
pub open spec fn ascii_lower_char(c: char) -> char {
    if is_ascii_upper(c) {
        ((c as u32) + 32) as char
    } else {
        c
    }
}

/// `s` with every ASCII upper-case letter made lower-case, as
/// `str::to_ascii_lowercase` gives it.
pub open spec fn ascii_lower(s: Seq<char>) -> Seq<char> {
    s.map_values(|c: char| ascii_lower_char(c))
}

/// Lower-casing keeps the length, turns each of `A`-`Z` into the letter 32
/// code points later (`a`-`z`), and leaves every other character alone.
pub proof fn law_ascii_lower_letters(s: Seq<char>)
    ensures
        ascii_lower(s).len() == s.len(),
        forall|i: int|
            0 <= i < s.len() ==> if 'A' <= s[i] && s[i] <= 'Z' {
                (#[trigger] ascii_lower(s)[i]) as u32 == (s[i] as u32) + 32
            } else {
                ascii_lower(s)[i] == s[i]
            },
{
    assert forall|i: int| 0 <= i < s.len() && 'A' <= s[i] && s[i] <= 'Z' implies (
    #[trigger] ascii_lower(s)[i]) as u32 == (s[i] as u32) + 32 by {
        let c = s[i];
        assert(((c as u32) + 32) as char as u32 == (c as u32) + 32);
    }
}

pub fn to_ascii_lower_char(c: char) -> (r: char)
    ensures
        r == ascii_lower_char(c),
{
    if 'A' <= c && c <= 'Z' {
        let b: u8 = (c as u32) as u8;
        let l: u8 = b + 32;
        l as char
    } else {
        c
    }
}

/// The characters of `s` with ASCII upper-case letters made lower-case.
pub fn to_ascii_lowercase(s: &str) -> (r: Vec<char>)
    ensures
        r@ == ascii_lower(s@),
{
    let v = chars_of(s);
    let mut r: Vec<char> = Vec::new();
    let mut i: usize = 0;
    while i < v.len()
        invariant
            v@ == s@,
            i <= v.len(),
            r@ == ascii_lower(v@.take(i as int)),
        decreases v.len() - i,
    {
        let c = to_ascii_lower_char(v[i]);
        r.push(c);
        assert(ascii_lower(v@.take(i + 1)) =~= ascii_lower(v@.take(i as int)).push(
            ascii_lower_char(v@[i as int]),
        ));
        i = i + 1;
    }
    assert(v@.take(v.len() as int) =~= v@);
    r
}

// ---------------------------------------------------------------------------
// Words
// ---------------------------------------------------------------------------

/// The length of the longest prefix of `s` without whitespace.
pub open spec fn word_len(s: Seq<char>) -> nat
    decreases s.len(),
{
    if s.len() > 0 && !is_ws(s[0]) {
        1 + word_len(s.drop_first())
    } else {
        0
    }
}

/// The first whitespace-separated word of `s` and what follows it, as the
/// first step of `str::split_whitespace` gives them; `None` when `s` holds
/// only whitespace.
pub open spec fn next_word(s: Seq<char>) -> Option<(Seq<char>, Seq<char>)> {
    let t = trim_start(s);
    if t.len() == 0 {
        None
    } else {
        Some((t.take(word_len(t) as int), t.skip(word_len(t) as int)))
    }
}

proof fn lemma_word_len_at(s: Seq<char>, i: int)
    requires
        0 <= i <= s.len(),
        forall|k: int| 0 <= k < i ==> !is_ws(s[k]),
        i == s.len() || is_ws(s[i]),
    ensures
        word_len(s) == i,
    decreases i,
{
    if i > 0 {
        lemma_word_len_at(s.drop_first(), i - 1);
    }
}

/// A word without whitespace, followed by nothing or by whitespace, is the
/// first word of the text; what follows it is the rest. Whitespace before
/// the word is skipped.
pub proof fn lemma_next_word_of(pre: Seq<char>, w: Seq<char>, rest: Seq<char>)
    requires
        forall|k: int| 0 <= k < pre.len() ==> is_ws(#[trigger] pre[k]),
        w.len() > 0,
        forall|k: int| 0 <= k < w.len() ==> !is_ws(#[trigger] w[k]),
        rest.len() == 0 || is_ws(rest[0]),
    ensures
        next_word(pre + w + rest) == Some((w, rest)),
{
    let s = pre + w + rest;
    lemma_trim_start_at(s, pre.len() as int);
    let t = s.subrange(pre.len() as int, s.len() as int);
    assert(t =~= w + rest);
    assert forall|k: int| 0 <= k < w.len() implies !is_ws(t[k]) by {
        assert(t[k] == w[k]);
    }
    lemma_word_len_at(t, w.len() as int);
    assert(t.take(w.len() as int) =~= w);
    assert(t.skip(w.len() as int) =~= rest);
}

/// Finds the first word of `v[from..to]`: `None` when that range holds only
/// whitespace, else the bounds `(i, j)` of the word.
pub fn next_word_bounds(v: &Vec<char>, from: usize, to: usize) -> (r: Option<(usize, usize)>)
    requires
        from <= to <= v.len(),
    ensures
        match r {
            None => next_word(v@.subrange(from as int, to as int)) is None,
            Some((i, j)) => {
                &&& from <= i < j <= to
                &&& next_word(v@.subrange(from as int, to as int)) == Some(
                    (v@.subrange(i as int, j as int), v@.subrange(j as int, to as int)),
                )
            },
        },
{
    let ghost s = v@.subrange(from as int, to as int);
    let mut i = from;
    while i < to && is_whitespace(v[i])
        invariant
            from <= i <= to <= v.len(),
            forall|k: int| from <= k < i ==> is_ws(v@[k]),
        decreases to - i,
    {
        i = i + 1;
    }
    proof {
        lemma_trim_start_at(s, i - from);
        assert(s.subrange(i - from, s.len() as int) =~= v@.subrange(i as int, to as int));
    }
    if i == to {
        return None;
    }
    let mut j = i;
    while j < to && !is_whitespace(v[j])
        invariant
            from <= i <= j <= to <= v.len(),
            forall|k: int| i <= k < j ==> !is_ws(v@[k]),
        decreases to - j,
    {
        j = j + 1;
    }
    proof {
        let t = v@.subrange(i as int, to as int);
        lemma_word_len_at(t, j - i);
        assert(t.take(j - i) =~= v@.subrange(i as int, j as int));
        assert(t.skip(j - i) =~= v@.subrange(j as int, to as int));
    }
    Some((i, j))
}

// ---------------------------------------------------------------------------
// Lines
// ---------------------------------------------------------------------------

/// The index of the first `c` in `s` at or after `from`, or `s.len()`.
pub open spec fn char_index(s: Seq<char>, c: char, from: int) -> int
    decreases s.len() - from,
{
    if from >= s.len() || from < 0 {
        s.len() as int
    } else if s[from] == c {
        from
    } else {
        char_index(s, c, from + 1)
    }
}

proof fn lemma_char_index_at(s: Seq<char>, c: char, from: int, i: int)
    requires
        0 <= from <= i <= s.len(),
        forall|k: int| from <= k < i ==> s[k] != c,
        i == s.len() || s[i] == c,
    ensures
        char_index(s, c, from) == i,
    decreases i - from,
{
    if from < i {
        lemma_char_index_at(s, c, from + 1, i);
    }
}

/// The index in `v[from..to]` (counted from `from`) of the first `c`, or the
/// length of that range.
pub fn find_char(v: &Vec<char>, c: char, from: usize, to: usize) -> (r: usize)
    requires
        from <= to <= v.len(),
    ensures
        r <= to - from,
        r == char_index(v@.subrange(from as int, to as int), c, 0),
{
    let ghost s = v@.subrange(from as int, to as int);
    let mut i = from;
    while i < to && v[i] != c
        invariant
            from <= i <= to <= v.len(),
            forall|k: int| from <= k < i ==> v@[k] != c,
        decreases to - i,
    {
        i = i + 1;
    }
    proof {
        assert forall|k: int| 0 <= k < i - from implies s[k] != c by {
            assert(s[k] == v@[from + k]);
        }
        lemma_char_index_at(s, c, 0, i - from);
    }
    i - from
}

/// The index of the first `'\n'` in `s` at or after `from`, or `s.len()`.
pub open spec fn newline_from(s: Seq<char>, from: int) -> int
    decreases s.len() - from,
{
    if from >= s.len() || from < 0 {
        s.len() as int
    } else if s[from] == '\n' {
        from
    } else {
        newline_from(s, from + 1)
    }
}

/// `s` without one trailing `'\r'`.
pub open spec fn strip_cr(s: Seq<char>) -> Seq<char> {
    if s.len() > 0 && s.last() == '\r' {
        s.drop_last()
    } else {
        s
    }
}

/// The lines of `s`, as `str::lines` gives them: split at `'\n'`, with a
/// `'\r'` just before a `'\n'` removed, and no empty line after a final
/// line ending.
pub open spec fn lines(s: Seq<char>) -> Seq<Seq<char>>
    decreases s.len(),
{
    if s.len() == 0 {
        seq![]
    } else {
        let i = newline_from(s, 0);
        proof {
            lemma_newline_from_bounds(s, 0);
        }
        if i >= s.len() {
            seq![s]
        } else {
            seq![strip_cr(s.take(i))] + lines(s.skip(i + 1))
        }
    }
}

pub proof fn lemma_newline_from_bounds(s: Seq<char>, from: int)
    requires
        0 <= from <= s.len(),
    ensures
        from <= newline_from(s, from) <= s.len(),
        newline_from(s, from) < s.len() ==> s[newline_from(s, from)] == '\n',
        forall|k: int| from <= k < newline_from(s, from) ==> s[k] != '\n',
    decreases s.len() - from,
{
    if from < s.len() && s[from] != '\n' {
        lemma_newline_from_bounds(s, from + 1);
    }
}

proof fn lemma_newline_from_shift(s: Seq<char>, a: int, from: int)
    requires
        0 <= a <= from <= s.len(),
    ensures
        newline_from(s.skip(a), from - a) == newline_from(s, from) - a,
    decreases s.len() - from,
{
    if from < s.len() && s[from] != '\n' {
        lemma_newline_from_shift(s, a, from + 1);
    }
}

/// Splits `text` into its lines.
pub fn split_lines(text: &str) -> (r: Vec<String>)
    ensures
        r@.map_values(|l: String| l@) == lines(text@),
{
    let v = chars_of(text);
    let mut out: Vec<String> = Vec::new();
    let mut start: usize = 0;
    assert(v@.skip(0) =~= v@);
    assert(out@.map_values(|l: String| l@) + lines(v@) =~= lines(v@));
    while start < v.len()
        invariant
            v@ == text@,
            start <= v.len(),
            out@.map_values(|l: String| l@) + lines(v@.skip(start as int)) == lines(v@),
        decreases v.len() - start,
    {
        let mut j = start;
        while j < v.len() && v[j] != '\n'
            invariant
                start <= j <= v.len(),
                forall|k: int| start <= k < j ==> v@[k] != '\n',
            decreases v.len() - j,
        {
            j = j + 1;
        }
        let ghost rest = v@.skip(start as int);
        proof {
            lemma_newline_from_bounds(rest, 0);
            lemma_newline_from_shift(v@, start as int, start as int);
            let n = newline_from(v@, start as int);
            lemma_newline_from_bounds(v@, start as int);
            // both j and n are the first newline at or after start
            if n < j {
                assert(v@[n] == '\n');
            }
            if j < n {
                assert(v@[j as int] == '\n');
            }
        }
        let ghost old_out = out@.map_values(|l: String| l@);
        if j == v.len() {
            let line = string_of_range(&v, start, j);
            out.push(line);
            proof {
                assert(rest =~= v@.subrange(start as int, j as int));
                assert(v@.skip(j as int) =~= Seq::<char>::empty());
                assert(out@.map_values(|l: String| l@) =~= old_out.push(line@));
            }
            start = j;
        } else {
            let mut end = j;
            if end > start && v[end - 1] == '\r' {
                end = end - 1;
            }
            let line = string_of_range(&v, start, end);
            out.push(line);
            proof {
                let i = j - start;
                assert(rest.take(i) =~= v@.subrange(start as int, j as int));
                assert(rest.skip(i + 1) =~= v@.skip(j + 1));
                assert(line@ == strip_cr(rest.take(i)));
                assert(out@.map_values(|l: String| l@) =~= old_out.push(line@));
                assert(old_out.push(line@) + lines(v@.skip(j + 1)) =~= old_out + (seq![line@]
                    + lines(v@.skip(j + 1))));
            }
            start = j + 1;
        }
    }
    proof {
        assert(v@.skip(start as int) =~= Seq::<char>::empty());
        assert(out@.map_values(|l: String| l@) + Seq::<Seq<char>>::empty() =~= out@.map_values(
            |l: String| l@,
        ));
    }
    out
}

// ---------------------------------------------------------------------------
// Joining
// ---------------------------------------------------------------------------

/// The parts joined with `sep` between each two, as `[T]::join` gives it.
pub open spec fn join(parts: Seq<Seq<char>>, sep: Seq<char>) -> Seq<char>
    decreases parts.len(),
{
    if parts.len() == 0 {
        seq![]
    } else if parts.len() == 1 {
        parts[0]
    } else {
        join(parts.drop_last(), sep) + sep + parts.last()
    }
}

/// Joining two non-empty runs of parts is joining each and putting the
/// separator between them.
pub proof fn lemma_join_concat(a: Seq<Seq<char>>, b: Seq<Seq<char>>, sep: Seq<char>)
    requires
        a.len() > 0,
        b.len() > 0,
    ensures
        join(a + b, sep) == join(a, sep) + sep + join(b, sep),
    decreases b.len(),
{
    if b.len() == 1 {
        assert((a + b).drop_last() =~= a);
        assert((a + b).last() == b[0]);
    } else {
        lemma_join_concat(a, b.drop_last(), sep);
        assert((a + b).drop_last() =~= a + b.drop_last());
        assert((a + b).last() == b.last());
        assert(join(a, sep) + sep + join(b.drop_last(), sep) + sep + b.last() =~= join(a, sep)
            + sep + (join(b.drop_last(), sep) + sep + b.last()));
    }
}

/// Splitting a text without `'\r'` into lines and joining them with `'\n'`
/// gives the text back, less a final `'\n'`; no line holds a `'\n'`.
pub proof fn law_lines_rejoin(s: Seq<char>)
    requires
        forall|k: int| 0 <= k < s.len() ==> s[k] != '\r',
    ensures
        forall|i: int, k: int|
            0 <= i < lines(s).len() && 0 <= k < lines(s)[i].len() ==> #[trigger] lines(s)[i][k]
                != '\n',
        s.len() > 0 && s.last() == '\n' ==> join(lines(s), "\n"@) + "\n"@ == s,
        !(s.len() > 0 && s.last() == '\n') ==> join(lines(s), "\n"@) == s,
    decreases s.len(),
{
    reveal_strlit("\n");
    if s.len() > 0 {
        let i = newline_from(s, 0);
        lemma_newline_from_bounds(s, 0);
        if i < s.len() {
            let x = s.take(i);
            let rest = s.skip(i + 1);
            assert forall|k: int| 0 <= k < rest.len() implies rest[k] != '\r' by {
                assert(rest[k] == s[i + 1 + k]);
            }
            law_lines_rejoin(rest);
            if x.len() > 0 {
                assert(x.last() == s[i - 1]);
            }
            assert(strip_cr(x) == x);
            assert(lines(s) == seq![x] + lines(rest));
            assert forall|j: int, k: int|
                0 <= j < lines(s).len() && 0 <= k < lines(s)[j].len() implies #[trigger] lines(
                s,
            )[j][k] != '\n' by {
                if j == 0 {
                    assert(lines(s)[0] == x);
                    assert(x[k] == s[k]);
                } else {
                    assert(lines(s)[j] == lines(rest)[j - 1]);
                }
            }
            if rest.len() == 0 {
                assert(lines(rest) =~= Seq::<Seq<char>>::empty());
                assert(seq![x] + lines(rest) =~= seq![x]);
                assert(s =~= x + "\n"@);
            } else {
                assert(lines(rest).len() > 0);
                lemma_join_concat(seq![x], lines(rest), "\n"@);
                assert(join(seq![x], "\n"@) == x);
                assert(s.last() == rest.last());
                if rest.last() == '\n' {
                    assert(x + "\n"@ + join(lines(rest), "\n"@) + "\n"@ =~= x + "\n"@ + (join(
                        lines(rest),
                        "\n"@,
                    ) + "\n"@));
                    assert(s =~= x + "\n"@ + rest);
                } else {
                    assert(s =~= x + "\n"@ + rest);
                }
            }
        } else {
            assert(lines(s) == seq![s]);
            assert forall|j: int, k: int|
                0 <= j < lines(s).len() && 0 <= k < lines(s)[j].len() implies #[trigger] lines(
                s,
            )[j][k] != '\n' by {
                assert(lines(s)[j] == s);
            }
            assert(s[s.len() - 1] != '\n');
        }
    }
}

/// A trimmed text neither starts nor ends with whitespace, and the text is
/// whitespace, the trimmed text, and whitespace.
pub proof fn law_trim_strips_whitespace(s: Seq<char>)
    ensures
        trim(s).len() > 0 ==> !is_ws(trim(s)[0]) && !is_ws(trim(s).last()),
        exists|i: int, j: int|
            0 <= i <= j <= s.len() && trim(s) == s.subrange(i, j) && (forall|k: int|
                0 <= k < i ==> is_ws(#[trigger] s[k])) && (forall|k: int|
                j <= k < s.len() ==> is_ws(#[trigger] s[k])),
{
    lemma_trim_start_props(s);
    let i = s.len() - trim_start(s).len();
    let t = trim_start(s);
    lemma_trim_end_props(t);
    let j = i + trim_end(t).len();
    assert(trim(s) =~= s.subrange(i, j)) by {
        assert(t =~= s.subrange(i, s.len() as int));
        assert(trim_end(t) =~= t.subrange(0, trim_end(t).len() as int));
    }
    assert forall|k: int| j <= k < s.len() implies is_ws(#[trigger] s[k]) by {
        assert(s[k] == t[k - i]);
    }
    if trim(s).len() > 0 {
        assert(trim(s)[0] == t[0]);
    }
    assert(0 <= i <= j <= s.len() && trim(s) == s.subrange(i, j));
}

/// `trim_start` drops a run of leading whitespace and keeps the rest.
proof fn lemma_trim_start_props(s: Seq<char>)
    ensures
        trim_start(s).len() <= s.len(),
        trim_start(s) =~= s.subrange(s.len() - trim_start(s).len(), s.len() as int),
        forall|k: int| 0 <= k < s.len() - trim_start(s).len() ==> is_ws(#[trigger] s[k]),
        trim_start(s).len() > 0 ==> !is_ws(trim_start(s)[0]),
    decreases s.len(),
{
    if s.len() > 0 && is_ws(s[0]) {
        lemma_trim_start_props(s.drop_first());
        assert forall|k: int| 0 <= k < s.len() - trim_start(s).len() implies is_ws(#[trigger] s[k]) by {
            if k > 0 {
                assert(s[k] == s.drop_first()[k - 1]);
            }
        }
    }
}

/// `trim_end` drops a run of trailing whitespace and keeps the rest.
proof fn lemma_trim_end_props(s: Seq<char>)
    ensures
        trim_end(s).len() <= s.len(),
        trim_end(s) =~= s.subrange(0, trim_end(s).len() as int),
        forall|k: int| trim_end(s).len() <= k < s.len() ==> is_ws(#[trigger] s[k]),
        trim_end(s).len() > 0 ==> !is_ws(trim_end(s).last()),
    decreases s.len(),
{
    if s.len() > 0 && is_ws(s.last()) {
        lemma_trim_end_props(s.drop_last());
        assert forall|k: int| trim_end(s).len() <= k < s.len() implies is_ws(#[trigger] s[k]) by {
            if k < s.len() - 1 {
                assert(s[k] == s.drop_last()[k]);
            }
        }
    }
}

/// The views of a vector of strings.
pub open spec fn views(v: Seq<String>) -> Seq<Seq<char>> {
    v.map_values(|s: String| s@)
}

/// The strings of `parts` joined with `sep`.
pub fn join_strings(parts: &Vec<String>, sep: &str) -> (r: String)
    ensures
        r@ == join(views(parts@), sep@),
{
    let mut r = String::new();
    let mut i: usize = 0;
    while i < parts.len()
        invariant
            i <= parts.len(),
            r@ == join(views(parts@).take(i as int), sep@),
        decreases parts.len() - i,
    {
        let ghost before = views(parts@).take(i as int);
        if i > 0 {
            r.append(sep);
        }
        r.append(parts[i].as_str());
        proof {
            let after = views(parts@).take(i + 1);
            assert(after.drop_last() =~= before);
            if i == 0 {
                assert(before =~= Seq::<Seq<char>>::empty());
            }
        }
        i = i + 1;
    }
    assert(views(parts@).take(parts.len() as int) =~= views(parts@));
    r
}

// ---------------------------------------------------------------------------
// Replacement
// ---------------------------------------------------------------------------

/// `s` with every occurrence of `pat` replaced by `rep`, scanning from left
/// to right without overlaps, as `str::replace` gives it for a non-empty
/// pattern (the empty pattern leaves `s` as it is here).
pub open spec fn replace_all(s: Seq<char>, pat: Seq<char>, rep: Seq<char>) -> Seq<char>
    decreases s.len(),
{
    if pat.len() == 0 || s.len() < pat.len() {
        s
    } else if s.take(pat.len() as int) == pat {
        rep + replace_all(s.skip(pat.len() as int), pat, rep)
    } else {
        seq![s[0]] + replace_all(s.drop_first(), pat, rep)
    }
}

/// Replacing in a text whose front holds no first character of the pattern
/// leaves that front as it is.
pub proof fn lemma_replace_skips_front(a: Seq<char>, t: Seq<char>, pat: Seq<char>, rep: Seq<char>)
    requires
        pat.len() > 0,
        forall|k: int| 0 <= k < a.len() ==> a[k] != pat[0],
    ensures
        replace_all(a + t, pat, rep) == a + replace_all(t, pat, rep),
    decreases a.len(),
{
    let s = a + t;
    if a.len() == 0 {
        assert(s =~= t);
    } else if s.len() < pat.len() {
        assert(t.len() < pat.len());
    } else {
        assert(s[0] == a[0]);
        if s.take(pat.len() as int) == pat {
            assert(s.take(pat.len() as int)[0] == s[0]);
        }
        lemma_replace_skips_front(a.drop_first(), t, pat, rep);
        assert(s.drop_first() =~= a.drop_first() + t);
        assert(seq![a[0]] + (a.drop_first() + replace_all(t, pat, rep)) =~= a + replace_all(
            t,
            pat,
            rep,
        ));
    }
}

/// A text that starts with the pattern has it replaced there.
pub proof fn lemma_replace_at_front(t: Seq<char>, pat: Seq<char>, rep: Seq<char>)
    requires
        pat.len() > 0,
    ensures
        replace_all(pat + t, pat, rep) == rep + replace_all(t, pat, rep),
{
    assert((pat + t).take(pat.len() as int) =~= pat);
    assert((pat + t).skip(pat.len() as int) =~= t);
}

/// Replaces every occurrence of `pat` in `s` by `rep`.
pub fn replace_str(s: &str, pat: &str, rep: &str) -> (r: String)
    requires
        pat@.len() > 0,
    ensures
        r@ == replace_all(s@, pat@, rep@),
{
    let v = chars_of(s);
    let p = chars_of(pat);
    let mut out = String::new();
    let mut i: usize = 0;
    assert(v@.skip(0) =~= v@);
    assert(out@ + replace_all(v@, p@, rep@) =~= replace_all(v@, p@, rep@));
    while i < v.len()
        invariant
            v@ == s@,
            p@ == pat@,
            p@.len() > 0,
            i <= v.len(),
            out@ + replace_all(v@.skip(i as int), p@, rep@) == replace_all(v@, p@, rep@),
        decreases v.len() - i,
    {
        let ghost rest = v@.skip(i as int);
        if v.len() - i >= p.len() && matches_at(&v, &p, i) {
            proof {
                assert(rest.take(p@.len() as int) =~= v@.subrange(i as int, i + p@.len()));
                assert(rest.skip(p@.len() as int) =~= v@.skip(i + p@.len()));
            }
            out.append(rep);
            i = i + p.len();
        } else {
            proof {
                if rest.len() >= p@.len() {
                    assert(rest.take(p@.len() as int) =~= v@.subrange(i as int, i + p@.len()));
                }
                assert(rest.drop_first() =~= v@.skip(i + 1));
            }
            out.push(v[i]);
            i = i + 1;
        }
    }
    assert(v@.skip(i as int) =~= Seq::<char>::empty());
    out
}

// ---------------------------------------------------------------------------
// Decimal numbers
// ---------------------------------------------------------------------------

/// Whether `c` is an ASCII decimal digit.
pub open spec fn is_digit(c: char) -> bool {
    '0' <= c && c <= '9'
}

/// The value of the ASCII digit `c`.
pub open spec fn digit_value(c: char) -> int {
    (c as u32) - ('0' as u32)
}

/// The value of a string of decimal digits.
pub open spec fn decimal_value(d: Seq<char>) -> int
    decreases d.len(),
{
    if d.len() == 0 {
        0
    } else {
        decimal_value(d.drop_last()) * 10 + digit_value(d.last())
    }
}

/// Every character of `d` is an ASCII decimal digit.
pub open spec fn all_digits(d: Seq<char>) -> bool {
    forall|k: int| 0 <= k < d.len() ==> is_digit(#[trigger] d[k])
}

/// What `<usize as FromStr>::from_str` gives: an optional `'+'`, then at least
/// one decimal digit and nothing else, of a value that fits in `usize`.
pub open spec fn parse_usize_spec(s: Seq<char>) -> Option<usize> {
    let d = if s.len() > 0 && s[0] == '+' {
        s.drop_first()
    } else {
        s
    };
    if d.len() == 0 || !all_digits(d) {
        None
    } else if decimal_value(d) > usize::MAX {
        None
    } else {
        Some(decimal_value(d) as usize)
    }
}

proof fn lemma_decimal_value_monotone(d: Seq<char>, k: int)
    requires
        0 <= k <= d.len(),
        forall|m: int| 0 <= m < d.len() ==> is_digit(d[m]),
    ensures
        decimal_value(d.take(k)) <= decimal_value(d),
        0 <= decimal_value(d.take(k)),
    decreases d.len() - k,
{
    if k == d.len() {
        assert(d.take(k) =~= d);
        lemma_decimal_value_nonneg(d);
    } else {
        lemma_decimal_value_monotone(d, k + 1);
        assert(d.take(k + 1).drop_last() =~= d.take(k));
        lemma_decimal_value_nonneg(d.take(k));
    }
}

proof fn lemma_decimal_value_nonneg(d: Seq<char>)
    requires
        forall|m: int| 0 <= m < d.len() ==> is_digit(d[m]),
    ensures
        0 <= decimal_value(d),
    decreases d.len(),
{
    if d.len() > 0 {
        lemma_decimal_value_nonneg(d.drop_last());
    }
}

/// Parses `v[from..to]` as a `usize` the way `str::parse::<usize>` does.
pub fn parse_usize_range(v: &Vec<char>, from: usize, to: usize) -> (r: Option<usize>)
    requires
        from <= to <= v.len(),
    ensures
        r == parse_usize_spec(v@.subrange(from as int, to as int)),
{
    let ghost s = v@.subrange(from as int, to as int);
    let mut start = from;
    if start < to && v[start] == '+' {
        start = start + 1;
    }
    let ghost d = v@.subrange(start as int, to as int);
    proof {
        if s.len() > 0 && s[0] == '+' {
            assert(d =~= s.drop_first());
        } else {
            assert(d =~= s);
        }
    }
    if start == to {
        return None;
    }
    let mut k = start;
    while k < to
        invariant
            from <= start <= k <= to <= v.len(),
            s == v@.subrange(from as int, to as int),
            d == (if s.len() > 0 && s[0] == '+' {
                s.drop_first()
            } else {
                s
            }),
            d == v@.subrange(start as int, to as int),
            forall|m: int| start <= m < k ==> is_digit(v@[m]),
        decreases to - k,
    {
        if !('0' <= v[k] && v[k] <= '9') {
            assert(!is_digit(d[k - start]));
            proof {
                let sd = if s.len() > 0 && s[0] == '+' {
                    s.drop_first()
                } else {
                    s
                };
                assert(sd == d);
                assert(!is_digit(sd[k - start]));
                assert(!all_digits(sd));
            }
            return None;
        }
        k = k + 1;
    }
    assert forall|m: int| 0 <= m < d.len() implies is_digit(d[m]) by {
        assert(d[m] == v@[start + m]);
    }
    let mut acc: usize = 0;
    let mut i = start;
    while i < to
        invariant
            from <= start <= i <= to <= v.len(),
            s == v@.subrange(from as int, to as int),
            d == (if s.len() > 0 && s[0] == '+' {
                s.drop_first()
            } else {
                s
            }),
            d == v@.subrange(start as int, to as int),
            forall|m: int| 0 <= m < d.len() ==> is_digit(d[m]),
            acc == decimal_value(d.take(i - start)),
        decreases to - i,
    {
        assert(d[i - start] == v@[i as int]);
        assert(is_digit(v@[i as int]));
        let dig: usize = ((v[i] as u32) - ('0' as u32)) as usize;
        assert(d.take(i - start + 1).last() == v@[i as int]);
        assert(d.take(i - start + 1).drop_last() =~= d.take(i - start));
        if acc > (usize::MAX - dig) / 10 {
            proof {
                lemma_decimal_value_monotone(d, i - start + 1);
                assert(decimal_value(d.take(i - start + 1)) == acc * 10 + dig);
                assert(acc * 10 + dig > usize::MAX) by (nonlinear_arith)
                    requires
                        acc > (usize::MAX - dig) / 10,
                        dig <= 9,
                ;
                let sd = if s.len() > 0 && s[0] == '+' {
                    s.drop_first()
                } else {
                    s
                };
                assert(sd == d);
                assert(decimal_value(sd) > usize::MAX);
            }
            return None;
        }
        proof {
            assert(acc * 10 + dig <= usize::MAX) by (nonlinear_arith)
                requires
                    acc <= (usize::MAX - dig) / 10,
                    dig <= 9,
            ;
        }
        acc = acc * 10 + dig;
        i = i + 1;
    }
    assert(d.take(to - start) =~= d);
    Some(acc)
}

/// The decimal digits of `n`, without leading zeros (`"0"` for zero), as
/// `Display` writes an unsigned integer.
pub open spec fn decimal_string(n: nat) -> Seq<char>
    decreases n,
{
    if n < 10 {
        seq![(('0' as u32) + n) as char]
    } else {
        decimal_string(n / 10).push((('0' as u32) + (n % 10)) as char)
    }
}

/// The decimal digits of `n` are at least one digit, all digits, and read
/// back as `n`.
pub proof fn lemma_decimal_string_reads_back(n: nat)
    ensures
        decimal_string(n).len() >= 1,
        all_digits(decimal_string(n)),
        decimal_value(decimal_string(n)) == n,
    decreases n,
{
    if n < 10 {
        let c = (('0' as u32) + n) as char;
        assert(decimal_string(n) == seq![c]);
        assert(seq![c].drop_last() =~= Seq::<char>::empty());
        assert(c as u32 == ('0' as u32) + n);
        assert(decimal_value(seq![c]) == decimal_value(Seq::<char>::empty()) * 10 + digit_value(c));
    } else {
        lemma_decimal_string_reads_back(n / 10);
        let d = decimal_string(n / 10);
        let c = (('0' as u32) + (n % 10)) as char;
        assert(decimal_string(n) == d.push(c));
        assert(d.push(c).drop_last() =~= d);
        assert forall|k: int| 0 <= k < d.push(c).len() implies is_digit(#[trigger] d.push(c)[k]) by {
            if k < d.len() {
                assert(d.push(c)[k] == d[k]);
            }
        }
        assert(c as u32 == ('0' as u32) + n % 10);
        assert(decimal_value(d.push(c)) == decimal_value(d) * 10 + digit_value(c));
        assert((n / 10) * 10 + n % 10 == n);
    }
}

/// The decimal digits of `n` read back as `n` and have no leading zero: zero
/// is the single digit `0`.
pub proof fn law_decimal_without_leading_zero(n: nat)
    ensures
        decimal_value(decimal_string(n)) == n,
        all_digits(decimal_string(n)),
        n == 0 ==> decimal_string(n) == seq!['0'],
        n > 0 ==> decimal_string(n)[0] != '0',
    decreases n,
{
    lemma_decimal_string_reads_back(n);
    if n >= 10 {
        law_decimal_without_leading_zero(n / 10);
        let d = decimal_string(n / 10);
        assert(decimal_string(n)[0] == d[0]);
    } else {
        let c = (('0' as u32) + n) as char;
        assert(c as u32 == ('0' as u32) + n);
    }
}

/// The decimal representation of `n`.
pub fn u64_to_string(n: u64) -> (r: String)
    ensures
        r@ == decimal_string(n as nat),
{
    let mut digits: Vec<char> = Vec::new();
    let mut m = n;
    // digits holds the representation of n % 10^k in reverse, m = n / 10^k
    let ghost mut k: nat = 0;
    while m >= 10
        invariant
            decimal_string(n as nat) == decimal_string(m as nat) + digits@.reverse(),
        decreases m,
    {
        let d: u8 = (m % 10) as u8;
        let c: char = (48u8 + d) as char;
        proof {
            assert(decimal_string(m as nat) == decimal_string((m / 10) as nat).push(c));
            assert(digits@.push(c).reverse() =~= seq![c] + digits@.reverse());
            assert(decimal_string((m / 10) as nat).push(c) + digits@.reverse() =~= decimal_string(
                (m / 10) as nat,
            ) + (seq![c] + digits@.reverse()));
        }
        digits.push(c);
        m = m / 10;
    }
    let c: char = (48u8 + (m as u8)) as char;
    let mut r = String::new();
    r.push(c);
    assert(decimal_string(m as nat) =~= seq![c]);
    let mut i = digits.len();
    while i > 0
        invariant
            i <= digits.len(),
            r@ + digits@.take(i as int).reverse() == decimal_string(n as nat),
        decreases i,
    {
        proof {
            assert(digits@.take(i as int).reverse() =~= seq![digits@[i - 1]] + digits@.take(
                i - 1,
            ).reverse());
            assert(r@.push(digits@[i - 1]) + digits@.take(i - 1).reverse() =~= r@ + (seq![
                digits@[i - 1],
            ] + digits@.take(i - 1).reverse()));
        }
        r.push(digits[i - 1]);
        i = i - 1;
    }
    assert(digits@.take(0).reverse() =~= Seq::<char>::empty());
    assert(r@ + Seq::<char>::empty() =~= r@);
    r
}

} // verus!
