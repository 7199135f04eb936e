//! Verified text utilities the aggregation core is built on: substring
//! occurrence, first-occurrence search, and whitespace trimming, each with a
//! mathematical specification over `Seq<char>`.

use vstd::prelude::*;

verus! {

/// `pat` occurs in `text` starting at position `i`.
pub open spec fn is_match_at(text: Seq<char>, pat: Seq<char>, i: int) -> bool {
    &&& 0 <= i
    &&& i + pat.len() <= text.len()
    &&& text.subrange(i, i + pat.len()) == pat
}

/// `pat` occurs somewhere in `text`.
pub open spec fn contains_seq(text: Seq<char>, pat: Seq<char>) -> bool {
    exists|i: int| is_match_at(text, pat, i)
}

/// The first occurrence of `pat` in `text` at or after position `from`.
pub open spec fn first_match_from(text: Seq<char>, pat: Seq<char>, from: int) -> Option<int>
    decreases text.len() - from,
{
    if from + pat.len() > text.len() {
        None
    } else if pat.len() == 0 || is_match_at(text, pat, from) {
        Some(from)
    } else {
        first_match_from(text, pat, from + 1)
    }
}

/// The position of the first occurrence of `pat` in `text`, if any.
pub open spec fn first_match(text: Seq<char>, pat: Seq<char>) -> Option<int> {
    first_match_from(text, pat, 0)
}

/// `first_match_from` returns exactly the least match position at or after
/// `from`, and `None` exactly when no position at or after `from` matches.
pub proof fn lemma_first_match_from(text: Seq<char>, pat: Seq<char>, from: int)
    requires
        0 <= from,
    ensures
        match first_match_from(text, pat, from) {
            Some(i) => {
                &&& from <= i
                &&& is_match_at(text, pat, i)
                &&& forall|j: int| from <= j < i ==> !is_match_at(text, pat, j)
            },
            None => forall|j: int| from <= j ==> !is_match_at(text, pat, j),
        },
    decreases text.len() - from,
{
    if from + pat.len() > text.len() {
        assert forall|j: int| from <= j implies !is_match_at(text, pat, j) by {}
    } else if pat.len() == 0 {
        assert(text.subrange(from, from + pat.len()) =~= pat);
    } else if is_match_at(text, pat, from) {
    } else {
        lemma_first_match_from(text, pat, from + 1);
    }
}

/// Characterization of `first_match`: the returned position is a match and
/// no earlier position is; `None` means no match at all.
pub proof fn lemma_first_match(text: Seq<char>, pat: Seq<char>)
    ensures
        match first_match(text, pat) {
            Some(i) => {
                &&& 0 <= i
                &&& is_match_at(text, pat, i)
                &&& forall|j: int| 0 <= j < i ==> !is_match_at(text, pat, j)
            },
            None => !contains_seq(text, pat),
        },
{
    lemma_first_match_from(text, pat, 0);
    if first_match(text, pat) is None {
        assert forall|i: int| !is_match_at(text, pat, i) by {
            if i < 0 {
            }
        }
    }
}

/// Finds the position of the first occurrence of `pat` in `text`, scanning
/// left to right, or `None` when `pat` does not occur.
pub fn find(text: &str, pat: &str) -> (r: Option<usize>)
    ensures
        match r {
            Some(i) => first_match(text@, pat@) == Some(i as int),
            None => first_match(text@, pat@) is None,
        },
{
    proof {
        lemma_first_match(text@, pat@);
    }
    let text_len = text.unicode_len();
    let pat_len = pat.unicode_len();
    if pat_len > text_len {
        return None;
    }
    if pat_len == 0 {
        proof {
            assert(text@.subrange(0, 0) =~= pat@);
        }
        return Some(0);
    }
    let mut i: usize = 0;
    while i <= text_len - pat_len
        invariant
            text_len == text@.len(),
            pat_len == pat@.len(),
            0 < pat_len <= text_len,
            i <= text_len - pat_len + 1,
            forall|j: int| 0 <= j < i ==> !is_match_at(text@, pat@, j),
        decreases text_len - i,
    {
        if match_at(text, pat, i) {
            proof {
                lemma_first_match_from(text@, pat@, 0);
            }
            return Some(i);
        }
        i = i + 1;
    }
    proof {
        assert forall|j: int| !is_match_at(text@, pat@, j) by {
            if 0 <= j && j + pat@.len() <= text@.len() {
                assert(j < i);
            }
        }
    }
    None
}

/// Compares `pat` against the characters of `text` starting at `i`.
fn match_at(text: &str, pat: &str, i: usize) -> (r: bool)
    requires
        i + pat@.len() <= text@.len(),
    ensures
        r == is_match_at(text@, pat@, i as int),
{
    let text_len = text.unicode_len();
    let pat_len = pat.unicode_len();
    let mut j: usize = 0;
    while j < pat_len
        invariant
            text_len == text@.len(),
            pat_len == pat@.len(),
            i + pat_len <= text_len,
            0 <= j <= pat_len,
            forall|k: int| 0 <= k < j ==> text@[i + k] == pat@[k],
        decreases pat_len - j,
    {
        if text.get_char(i + j) != pat.get_char(j) {
            proof {
                assert(text@.subrange(i as int, i + pat@.len())[j as int] == text@[i + j]);
            }
            return false;
        }
        j = j + 1;
    }
    proof {
        assert(text@.subrange(i as int, i + pat@.len()) =~= pat@);
    }
    true
}

/// A match pins down the characters under it.
pub proof fn lemma_match_chars(text: Seq<char>, pat: Seq<char>, i: int)
    requires
        is_match_at(text, pat, i),
    ensures
        forall|k: int| 0 <= k < pat.len() ==> text[i + k] == pat[k],
{
    assert forall|k: int| 0 <= k < pat.len() implies text[i + k] == pat[k] by {
        assert(text.subrange(i, i + pat.len())[k] == text[i + k]);
    }
}

/// A match survives extending the text on the right.
pub proof fn lemma_match_extend_right(a: Seq<char>, pat: Seq<char>, i: int, b: Seq<char>)
    requires
        is_match_at(a, pat, i),
    ensures
        is_match_at(a + b, pat, i),
{
    assert((a + b).subrange(i, i + pat.len()) =~= a.subrange(i, i + pat.len()));
}

/// `pat` matches right after `x` in `x + pat`.
pub proof fn lemma_match_at_append(x: Seq<char>, pat: Seq<char>)
    ensures
        is_match_at(x + pat, pat, x.len() as int),
{
    assert((x + pat).subrange(x.len() as int, (x.len() + pat.len()) as int) =~= pat);
}

/// A match that lies wholly in the left half of a concatenation is a match
/// there.
pub proof fn lemma_match_within_left(a: Seq<char>, b: Seq<char>, pat: Seq<char>, i: int)
    requires
        is_match_at(a + b, pat, i),
        i + pat.len() <= a.len(),
    ensures
        is_match_at(a, pat, i),
{
    assert(a.subrange(i, i + pat.len()) =~= (a + b).subrange(i, i + pat.len()));
}

/// A match that lies wholly in the right half of a concatenation is a match
/// there.
pub proof fn lemma_match_within_right(a: Seq<char>, b: Seq<char>, pat: Seq<char>, i: int)
    requires
        is_match_at(a + b, pat, i),
        i >= a.len(),
    ensures
        is_match_at(b, pat, i - a.len()),
{
    assert(b.subrange(i - a.len(), i - a.len() + pat.len()) =~= (a + b).subrange(
        i,
        i + pat.len(),
    ));
}

/// A match inside a matched region is a match in the whole.
pub proof fn lemma_match_trans(a: Seq<char>, b: Seq<char>, pat: Seq<char>, p: int, j: int)
    requires
        is_match_at(a, b, p),
        is_match_at(b, pat, j),
    ensures
        is_match_at(a, pat, p + j),
{
    lemma_match_chars(a, b, p);
    lemma_match_chars(b, pat, j);
    assert forall|k: int| 0 <= k < pat.len() implies a.subrange(p + j, p + j + pat.len())[k]
        == pat[k] by {
        assert(a[p + j + k] == b[j + k]);
    }
    assert(a.subrange(p + j, p + j + pat.len()) =~= pat);
}

/// The match at position `k` is the first one when no earlier position
/// matches.
pub proof fn lemma_first_match_exact(text: Seq<char>, pat: Seq<char>, k: int)
    requires
        is_match_at(text, pat, k),
        forall|i: int| 0 <= i < k ==> !is_match_at(text, pat, i),
    ensures
        first_match(text, pat) == Some(k),
{
    lemma_first_match(text, pat);
}

/// The parts joined with `sep` between consecutive parts.
pub open spec fn join_with(parts: Seq<Seq<char>>, sep: Seq<char>) -> Seq<char>
    decreases parts.len(),
{
    if parts.len() == 0 {
        Seq::empty()
    } else if parts.len() == 1 {
        parts[0]
    } else {
        join_with(parts.drop_last(), sep) + sep + parts.last()
    }
}

/// Joining one more part appends a separator first, unless the part is the
/// first one.
pub proof fn lemma_join_push(parts: Seq<Seq<char>>, sep: Seq<char>, part: Seq<char>)
    ensures
        parts.len() == 0 ==> join_with(parts.push(part), sep) == part,
        parts.len() > 0 ==> join_with(parts.push(part), sep) == join_with(parts, sep) + sep
            + part,
{
    let p2 = parts.push(part);
    assert(p2.last() == part);
    if parts.len() == 0 {
        assert(p2.len() == 1);
        assert(p2[0] == part);
    } else {
        assert(p2.drop_last() =~= parts);
    }
}

/// Every part occurs verbatim somewhere in the joined text; the returned
/// position says where.
pub proof fn lemma_join_contains_part(parts: Seq<Seq<char>>, sep: Seq<char>, k: int) -> (i: int)
    requires
        0 <= k < parts.len(),
    ensures
        is_match_at(join_with(parts, sep), parts[k], i),
    decreases parts.len(),
{
    if parts.len() == 1 {
        assert(join_with(parts, sep).subrange(0, parts[0].len() as int) =~= parts[0]);
        0
    } else if k == parts.len() - 1 {
        let pre = join_with(parts.drop_last(), sep) + sep;
        lemma_match_at_append(pre, parts.last());
        assert(join_with(parts, sep) =~= pre + parts.last());
        pre.len() as int
    } else {
        let jd = join_with(parts.drop_last(), sep);
        assert(parts.drop_last()[k] == parts[k]);
        let i0 = lemma_join_contains_part(parts.drop_last(), sep, k);
        lemma_match_extend_right(jd, parts[k], i0, sep + parts.last());
        assert(join_with(parts, sep) =~= jd + (sep + parts.last()));
        i0
    }
}

/// `c` is a whitespace character (the Unicode `White_Space` set).
pub open spec fn is_ws(c: char) -> bool {
    let u = c as u32;
    (9 <= u && u <= 13) || u == 32 || u == 0x85 || u == 0xA0 || u == 0x1680 || (0x2000 <= u && u
        <= 0x200A) || u == 0x2028 || u == 0x2029 || u == 0x202F || u == 0x205F || u == 0x3000
}

/// Decides whether `c` is whitespace.
pub fn is_whitespace_char(c: char) -> (r: bool)
    ensures
        r == is_ws(c),
{
    let u = c as u32;
    (9 <= u && u <= 13) || u == 32 || u == 0x85 || u == 0xA0 || u == 0x1680 || (0x2000 <= u && u
        <= 0x200A) || u == 0x2028 || u == 0x2029 || u == 0x202F || u == 0x205F || u == 0x3000
}

/// All characters of `s` are whitespace.
pub open spec fn all_ws(s: Seq<char>) -> bool {
    forall|i: int| 0 <= i < s.len() ==> is_ws(s[i])
}

/// `s` with its leading whitespace removed.
pub open spec fn trim_left(s: Seq<char>) -> Seq<char>
    decreases s.len(),
{
    if s.len() > 0 && is_ws(s[0]) {
        trim_left(s.drop_first())
    } else {
        s
    }
}

/// `s` with its trailing whitespace removed.
pub open spec fn trim_right(s: Seq<char>) -> Seq<char>
    decreases s.len(),
{
    if s.len() > 0 && is_ws(s.last()) {
        trim_right(s.drop_last())
    } else {
        s
    }
}

/// `s` with leading and trailing whitespace removed.
pub open spec fn trim_spec(s: Seq<char>) -> Seq<char> {
    trim_right(trim_left(s))
}

/// `s` neither starts nor ends with whitespace.
pub open spec fn is_trimmed(s: Seq<char>) -> bool {
    s.len() == 0 || (!is_ws(s[0]) && !is_ws(s.last()))
}

/// Trimming a trimmed sequence changes nothing.
pub proof fn lemma_trim_of_trimmed(s: Seq<char>)
    requires
        is_trimmed(s),
    ensures
        trim_spec(s) == s,
{
}

/// If the first `k` characters of `s` are whitespace and the one after them
/// (if any) is not, trimming on the left removes exactly those `k`.
proof fn lemma_trim_left_at(s: Seq<char>, k: int)
    requires
        0 <= k <= s.len(),
        forall|j: int| 0 <= j < k ==> is_ws(s[j]),
        k < s.len() ==> !is_ws(s[k]),
    ensures
        trim_left(s) == s.subrange(k, s.len() as int),
    decreases k,
{
    if k == 0 {
        assert(s.subrange(0, s.len() as int) =~= s);
    } else {
        let t = s.drop_first();
        assert(forall|j: int| 0 <= j < k - 1 ==> is_ws(#[trigger] t[j]));
        lemma_trim_left_at(t, k - 1);
        assert(t.subrange(k - 1, t.len() as int) =~= s.subrange(k, s.len() as int));
    }
}

/// If the last `s.len() - m` characters of `s` are whitespace and the one
/// before them (if any) is not, trimming on the right keeps exactly the
/// first `m`.
proof fn lemma_trim_right_at(s: Seq<char>, m: int)
    requires
        0 <= m <= s.len(),
        forall|j: int| m <= j < s.len() ==> is_ws(s[j]),
        m > 0 ==> !is_ws(s[m - 1]),
    ensures
        trim_right(s) == s.subrange(0, m),
    decreases s.len() - m,
{
    if m == s.len() {
        assert(s.subrange(0, m) =~= s);
    } else {
        let t = s.drop_last();
        lemma_trim_right_at(t, m);
        assert(t.subrange(0, m) =~= s.subrange(0, m));
    }
}

/// Returns `s` with leading and trailing whitespace removed.
pub fn trim(s: &str) -> (r: String)
    ensures
        r@ == trim_spec(s@),
{
    let n = s.unicode_len();
    let mut b: usize = 0;
    while b < n && is_whitespace_char(s.get_char(b))
        invariant
            n == s@.len(),
            0 <= b <= n,
            forall|j: int| 0 <= j < b ==> is_ws(s@[j]),
        decreases n - b,
    {
        b = b + 1;
    }
    proof {
        lemma_trim_left_at(s@, b as int);
    }
    if b == n {
        proof {
            assert(s@.subrange(n as int, n as int) =~= Seq::<char>::empty());
        }
        return String::new();
    }
    let mut e: usize = n;
    while e > b && is_whitespace_char(s.get_char(e - 1))
        invariant
            n == s@.len(),
            b < n,
            b <= e <= n,
            forall|j: int| e <= j < n ==> is_ws(s@[j]),
        decreases e,
    {
        e = e - 1;
    }
    proof {
        let tl = s@.subrange(b as int, n as int);
        if e == b {
            assert(!is_ws(s@[b as int]));
            assert(is_ws(tl[0]));
            assert(false);
        }
        assert(forall|j: int| e - b <= j < tl.len() ==> is_ws(#[trigger] tl[j]));
        assert(!is_ws(tl[e - b - 1]));
        lemma_trim_right_at(tl, e - b);
        assert(tl.subrange(0, e - b) =~= s@.subrange(b as int, e as int));
    }
    let piece = s.substring_char(b, e);
    String::from_str(piece)
}

/// The result of trimming neither starts nor ends with whitespace.
pub proof fn lemma_trim_is_trimmed(s: Seq<char>)
    ensures
        is_trimmed(trim_spec(s)),
{
    lemma_trim_left_no_leading_ws(s);
    let t = trim_left(s);
    lemma_trim_right_prefix(t);
    lemma_trim_right_no_trailing_ws(t);
}

/// Trimming on the left leaves no leading whitespace.
proof fn lemma_trim_left_no_leading_ws(s: Seq<char>)
    ensures
        trim_left(s).len() > 0 ==> !is_ws(trim_left(s)[0]),
    decreases s.len(),
{
    if s.len() > 0 && is_ws(s[0]) {
        lemma_trim_left_no_leading_ws(s.drop_first());
    }
}

/// Trimming on the right leaves no trailing whitespace.
proof fn lemma_trim_right_no_trailing_ws(s: Seq<char>)
    ensures
        trim_right(s).len() > 0 ==> !is_ws(trim_right(s).last()),
    decreases s.len(),
{
    if s.len() > 0 && is_ws(s.last()) {
        lemma_trim_right_no_trailing_ws(s.drop_last());
    }
}

/// Trimming on the right yields a prefix of the input.
proof fn lemma_trim_right_prefix(s: Seq<char>)
    ensures
        trim_right(s).len() <= s.len(),
        forall|j: int| 0 <= j < trim_right(s).len() ==> trim_right(s)[j] == s[j],
    decreases s.len(),
{
    if s.len() > 0 && is_ws(s.last()) {
        let t = s.drop_last();
        lemma_trim_right_prefix(t);
        assert forall|j: int| 0 <= j < trim_right(s).len() implies trim_right(s)[j] == s[j] by {
            assert(trim_right(s)[j] == t[j]);
        }
    }
}

/// A wholly-whitespace sequence trims to nothing.
pub proof fn lemma_trim_all_ws(s: Seq<char>)
    requires
        all_ws(s),
    ensures
        trim_spec(s) == Seq::<char>::empty(),
    decreases s.len(),
{
    if s.len() > 0 {
        lemma_trim_all_ws(s.drop_first());
    }
}

/// If everything before `b` and everything from `e` on is whitespace while
/// positions `b` and `e - 1` are not, trimming keeps exactly `[b, e)`.
pub proof fn lemma_trim_between(s: Seq<char>, b: int, e: int)
    requires
        0 <= b < e <= s.len(),
        forall|j: int| 0 <= j < b ==> is_ws(s[j]),
        forall|j: int| e <= j < s.len() ==> is_ws(s[j]),
        !is_ws(s[b]),
        !is_ws(s[e - 1]),
    ensures
        trim_spec(s) == s.subrange(b, e),
{
    lemma_trim_left_at(s, b);
    let t = s.subrange(b, s.len() as int);
    assert(forall|j: int| e - b <= j < t.len() ==> is_ws(#[trigger] t[j]));
    assert(!is_ws(t[e - b - 1]));
    lemma_trim_right_at(t, e - b);
    assert(t.subrange(0, e - b) =~= s.subrange(b, e));
}

/// The least index of a non-whitespace character.
proof fn first_non_ws_index(s: Seq<char>) -> (b: int)
    requires
        !all_ws(s),
    ensures
        0 <= b < s.len(),
        !is_ws(s[b]),
        forall|j: int| 0 <= j < b ==> is_ws(s[j]),
    decreases s.len(),
{
    if !is_ws(s[0]) {
        0
    } else {
        let t = s.drop_first();
        assert(!all_ws(t)) by {
            let i = choose|i: int| 0 <= i < s.len() && !is_ws(s[i]);
            assert(t[i - 1] == s[i]);
        }
        let b0 = first_non_ws_index(t);
        assert forall|j: int| 0 <= j < b0 + 1 implies is_ws(s[j]) by {
            if j > 0 {
                assert(s[j] == t[j - 1]);
            }
        }
        b0 + 1
    }
}

/// The greatest index of a non-whitespace character.
proof fn last_non_ws_index(s: Seq<char>) -> (e: int)
    requires
        !all_ws(s),
    ensures
        0 <= e < s.len(),
        !is_ws(s[e]),
        forall|j: int| e < j < s.len() ==> is_ws(s[j]),
    decreases s.len(),
{
    if !is_ws(s.last()) {
        s.len() - 1
    } else {
        let t = s.drop_last();
        assert(!all_ws(t)) by {
            let i = choose|i: int| 0 <= i < s.len() && !is_ws(s[i]);
            assert(t[i] == s[i]);
        }
        let e = last_non_ws_index(t);
        assert forall|j: int| e < j < s.len() implies is_ws(s[j]) by {
            if j < s.len() - 1 {
                assert(s[j] == t[j]);
            }
        }
        e
    }
}

/// Appending whitespace on the right does not change the trimmed value.
pub proof fn lemma_trim_concat_ws_right(p: Seq<char>, w: Seq<char>)
    requires
        all_ws(w),
    ensures
        trim_spec(p + w) == trim_spec(p),
{
    let s = p + w;
    if all_ws(p) {
        assert(all_ws(s));
        lemma_trim_all_ws(s);
        lemma_trim_all_ws(p);
    } else {
        let b = first_non_ws_index(p);
        let e = last_non_ws_index(p) + 1;
        lemma_trim_between(p, b, e);
        assert(forall|j: int| e <= j < s.len() && j < p.len() ==> is_ws(#[trigger] s[j]));
        assert(forall|j: int| p.len() <= j < s.len() ==> is_ws(#[trigger] s[j]));
        lemma_trim_between(s, b, e);
        assert(s.subrange(b, e) =~= p.subrange(b, e));
    }
}

} // verus!
