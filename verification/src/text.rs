//! Character-level scanning primitives shared by the template parser.
//!
//! Each executable scanner is proved equal to a recursive spec function;
//! the parser's grammar is then stated entirely over those spec functions.
use vstd::prelude::*;

verus! {

/// The whitespace characters recognised between tokens of a template tag.
pub open spec fn is_space(c: char) -> bool {
    c == ' ' || c == '\t' || c == '\n' || c == '\r'
}

/// Executable twin of [`is_space`].
pub fn space_char(c: char) -> (b: bool)
    ensures
        b == is_space(c),
{
    c == ' ' || c == '\t' || c == '\n' || c == '\r'
}

/// The pattern `pat` occurs in `s` starting exactly at position `i`.
pub open spec fn starts_at(s: Seq<char>, i: int, pat: Seq<char>) -> bool {
    &&& 0 <= i
    &&& i + pat.len() <= s.len()
    &&& forall|k: int| 0 <= k < pat.len() ==> s[i + k] == pat[k]
}

/// Executable check for [`starts_at`].
pub fn starts_with_at(s: &str, i: usize, pat: &Vec<char>) -> (b: bool)
    requires
        i <= s@.len(),
    ensures
        b == starts_at(s@, i as int, pat@),
{
    let n = s.unicode_len();
    if pat.len() > n - i {
        return false;
    }
    let mut k: usize = 0;
    while k < pat.len()
        invariant
            0 <= k <= pat@.len(),
            i + pat@.len() <= s@.len(),
            s@.len() <= usize::MAX,
            forall|j: int| 0 <= j < k ==> s@[i + j] == pat@[j],
        decreases pat@.len() - k,
    {
        if s.get_char(i + k) != pat[k] {
            return false;
        }
        k += 1;
    }
    true
}

/// Executable check for [`starts_at`] against a string pattern.
pub fn starts_with_str(s: &str, i: usize, pat: &str) -> (b: bool)
    requires
        i <= s@.len(),
    ensures
        b == starts_at(s@, i as int, pat@),
{
    let n = s.unicode_len();
    let m = pat.unicode_len();
    if m > n - i {
        return false;
    }
    let mut k: usize = 0;
    while k < m
        invariant
            0 <= k <= m,
            m == pat@.len(),
            n == s@.len(),
            i + m <= n,
            forall|j: int| 0 <= j < k ==> s@[i + j] == pat@[j],
        decreases m - k,
    {
        if s.get_char(i + k) != pat.get_char(k) {
            return false;
        }
        k += 1;
    }
    true
}

/// First position `j` in `[i, s.len() - 1]` where `a` is followed by `b`.
pub open spec fn find_pair_at(s: Seq<char>, i: int, a: char, b: char) -> Option<int>
    decreases s.len() - i,
{
    if i < 0 || i + 2 > s.len() {
        Option::None
    } else if s[i] == a && s[i + 1] == b {
        Option::Some(i)
    } else {
        find_pair_at(s, i + 1, a, b)
    }
}

/// Executable twin of [`find_pair_at`].
pub fn find_pair(s: &str, i: usize, a: char, b: char) -> (r: Option<usize>)
    requires
        i <= s@.len(),
    ensures
        match r {
            Option::Some(j) => find_pair_at(s@, i as int, a, b) == Option::Some(j as int),
            Option::None => find_pair_at(s@, i as int, a, b) is None,
        },
{
    let n = s.unicode_len();
    let mut j: usize = i;
    loop
        invariant
            i <= j <= n,
            n == s@.len(),
            find_pair_at(s@, i as int, a, b) == find_pair_at(s@, j as int, a, b),
        decreases n - j,
    {
        if n - j < 2 {
            return Option::None;
        }
        if s.get_char(j) == a && s.get_char(j + 1) == b {
            return Option::Some(j);
        }
        j += 1;
    }
}

/// A `{{` or `{%` delimiter opens at position `i` of `s`.
pub open spec fn tag_opens(s: Seq<char>, i: int) -> bool {
    0 <= i && i + 2 <= s.len() && s[i] == '{' && (s[i + 1] == '{' || s[i + 1] == '%')
}

/// End of a literal text run that begins at `i`: the first position at or
/// after `i` where a `{{` or `{%` delimiter opens, or the end of the input.
pub open spec fn text_run_end(s: Seq<char>, i: int) -> int
    decreases s.len() - i,
{
    if i < 0 || i >= s.len() {
        s.len() as int
    } else if tag_opens(s, i) {
        i
    } else {
        text_run_end(s, i + 1)
    }
}

/// Executable twin of [`text_run_end`].
pub fn find_text_run_end(s: &str, i: usize) -> (r: usize)
    requires
        i <= s@.len(),
    ensures
        r == text_run_end(s@, i as int),
        i <= r <= s@.len(),
{
    let n = s.unicode_len();
    let mut j: usize = i;
    loop
        invariant
            i <= j <= n,
            n == s@.len(),
            text_run_end(s@, i as int) == text_run_end(s@, j as int),
        decreases n - j,
    {
        if j >= n {
            return j;
        }
        if s.get_char(j) == '{' && j + 1 < n {
            let c2 = s.get_char(j + 1);
            if c2 == '{' || c2 == '%' {
                return j;
            }
        }
        assert(!tag_opens(s@, j as int));
        j += 1;
    }
}

/// Where [`find_pair_at`] finds a position, the pair stands there, within bounds.
pub proof fn lemma_find_pair_at(s: Seq<char>, i: int, a: char, b: char)
    ensures
        match find_pair_at(s, i, a, b) {
            Option::Some(j) => i <= j && 0 <= j && j + 2 <= s.len() && s[j] == a && s[j + 1] == b,
            Option::None => true,
        },
    decreases s.len() - i,
{
    if i < 0 || i + 2 > s.len() {
    } else if s[i] == a && s[i + 1] == b {
    } else {
        lemma_find_pair_at(s, i + 1, a, b);
    }
}

/// A text run's end stays within the input.
pub proof fn lemma_text_run_end_bounds(s: Seq<char>, i: int)
    requires
        0 <= i <= s.len(),
    ensures
        i <= text_run_end(s, i) <= s.len(),
    decreases s.len() - i,
{
    if i < s.len() && !tag_opens(s, i) {
        lemma_text_run_end_bounds(s, i + 1);
    }
}

/// First position in `[i, end)` holding a non-whitespace character, or `end`.
pub open spec fn skip_ws(s: Seq<char>, i: int, end: int) -> int
    decreases end - i,
{
    if i < 0 || i >= end || i >= s.len() {
        end
    } else if is_space(s[i]) {
        skip_ws(s, i + 1, end)
    } else {
        i
    }
}

/// Executable twin of [`skip_ws`].
pub fn skip_ws_from(s: &str, i: usize, end: usize) -> (r: usize)
    requires
        i <= end,
        end <= s@.len(),
    ensures
        r == skip_ws(s@, i as int, end as int),
        i <= r <= end,
{
    let mut j: usize = i;
    loop
        invariant
            i <= j <= end,
            end <= s@.len(),
            skip_ws(s@, i as int, end as int) == skip_ws(s@, j as int, end as int),
        decreases end - j,
    {
        if j >= end {
            return end;
        }
        if !space_char(s.get_char(j)) {
            return j;
        }
        j += 1;
    }
}

/// First position in `[i, end)` holding a plain space, or `end`.
pub open spec fn till_space(s: Seq<char>, i: int, end: int) -> int
    decreases end - i,
{
    if i < 0 || i >= end || i >= s.len() {
        end
    } else if s[i] == ' ' {
        i
    } else {
        till_space(s, i + 1, end)
    }
}

/// Executable twin of [`till_space`].
pub fn till_space_from(s: &str, i: usize, end: usize) -> (r: usize)
    requires
        i <= end,
        end <= s@.len(),
    ensures
        r == till_space(s@, i as int, end as int),
        i <= r <= end,
{
    let mut j: usize = i;
    loop
        invariant
            i <= j <= end,
            end <= s@.len(),
            till_space(s@, i as int, end as int) == till_space(s@, j as int, end as int),
        decreases end - j,
    {
        if j >= end {
            return end;
        }
        if s.get_char(j) == ' ' {
            return j;
        }
        j += 1;
    }
}

/// First position in `[i, end)` holding a single or double quote, or `end`.
pub open spec fn till_quote(s: Seq<char>, i: int, end: int) -> int
    decreases end - i,
{
    if i < 0 || i >= end || i >= s.len() {
        end
    } else if s[i] == '\'' || s[i] == '"' {
        i
    } else {
        till_quote(s, i + 1, end)
    }
}

/// Executable twin of [`till_quote`].
pub fn till_quote_from(s: &str, i: usize, end: usize) -> (r: usize)
    requires
        i <= end,
        end <= s@.len(),
    ensures
        r == till_quote(s@, i as int, end as int),
        i <= r <= end,
{
    let mut j: usize = i;
    loop
        invariant
            i <= j <= end,
            end <= s@.len(),
            till_quote(s@, i as int, end as int) == till_quote(s@, j as int, end as int),
        decreases end - j,
    {
        if j >= end {
            return end;
        }
        let c = s.get_char(j);
        if c == '\'' || c == '"' {
            return j;
        }
        j += 1;
    }
}

/// Largest position `j` in `[lo, end]` such that `[j, end)` is all
/// whitespace, stopping at the first non-whitespace from the right.
pub open spec fn rskip_ws(s: Seq<char>, lo: int, end: int) -> int
    decreases end - lo,
{
    if end <= lo || end > s.len() || end < 1 {
        lo
    } else if is_space(s[end - 1]) {
        rskip_ws(s, lo, end - 1)
    } else {
        end
    }
}

/// The slice `[from, to)` of `s` with surrounding whitespace removed.
pub open spec fn trimmed(s: Seq<char>, from: int, to: int) -> Seq<char> {
    let a = skip_ws(s, from, to);
    let b = rskip_ws(s, a, to);
    s.subrange(a, b)
}

/// Extracts `s[from..to]` trimmed of surrounding whitespace, as an owned string.
pub fn trim_substring(s: &str, from: usize, to: usize) -> (r: String)
    requires
        from <= to,
        to <= s@.len(),
    ensures
        r@ == trimmed(s@, from as int, to as int),
{
    let a = skip_ws_from(s, from, to);
    let mut b: usize = to;
    while b > a && space_char(s.get_char(b - 1))
        invariant
            a <= b <= to,
            to <= s@.len(),
            a == skip_ws(s@, from as int, to as int),
            rskip_ws(s@, a as int, to as int) == rskip_ws(s@, a as int, b as int),
        decreases b - a,
    {
        b -= 1;
    }
    assert(rskip_ws(s@, a as int, b as int) == b);
    let piece = s.substring_char(a, b);
    let mut out = String::new();
    out.append(piece);
    assert(out@ =~= trimmed(s@, from as int, to as int));
    out
}

} // verus!
