//! Character-level text utilities: leading-whitespace measurement,
//! trimming, prefix/suffix/substring tests, and the small string
//! constructions the choice formatter needs.

use vstd::prelude::*;

verus! {

/// A character counts as whitespace for indentation and trimming.
/// Indentation is expected to be spaces; a tab counts as a single
/// whitespace unit, and stray carriage returns are treated likewise.
pub open spec fn is_ws(c: char) -> bool {
    c == ' ' || c == '\t' || c == '\r' || c == '\n'
}

/// Length of the longest all-whitespace prefix of `s`.
pub open spec fn ws_prefix_len(s: Seq<char>) -> int
    decreases s.len(),
{
    if s.len() == 0 || !is_ws(s[0]) {
        0
    } else {
        1 + ws_prefix_len(s.subrange(1, s.len() as int))
    }
}

/// Characterization of `ws_prefix_len`: it is in bounds, everything before
/// it is whitespace, and the character at it (if any) is not.
pub proof fn lemma_ws_prefix_len(s: Seq<char>)
    ensures
        0 <= ws_prefix_len(s) <= s.len(),
        forall|i: int| 0 <= i < ws_prefix_len(s) ==> is_ws(s[i]),
        ws_prefix_len(s) < s.len() ==> !is_ws(s[ws_prefix_len(s)]),
    decreases s.len(),
{
    if s.len() == 0 || !is_ws(s[0]) {
    } else {
        let t = s.subrange(1, s.len() as int);
        lemma_ws_prefix_len(t);
        assert forall|i: int| 0 <= i < ws_prefix_len(s) implies is_ws(s[i]) by {
            if i >= 1 {
                assert(t[i - 1] == s[i]);
            }
        }
        if ws_prefix_len(s) < s.len() {
            assert(t[ws_prefix_len(s) - 1] == s[ws_prefix_len(s)]);
        }
    }
}

/// Exec test matching `is_ws`.
pub fn is_ws_char(c: char) -> (r: bool)
    ensures
        r == is_ws(c),
{
    c == ' ' || c == '\t' || c == '\r' || c == '\n'
}

/// Count of leading whitespace characters of a line. Empty lines yield 0.
pub fn count_leading_spaces(line: &str) -> (n: usize)
    ensures
        n == ws_prefix_len(line@),
{
    let len = line.unicode_len();
    let mut i: usize = 0;
    proof {
        lemma_ws_prefix_len(line@);
    }
    while i < len && is_ws_char(line.get_char(i))
        invariant
            0 <= i <= len,
            len == line@.len(),
            forall|k: int| 0 <= k < i ==> is_ws(line@[k]),
            i <= ws_prefix_len(line@),
        decreases len - i,
    {
        proof {
            lemma_ws_prefix_len(line@);
            if ws_prefix_len(line@) == i {
                assert(!is_ws(line@[i as int]));
            }
        }
        i = i + 1;
    }
    proof {
        lemma_ws_prefix_len(line@);
        if i < ws_prefix_len(line@) {
            assert(is_ws(line@[i as int]));
        }
    }
    i
}

/// Length of the longest all-whitespace suffix of `s`.
pub open spec fn ws_suffix_len(s: Seq<char>) -> int
    decreases s.len(),
{
    if s.len() == 0 || !is_ws(s[s.len() - 1]) {
        0
    } else {
        1 + ws_suffix_len(s.subrange(0, s.len() - 1))
    }
}

/// Characterization of `ws_suffix_len`.
pub proof fn lemma_ws_suffix_len(s: Seq<char>)
    ensures
        0 <= ws_suffix_len(s) <= s.len(),
        forall|i: int| s.len() - ws_suffix_len(s) <= i < s.len() ==> is_ws(s[i]),
        ws_suffix_len(s) < s.len() ==> !is_ws(s[s.len() - ws_suffix_len(s) - 1]),
    decreases s.len(),
{
    if s.len() == 0 || !is_ws(s[s.len() - 1]) {
    } else {
        let t = s.subrange(0, s.len() - 1);
        lemma_ws_suffix_len(t);
        assert forall|i: int| s.len() - ws_suffix_len(s) <= i < s.len() implies is_ws(s[i]) by {
            if i < s.len() - 1 {
                assert(t[i] == s[i]);
            }
        }
        if ws_suffix_len(s) < s.len() {
            assert(t[s.len() - ws_suffix_len(s) - 1] == s[s.len() - ws_suffix_len(s) - 1]);
        }
    }
}

/// `s` with leading and trailing whitespace removed.
pub open spec fn trim_spec(s: Seq<char>) -> Seq<char> {
    if ws_prefix_len(s) == s.len() {
        Seq::empty()
    } else {
        s.subrange(ws_prefix_len(s), s.len() - ws_suffix_len(s))
    }
}

/// When `s` is not all whitespace, the trim bounds are a valid, non-empty range.
pub proof fn lemma_trim_bounds(s: Seq<char>)
    ensures
        ws_prefix_len(s) < s.len() ==> ws_prefix_len(s) < s.len() - ws_suffix_len(s),
{
    lemma_ws_prefix_len(s);
    lemma_ws_suffix_len(s);
    if ws_prefix_len(s) < s.len() {
        if s.len() - ws_suffix_len(s) <= ws_prefix_len(s) {
            assert(is_ws(s[ws_prefix_len(s)]));
        }
    }
}

/// The trimmed copy of a line, as the engine sees every line before
/// classifying it.
pub fn trim_of<'a>(line: &'a str) -> (r: &'a str)
    ensures
        r@ == trim_spec(line@),
{
    let len = line.unicode_len();
    let a = count_leading_spaces(line);
    proof {
        lemma_ws_prefix_len(line@);
        lemma_ws_suffix_len(line@);
        lemma_trim_bounds(line@);
    }
    if a == len {
        let r = line.substring_char(0, 0);
        proof {
            assert(r@ =~= trim_spec(line@));
        }
        return r;
    }
    let mut b: usize = len;
    while b > a && is_ws_char(line.get_char(b - 1))
        invariant
            a < b <= len,
            len == line@.len(),
            a == ws_prefix_len(line@),
            a < len,
            !is_ws(line@[a as int]),
            forall|k: int| b <= k < len ==> is_ws(line@[k]),
        decreases b,
    {
        b = b - 1;
    }
    proof {
        lemma_ws_suffix_len(line@);
        let wsl = ws_suffix_len(line@);
        if line@.len() - wsl < b {
            assert(is_ws(line@[b - 1]));
        }
        if line@.len() - wsl > b {
            assert(wsl < line@.len());
            assert(is_ws(line@[line@.len() - wsl - 1]));
        }
        assert(b == line@.len() - wsl);
    }
    line.substring_char(a, b)
}

/// `p` is a prefix of `s`.
pub open spec fn has_prefix(s: Seq<char>, p: Seq<char>) -> bool {
    p.len() <= s.len() && s.subrange(0, p.len() as int) == p
}

/// `p` is a suffix of `s`.
pub open spec fn has_suffix(s: Seq<char>, p: Seq<char>) -> bool {
    p.len() <= s.len() && s.subrange(s.len() - p.len(), s.len() as int) == p
}

/// `p` occurs in `s` starting at index `i`.
pub open spec fn match_at(s: Seq<char>, p: Seq<char>, i: int) -> bool {
    0 <= i && i + p.len() <= s.len() && s.subrange(i, i + p.len()) == p
}

/// `p` occurs somewhere in `s`.
pub open spec fn has_substr(s: Seq<char>, p: Seq<char>) -> bool {
    exists|i: int| match_at(s, p, i)
}

/// Exec prefix test.
pub fn str_starts_with(s: &str, p: &str) -> (r: bool)
    ensures
        r == has_prefix(s@, p@),
{
    let sl = s.unicode_len();
    let pl = p.unicode_len();
    if pl > sl {
        return false;
    }
    let mut k: usize = 0;
    while k < pl
        invariant
            0 <= k <= pl,
            pl == p@.len(),
            sl == s@.len(),
            pl <= sl,
            forall|j: int| 0 <= j < k ==> s@[j] == p@[j],
        decreases pl - k,
    {
        if s.get_char(k) != p.get_char(k) {
            proof {
                assert(s@.subrange(0, pl as int)[k as int] != p@[k as int]);
            }
            return false;
        }
        k = k + 1;
    }
    proof {
        assert(s@.subrange(0, pl as int) =~= p@);
    }
    true
}

/// Exec suffix test.
pub fn str_ends_with(s: &str, p: &str) -> (r: bool)
    ensures
        r == has_suffix(s@, p@),
{
    let sl = s.unicode_len();
    let pl = p.unicode_len();
    if pl > sl {
        return false;
    }
    let off = sl - pl;
    let mut k: usize = 0;
    while k < pl
        invariant
            0 <= k <= pl,
            pl == p@.len(),
            sl == s@.len(),
            pl <= sl,
            off == sl - pl,
            forall|j: int| 0 <= j < k ==> s@[off + j] == p@[j],
        decreases pl - k,
    {
        if s.get_char(off + k) != p.get_char(k) {
            proof {
                assert(s@.subrange(s@.len() - p@.len(), s@.len() as int)[k as int] != p@[k as int]);
            }
            return false;
        }
        k = k + 1;
    }
    proof {
        assert(s@.subrange(s@.len() - p@.len(), s@.len() as int) =~= p@);
    }
    true
}

/// Exec test for a match of `p` in `s` at position `i`.
fn match_at_exec(s: &str, p: &str, i: usize) -> (r: bool)
    requires
        i + p@.len() <= s@.len(),
    ensures
        r == match_at(s@, p@, i as int),
{
    let sl = s.unicode_len();
    let pl = p.unicode_len();
    let mut k: usize = 0;
    while k < pl
        invariant
            0 <= k <= pl,
            pl == p@.len(),
            sl == s@.len(),
            i + pl <= sl,
            forall|j: int| 0 <= j < k ==> s@[i + j] == p@[j],
        decreases pl - k,
    {
        if s.get_char(i + k) != p.get_char(k) {
            proof {
                assert(s@.subrange(i as int, i + p@.len())[k as int] != p@[k as int]);
            }
            return false;
        }
        k = k + 1;
    }
    proof {
        assert(s@.subrange(i as int, i + p@.len()) =~= p@);
    }
    true
}

/// Exec substring test.
pub fn str_contains(s: &str, p: &str) -> (r: bool)
    ensures
        r == has_substr(s@, p@),
{
    let sl = s.unicode_len();
    let pl = p.unicode_len();
    if pl > sl {
        proof {
            assert(forall|i: int| !match_at(s@, p@, i));
        }
        return false;
    }
    if pl == 0 {
        proof {
            assert(s@.subrange(0, 0) =~= p@);
            assert(match_at(s@, p@, 0));
        }
        return true;
    }
    let mut i: usize = 0;
    while i <= sl - pl
        invariant
            0 <= i <= sl - pl + 1,
            1 <= pl <= sl,
            sl == s@.len(),
            pl == p@.len(),
            forall|j: int| 0 <= j < i ==> !match_at(s@, p@, j),
        decreases sl - pl - i + 1,
    {
        if match_at_exec(s, p, i) {
            proof {
                assert(has_substr(s@, p@));
            }
            return true;
        }
        i = i + 1;
    }
    proof {
        assert forall|j: int| !match_at(s@, p@, j) by {
            if 0 <= j && j + p@.len() <= s@.len() {
                assert(j < i);
            }
        }
    }
    false
}

/// ASCII lower-casing of one character; everything outside `A..Z` is kept.
pub open spec fn lower_char(c: char) -> char {
    match c {
        'A' => 'a',
        'B' => 'b',
        'C' => 'c',
        'D' => 'd',
        'E' => 'e',
        'F' => 'f',
        'G' => 'g',
        'H' => 'h',
        'I' => 'i',
        'J' => 'j',
        'K' => 'k',
        'L' => 'l',
        'M' => 'm',
        'N' => 'n',
        'O' => 'o',
        'P' => 'p',
        'Q' => 'q',
        'R' => 'r',
        'S' => 's',
        'T' => 't',
        'U' => 'u',
        'V' => 'v',
        'W' => 'w',
        'X' => 'x',
        'Y' => 'y',
        'Z' => 'z',
        _ => c,
    }
}

/// `s` lower-cased character by character (ASCII only).
pub open spec fn lower_seq(s: Seq<char>) -> Seq<char> {
    Seq::new(s.len(), |i: int| lower_char(s[i]))
}

/// Exec ASCII lower-casing of one character.
pub fn to_lower(c: char) -> (r: char)
    ensures
        r == lower_char(c),
{
    match c {
        'A' => 'a',
        'B' => 'b',
        'C' => 'c',
        'D' => 'd',
        'E' => 'e',
        'F' => 'f',
        'G' => 'g',
        'H' => 'h',
        'I' => 'i',
        'J' => 'j',
        'K' => 'k',
        'L' => 'l',
        'M' => 'm',
        'N' => 'n',
        'O' => 'o',
        'P' => 'p',
        'Q' => 'q',
        'R' => 'r',
        'S' => 's',
        'T' => 't',
        'U' => 'u',
        'V' => 'v',
        'W' => 'w',
        'X' => 'x',
        'Y' => 'y',
        'Z' => 'z',
        _ => c,
    }
}

/// Exec test for a match of `p` in the lower-cased `s` at position `i`.
fn match_at_lower_exec(s: &str, p: &str, i: usize) -> (r: bool)
    requires
        i + p@.len() <= s@.len(),
    ensures
        r == match_at(lower_seq(s@), p@, i as int),
{
    let sl = s.unicode_len();
    let pl = p.unicode_len();
    let mut k: usize = 0;
    while k < pl
        invariant
            0 <= k <= pl,
            pl == p@.len(),
            sl == s@.len(),
            i + pl <= sl,
            forall|j: int| 0 <= j < k ==> lower_seq(s@)[i + j] == p@[j],
        decreases pl - k,
    {
        if to_lower(s.get_char(i + k)) != p.get_char(k) {
            proof {
                assert(lower_seq(s@).subrange(i as int, i + p@.len())[k as int] != p@[k as int]);
            }
            return false;
        }
        k = k + 1;
    }
    proof {
        assert(lower_seq(s@).subrange(i as int, i + p@.len()) =~= p@);
    }
    true
}

/// Substring test against the ASCII-lower-cased copy of `s`; `p` is
/// expected to be given in lower case already.
pub fn str_contains_lower(s: &str, p: &str) -> (r: bool)
    ensures
        r == has_substr(lower_seq(s@), p@),
{
    let sl = s.unicode_len();
    let pl = p.unicode_len();
    if pl > sl {
        proof {
            assert(forall|i: int| !match_at(lower_seq(s@), p@, i));
        }
        return false;
    }
    if pl == 0 {
        proof {
            assert(lower_seq(s@).subrange(0, 0) =~= p@);
            assert(match_at(lower_seq(s@), p@, 0));
        }
        return true;
    }
    let mut i: usize = 0;
    while i <= sl - pl
        invariant
            0 <= i <= sl - pl + 1,
            1 <= pl <= sl,
            sl == s@.len(),
            pl == p@.len(),
            forall|j: int| 0 <= j < i ==> !match_at(lower_seq(s@), p@, j),
        decreases sl - pl - i + 1,
    {
        if match_at_lower_exec(s, p, i) {
            proof {
                assert(has_substr(lower_seq(s@), p@));
            }
            return true;
        }
        i = i + 1;
    }
    proof {
        assert forall|j: int| !match_at(lower_seq(s@), p@, j) by {
            if 0 <= j && j + p@.len() <= lower_seq(s@).len() {
                assert(j < i);
            }
        }
    }
    false
}

/// Index of the first occurrence of `c` in `s` at or after `from`;
/// `s.len()` when there is none.
pub open spec fn find_from(s: Seq<char>, from: int, c: char) -> int
    decreases s.len() - from,
{
    if from < 0 || from >= s.len() {
        s.len() as int
    } else if s[from] == c {
        from
    } else {
        find_from(s, from + 1, c)
    }
}

/// `find_from` stays between its starting point and the length.
pub proof fn lemma_find_from_bounds(s: Seq<char>, from: int, c: char)
    requires
        0 <= from <= s.len(),
    ensures
        from <= find_from(s, from, c) <= s.len(),
    decreases s.len() - from,
{
    if from < s.len() && s[from] != c {
        lemma_find_from_bounds(s, from + 1, c);
    }
}

/// Exec search for a character, from a given position.
pub fn find_char(s: &str, from: usize, c: char) -> (r: usize)
    requires
        from <= s@.len(),
    ensures
        r == find_from(s@, from as int, c),
{
    let len = s.unicode_len();
    let mut j: usize = from;
    while j < len
        invariant
            from <= j <= len,
            len == s@.len(),
            find_from(s@, from as int, c) == find_from(s@, j as int, c),
        decreases len - j,
    {
        if s.get_char(j) == c {
            return j;
        }
        j = j + 1;
    }
    j
}

/// A run of `n` spaces.
pub open spec fn spaces(n: int) -> Seq<char> {
    Seq::new(n as nat, |i: int| ' ')
}

/// Exec construction of a run of `n` spaces, used to restore a rewritten
/// line's original indentation.
pub fn repeat_spaces(n: usize) -> (r: String)
    ensures
        r@ == spaces(n as int),
{
    proof {
        reveal_strlit(" ");
    }
    let mut r = String::new();
    let mut i: usize = 0;
    while i < n
        invariant
            0 <= i <= n,
            r@ =~= spaces(i as int),
        decreases n - i,
    {
        r.append(" ");
        proof {
            reveal_strlit(" ");
            assert(r@ =~= spaces(i as int + 1));
        }
        i = i + 1;
    }
    proof {
        assert(r@ =~= spaces(n as int));
    }
    r
}

/// Exec string equality at the character level.
pub fn str_eq(a: &str, b: &str) -> (r: bool)
    ensures
        r == (a@ == b@),
{
    let al = a.unicode_len();
    let bl = b.unicode_len();
    if al != bl {
        return false;
    }
    let mut k: usize = 0;
    while k < al
        invariant
            0 <= k <= al,
            al == a@.len(),
            al == b@.len(),
            forall|j: int| 0 <= j < k ==> a@[j] == b@[j],
        decreases al - k,
    {
        if a.get_char(k) != b.get_char(k) {
            return false;
        }
        k = k + 1;
    }
    proof {
        assert(a@ =~= b@);
    }
    true
}

} // verus!

