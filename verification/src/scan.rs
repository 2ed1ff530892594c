//! Character-level scanning over strings: first occurrence of a character,
//! end of a digit or whitespace run, prefix tests and substring search.
//! The spec functions here are the vocabulary in which the log grammar is
//! stated; the exec functions are proved to compute them.
use vstd::prelude::*;

verus! {

/// Index of the first occurrence of `c` in `s` at or after `i`,
/// or `s.len()` if there is none.
pub open spec fn find_at(s: Seq<char>, i: int, c: char) -> int
    decreases s.len() - i when 0 <= i <= s.len()
{
    if i >= s.len() {
        s.len() as int
    } else if s[i] == c {
        i
    } else {
        find_at(s, i + 1, c)
    }
}

pub open spec fn is_digit(c: char) -> bool {
    '0' <= c && c <= '9'
}

pub open spec fn is_space(c: char) -> bool {
    c == ' ' || c == '\t'
}

/// Index of the first character at or after `i` that is not a decimal digit,
/// or `s.len()` if the digit run reaches the end.
pub open spec fn digits_end(s: Seq<char>, i: int) -> int
    decreases s.len() - i when 0 <= i <= s.len()
{
    if i >= s.len() {
        s.len() as int
    } else if !is_digit(s[i]) {
        i
    } else {
        digits_end(s, i + 1)
    }
}

/// Index of the first character at or after `i` that is not a space or tab,
/// or `s.len()` if the whitespace run reaches the end.
pub open spec fn ws_end(s: Seq<char>, i: int) -> int
    decreases s.len() - i when 0 <= i <= s.len()
{
    if i >= s.len() {
        s.len() as int
    } else if !is_space(s[i]) {
        i
    } else {
        ws_end(s, i + 1)
    }
}

/// `p` occurs in `s` starting exactly at index `i`.
pub open spec fn prefix_at(s: Seq<char>, i: int, p: Seq<char>) -> bool {
    0 <= i && i + p.len() <= s.len() && s.subrange(i, i + p.len()) == p
}

/// Index of the first position at or after `i` where `p` occurs in `s`,
/// or `s.len() + 1` if `p` does not occur there.
pub open spec fn first_occur(s: Seq<char>, i: int, p: Seq<char>) -> int
    decreases s.len() + 1 - i when 0 <= i <= s.len() + 1
{
    if i + p.len() > s.len() {
        s.len() as int + 1
    } else if prefix_at(s, i, p) {
        i
    } else {
        first_occur(s, i + 1, p)
    }
}

/// `p` occurs somewhere in `s` at or after `i`.
pub open spec fn occurs(s: Seq<char>, i: int, p: Seq<char>) -> bool {
    first_occur(s, i, p) + p.len() <= s.len()
}

/// The suffix of `s` from `i` on, with leading whitespace removed.
pub open spec fn trim_from(s: Seq<char>, i: int) -> Seq<char> {
    s.subrange(ws_end(s, i), s.len() as int)
}

pub proof fn lemma_find_at(s: Seq<char>, i: int, c: char)
    requires
        0 <= i <= s.len(),
    ensures
        i <= find_at(s, i, c) <= s.len(),
        forall|k: int| i <= k < find_at(s, i, c) ==> s[k] != c,
        find_at(s, i, c) < s.len() ==> s[find_at(s, i, c)] == c,
    decreases s.len() - i,
{
    if i < s.len() && s[i] != c {
        lemma_find_at(s, i + 1, c);
    }
}

pub proof fn lemma_find_at_is(s: Seq<char>, i: int, c: char, j: int)
    requires
        0 <= i <= j <= s.len(),
        forall|k: int| i <= k < j ==> s[k] != c,
        j < s.len() ==> s[j] == c,
    ensures
        find_at(s, i, c) == j,
    decreases j - i,
{
    if i < j {
        assert(s[i] != c);
        lemma_find_at_is(s, i + 1, c, j);
    }
}

pub proof fn lemma_digits_end(s: Seq<char>, i: int)
    requires
        0 <= i <= s.len(),
    ensures
        i <= digits_end(s, i) <= s.len(),
        forall|k: int| i <= k < digits_end(s, i) ==> is_digit(s[k]),
        digits_end(s, i) < s.len() ==> !is_digit(s[digits_end(s, i)]),
    decreases s.len() - i,
{
    if i < s.len() && is_digit(s[i]) {
        lemma_digits_end(s, i + 1);
    }
}

pub proof fn lemma_digits_end_is(s: Seq<char>, i: int, j: int)
    requires
        0 <= i <= j <= s.len(),
        forall|k: int| i <= k < j ==> is_digit(s[k]),
        j < s.len() ==> !is_digit(s[j]),
    ensures
        digits_end(s, i) == j,
    decreases j - i,
{
    if i < j {
        assert(is_digit(s[i]));
        lemma_digits_end_is(s, i + 1, j);
    }
}

pub proof fn lemma_ws_end_is(s: Seq<char>, i: int, j: int)
    requires
        0 <= i <= j <= s.len(),
        forall|k: int| i <= k < j ==> is_space(s[k]),
        j < s.len() ==> !is_space(s[j]),
    ensures
        ws_end(s, i) == j,
    decreases j - i,
{
    if i < j {
        assert(is_space(s[i]));
        lemma_ws_end_is(s, i + 1, j);
    }
}

pub proof fn lemma_first_occur_found(s: Seq<char>, i: int, p: Seq<char>, j: int)
    requires
        0 <= i <= j,
        j + p.len() <= s.len(),
        prefix_at(s, j, p),
        forall|k: int| i <= k < j ==> !prefix_at(s, k, p),
    ensures
        first_occur(s, i, p) == j,
    decreases j - i,
{
    if i < j {
        assert(!prefix_at(s, i, p));
        lemma_first_occur_found(s, i + 1, p, j);
    }
}

pub proof fn lemma_first_occur_missing(s: Seq<char>, i: int, p: Seq<char>)
    requires
        0 <= i <= s.len() + 1,
        forall|k: int| i <= k ==> !prefix_at(s, k, p),
    ensures
        first_occur(s, i, p) == s.len() + 1,
    decreases s.len() + 1 - i,
{
    if i + p.len() <= s.len() {
        assert(!prefix_at(s, i, p));
        lemma_first_occur_missing(s, i + 1, p);
    }
}

/// First occurrence of the character `c` in `line` at or after `from`;
/// returns the character length of `line` when there is none.
pub fn find_char(line: &str, from: usize, c: char) -> (r: usize)
    requires
        from <= line@.len(),
    ensures
        r == find_at(line@, from as int, c),
        from <= r <= line@.len(),
{
    let n = line.unicode_len();
    let mut i = from;
    while i < n
        invariant
            from <= i <= n,
            n == line@.len(),
            forall|k: int| from <= k < i ==> line@[k] != c,
        decreases n - i,
    {
        if line.get_char(i) == c {
            proof {
                lemma_find_at_is(line@, from as int, c, i as int);
            }
            return i;
        }
        i += 1;
    }
    proof {
        lemma_find_at_is(line@, from as int, c, n as int);
    }
    n
}

/// End of the run of decimal digits that starts at `from`.
pub fn scan_digits_end(line: &str, from: usize) -> (r: usize)
    requires
        from <= line@.len(),
    ensures
        r == digits_end(line@, from as int),
        from <= r <= line@.len(),
{
    let n = line.unicode_len();
    let mut i = from;
    while i < n
        invariant
            from <= i <= n,
            n == line@.len(),
            forall|k: int| from <= k < i ==> is_digit(line@[k]),
        decreases n - i,
    {
        let ch = line.get_char(i);
        if !('0' <= ch && ch <= '9') {
            proof {
                lemma_digits_end_is(line@, from as int, i as int);
            }
            return i;
        }
        i += 1;
    }
    proof {
        lemma_digits_end_is(line@, from as int, n as int);
    }
    n
}

/// End of the run of blanks (spaces and tabs) that starts at `from`.
pub fn scan_ws_end(line: &str, from: usize) -> (r: usize)
    requires
        from <= line@.len(),
    ensures
        r == ws_end(line@, from as int),
        from <= r <= line@.len(),
{
    let n = line.unicode_len();
    let mut i = from;
    while i < n
        invariant
            from <= i <= n,
            n == line@.len(),
            forall|k: int| from <= k < i ==> is_space(line@[k]),
        decreases n - i,
    {
        let ch = line.get_char(i);
        if !(ch == ' ' || ch == '\t') {
            proof {
                lemma_ws_end_is(line@, from as int, i as int);
            }
            return i;
        }
        i += 1;
    }
    proof {
        lemma_ws_end_is(line@, from as int, n as int);
    }
    n
}

/// Whether `p` occurs in `line` starting exactly at index `at`.
pub fn has_prefix(line: &str, at: usize, p: &str) -> (r: bool)
    ensures
        r == prefix_at(line@, at as int, p@),
{
    let n = line.unicode_len();
    let pl = p.unicode_len();
    if at > n || pl > n - at {
        return false;
    }
    let mut k: usize = 0;
    while k < pl
        invariant
            0 <= k <= pl,
            at + pl <= n,
            n == line@.len(),
            pl == p@.len(),
            forall|j: int| 0 <= j < k ==> line@[at + j] == p@[j],
        decreases pl - k,
    {
        if line.get_char(at + k) != p.get_char(k) {
            proof {
                assert(line@.subrange(at as int, at + pl)[k as int] == line@[at + k]);
            }
            return false;
        }
        k += 1;
    }
    proof {
        assert(line@.subrange(at as int, at + pl) =~= p@);
    }
    true
}

/// Whether the characters of `line` in `[a, b)` spell exactly `p`.
pub fn range_is(line: &str, a: usize, b: usize, p: &str) -> (r: bool)
    requires
        a <= b <= line@.len(),
    ensures
        r == (line@.subrange(a as int, b as int) == p@),
{
    let pl = p.unicode_len();
    if b - a != pl {
        proof {
            assert(line@.subrange(a as int, b as int).len() == b - a);
        }
        return false;
    }
    let r = has_prefix(line, a, p);
    proof {
        if r {
            assert(line@.subrange(a as int, a + p@.len()) == line@.subrange(a as int, b as int));
        }
    }
    r
}

/// First position at or after `from` where `p` occurs in `line`, if any.
pub fn find_sub(line: &str, from: usize, p: &str) -> (r: Option<usize>)
    requires
        from <= line@.len(),
    ensures
        match r {
            Some(j) => j == first_occur(line@, from as int, p@) && occurs(
                line@,
                from as int,
                p@,
            ) && from <= j && j + p@.len() <= line@.len(),
            None => !occurs(line@, from as int, p@),
        },
{
    let n = line.unicode_len();
    let pl = p.unicode_len();
    if pl == 0 {
        proof {
            assert(line@.subrange(from as int, from as int) =~= p@);
            lemma_first_occur_found(line@, from as int, p@, from as int);
        }
        return Some(from);
    }
    if pl > n || from > n - pl {
        proof {
            assert(forall|k: int| from <= k ==> !prefix_at(line@, k, p@));
            lemma_first_occur_missing(line@, from as int, p@);
        }
        return None;
    }
    let mut i = from;
    while i <= n - pl
        invariant
            from <= i <= n - pl + 1,
            1 <= pl <= n,
            n == line@.len(),
            pl == p@.len(),
            forall|k: int| from <= k < i ==> !prefix_at(line@, k, p@),
        decreases n - pl + 1 - i,
    {
        if has_prefix(line, i, p) {
            proof {
                lemma_first_occur_found(line@, from as int, p@, i as int);
            }
            return Some(i);
        }
        i += 1;
    }
    proof {
        assert(forall|k: int| from <= k ==> !prefix_at(line@, k, p@));
        lemma_first_occur_missing(line@, from as int, p@);
    }
    None
}

/// Index of the last occurrence of `c` in `s`, or `-1` if there is none.
pub open spec fn rfind_at(s: Seq<char>, c: char) -> int
    decreases s.len(),
{
    if s.len() == 0 {
        -1
    } else if s.last() == c {
        s.len() - 1
    } else {
        rfind_at(s.drop_last(), c)
    }
}

pub proof fn lemma_rfind_at(s: Seq<char>, c: char)
    ensures
        -1 <= rfind_at(s, c) < s.len(),
        rfind_at(s, c) >= 0 ==> s[rfind_at(s, c)] == c,
        forall|k: int| rfind_at(s, c) < k < s.len() ==> s[k] != c,
    decreases s.len(),
{
    if s.len() > 0 && s.last() != c {
        lemma_rfind_at(s.drop_last(), c);
        assert(forall|k: int| 0 <= k < s.len() - 1 ==> s.drop_last()[k] == s[k]);
    }
}

pub proof fn lemma_rfind_at_is(s: Seq<char>, c: char, j: int)
    requires
        -1 <= j < s.len(),
        j >= 0 ==> s[j] == c,
        forall|k: int| j < k < s.len() ==> s[k] != c,
    ensures
        rfind_at(s, c) == j,
    decreases s.len(),
{
    if s.len() > 0 {
        if j == s.len() - 1 {
        } else {
            assert(s.last() != c);
            assert(forall|k: int| 0 <= k < s.len() - 1 ==> s.drop_last()[k] == s[k]);
            lemma_rfind_at_is(s.drop_last(), c, j);
        }
    }
}

/// Last occurrence of the character `c` in `line`, if any.
pub fn rfind_char(line: &str, c: char) -> (r: Option<usize>)
    ensures
        match r {
            Some(j) => j == rfind_at(line@, c) && j < line@.len(),
            None => rfind_at(line@, c) == -1,
        },
{
    let n = line.unicode_len();
    let mut i = n;
    while i > 0
        invariant
            0 <= i <= n,
            n == line@.len(),
            forall|k: int| i <= k < n ==> line@[k] != c,
        decreases i,
    {
        i -= 1;
        if line.get_char(i) == c {
            proof {
                lemma_rfind_at_is(line@, c, i as int);
            }
            return Some(i);
        }
    }
    proof {
        lemma_rfind_at_is(line@, c, -1);
    }
    None
}

/// Whether `s` spells exactly `p`.
pub fn str_eq(s: &str, p: &str) -> (r: bool)
    ensures
        r == (s@ == p@),
{
    let n = s.unicode_len();
    let pl = p.unicode_len();
    if n != pl {
        return false;
    }
    let r = has_prefix(s, 0, p);
    proof {
        assert(s@.subrange(0, n as int) =~= s@);
    }
    r
}

/// Copies the characters of `line` in `[a, b)` into an owned string.
pub fn copy_range(line: &str, a: usize, b: usize) -> (r: String)
    requires
        a <= b <= line@.len(),
    ensures
        r@ == line@.subrange(a as int, b as int),
{
    line.substring_char(a, b).to_owned()
}

} // verus!
