//! Character-level scanning primitives shared by the line templates: digit
//! runs, token runs, and separator searches, each with a specification-level
//! definition and the lemmas that tie the executable scans to it.

use vstd::prelude::*;

verus! {

/// An ASCII decimal digit.
pub open spec fn is_digit_char(c: char) -> bool {
    48 <= c as u32 && c as u32 <= 57
}

/// Numeric value of an ASCII digit character.
pub open spec fn digit_val(c: char) -> int {
    c as u32 - 48
}

/// Every character of `s` in the index range `[i, j)` is an ASCII digit.
pub open spec fn all_digits(s: Seq<char>, i: int, j: int) -> bool {
    forall|k: int| i <= k < j ==> is_digit_char(s[k])
}

/// Ten to the `k`-th power.
pub open spec fn pow10(k: nat) -> int
    decreases k,
{
    if k == 0 {
        1
    } else {
        10 * pow10((k - 1) as nat)
    }
}

/// The decimal value of the digit characters of `s` in `[i, j)`,
/// most significant first.
pub open spec fn digits_val(s: Seq<char>, i: int, j: int) -> int
    decreases j - i,
{
    if j <= i {
        0
    } else {
        digits_val(s, i, j - 1) * 10 + digit_val(s[j - 1])
    }
}

/// A digit run's value is bounded by ten to the run's length.
pub proof fn lemma_digits_val_bound(s: Seq<char>, i: int, j: int)
    requires
        i <= j,
        all_digits(s, i, j),
    ensures
        0 <= digits_val(s, i, j) < pow10((j - i) as nat),
    decreases j - i,
{
    if j > i {
        lemma_digits_val_bound(s, i, j - 1);
    }
}

/// The first index at or after `i` that does not hold a digit
/// (the length of `s` if the digits run to the end).
pub open spec fn digits_end(s: Seq<char>, i: int) -> int
    decreases s.len() - i when 0 <= i <= s.len()
{
    if i >= s.len() {
        i
    } else if !is_digit_char(s[i]) {
        i
    } else {
        digits_end(s, i + 1)
    }
}

/// What `digits_end` returns: the end of the maximal digit run from `i`.
pub proof fn lemma_digits_end(s: Seq<char>, i: int)
    requires
        0 <= i <= s.len(),
    ensures
        i <= digits_end(s, i) <= s.len(),
        all_digits(s, i, digits_end(s, i)),
        digits_end(s, i) < s.len() ==> !is_digit_char(s[digits_end(s, i)]),
    decreases s.len() - i,
{
    if i < s.len() && is_digit_char(s[i]) {
        lemma_digits_end(s, i + 1);
    }
}

/// Any index that ends a maximal digit run from `i` is `digits_end(s, i)`.
pub proof fn lemma_digits_end_is(s: Seq<char>, i: int, j: int)
    requires
        0 <= i <= j <= s.len(),
        all_digits(s, i, j),
        j == s.len() || !is_digit_char(s[j]),
    ensures
        digits_end(s, i) == j,
    decreases j - i,
{
    if i < j {
        lemma_digits_end_is(s, i + 1, j);
    }
}

/// A digit run that ends before the end of the string is found unchanged,
/// shifted by `off`, in any sequence that agrees with it on the run and on
/// its terminating character.
pub proof fn lemma_digits_end_agree(s1: Seq<char>, s2: Seq<char>, i: int, off: int)
    requires
        0 <= i <= s1.len(),
        digits_end(s1, i) < s1.len(),
        0 <= i + off,
        digits_end(s1, i) + off < s2.len(),
        forall|k: int| i <= k <= digits_end(s1, i) ==> s2[k + off] == s1[k],
    ensures
        digits_end(s2, i + off) == digits_end(s1, i) + off,
{
    let e = digits_end(s1, i);
    lemma_digits_end(s1, i);
    assert forall|k: int| i + off <= k < e + off implies is_digit_char(s2[k]) by {
        assert(s2[(k - off) + off] == s1[k - off]);
    }
    assert(s2[e + off] == s1[e]);
    lemma_digits_end_is(s2, i + off, e + off);
}

/// Two digit runs with the same digits have the same value, shifted by `off`.
pub proof fn lemma_digits_val_agree(s1: Seq<char>, s2: Seq<char>, i: int, j: int, off: int)
    requires
        0 <= i <= j <= s1.len(),
        0 <= i + off,
        j + off <= s2.len(),
        forall|k: int| i <= k < j ==> s2[k + off] == #[trigger] s1[k],
    ensures
        digits_val(s2, i + off, j + off) == digits_val(s1, i, j),
    decreases j - i,
{
    if i < j {
        assert(s2[(j - 1) + off] == s1[j - 1]);
        lemma_digits_val_agree(s1, s2, i, j - 1, off);
    }
}

/// A digit run is found unchanged, shifted by `off`, in any sequence that
/// agrees with it on the run.
pub proof fn lemma_all_digits_agree(s1: Seq<char>, s2: Seq<char>, i: int, j: int, off: int)
    requires
        all_digits(s1, i, j),
        forall|k: int| i <= k < j ==> s2[k + off] == #[trigger] s1[k],
    ensures
        all_digits(s2, i + off, j + off),
{
    assert forall|k: int| i + off <= k < j + off implies is_digit_char(s2[k]) by {
        assert(s2[(k - off) + off] == s1[k - off]);
    }
}

/// The first index at or after `i` that holds a space character
/// (the length of `s` if none does): the end of a token run.
pub open spec fn run_end(s: Seq<char>, i: int) -> int
    decreases s.len() - i when 0 <= i <= s.len()
{
    if i >= s.len() {
        i
    } else if s[i] == ' ' {
        i
    } else {
        run_end(s, i + 1)
    }
}

/// What `run_end` returns: the end of the maximal space-free run from `i`.
pub proof fn lemma_run_end(s: Seq<char>, i: int)
    requires
        0 <= i <= s.len(),
    ensures
        i <= run_end(s, i) <= s.len(),
        forall|k: int| i <= k < run_end(s, i) ==> s[k] != ' ',
        run_end(s, i) < s.len() ==> s[run_end(s, i)] == ' ',
    decreases s.len() - i,
{
    if i < s.len() && s[i] != ' ' {
        lemma_run_end(s, i + 1);
    }
}

/// Any index that ends a maximal space-free run from `i` is `run_end(s, i)`.
pub proof fn lemma_run_end_is(s: Seq<char>, i: int, j: int)
    requires
        0 <= i <= j <= s.len(),
        forall|k: int| i <= k < j ==> s[k] != ' ',
        j == s.len() || s[j] == ' ',
    ensures
        run_end(s, i) == j,
    decreases j - i,
{
    if i < j {
        lemma_run_end_is(s, i + 1, j);
    }
}

/// The first index at or after `i` that holds a non-space character
/// (the length of `s` if spaces run to the end).
pub open spec fn space_end(s: Seq<char>, i: int) -> int
    decreases s.len() - i when 0 <= i <= s.len()
{
    if i >= s.len() {
        i
    } else if s[i] != ' ' {
        i
    } else {
        space_end(s, i + 1)
    }
}

/// What `space_end` returns: the end of the maximal space run from `i`.
pub proof fn lemma_space_end(s: Seq<char>, i: int)
    requires
        0 <= i <= s.len(),
    ensures
        i <= space_end(s, i) <= s.len(),
        forall|k: int| i <= k < space_end(s, i) ==> s[k] == ' ',
        space_end(s, i) < s.len() ==> s[space_end(s, i)] != ' ',
    decreases s.len() - i,
{
    if i < s.len() && s[i] == ' ' {
        lemma_space_end(s, i + 1);
    }
}

/// Any index that ends a maximal space run from `i` is `space_end(s, i)`.
pub proof fn lemma_space_end_is(s: Seq<char>, i: int, j: int)
    requires
        0 <= i <= j <= s.len(),
        forall|k: int| i <= k < j ==> s[k] == ' ',
        j == s.len() || s[j] != ' ',
    ensures
        space_end(s, i) == j,
    decreases j - i,
{
    if i < j {
        lemma_space_end_is(s, i + 1, j);
    }
}

/// The first index in `[i, e)` holding an equals sign, or `e` if none does.
pub open spec fn first_eq_before(s: Seq<char>, i: int, e: int) -> int
    decreases e - i when 0 <= i && i <= e && e <= s.len()
{
    if i >= e {
        e
    } else if s[i] == '=' {
        i
    } else {
        first_eq_before(s, i + 1, e)
    }
}

/// What `first_eq_before` returns: the first equals sign in the range.
pub proof fn lemma_first_eq_before(s: Seq<char>, i: int, e: int)
    requires
        0 <= i <= e <= s.len(),
    ensures
        i <= first_eq_before(s, i, e) <= e,
        forall|k: int| i <= k < first_eq_before(s, i, e) ==> s[k] != '=',
        first_eq_before(s, i, e) < e ==> s[first_eq_before(s, i, e)] == '=',
    decreases e - i,
{
    if i < e && s[i] != '=' {
        lemma_first_eq_before(s, i + 1, e);
    }
}

/// Any index that is the first equals sign in the range is `first_eq_before`.
pub proof fn lemma_first_eq_before_is(s: Seq<char>, i: int, e: int, j: int)
    requires
        0 <= i <= j <= e <= s.len(),
        forall|k: int| i <= k < j ==> s[k] != '=',
        j == e || s[j] == '=',
    ensures
        first_eq_before(s, i, e) == j,
    decreases j - i,
{
    if i < j {
        lemma_first_eq_before_is(s, i + 1, e, j);
    }
}

/// The first index at or after `i` where the two-character separator `": "`
/// begins, or `-1` if it occurs nowhere at or after `i`.
pub open spec fn sep_pos(s: Seq<char>, i: int) -> int
    decreases s.len() - i when 0 <= i
{
    if i + 2 > s.len() {
        -1
    } else if s[i] == ':' && s[i + 1] == ' ' {
        i
    } else {
        sep_pos(s, i + 1)
    }
}

/// Any index that ends a scanned prefix free of `": "` occurrences, itself
/// holding one, is the first occurrence.
pub proof fn lemma_sep_pos_found(s: Seq<char>, i: int, j: int)
    requires
        0 <= i <= j,
        j + 2 <= s.len(),
        s[j] == ':' && s[j + 1] == ' ',
        forall|k: int| i <= k < j ==> !(#[trigger] s[k] == ':' && s[k + 1] == ' '),
    ensures
        sep_pos(s, i) == j,
    decreases j - i,
{
    if i < j {
        lemma_sep_pos_found(s, i + 1, j);
    }
}

/// A scan that ran out of room without meeting `": "` shows there is none.
pub proof fn lemma_sep_pos_none(s: Seq<char>, i: int, j: int)
    requires
        0 <= i <= j,
        j + 2 > s.len(),
        forall|k: int| i <= k < j ==> !(#[trigger] s[k] == ':' && s[k + 1] == ' '),
    ensures
        sep_pos(s, i) == -1,
    decreases j - i,
{
    if i + 2 <= s.len() {
        lemma_sep_pos_none(s, i + 1, j);
    }
}

/// Executable digit test, equal to the specification-level one.
pub fn is_digit_exec(c: char) -> (r: bool)
    ensures
        r == is_digit_char(c),
{
    let u = c as u32;
    48 <= u && u <= 57
}

/// Scans the maximal digit run of `s` starting at `i` and returns its end.
pub fn scan_digits_end(s: &str, i: usize) -> (r: usize)
    requires
        i <= s@.len(),
    ensures
        r == digits_end(s@, i as int),
        i <= r <= s@.len(),
{
    let n = s.unicode_len();
    let mut j = i;
    while j < n && is_digit_exec(s.get_char(j))
        invariant
            i <= j <= n,
            n == s@.len(),
            all_digits(s@, i as int, j as int),
        decreases n - j,
    {
        j = j + 1;
    }
    proof {
        lemma_digits_end_is(s@, i as int, j as int);
    }
    j
}

/// Scans the maximal space-free run of `s` starting at `i`, returning its end.
pub fn scan_run_end(s: &str, i: usize) -> (r: usize)
    requires
        i <= s@.len(),
    ensures
        r == run_end(s@, i as int),
        i <= r <= s@.len(),
{
    let n = s.unicode_len();
    let mut j = i;
    while j < n && s.get_char(j) != ' '
        invariant
            i <= j <= n,
            n == s@.len(),
            forall|k: int| i <= k < j ==> s@[k] != ' ',
        decreases n - j,
    {
        j = j + 1;
    }
    proof {
        lemma_run_end_is(s@, i as int, j as int);
    }
    j
}

/// Scans the maximal space run of `s` starting at `i` and returns its end.
pub fn scan_space_end(s: &str, i: usize) -> (r: usize)
    requires
        i <= s@.len(),
    ensures
        r == space_end(s@, i as int),
        i <= r <= s@.len(),
{
    let n = s.unicode_len();
    let mut j = i;
    while j < n && s.get_char(j) == ' '
        invariant
            i <= j <= n,
            n == s@.len(),
            forall|k: int| i <= k < j ==> s@[k] == ' ',
        decreases n - j,
    {
        j = j + 1;
    }
    proof {
        lemma_space_end_is(s@, i as int, j as int);
    }
    j
}

/// Reads the decimal value of the characters of `s` in `[from, to)`;
/// `None` exactly when one of them is not a digit.
pub fn read_digits_val(s: &str, from: usize, to: usize) -> (r: Option<u32>)
    requires
        from <= to <= s@.len(),
        to - from <= 6,
    ensures
        r is Some <==> all_digits(s@, from as int, to as int),
        r is Some ==> r->Some_0 == digits_val(s@, from as int, to as int),
{
    proof {
        reveal_with_fuel(pow10, 7);
    }
    let mut acc: u32 = 0;
    let mut j = from;
    while j < to
        invariant
            from <= j <= to,
            to <= s@.len(),
            to - from <= 6,
            all_digits(s@, from as int, j as int),
            acc == digits_val(s@, from as int, j as int),
            acc < pow10((j - from) as nat),
        decreases to - j,
    {
        proof {
            reveal_with_fuel(pow10, 7);
        }
        let c = s.get_char(j);
        if !is_digit_exec(c) {
            assert(!all_digits(s@, from as int, to as int)) by {
                assert(!is_digit_char(s@[j as int]));
            }
            return None;
        }
        let d = (c as u32) - 48;
        acc = acc * 10 + d;
        j = j + 1;
    }
    Some(acc)
}

} // verus!
