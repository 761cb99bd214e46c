//! Character-sequence utilities: substring search, runs, trimming,
//! decimal digits. All extraction rules are built on these.

use vstd::prelude::*;

verus! {

/// `pat` occurs in `s` at position `i`.
pub open spec fn match_at(s: Seq<char>, pat: Seq<char>, i: int) -> bool {
    0 <= i && i + pat.len() <= s.len() && s.subrange(i, i + pat.len() as int) == pat
}

/// Position of the first occurrence of `pat` in `s` at or after `from`.
pub open spec fn find_from(s: Seq<char>, pat: Seq<char>, from: int) -> Option<int>
    decreases s.len() - from,
{
    if from < 0 {
        None
    } else if from + pat.len() > s.len() {
        None
    } else if pat.len() == 0 {
        Some(from)
    } else if match_at(s, pat, from) {
        Some(from)
    } else {
        find_from(s, pat, from + 1)
    }
}

/// Position of the last occurrence of `pat` in `s` at or before `i`.
pub open spec fn rfind_upto(s: Seq<char>, pat: Seq<char>, i: int) -> Option<int>
    decreases i + 1,
{
    if i < 0 {
        None
    } else if match_at(s, pat, i) {
        Some(i)
    } else {
        rfind_upto(s, pat, i - 1)
    }
}

/// Position of the first occurrence of the character `c` at or after `from`.
pub open spec fn find_char_from(s: Seq<char>, c: char, from: int) -> Option<int>
    decreases s.len() - from,
{
    if from < 0 || from >= s.len() {
        None
    } else if s[from] == c {
        Some(from)
    } else {
        find_char_from(s, c, from + 1)
    }
}

/// Position of the last occurrence of the character `c` at or before `i`.
pub open spec fn rfind_char_upto(s: Seq<char>, c: char, i: int) -> Option<int>
    decreases i + 1,
{
    if i < 0 || i >= s.len() {
        None
    } else if s[i] == c {
        Some(i)
    } else {
        rfind_char_upto(s, c, i - 1)
    }
}

pub open spec fn has_sub(s: Seq<char>, pat: Seq<char>) -> bool {
    find_from(s, pat, 0) is Some
}

pub fn match_at_exec(s: &Vec<char>, pat: &Vec<char>, i: usize) -> (r: bool)
    requires
        i + pat@.len() <= s@.len(),
    ensures
        r == match_at(s@, pat@, i as int),
{
    let n = s.len();
    let m = pat.len();
    let mut j: usize = 0;
    while j < m
        invariant
            j <= m,
            m == pat@.len(),
            n == s@.len(),
            i + m <= n,
            forall|k: int| 0 <= k < j ==> s@[i + k] == pat@[k],
        decreases m - j,
    {
        if s[i + j] != pat[j] {
            assert(!match_at(s@, pat@, i as int)) by {
                if match_at(s@, pat@, i as int) {
                    assert(s@.subrange(i as int, i + m) == pat@);
                    assert(s@.subrange(i as int, i + m)[j as int] == s@[i + j]);
                }
            }
            return false;
        }
        j += 1;
    }
    assert(s@.subrange(i as int, (i + m) as int) =~= pat@);
    true
}

/// First occurrence of `pat` in `s` at or after `from`.
pub fn find_sub(s: &Vec<char>, pat: &Vec<char>, from: usize) -> (r: Option<usize>)
    ensures
        match r {
            Some(i) => find_from(s@, pat@, from as int) == Some(i as int),
            None => find_from(s@, pat@, from as int) is None,
        },
{
    let n = s.len();
    let m = pat.len();
    if m > n || from > n - m {
        return None;
    }
    if m == 0 {
        return Some(from);
    }
    let mut i: usize = from;
    while i <= n - m
        invariant
            from <= i,
            i <= n - m + 1,
            0 < m <= n,
            n == s@.len(),
            m == pat@.len(),
            find_from(s@, pat@, from as int) == find_from(s@, pat@, i as int),
        decreases n - i,
    {
        if match_at_exec(s, pat, i) {
            return Some(i);
        }
        i += 1;
    }
    None
}

/// Last occurrence of `pat` in `s`.
pub fn rfind_sub(s: &Vec<char>, pat: &Vec<char>) -> (r: Option<usize>)
    ensures
        match r {
            Some(i) => rfind_upto(s@, pat@, s@.len() - pat@.len()) == Some(i as int),
            None => rfind_upto(s@, pat@, s@.len() - pat@.len()) is None,
        },
{
    let n = s.len();
    let m = pat.len();
    if m > n {
        assert(rfind_upto(s@, pat@, n - m) is None) by {
            lemma_rfind_upto_short(s@, pat@, n - m);
        }
        return None;
    }
    let mut i: usize = n - m;
    loop
        invariant
            i <= n - m,
            m <= n,
            n == s@.len(),
            m == pat@.len(),
            rfind_upto(s@, pat@, (n - m) as int) == rfind_upto(s@, pat@, i as int),
        decreases i + 1,
    {
        if match_at_exec(s, pat, i) {
            return Some(i);
        }
        if i == 0 {
            assert(rfind_upto(s@, pat@, -1) is None);
            return None;
        }
        i -= 1;
    }
}

proof fn lemma_rfind_upto_short(s: Seq<char>, pat: Seq<char>, i: int)
    requires
        pat.len() > s.len() || i < 0,
    ensures
        rfind_upto(s, pat, i) is None,
    decreases i + 1,
{
    if i >= 0 {
        lemma_rfind_upto_short(s, pat, i - 1);
    }
}

/// First occurrence of `c` in `s` at or after `from`.
pub fn find_char(s: &Vec<char>, c: char, from: usize) -> (r: Option<usize>)
    ensures
        match r {
            Some(i) => find_char_from(s@, c, from as int) == Some(i as int),
            None => find_char_from(s@, c, from as int) is None,
        },
{
    let n = s.len();
    let mut i: usize = from;
    while i < n
        invariant
            from <= i,
            n == s@.len(),
            find_char_from(s@, c, from as int) == find_char_from(s@, c, i as int),
        decreases n - i,
    {
        if s[i] == c {
            return Some(i);
        }
        i += 1;
    }
    None
}

/// Last occurrence of `c` in `s`.
pub fn rfind_char(s: &Vec<char>, c: char) -> (r: Option<usize>)
    ensures
        match r {
            Some(i) => rfind_char_upto(s@, c, s@.len() - 1) == Some(i as int),
            None => rfind_char_upto(s@, c, s@.len() - 1) is None,
        },
{
    let n = s.len();
    if n == 0 {
        return None;
    }
    let mut i: usize = n - 1;
    loop
        invariant
            i < n,
            n == s@.len(),
            rfind_char_upto(s@, c, (n - 1) as int) == rfind_char_upto(s@, c, i as int),
        decreases i + 1,
    {
        if s[i] == c {
            return Some(i);
        }
        if i == 0 {
            assert(rfind_char_upto(s@, c, -1) is None);
            return None;
        }
        i -= 1;
    }
}

/// `true` on `s` exactly when `pat` occurs somewhere in `s`.
pub fn contains_sub(s: &Vec<char>, pat: &Vec<char>) -> (r: bool)
    ensures
        r == has_sub(s@, pat@),
{
    find_sub(s, pat, 0).is_some()
}

/// Copy of `s[a..b]`.
pub fn sub_chars(s: &Vec<char>, a: usize, b: usize) -> (r: Vec<char>)
    requires
        a <= b <= s@.len(),
    ensures
        r@ == s@.subrange(a as int, b as int),
{
    let mut r: Vec<char> = Vec::new();
    let mut i: usize = a;
    while i < b
        invariant
            a <= i <= b <= s@.len(),
            r@ == s@.subrange(a as int, i as int),
        decreases b - i,
    {
        r.push(s[i]);
        assert(s@.subrange(a as int, i + 1 as int) =~= s@.subrange(a as int, i as int).push(
            s@[i as int],
        ));
        i += 1;
    }
    r
}

/// The characters of `s`, in order.
pub fn str_to_chars(s: &str) -> (r: Vec<char>)
    ensures
        r@ == s@,
{
    let n = s.unicode_len();
    let mut r: Vec<char> = Vec::new();
    let mut i: usize = 0;
    while i < n
        invariant
            i <= n,
            n == s@.len(),
            r@ == s@.subrange(0, i as int),
        decreases n - i,
    {
        let c = s.get_char(i);
        r.push(c);
        assert(s@.subrange(0, i + 1 as int) =~= s@.subrange(0, i as int).push(s@[i as int]));
        i += 1;
    }
    assert(s@.subrange(0, n as int) =~= s@);
    r
}

/// Digit in the decimal sense.
pub open spec fn is_digit(c: char) -> bool {
    '0' <= c && c <= '9'
}

/// Whitespace as this crate models it (ASCII blanks and line ends).
pub open spec fn is_space(c: char) -> bool {
    c == ' ' || c == '\t' || c == '\r' || c == '\n'
}

pub fn is_digit_exec(c: char) -> (r: bool)
    ensures
        r == is_digit(c),
{
    c >= '0' && c <= '9'
}

pub fn is_space_exec(c: char) -> (r: bool)
    ensures
        r == is_space(c),
{
    c == ' ' || c == '\t' || c == '\r' || c == '\n'
}

/// Numeric value of a digit character.
pub open spec fn digit_val(c: char) -> int {
    c as int - 48
}

/// The digit characters of `s`, in order.
pub open spec fn digits_of(s: Seq<char>) -> Seq<char>
    decreases s.len(),
{
    if s.len() == 0 {
        Seq::empty()
    } else if is_digit(s.last()) {
        digits_of(s.drop_last()).push(s.last())
    } else {
        digits_of(s.drop_last())
    }
}

/// Value of a digit string read in base ten.
pub open spec fn digits_val(ds: Seq<char>) -> int
    decreases ds.len(),
{
    if ds.len() == 0 {
        0
    } else {
        digits_val(ds.drop_last()) * 10 + digit_val(ds.last())
    }
}

pub proof fn lemma_digits_val_nonneg(ds: Seq<char>)
    requires
        forall|i: int| 0 <= i < ds.len() ==> is_digit(#[trigger] ds[i]),
    ensures
        digits_val(ds) >= 0,
    decreases ds.len(),
{
    if ds.len() > 0 {
        lemma_digits_val_nonneg(ds.drop_last());
    }
}

pub proof fn lemma_digits_of_all_digits(s: Seq<char>)
    ensures
        forall|i: int| 0 <= i < digits_of(s).len() ==> is_digit(#[trigger] digits_of(s)[i]),
    decreases s.len(),
{
    if s.len() > 0 {
        lemma_digits_of_all_digits(s.drop_last());
        let d = digits_of(s.drop_last());
        if is_digit(s.last()) {
            assert(digits_of(s) == d.push(s.last()));
            assert forall|i: int| 0 <= i < digits_of(s).len() implies is_digit(
                #[trigger] digits_of(s)[i],
            ) by {
                if i < d.len() {
                    assert(digits_of(s)[i] == d[i]);
                } else {
                    assert(digits_of(s)[i] == s.last());
                }
            }
        } else {
            assert forall|i: int| 0 <= i < digits_of(s).len() implies is_digit(
                #[trigger] digits_of(s)[i],
            ) by {
                assert(digits_of(s)[i] == d[i]);
            }
        }
    }
}

/// The kinds of character run that precede a numeric marker.
#[derive(Clone, Copy, PartialEq, Eq, Structural)]
pub enum RunClass {
    /// Digits with interior blanks, as in a price with thousand separators.
    Price,
    /// Digits, blanks, a leading plus and a decimal separator, as in a floor area.
    Size,
    /// Digits and a decimal separator, as in a fractional room count.
    Rooms,
}

pub open spec fn run_allows(k: RunClass, c: char) -> bool {
    match k {
        RunClass::Price => is_digit(c) || c == ' ',
        RunClass::Size => is_digit(c) || c == ' ' || c == '+' || c == ',' || c == '.',
        RunClass::Rooms => is_digit(c) || c == ',' || c == '.',
    }
}

pub fn run_allows_exec(k: RunClass, c: char) -> (r: bool)
    ensures
        r == run_allows(k, c),
{
    match k {
        RunClass::Price => is_digit_exec(c) || c == ' ',
        RunClass::Size => is_digit_exec(c) || c == ' ' || c == '+' || c == ',' || c == '.',
        RunClass::Rooms => is_digit_exec(c) || c == ',' || c == '.',
    }
}

/// Start of the maximal run of `k`-characters that ends right before `i`.
pub open spec fn run_start(s: Seq<char>, i: int, k: RunClass) -> int
    decreases i,
{
    if i <= 0 {
        0
    } else if run_allows(k, s[i - 1]) {
        run_start(s, i - 1, k)
    } else {
        i
    }
}

pub fn run_start_exec(s: &Vec<char>, i: usize, k: RunClass) -> (r: usize)
    requires
        i <= s@.len(),
    ensures
        r == run_start(s@, i as int, k),
        r <= i,
{
    let mut j: usize = i;
    while j > 0
        invariant
            j <= i <= s@.len(),
            run_start(s@, i as int, k) == run_start(s@, j as int, k),
        decreases j,
    {
        if run_allows_exec(k, s[j - 1]) {
            j -= 1;
        } else {
            return j;
        }
    }
    j
}

/// Position right after skipping blanks leftwards from `i`.
pub open spec fn skip_spaces_back(s: Seq<char>, i: int) -> int
    decreases i,
{
    if i <= 0 {
        0
    } else if s[i - 1] == ' ' {
        skip_spaces_back(s, i - 1)
    } else {
        i
    }
}

pub fn skip_spaces_back_exec(s: &Vec<char>, i: usize) -> (r: usize)
    requires
        i <= s@.len(),
    ensures
        r == skip_spaces_back(s@, i as int),
        r <= i,
{
    let mut j: usize = i;
    while j > 0
        invariant
            j <= i <= s@.len(),
            skip_spaces_back(s@, i as int) == skip_spaces_back(s@, j as int),
        decreases j,
    {
        if s[j - 1] == ' ' {
            j -= 1;
        } else {
            return j;
        }
    }
    j
}

/// Decimal value of the digits within `s[a..b]`, unless it exceeds `cap`.
pub fn digits_value_capped(s: &Vec<char>, a: usize, b: usize, cap: u64) -> (r: Option<u64>)
    requires
        a <= b <= s@.len(),
    ensures
        match r {
            Some(v) => v == digits_val(digits_of(s@.subrange(a as int, b as int))) && v <= cap,
            None => digits_val(digits_of(s@.subrange(a as int, b as int))) > cap,
        },
{
    let mut acc: u64 = 0;
    let mut over: bool = false;
    let mut i: usize = a;
    while i < b
        invariant
            a <= i <= b <= s@.len(),
            !over ==> acc == digits_val(digits_of(s@.subrange(a as int, i as int))) && acc <= cap,
            over ==> digits_val(digits_of(s@.subrange(a as int, i as int))) > cap,
        decreases b - i,
    {
        let ghost pre = s@.subrange(a as int, i as int);
        let ghost post = s@.subrange(a as int, i + 1 as int);
        proof {
            assert(post =~= pre.push(s@[i as int]));
            assert(post.drop_last() =~= pre);
            lemma_digits_of_all_digits(pre);
            lemma_digits_val_nonneg(digits_of(pre));
        }
        let c = s[i];
        if is_digit_exec(c) {
            proof {
                assert(digits_of(post) =~= digits_of(pre).push(s@[i as int]));
                assert(digits_of(post).drop_last() =~= digits_of(pre));
            }
            let d: u64 = (c as u32 as u64) - 48;
            if !over {
                let mut next: Option<u64> = None;
                if let Some(t) = acc.checked_mul(10) {
                    if let Some(v) = t.checked_add(d) {
                        next = Some(v);
                    }
                }
                match next {
                    Some(v) => {
                        if v <= cap {
                            acc = v;
                        } else {
                            over = true;
                        }
                    },
                    None => {
                        over = true;
                    },
                }
            }
        }
        i += 1;
    }
    if over {
        None
    } else {
        Some(acc)
    }
}

/// Decimal separator accepted in numeric text (comma is normalised to dot).
pub open spec fn is_sep(c: char) -> bool {
    c == ',' || c == '.'
}

/// End of the digit prefix of `t` that starts at `i`.
pub open spec fn digit_prefix_end(t: Seq<char>, i: int) -> int
    decreases t.len() - i,
{
    if 0 <= i < t.len() && is_digit(t[i]) {
        digit_prefix_end(t, i + 1)
    } else {
        i
    }
}

/// `t` reads as a plain decimal number: digits, at most one separator,
/// and at least one digit somewhere.
pub open spec fn valid_decimal(t: Seq<char>) -> bool {
    let p = digit_prefix_end(t, 0);
    t.len() > 0 && if p == t.len() {
        p > 0
    } else {
        is_sep(t[p]) && digit_prefix_end(t, p + 1) == t.len() && (p > 0 || p + 1 < t.len())
    }
}

/// Whole part of a decimal number, read in base ten.
pub open spec fn decimal_int_part(t: Seq<char>) -> int {
    digits_val(digits_of(t.subrange(0, digit_prefix_end(t, 0))))
}

/// Value of a decimal number in tenths, truncated past the first
/// fractional digit.
pub open spec fn decimal_tenths(t: Seq<char>) -> int {
    let p = digit_prefix_end(t, 0);
    decimal_int_part(t) * 10 + if p + 1 < t.len() {
        digit_val(t[p + 1])
    } else {
        0
    }
}

/// Position `p` of the separator (or end) of `t` when read as a decimal.
pub fn digit_prefix_end_exec(t: &Vec<char>, from: usize) -> (r: usize)
    requires
        from <= t@.len(),
    ensures
        r == digit_prefix_end(t@, from as int),
        from <= r <= t@.len(),
{
    let n = t.len();
    let mut i: usize = from;
    while i < n
        invariant
            from <= i <= n,
            n == t@.len(),
            digit_prefix_end(t@, from as int) == digit_prefix_end(t@, i as int),
        decreases n - i,
    {
        if !is_digit_exec(t[i]) {
            return i;
        }
        i += 1;
    }
    i
}

pub fn valid_decimal_exec(t: &Vec<char>) -> (r: bool)
    ensures
        r == valid_decimal(t@),
{
    let n = t.len();
    if n == 0 {
        return false;
    }
    let p = digit_prefix_end_exec(t, 0);
    if p == n {
        p > 0
    } else {
        let sep = t[p] == ',' || t[p] == '.';
        sep && digit_prefix_end_exec(t, p + 1) == n && (p > 0 || p + 1 < n)
    }
}

/// The characters of `s` with blanks and plus signs dropped.
pub open spec fn strip_fill(s: Seq<char>) -> Seq<char>
    decreases s.len(),
{
    if s.len() == 0 {
        Seq::empty()
    } else if s.last() == ' ' || s.last() == '+' {
        strip_fill(s.drop_last())
    } else {
        strip_fill(s.drop_last()).push(s.last())
    }
}

pub fn strip_fill_exec(s: &Vec<char>, a: usize, b: usize) -> (r: Vec<char>)
    requires
        a <= b <= s@.len(),
    ensures
        r@ == strip_fill(s@.subrange(a as int, b as int)),
{
    let mut r: Vec<char> = Vec::new();
    let mut i: usize = a;
    while i < b
        invariant
            a <= i <= b <= s@.len(),
            r@ == strip_fill(s@.subrange(a as int, i as int)),
        decreases b - i,
    {
        let ghost pre = s@.subrange(a as int, i as int);
        let ghost post = s@.subrange(a as int, i + 1 as int);
        proof {
            assert(post =~= pre.push(s@[i as int]));
            assert(post.drop_last() =~= pre);
        }
        let c = s[i];
        if !(c == ' ' || c == '+') {
            r.push(c);
        }
        i += 1;
    }
    r
}

/// Drop leading whitespace.
pub open spec fn trim_left(s: Seq<char>) -> Seq<char>
    decreases s.len(),
{
    if s.len() > 0 && is_space(s[0]) {
        trim_left(s.drop_first())
    } else {
        s
    }
}

/// Drop trailing whitespace.
pub open spec fn trim_right(s: Seq<char>) -> Seq<char>
    decreases s.len(),
{
    if s.len() > 0 && is_space(s.last()) {
        trim_right(s.drop_last())
    } else {
        s
    }
}

/// Drop whitespace at both ends.
pub open spec fn trim(s: Seq<char>) -> Seq<char> {
    trim_right(trim_left(s))
}

pub fn trim_exec(s: &Vec<char>) -> (r: Vec<char>)
    ensures
        r@ == trim(s@),
{
    let n = s.len();
    assert(s@.subrange(0, n as int) =~= s@);
    let mut a: usize = 0;
    while a < n && is_space_exec(s[a])
        invariant
            a <= n,
            n == s@.len(),
            trim_left(s@) == trim_left(s@.subrange(a as int, n as int)),
        decreases n - a,
    {
        proof {
            assert(s@.subrange(a as int, n as int).drop_first() =~= s@.subrange(
                a + 1 as int,
                n as int,
            ));
        }
        a += 1;
    }
    assert(trim_left(s@) == s@.subrange(a as int, n as int));
    let mut b: usize = n;
    while b > a && is_space_exec(s[b - 1])
        invariant
            a <= b <= n,
            n == s@.len(),
            trim_left(s@) == s@.subrange(a as int, n as int),
            trim_right(s@.subrange(a as int, n as int)) == trim_right(
                s@.subrange(a as int, b as int),
            ),
        decreases b,
    {
        proof {
            assert(s@.subrange(a as int, b as int).drop_last() =~= s@.subrange(
                a as int,
                b - 1 as int,
            ));
        }
        b -= 1;
    }
    assert(trim(s@) == s@.subrange(a as int, b as int));
    sub_chars(s, a, b)
}

/// The lines of `s`, split at newline characters.
pub open spec fn lines_of(s: Seq<char>) -> Seq<Seq<char>>
    decreases s.len(),
    via lines_of_dec
{
    match find_char_from(s, '\n', 0) {
        Some(i) => seq![s.subrange(0, i)] + lines_of(s.subrange(i + 1, s.len() as int)),
        None => seq![s],
    }
}

pub proof fn lemma_find_char_from_range(s: Seq<char>, c: char, from: int)
    requires
        0 <= from,
    ensures
        find_char_from(s, c, from) matches Some(i) ==> from <= i < s.len() && s[i] == c,
    decreases s.len() - from,
{
    if from < s.len() && s[from] != c {
        lemma_find_char_from_range(s, c, from + 1);
    }
}

#[via_fn]
proof fn lines_of_dec(s: Seq<char>) {
    lemma_find_char_from_range(s, '\n', 0);
}

pub fn split_lines(s: &Vec<char>) -> (r: Vec<Vec<char>>)
    ensures
        r@.map_values(|l: Vec<char>| l@) == lines_of(s@),
{
    let n = s.len();
    let mut r: Vec<Vec<char>> = Vec::new();
    let mut start: usize = 0;
    assert(s@.subrange(0, n as int) =~= s@);
    assert(r@.map_values(|l: Vec<char>| l@) + lines_of(s@) =~= lines_of(s@));
    loop
        invariant
            start <= n,
            n == s@.len(),
            lines_of(s@) == r@.map_values(|l: Vec<char>| l@) + lines_of(
                s@.subrange(start as int, n as int),
            ),
        decreases n - start,
    {
        let ghost rest = s@.subrange(start as int, n as int);
        match find_char(s, '\n', start) {
            Some(i) => {
                proof {
                    lemma_find_char_from_range(s@, '\n', start as int);
                    lemma_find_char_shift(s@, '\n', start as int);
                }
                let line = sub_chars(s, start, i);
                r.push(line);
                proof {
                    assert(rest.subrange(0, i - start) =~= s@.subrange(start as int, i as int));
                    assert(rest.subrange(i - start + 1, rest.len() as int) =~= s@.subrange(
                        i + 1 as int,
                        n as int,
                    ));
                    lemma_map_values_push(r@.drop_last(), line, |l: Vec<char>| l@);
                    assert(r@.drop_last().push(line) =~= r@);
                }
                start = i + 1;
                proof {
                    assert(lines_of(s@) =~= r@.map_values(|l: Vec<char>| l@) + lines_of(
                        s@.subrange(start as int, n as int),
                    ));
                }
            },
            None => {
                proof {
                    lemma_find_char_shift(s@, '\n', start as int);
                }
                let line = sub_chars(s, start, n);
                r.push(line);
                proof {
                    lemma_map_values_push(r@.drop_last(), line, |l: Vec<char>| l@);
                    assert(r@.drop_last().push(line) =~= r@);
                    assert(lines_of(s@) =~= r@.map_values(|l: Vec<char>| l@));
                }
                return r;
            },
        }
    }
}

/// Searching in a suffix mirrors searching from an offset.
proof fn lemma_find_char_shift(s: Seq<char>, c: char, from: int)
    requires
        0 <= from <= s.len(),
    ensures
        match find_char_from(s, c, from) {
            Some(i) => find_char_from(s.subrange(from, s.len() as int), c, 0) == Some(i - from),
            None => find_char_from(s.subrange(from, s.len() as int), c, 0) is None,
        },
{
    lemma_find_char_shift_aux(s, c, from, from);
}

proof fn lemma_find_char_shift_aux(s: Seq<char>, c: char, base: int, from: int)
    requires
        0 <= base <= from <= s.len(),
    ensures
        match find_char_from(s, c, from) {
            Some(i) => find_char_from(s.subrange(base, s.len() as int), c, from - base) == Some(
                i - base,
            ),
            None => find_char_from(s.subrange(base, s.len() as int), c, from - base) is None,
        },
    decreases s.len() - from,
{
    let sub = s.subrange(base, s.len() as int);
    if from < s.len() {
        assert(sub[from - base] == s[from]);
        if s[from] != c {
            lemma_find_char_shift_aux(s, c, base, from + 1);
        }
    }
}

pub proof fn lemma_map_values_push<A, B>(s: Seq<A>, x: A, f: spec_fn(A) -> B)
    ensures
        s.push(x).map_values(f) == s.map_values(f).push(f(x)),
{
    assert(s.push(x).map_values(f) =~= s.map_values(f).push(f(x)));
}

/// The non-breaking-space entity that card labels carry.
pub open spec fn nbsp_entity() -> Seq<char> {
    seq!['&', 'n', 'b', 's', 'p', ';']
}

/// `s` with every `&nbsp;` entity replaced by a plain blank.
pub open spec fn nbsp_decoded(s: Seq<char>) -> Seq<char>
    decreases s.len(),
{
    if s.len() == 0 {
        s
    } else if match_at(s, nbsp_entity(), 0) {
        seq![' '] + nbsp_decoded(s.skip(nbsp_entity().len() as int))
    } else {
        seq![s[0]] + nbsp_decoded(s.skip(1))
    }
}

pub fn decode_nbsp(s: &Vec<char>) -> (r: Vec<char>)
    ensures
        r@ == nbsp_decoded(s@),
{
    let pat = str_to_chars("&nbsp;");
    proof {
        reveal_strlit("&nbsp;");
        assert(pat@ =~= nbsp_entity());
    }
    let n = s.len();
    let mut r: Vec<char> = Vec::new();
    let mut i: usize = 0;
    assert(s@.skip(0) =~= s@);
    assert(r@ + nbsp_decoded(s@) =~= nbsp_decoded(s@));
    while i < n
        invariant
            i <= n,
            n == s@.len(),
            pat@ == nbsp_entity(),
            pat@.len() == 6,
            nbsp_decoded(s@) == r@ + nbsp_decoded(s@.skip(i as int)),
        decreases n - i,
    {
        let ghost rest = s@.skip(i as int);
        if n - i >= 6 && match_at_exec(s, &pat, i) {
            proof {
                assert(rest.subrange(0, 6) =~= s@.subrange(i as int, i + 6));
                assert(match_at(rest, nbsp_entity(), 0));
                assert(rest.skip(6) =~= s@.skip(i + 6));
                assert(nbsp_decoded(rest) == seq![' '] + nbsp_decoded(s@.skip(i + 6)));
                assert(r@.push(' ') + nbsp_decoded(s@.skip(i + 6)) =~= r@ + nbsp_decoded(rest));
            }
            r.push(' ');
            i += 6;
        } else {
            proof {
                if rest.len() >= 6 && match_at(rest, nbsp_entity(), 0) {
                    assert(s@.subrange(i as int, i + 6) =~= rest.subrange(0, 6));
                }
                assert(!match_at(rest, nbsp_entity(), 0));
                assert(rest[0] == s@[i as int]);
                assert(rest.skip(1) =~= s@.skip(i + 1));
                assert(nbsp_decoded(rest) == seq![s@[i as int]] + nbsp_decoded(s@.skip(i + 1)));
                assert(r@.push(s@[i as int]) + nbsp_decoded(s@.skip(i + 1)) =~= r@ + nbsp_decoded(
                    rest,
                ));
            }
            r.push(s[i]);
            i += 1;
        }
    }
    assert(nbsp_decoded(s@.skip(n as int)) =~= Seq::<char>::empty());
    assert(r@ + nbsp_decoded(s@.skip(n as int)) =~= r@);
    r
}

/// Base-ten rendering of a non-negative number.
pub open spec fn dec_rep(n: int) -> Seq<char>
    decreases n,
{
    if n < 0 {
        Seq::empty()
    } else if n < 10 {
        seq![digit_char(n)]
    } else {
        dec_rep(n / 10).push(digit_char(n % 10))
    }
}

/// The character for one digit value.
pub open spec fn digit_char(d: int) -> char {
    if d == 0 {
        '0'
    } else if d == 1 {
        '1'
    } else if d == 2 {
        '2'
    } else if d == 3 {
        '3'
    } else if d == 4 {
        '4'
    } else if d == 5 {
        '5'
    } else if d == 6 {
        '6'
    } else if d == 7 {
        '7'
    } else if d == 8 {
        '8'
    } else {
        '9'
    }
}

pub fn digit_char_exec(d: u64) -> (r: char)
    requires
        d < 10,
    ensures
        r == digit_char(d as int),
{
    match d {
        0 => '0',
        1 => '1',
        2 => '2',
        3 => '3',
        4 => '4',
        5 => '5',
        6 => '6',
        7 => '7',
        8 => '8',
        _ => '9',
    }
}

/// Decimal rendering of `n`.
pub fn dec_chars(n: u64) -> (r: Vec<char>)
    ensures
        r@ == dec_rep(n as int),
    decreases n,
{
    if n < 10 {
        let mut r: Vec<char> = Vec::new();
        r.push(digit_char_exec(n));
        assert(r@ =~= seq![digit_char(n as int)]);
        r
    } else {
        let mut r = dec_chars(n / 10);
        r.push(digit_char_exec(n % 10));
        r
    }
}

/// Append the characters of `t` to `out`.
pub fn append_chars(out: &mut Vec<char>, t: &Vec<char>)
    ensures
        final(out)@ == old(out)@ + t@,
{
    let n = t.len();
    let mut i: usize = 0;
    while i < n
        invariant
            i <= n,
            n == t@.len(),
            out@ == old(out)@ + t@.subrange(0, i as int),
        decreases n - i,
    {
        out.push(t[i]);
        assert(old(out)@ + t@.subrange(0, i + 1 as int) =~= (old(out)@ + t@.subrange(
            0,
            i as int,
        )).push(t@[i as int]));
        i += 1;
    }
    assert(old(out)@ + t@.subrange(0, n as int) =~= old(out)@ + t@);
}

/// Append the characters of the literal `t` to `out`.
pub fn append_str(out: &mut Vec<char>, t: &str)
    ensures
        final(out)@ == old(out)@ + t@,
{
    let cs = str_to_chars(t);
    append_chars(out, &cs);
}

/// Relies on std's `FromIterator<char> for String` (`Iterator::collect`):
/// the collected string holds exactly the iterated characters, in order.
/// vstd offers no verified way to build a `String` from characters.
#[verifier::external_body]
pub fn chars_to_string(s: &Vec<char>) -> (r: String)
    ensures
        r@ == s@,
{
    s.iter().collect()
}

} // verus!
