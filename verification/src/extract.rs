//! The field extractor: one named rule per field, each total — a rule
//! leaves its field at the zero value rather than fail.

use vstd::prelude::*;
use crate::chars::{
    match_at, find_from, rfind_upto, find_char_from, rfind_char_upto, has_sub, is_digit, digit_val,
    digits_of, digits_val, RunClass, run_start, skip_spaces_back, strip_fill, valid_decimal,
    digit_prefix_end, decimal_int_part, decimal_tenths, trim, find_sub, rfind_sub, find_char,
    contains_sub, sub_chars, str_to_chars, chars_to_string, run_start_exec, skip_spaces_back_exec,
    strip_fill_exec, valid_decimal_exec, digit_prefix_end_exec, digits_value_capped, trim_exec,
    is_digit_exec, lemma_digits_val_nonneg, lemma_digits_of_all_digits, lemma_map_values_push,
};

verus! {

// ---- the markers the rules key on ----
pub open spec fn kr_marker() -> Seq<char> {
    " kr"@
}

pub open spec fn m2_marker() -> Seq<char> {
    "m²"@
}

pub open spec fn kvm_marker() -> Seq<char> {
    "kvadratmeter"@
}

pub open spec fn rum_marker() -> Seq<char> {
    "rum"@
}

pub open spec fn spara_marker() -> Seq<char> {
    "Spara "@
}

pub open spec fn lagenhet_marker() -> Seq<char> {
    "Lägenhet"@
}

pub open spec fn domain_marker() -> Seq<char> {
    "www.booli.se"@
}

pub open spec fn dot_sep() -> Seq<char> {
    " · "@
}

pub open spec fn pa_marker() -> Seq<char> {
    "på "@
}

pub open spec fn url_head() -> Seq<char> {
    "](https://www.booli.se/"@
}

pub open spec fn site_base() -> Seq<char> {
    "https://www.booli.se"@
}

pub open spec fn fee_marker() -> Seq<char> {
    "kr/mån"@
}

pub open spec fn default_area() -> Seq<char> {
    "Södermalm"@
}

pub open spec fn snart_label() -> Seq<char> {
    "Snart till salu"@
}

// ---- bounds of search results ----
pub proof fn lemma_find_from_range(s: Seq<char>, pat: Seq<char>, from: int)
    requires
        0 <= from,
    ensures
        find_from(s, pat, from) matches Some(i) ==> from <= i && i + pat.len() <= s.len(),
    decreases s.len() - from,
{
    if from + pat.len() <= s.len() && pat.len() > 0 && !match_at(s, pat, from) {
        lemma_find_from_range(s, pat, from + 1);
    }
}

pub proof fn lemma_rfind_upto_range(s: Seq<char>, pat: Seq<char>, i: int)
    ensures
        rfind_upto(s, pat, i) matches Some(j) ==> 0 <= j <= i && j + pat.len() <= s.len(),
    decreases i + 1,
{
    if i >= 0 && !match_at(s, pat, i) {
        lemma_rfind_upto_range(s, pat, i - 1);
    }
}

pub proof fn lemma_rfind_char_upto_range(s: Seq<char>, c: char, i: int)
    ensures
        rfind_char_upto(s, c, i) matches Some(j) ==> 0 <= j <= i && j < s.len(),
    decreases i + 1,
{
    if 0 <= i < s.len() && s[i] != c {
        lemma_rfind_char_upto_range(s, c, i - 1);
    }
}

/// Every position in a digit prefix holds a digit.
pub proof fn lemma_digit_prefix_all(t: Seq<char>, i: int)
    requires
        0 <= i,
    ensures
        forall|j: int| i <= j < digit_prefix_end(t, i) ==> is_digit(#[trigger] t[j]),
    decreases t.len() - i,
{
    if i < t.len() && is_digit(t[i]) {
        lemma_digit_prefix_all(t, i + 1);
    }
}

// ---- price ----
/// Price rule: value of the digit run immediately preceding the first
/// `" kr"` marker, interior blanks allowed; zero when there is no
/// marker, no digit, or the value does not fit.
pub open spec fn price_rule(s: Seq<char>) -> int {
    match find_from(s, kr_marker(), 0) {
        None => 0,
        Some(k) => {
            let v = digits_val(digits_of(s.subrange(run_start(s, k, RunClass::Price), k)));
            if v <= i64::MAX {
                v
            } else {
                0
            }
        },
    }
}

pub fn extract_price(s: &Vec<char>) -> (r: i64)
    ensures
        r as int == price_rule(s@),
{
    let pat = str_to_chars(" kr");
    match find_sub(s, &pat, 0) {
        None => 0,
        Some(k) => {
            proof {
                lemma_find_from_range(s@, pat@, 0);
            }
            let st = run_start_exec(s, k, RunClass::Price);
            match digits_value_capped(s, st, k, i64::MAX as u64) {
                Some(v) => v as i64,
                None => 0,
            }
        },
    }
}

// ---- floor area ----
/// Floor-area rule: decimal run immediately preceding `marker`, blanks
/// and a leading plus stripped, a comma read as the decimal point, and
/// the value truncated to whole square metres; zero otherwise.
pub open spec fn size_rule(s: Seq<char>, marker: Seq<char>) -> int {
    match find_from(s, marker, 0) {
        None => 0,
        Some(k) => {
            let t = strip_fill(s.subrange(run_start(s, k, RunClass::Size), k));
            if valid_decimal(t) && decimal_int_part(t) <= i32::MAX {
                decimal_int_part(t)
            } else {
                0
            }
        },
    }
}

pub fn extract_size(s: &Vec<char>, marker: &Vec<char>) -> (r: i32)
    ensures
        r as int == size_rule(s@, marker@),
{
    match find_sub(s, marker, 0) {
        None => 0,
        Some(k) => {
            proof {
                lemma_find_from_range(s@, marker@, 0);
            }
            let st = run_start_exec(s, k, RunClass::Size);
            let t = strip_fill_exec(s, st, k);
            if valid_decimal_exec(&t) {
                let p = digit_prefix_end_exec(&t, 0);
                match digits_value_capped(&t, 0, p, i32::MAX as u64) {
                    Some(v) => v as i32,
                    None => 0,
                }
            } else {
                0
            }
        },
    }
}

// ---- rooms ----
/// Room-count rule, in tenths of a room: decimal run immediately
/// preceding the first `rum` token, trailing blanks skipped, a comma
/// read as the decimal point, truncated past the first fractional
/// digit; zero otherwise.
pub open spec fn rooms_rule(s: Seq<char>) -> int {
    match find_from(s, rum_marker(), 0) {
        None => 0,
        Some(k) => {
            let e = skip_spaces_back(s, k);
            let t = s.subrange(run_start(s, e, RunClass::Rooms), e);
            if valid_decimal(t) && decimal_tenths(t) <= u32::MAX {
                decimal_tenths(t)
            } else {
                0
            }
        },
    }
}

pub fn extract_rooms_tenths(s: &Vec<char>) -> (r: u32)
    ensures
        r as int == rooms_rule(s@),
{
    let pat = str_to_chars("rum");
    match find_sub(s, &pat, 0) {
        None => 0,
        Some(k) => {
            proof {
                lemma_find_from_range(s@, pat@, 0);
            }
            let e = skip_spaces_back_exec(s, k);
            let st = run_start_exec(s, e, RunClass::Rooms);
            let t = sub_chars(s, st, e);
            if valid_decimal_exec(&t) {
                let p = digit_prefix_end_exec(&t, 0);
                let mut frac: u64 = 0;
                if t.len() - p > 1 {
                    proof {
                        lemma_digit_prefix_all(t@, p as int + 1);
                    }
                    let c = t[p + 1];
                    assert(is_digit(c));
                    frac = (c as u32 as u64) - 48;
                }
                match digits_value_capped(&t, 0, p, u64::MAX) {
                    Some(v) => {
                        proof {
                            lemma_digits_of_all_digits(t@.subrange(0, p as int));
                            lemma_digits_val_nonneg(digits_of(t@.subrange(0, p as int)));
                        }
                        match v.checked_mul(10) {
                            Some(tv) => {
                                match tv.checked_add(frac) {
                                    Some(dt) => {
                                        if dt <= u32::MAX as u64 {
                                            dt as u32
                                        } else {
                                            0
                                        }
                                    },
                                    None => 0,
                                }
                            },
                            None => 0,
                        }
                    },
                    None => {
                        proof {
                            lemma_digits_of_all_digits(t@.subrange(0, p as int));
                            lemma_digits_val_nonneg(digits_of(t@.subrange(0, p as int)));
                        }
                        0
                    },
                }
            } else {
                0
            }
        },
    }
}

// ---- neighbourhood label ----
/// Area rule: the text between the first two ` · ` separators, else
/// the default neighbourhood.
pub open spec fn area_rule(s: Seq<char>) -> Seq<char> {
    match find_from(s, dot_sep(), 0) {
        None => default_area(),
        Some(i) => match find_from(s, dot_sep(), i + dot_sep().len()) {
            None => default_area(),
            Some(j) => trim(s.subrange(i + dot_sep().len(), j)),
        },
    }
}

pub fn extract_area(s: &Vec<char>) -> (r: Vec<char>)
    ensures
        r@ == area_rule(s@),
{
    let n = s.len();
    let pat = str_to_chars(" · ");
    match find_sub(s, &pat, 0) {
        None => str_to_chars("Södermalm"),
        Some(i) => {
            proof {
                lemma_find_from_range(s@, pat@, 0);
            }
            let a = i + pat.len();
            match find_sub(s, &pat, a) {
                None => str_to_chars("Södermalm"),
                Some(j) => {
                    proof {
                        lemma_find_from_range(s@, pat@, a as int);
                    }
                    let piece = sub_chars(s, a, j);
                    trim_exec(&piece)
                },
            }
        },
    }
}

// ---- listing link ----
/// Listing-link rule: the parenthesised target after the last
/// markdown link head pointing at the site; empty when absent.
pub open spec fn url_rule(s: Seq<char>) -> Seq<char> {
    match rfind_upto(s, url_head(), s.len() - url_head().len()) {
        None => Seq::empty(),
        Some(u) => match find_char_from(s, ')', u + 2) {
            None => Seq::empty(),
            Some(e) => s.subrange(u + 2, e),
        },
    }
}

pub fn extract_url(s: &Vec<char>) -> (r: Vec<char>)
    ensures
        r@ == url_rule(s@),
{
    let pat = str_to_chars("](https://www.booli.se/");
    proof {
        reveal_strlit("](https://www.booli.se/");
    }
    let n = s.len();
    match rfind_sub(s, &pat) {
        None => Vec::new(),
        Some(u) => {
            proof {
                lemma_rfind_upto_range(s@, pat@, s@.len() - pat@.len());
            }
            match find_char(s, ')', u + 2) {
                None => Vec::new(),
                Some(e) => {
                    proof {
                        crate::chars::lemma_find_char_from_range(s@, ')', u as int + 2);
                    }
                    sub_chars(s, u + 2, e)
                },
            }
        },
    }
}

// ---- amenities ----
/// Amenity rule in text mode: presence of each word of a fixed
/// vocabulary, in vocabulary order.
pub open spec fn features_text_rule(s: Seq<char>) -> Seq<Seq<char>> {
    (if has_sub(s, "Hiss"@) {
        seq!["Hiss"@]
    } else {
        Seq::empty()
    }) + (if has_sub(s, "Balkong"@) {
        seq!["Balkong"@]
    } else {
        Seq::empty()
    }) + (if has_sub(s, "Eldstad"@) {
        seq!["Eldstad"@]
    } else {
        Seq::empty()
    })
}

pub fn extract_features_text(s: &Vec<char>) -> (r: Vec<String>)
    ensures
        r@.map_values(|t: String| t@) == features_text_rule(s@),
{
    let mut r: Vec<String> = Vec::new();
    let h = str_to_chars("Hiss");
    let b = str_to_chars("Balkong");
    let e = str_to_chars("Eldstad");
    if contains_sub(s, &h) {
        let v = String::from_str("Hiss");
        proof {
            lemma_map_values_push(r@, v, |t: String| t@);
        }
        r.push(v);
    }
    if contains_sub(s, &b) {
        let v = String::from_str("Balkong");
        proof {
            lemma_map_values_push(r@, v, |t: String| t@);
        }
        r.push(v);
    }
    if contains_sub(s, &e) {
        let v = String::from_str("Eldstad");
        proof {
            lemma_map_values_push(r@, v, |t: String| t@);
        }
        r.push(v);
    }
    assert(r@.map_values(|t: String| t@) =~= features_text_rule(s@));
    r
}

// ---- address, text mode ----
/// Characters permitted inside an address run: alphanumerics, the
/// Swedish letters, and interior blanks.
pub open spec fn is_addr_char(c: char) -> bool {
    is_digit(c) || ('a' <= c && c <= 'z') || ('A' <= c && c <= 'Z') || c == ' ' || c == 'å' || c
        == 'ä' || c == 'ö' || c == 'Å' || c == 'Ä' || c == 'Ö'
}

pub fn is_addr_char_exec(c: char) -> (r: bool)
    ensures
        r == is_addr_char(c),
{
    is_digit_exec(c) || (c >= 'a' && c <= 'z') || (c >= 'A' && c <= 'Z') || c == ' ' || c == 'å'
        || c == 'ä' || c == 'ö' || c == 'Å' || c == 'Ä' || c == 'Ö'
}

/// Length of the run of address characters starting at `i`.
pub open spec fn addr_run_len(s: Seq<char>, i: int) -> nat
    decreases s.len() - i,
{
    if 0 <= i < s.len() && is_addr_char(s[i]) {
        1 + addr_run_len(s, i + 1)
    } else {
        0
    }
}

fn addr_run_len_exec(s: &Vec<char>, i: usize) -> (r: usize)
    requires
        i <= s@.len(),
    ensures
        r == addr_run_len(s@, i as int),
        i + r <= s@.len(),
{
    let n = s.len();
    let mut j: usize = i;
    while j < n && is_addr_char_exec(s[j])
        invariant
            i <= j <= n,
            n == s@.len(),
            addr_run_len(s@, i as int) == j - i + addr_run_len(s@, j as int),
        decreases n - j,
    {
        j += 1;
    }
    j - i
}

/// Start of the first maximal address run longer than three characters,
/// scanning from `i`.
pub open spec fn first_long_run_start(s: Seq<char>, i: int) -> Option<int>
    decreases s.len() - i,
{
    if i >= s.len() {
        None
    } else if is_addr_char(s[i]) && (i == 0 || !is_addr_char(s[i - 1])) && addr_run_len(s, i)
        > 3 {
        Some(i)
    } else {
        first_long_run_start(s, i + 1)
    }
}

fn first_long_run_start_exec(s: &Vec<char>) -> (r: Option<usize>)
    ensures
        match r {
            Some(i) => first_long_run_start(s@, 0) == Some(i as int) && i < s@.len(),
            None => first_long_run_start(s@, 0) is None,
        },
{
    let n = s.len();
    let mut i: usize = 0;
    while i < n
        invariant
            i <= n,
            n == s@.len(),
            first_long_run_start(s@, 0) == first_long_run_start(s@, i as int),
        decreases n - i,
    {
        if is_addr_char_exec(s[i]) && (i == 0 || !is_addr_char_exec(s[i - 1])) {
            let l = addr_run_len_exec(s, i);
            if l > 3 {
                return Some(i);
            }
        }
        i += 1;
    }
    None
}

/// The first half of a text that is exactly its own doubling; the text
/// itself otherwise. Save labels repeat the address back to back.
pub open spec fn dedouble(run: Seq<char>) -> Seq<char> {
    let h = run.len() as int / 2;
    if run.len() % 2 == 0 && run.subrange(0, h) == run.subrange(h, run.len() as int) {
        run.subrange(0, h)
    } else {
        run
    }
}

/// The address picked out of a save-label section: the first long run,
/// halved when doubled, and trimmed.
pub open spec fn section_address(sec: Seq<char>) -> Seq<char> {
    match first_long_run_start(sec, 0) {
        None => Seq::empty(),
        Some(i) => trim(dedouble(sec.subrange(i, i + addr_run_len(sec, i)))),
    }
}

fn section_address_exec(sec: &Vec<char>) -> (r: Vec<char>)
    ensures
        r@ == section_address(sec@),
{
    let n = sec.len();
    match first_long_run_start_exec(sec) {
        None => Vec::new(),
        Some(i) => {
            let l = addr_run_len_exec(sec, i);
            let run = sub_chars(sec, i, i + l);
            let h = l / 2;
            let dd = if l % 2 == 0 {
                let first = sub_chars(&run, 0, h);
                if crate::chars::match_at_exec(&run, &first, h) {
                    assert(run@.subrange(0, h as int) =~= run@.subrange(
                        h as int,
                        run@.len() as int,
                    ));
                    first
                } else {
                    assert(run@.subrange(0, h as int) != run@.subrange(
                        h as int,
                        run@.len() as int,
                    ));
                    run
                }
            } else {
                run
            };
            assert(dd@ == dedouble(sec@.subrange(i as int, i + l)));
            trim_exec(&dd)
        },
    }
}

/// Address rule in text mode: first long run between the save marker
/// and the dwelling-type marker; empty when either marker is missing.
pub open spec fn addr_text_rule(s: Seq<char>) -> Seq<char> {
    match find_from(s, spara_marker(), 0) {
        None => Seq::empty(),
        Some(sp) => match find_from(s, lagenhet_marker(), 0) {
            None => Seq::empty(),
            Some(lp) => {
                let a = sp + spara_marker().len();
                if a <= lp {
                    section_address(s.subrange(a, lp))
                } else {
                    Seq::empty()
                }
            },
        },
    }
}

pub fn extract_addr_text(s: &Vec<char>) -> (r: Vec<char>)
    ensures
        r@ == addr_text_rule(s@),
{
    let n = s.len();
    let spara = str_to_chars("Spara ");
    let lag = str_to_chars("Lägenhet");
    match find_sub(s, &spara, 0) {
        None => Vec::new(),
        Some(sp) => {
            proof {
                lemma_find_from_range(s@, spara@, 0);
            }
            match find_sub(s, &lag, 0) {
                None => Vec::new(),
                Some(lp) => {
                    proof {
                        lemma_find_from_range(s@, lag@, 0);
                    }
                    let a = sp + spara.len();
                    if a <= lp {
                        let sec = sub_chars(s, a, lp);
                        section_address_exec(&sec)
                    } else {
                        Vec::new()
                    }
                },
            }
        },
    }
}

// ---- address and area, markup mode ----
/// Address-and-area rule for a card label of the form
/// `"<rooms> rum lägenhet på <address> <area>, <municipality>"`:
/// the segment between `på ` and the comma, its trailing
/// non-numeric token split off as the area.
pub open spec fn label_addr_area(s: Seq<char>) -> (Seq<char>, Seq<char>) {
    match find_from(s, pa_marker(), 0) {
        None => (Seq::empty(), default_area()),
        Some(p) => {
            let a = p + pa_marker().len();
            let rest = s.subrange(a, s.len() as int);
            match find_char_from(rest, ',', 0) {
                None => (trim(rest), default_area()),
                Some(c) => {
                    let seg = rest.subrange(0, c);
                    match rfind_char_upto(seg, ' ', seg.len() - 1) {
                        None => (trim(seg), default_area()),
                        Some(sp) => {
                            let tok = seg.subrange(sp + 1, seg.len() as int);
                            if tok.len() > 0 && !is_digit(tok[0]) {
                                (trim(seg.subrange(0, sp)), tok)
                            } else {
                                (trim(seg), default_area())
                            }
                        },
                    }
                },
            }
        },
    }
}

pub fn extract_label_addr_area(s: &Vec<char>) -> (r: (Vec<char>, Vec<char>))
    ensures
        r.0@ == label_addr_area(s@).0,
        r.1@ == label_addr_area(s@).1,
{
    let n = s.len();
    let pat = str_to_chars("på ");
    match find_sub(s, &pat, 0) {
        None => (Vec::new(), str_to_chars("Södermalm")),
        Some(p) => {
            proof {
                lemma_find_from_range(s@, pat@, 0);
            }
            let a = p + pat.len();
            let rest = sub_chars(s, a, s.len());
            match find_char(&rest, ',', 0) {
                None => (trim_exec(&rest), str_to_chars("Södermalm")),
                Some(c) => {
                    proof {
                        crate::chars::lemma_find_char_from_range(rest@, ',', 0);
                    }
                    let seg = sub_chars(&rest, 0, c);
                    match crate::chars::rfind_char(&seg, ' ') {
                        None => (trim_exec(&seg), str_to_chars("Södermalm")),
                        Some(sp) => {
                            proof {
                                lemma_rfind_char_upto_range(seg@, ' ', seg@.len() - 1);
                            }
                            let tok = sub_chars(&seg, sp + 1, seg.len());
                            if tok.len() > 0 && !is_digit_exec(tok[0]) {
                                let head = sub_chars(&seg, 0, sp);
                                (trim_exec(&head), tok)
                            } else {
                                (trim_exec(&seg), str_to_chars("Södermalm"))
                            }
                        },
                    }
                },
            }
        },
    }
}

// ---- the assembled field-set ----
/// The all-optional intermediate result of one fragment: every field
/// defaulted rather than absent.
#[derive(Debug, Clone)]
pub struct FieldSet {
    pub address: String,
    pub area: String,
    pub price: i64,
    pub sqm: i32,
    pub rooms_tenths: u32,
    pub features: Vec<String>,
    pub url: String,
    pub raw_label: String,
    pub monthly_fee: String,
}

/// Mathematical image of a `FieldSet`.
#[verifier::ext_equal]
pub ghost struct FieldsV {
    pub address: Seq<char>,
    pub area: Seq<char>,
    pub price: int,
    pub sqm: int,
    pub rooms_tenths: int,
    pub features: Seq<Seq<char>>,
    pub url: Seq<char>,
    pub raw_label: Seq<char>,
    pub monthly_fee: Seq<char>,
}

impl View for FieldSet {
    type V = FieldsV;

    open spec fn view(&self) -> FieldsV {
        FieldsV {
            address: self.address@,
            area: self.area@,
            price: self.price as int,
            sqm: self.sqm as int,
            rooms_tenths: self.rooms_tenths as int,
            features: self.features@.map_values(|s: String| s@),
            url: self.url@,
            raw_label: self.raw_label@,
            monthly_fee: self.monthly_fee@,
        }
    }
}

/// Field extraction in text mode: every rule applied to one line.
pub open spec fn text_fields(line: Seq<char>) -> FieldsV {
    FieldsV {
        address: addr_text_rule(line),
        area: area_rule(line),
        price: price_rule(line),
        sqm: size_rule(line, m2_marker()),
        rooms_tenths: rooms_rule(line),
        features: features_text_rule(line),
        url: url_rule(line),
        raw_label: Seq::empty(),
        monthly_fee: Seq::empty(),
    }
}

/// The field extractor in text mode. Total: malformed input yields
/// defaulted fields, never an error.
pub fn extract_text_fields(line: &Vec<char>) -> (r: FieldSet)
    ensures
        r@ == text_fields(line@),
{
    let addr = extract_addr_text(line);
    let area = extract_area(line);
    let url = extract_url(line);
    let m2 = str_to_chars("m²");
    let fs = FieldSet {
        address: chars_to_string(&addr),
        area: chars_to_string(&area),
        price: extract_price(line),
        sqm: extract_size(line, &m2),
        rooms_tenths: extract_rooms_tenths(line),
        features: extract_features_text(line),
        url: chars_to_string(&url),
        raw_label: String::new(),
        monthly_fee: String::new(),
    };
    assert(fs@ =~= text_fields(line@));
    fs
}

} // verus!
