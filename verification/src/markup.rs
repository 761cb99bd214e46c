//! Markup-mode segmentation and extraction: listing cards are picked
//! out of page markup through the scraper crate; every rule then runs
//! on plain character data and is verified.

use vstd::prelude::*;
use crate::chars::{
    has_sub, trim, nbsp_decoded, str_to_chars, chars_to_string, sub_chars, decode_nbsp,
    contains_sub, trim_exec, append_chars, match_at_exec, match_at, lemma_map_values_push,
};
use crate::extract::{
    FieldSet, FieldsV, kvm_marker, fee_marker, snart_label, site_base, price_rule, size_rule,
    rooms_rule, label_addr_area, extract_price, extract_size, extract_rooms_tenths,
    extract_label_addr_area,
};
use crate::builder::{ExtractMode, record_rule, build_record};
use crate::models::{opt_view, Property, RecordV, record_valid};

verus! {

// ---- what the selection calls return, by name ----
/// Outer markup of each element of `page` matching `selector`, in
/// document order.
pub uninterp spec fn selected_fragments(page: Seq<char>, selector: Seq<char>) -> Seq<Seq<char>>;

/// For each element of `fragment` matching `selector`, the value of
/// its `attr` attribute, in document order.
pub uninterp spec fn selected_attrs(fragment: Seq<char>, selector: Seq<char>, attr: Seq<char>) -> Seq<
    Option<Seq<char>>,
>;

/// Text content of each element of `fragment` matching `selector`, in
/// document order.
pub uninterp spec fn selected_texts(fragment: Seq<char>, selector: Seq<char>) -> Seq<Seq<char>>;

/// Relies on scraper's `Html::parse_document`, `Selector::parse` and
/// `Html::select` with `ElementRef::html`: the matched elements'
/// outer markup in document order, a function of the page and the
/// selector alone. An unparsable selector selects nothing.
#[verifier::external_body]
fn select_outer_html(page: &str, selector: &str) -> (r: Vec<String>)
    ensures
        r@.map_values(|s: String| s@) == selected_fragments(page@, selector@),
{
    match scraper::Selector::parse(selector) {
        Ok(sel) => {
            let doc = scraper::Html::parse_document(page);
            doc.select(&sel).map(|el| el.html()).collect()
        },
        Err(_) => Vec::new(),
    }
}

/// Relies on scraper's `Html::parse_fragment`, `Selector::parse`,
/// `Html::select` and `ElementRef::attr`: the matched elements'
/// attribute values in document order, a function of the inputs
/// alone. An unparsable selector selects nothing.
#[verifier::external_body]
fn select_attr_values(fragment: &str, selector: &str, attr: &str) -> (r: Vec<Option<String>>)
    ensures
        r@.map_values(|o: Option<String>| opt_view(o)) == selected_attrs(
            fragment@,
            selector@,
            attr@,
        ),
{
    match scraper::Selector::parse(selector) {
        Ok(sel) => {
            let doc = scraper::Html::parse_fragment(fragment);
            doc.select(&sel).map(|el| el.attr(attr).map(String::from)).collect()
        },
        Err(_) => Vec::new(),
    }
}

/// Relies on scraper's `Html::parse_fragment`, `Selector::parse`,
/// `Html::select` and `ElementRef::text`: the matched elements'
/// concatenated descendant text in document order, a function of the
/// inputs alone. An unparsable selector selects nothing.
#[verifier::external_body]
fn select_texts(fragment: &str, selector: &str) -> (r: Vec<String>)
    ensures
        r@.map_values(|s: String| s@) == selected_texts(fragment@, selector@),
{
    match scraper::Selector::parse(selector) {
        Ok(sel) => {
            let doc = scraper::Html::parse_fragment(fragment);
            doc.select(&sel).map(|el| el.text().collect::<String>()).collect()
        },
        Err(_) => Vec::new(),
    }
}

// ---- the selectors the pipeline keys on ----
pub open spec fn card_selector() -> Seq<char> {
    "a.object-card-link"@
}

pub open spec fn li_selector() -> Seq<char> {
    "li"@
}

pub open spec fn price_selector() -> Seq<char> {
    "span.object-card__price--logo"@
}

pub open spec fn tag_selector() -> Seq<char> {
    "div.tag"@
}

pub open spec fn aria_attr() -> Seq<char> {
    "aria-label"@
}

pub open spec fn href_attr() -> Seq<char> {
    "href"@
}

/// Markup segmentation: one fragment per listing-card element, in
/// document order; an empty result is no error but the fallback
/// signal.
pub fn segment_markup(page: &str) -> (r: Vec<String>)
    ensures
        r@.map_values(|s: String| s@) == selected_fragments(page@, card_selector()),
{
    select_outer_html(page, "a.object-card-link")
}

/// First value of an attribute selection, or empty.
pub open spec fn first_attr_or_empty(vs: Seq<Option<Seq<char>>>) -> Seq<char> {
    if vs.len() > 0 && vs[0] is Some {
        vs[0].unwrap()
    } else {
        Seq::empty()
    }
}

/// First text of a selection, or empty.
pub open spec fn first_or_empty(vs: Seq<Seq<char>>) -> Seq<char> {
    if vs.len() > 0 {
        vs[0]
    } else {
        Seq::empty()
    }
}

/// Floor area reported by the first `n` structured sub-labels: each
/// label carrying the marker sets the value; the last one stands.
pub open spec fn sqm_from_labels(ls: Seq<Option<Seq<char>>>, n: int) -> int
    decreases n,
{
    if n <= 0 {
        0
    } else {
        let prev = sqm_from_labels(ls, n - 1);
        match ls[n - 1] {
            Some(l) => {
                let d = nbsp_decoded(l);
                if has_sub(d, kvm_marker()) {
                    size_rule(d, kvm_marker())
                } else {
                    prev
                }
            },
            None => prev,
        }
    }
}

/// The raw monthly-fee label among the first `n` sub-labels: the last
/// one carrying the fee marker, kept whole as provenance.
pub open spec fn fee_from_labels(ls: Seq<Option<Seq<char>>>, n: int) -> Seq<char>
    decreases n,
{
    if n <= 0 {
        Seq::empty()
    } else {
        let prev = fee_from_labels(ls, n - 1);
        match ls[n - 1] {
            Some(l) => {
                let d = nbsp_decoded(l);
                if has_sub(d, fee_marker()) {
                    d
                } else {
                    prev
                }
            },
            None => prev,
        }
    }
}

/// Amenity tags kept from the first `n` tag texts: trimmed, non-empty
/// and not the placeholder, in first-seen order.
pub open spec fn kept_tags(tags: Seq<Seq<char>>, n: int) -> Seq<Seq<char>>
    decreases n,
{
    if n <= 0 {
        Seq::empty()
    } else {
        let prev = kept_tags(tags, n - 1);
        let t = trim(tags[n - 1]);
        if t.len() > 0 && t != snart_label() {
            prev.push(t)
        } else {
            prev
        }
    }
}

/// Field extraction in markup mode: every rule applied to what the
/// selection calls hand back for one card fragment.
pub open spec fn markup_fields(frag: Seq<char>) -> FieldsV {
    let hrefs = selected_attrs(frag, card_selector(), href_attr());
    let labels = selected_attrs(frag, card_selector(), aria_attr());
    let lis = selected_attrs(frag, li_selector(), aria_attr());
    let prices = selected_texts(frag, price_selector());
    let tags = selected_texts(frag, tag_selector());
    let href = first_attr_or_empty(hrefs);
    let label = nbsp_decoded(first_attr_or_empty(labels));
    let aa = label_addr_area(label);
    FieldsV {
        address: aa.0,
        area: aa.1,
        price: price_rule(first_or_empty(prices)),
        sqm: sqm_from_labels(lis, lis.len() as int),
        rooms_tenths: rooms_rule(label),
        features: kept_tags(tags, tags.len() as int),
        url: if href.len() > 0 {
            site_base() + href
        } else {
            Seq::empty()
        },
        raw_label: label,
        monthly_fee: fee_from_labels(lis, lis.len() as int),
    }
}

/// The field extractor in markup mode. Total: a malformed fragment
/// yields defaulted fields, never an error.
pub fn extract_markup_fields(frag: &str) -> (r: FieldSet)
    ensures
        r@ == markup_fields(frag@),
{
    let hrefs = select_attr_values(frag, "a.object-card-link", "href");
    let labels = select_attr_values(frag, "a.object-card-link", "aria-label");
    let lis = select_attr_values(frag, "li", "aria-label");
    let prices = select_texts(frag, "span.object-card__price--logo");
    let tags = select_texts(frag, "div.tag");
    let ghost hrefs_v = selected_attrs(frag@, card_selector(), href_attr());
    let ghost labels_v = selected_attrs(frag@, card_selector(), aria_attr());
    let ghost lis_v = selected_attrs(frag@, li_selector(), aria_attr());
    let ghost prices_v = selected_texts(frag@, price_selector());
    let ghost tags_v = selected_texts(frag@, tag_selector());

    let href: Vec<char> = if hrefs.len() > 0 {
        proof {
            assert(hrefs@.map_values(|o: Option<String>| opt_view(o))[0] == hrefs_v[0]);
        }
        match &hrefs[0] {
            Some(s) => str_to_chars(s.as_str()),
            None => Vec::new(),
        }
    } else {
        Vec::new()
    };
    assert(href@ == first_attr_or_empty(hrefs_v));

    let raw_label: Vec<char> = if labels.len() > 0 {
        proof {
            assert(labels@.map_values(|o: Option<String>| opt_view(o))[0] == labels_v[0]);
        }
        match &labels[0] {
            Some(s) => str_to_chars(s.as_str()),
            None => Vec::new(),
        }
    } else {
        Vec::new()
    };
    assert(raw_label@ == first_attr_or_empty(labels_v));
    let label = decode_nbsp(&raw_label);

    let (addr, area) = extract_label_addr_area(&label);

    let price_text: Vec<char> = if prices.len() > 0 {
        proof {
            assert(prices@.map_values(|s: String| s@)[0] == prices_v[0]);
        }
        str_to_chars(prices[0].as_str())
    } else {
        Vec::new()
    };
    assert(price_text@ == first_or_empty(prices_v));
    let price = extract_price(&price_text);

    let kvm = str_to_chars("kvadratmeter");
    let feem = str_to_chars("kr/mån");
    let mut sqm: i32 = 0;
    let mut fee: Vec<char> = Vec::new();
    let ln = lis.len();
    let mut i: usize = 0;
    while i < ln
        invariant
            i <= ln,
            ln == lis@.len(),
            lis@.map_values(|o: Option<String>| opt_view(o)) == lis_v,
            kvm@ == kvm_marker(),
            feem@ == fee_marker(),
            sqm as int == sqm_from_labels(lis_v, i as int),
            fee@ == fee_from_labels(lis_v, i as int),
        decreases ln - i,
    {
        proof {
            assert(lis@.map_values(|o: Option<String>| opt_view(o))[i as int] == lis_v[i as int]);
        }
        match &lis[i] {
            Some(l) => {
                let lc = str_to_chars(l.as_str());
                let d = decode_nbsp(&lc);
                if contains_sub(&d, &kvm) {
                    sqm = extract_size(&d, &kvm);
                }
                if contains_sub(&d, &feem) {
                    fee = sub_chars(&d, 0, d.len());
                    assert(d@.subrange(0, d@.len() as int) =~= d@);
                }
            },
            None => {},
        }
        i += 1;
    }

    let snart = str_to_chars("Snart till salu");
    let mut feats: Vec<String> = Vec::new();
    let tn = tags.len();
    let mut j: usize = 0;
    while j < tn
        invariant
            j <= tn,
            tn == tags@.len(),
            tags@.map_values(|s: String| s@) == tags_v,
            snart@ == snart_label(),
            feats@.map_values(|s: String| s@) == kept_tags(tags_v, j as int),
        decreases tn - j,
    {
        proof {
            assert(tags@.map_values(|s: String| s@)[j as int] == tags_v[j as int]);
        }
        let tc = str_to_chars(tags[j].as_str());
        let t = trim_exec(&tc);
        let is_snart = t.len() == snart.len() && match_at_exec(&t, &snart, 0);
        proof {
            if t@.len() == snart@.len() {
                if match_at(t@, snart@, 0) {
                    assert(t@.subrange(0, snart@.len() as int) =~= t@);
                } else {
                    assert(t@ != snart_label()) by {
                        if t@ == snart_label() {
                            assert(t@.subrange(0, snart@.len() as int) =~= snart@);
                        }
                    }
                }
            }
        }
        if t.len() > 0 && !is_snart {
            let v = chars_to_string(&t);
            proof {
                lemma_map_values_push(feats@, v, |s: String| s@);
            }
            feats.push(v);
        }
        j += 1;
    }

    let url: Vec<char> = if href.len() > 0 {
        let mut u = str_to_chars("https://www.booli.se");
        append_chars(&mut u, &href);
        u
    } else {
        Vec::new()
    };

    let fs = FieldSet {
        address: chars_to_string(&addr),
        area: chars_to_string(&area),
        price,
        sqm,
        rooms_tenths: extract_rooms_tenths(&label),
        features: feats,
        url: chars_to_string(&url),
        raw_label: chars_to_string(&label),
        monthly_fee: chars_to_string(&fee),
    };
    assert(fs@ =~= markup_fields(frag@));
    fs
}

/// Records accumulated from the first `n` card fragments, in order.
pub open spec fn markup_records_upto(frags: Seq<Seq<char>>, n: int, ts: int) -> Seq<RecordV>
    decreases n,
{
    if n <= 0 {
        Seq::empty()
    } else {
        let prev = markup_records_upto(frags, n - 1, ts);
        match record_rule(ExtractMode::Markup, markup_fields(frags[n - 1]), n - 1, ts) {
            Some(rv) => prev.push(rv),
            None => prev,
        }
    }
}

/// Every record the markup pipeline accumulates satisfies the record
/// invariant, whatever the page markup holds.
pub proof fn lemma_markup_records_valid(frags: Seq<Seq<char>>, n: int, ts: int)
    ensures
        forall|k: int| 0 <= k < markup_records_upto(frags, n, ts).len() ==> record_valid(
            #[trigger] markup_records_upto(frags, n, ts)[k],
        ),
    decreases n,
{
    if n > 0 {
        lemma_markup_records_valid(frags, n - 1, ts);
        let prev = markup_records_upto(frags, n - 1, ts);
        let cur = markup_records_upto(frags, n, ts);
        assert forall|k: int| 0 <= k < cur.len() implies record_valid(#[trigger] cur[k]) by {
            if k < prev.len() {
                assert(cur[k] == prev[k]);
            } else {
                crate::builder::lemma_record_rule_valid(
                    ExtractMode::Markup,
                    markup_fields(frags[n - 1]),
                    n - 1,
                    ts,
                );
            }
        }
    }
}

/// All records extracted from page markup, captured at `ts`.
pub open spec fn markup_records(page: Seq<char>, ts: int) -> Seq<RecordV> {
    let frags = selected_fragments(page, card_selector());
    markup_records_upto(frags, frags.len() as int, ts)
}

/// Extraction over whole page markup, captured at the given
/// timestamp: segmentation into cards, extraction per card, and
/// validation; rejected cards are dropped without aborting the run.
pub fn extract_listing_records_at(html: &str, ts: i64) -> (r: Vec<Property>)
    ensures
        r@.map_values(|p: Property| p@) == markup_records(html@, ts as int),
        forall|k: int| 0 <= k < r@.len() ==> record_valid(#[trigger] r@[k]@),
{
    let frags = segment_markup(html);
    let ghost frags_v = selected_fragments(html@, card_selector());
    let n = frags.len();
    let mut out: Vec<Property> = Vec::new();
    let mut i: usize = 0;
    while i < n
        invariant
            i <= n,
            n == frags@.len(),
            frags@.map_values(|s: String| s@) == frags_v,
            out@.map_values(|p: Property| p@) == markup_records_upto(frags_v, i as int, ts as int),
            forall|k: int| 0 <= k < out@.len() ==> record_valid(#[trigger] out@[k]@),
        decreases n - i,
    {
        proof {
            assert(frags@.map_values(|s: String| s@)[i as int] == frags_v[i as int]);
        }
        let fs = extract_markup_fields(frags[i].as_str());
        match build_record(ExtractMode::Markup, fs, i, ts) {
            Some(p) => {
                proof {
                    lemma_map_values_push(out@, p, |q: Property| q@);
                }
                out.push(p);
            },
            None => {},
        }
        i += 1;
    }
    out
}

/// Extraction over whole page markup, captured now.
pub fn extract_listing_records(html: &str) -> (r: Vec<Property>)
    ensures
        exists|ts: int| r@.map_values(|p: Property| p@) == #[trigger] markup_records(html@, ts),
        forall|k: int| 0 <= k < r@.len() ==> record_valid(#[trigger] r@[k]@),
{
    let ts = crate::booli::now_timestamp();
    let r = extract_listing_records_at(html, ts);
    proof {
        assert(r@.map_values(|p: Property| p@) == markup_records(html@, ts as int));
    }
    r
}

} // verus!
