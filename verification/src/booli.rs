//! The extraction pipeline over a flattened text rendering of the
//! listings page, and the deciding state that substitutes the
//! reference dataset when live extraction yields nothing.

use vstd::prelude::*;
use crate::chars::{
    has_sub, trim, lines_of, str_to_chars, split_lines, trim_exec, contains_sub,
    lemma_map_values_push,
};
use crate::extract::{domain_marker, lagenhet_marker, text_fields, extract_text_fields};
use crate::builder::{ExtractMode, record_rule, build_record};
use crate::models::{Property, RecordV, record_valid, SearchParams};
use crate::reference::{reference_v, reference_records};

verus! {

/// Relies on chrono's `Utc::now` for the capture timestamp, read as
/// seconds since the epoch. Nothing is assumed of the value.
#[verifier::external_body]
pub fn now_timestamp() -> i64 {
    chrono::Utc::now().timestamp()
}

/// One line is a fragment exactly when it carries both the site
/// domain and the dwelling-type keyword.
pub open spec fn is_text_fragment(line: Seq<char>) -> bool {
    has_sub(line, domain_marker()) && has_sub(line, lagenhet_marker())
}

/// Records accumulated from the first `n` lines, in order: each
/// fragment line is trimmed, extracted and validated; the rest are
/// passed over.
pub open spec fn text_records_upto(lines: Seq<Seq<char>>, n: int, ts: int) -> Seq<RecordV>
    decreases n,
{
    if n <= 0 {
        Seq::empty()
    } else {
        let prev = text_records_upto(lines, n - 1, ts);
        let line = trim(lines[n - 1]);
        if is_text_fragment(line) {
            match record_rule(ExtractMode::Text, text_fields(line), n - 1, ts) {
                Some(rv) => prev.push(rv),
                None => prev,
            }
        } else {
            prev
        }
    }
}

/// All records extracted from a text rendering, captured at `ts`.
pub open spec fn text_records(content: Seq<char>, ts: int) -> Seq<RecordV> {
    text_records_upto(lines_of(content), lines_of(content).len() as int, ts)
}

/// Extraction over a whole text rendering: split into lines, extract
/// per fragment, keep what the validator admits.
pub fn extract_text_records(html: &str, ts: i64) -> (r: Vec<Property>)
    ensures
        r@.map_values(|p: Property| p@) == text_records(html@, ts as int),
        forall|k: int| 0 <= k < r@.len() ==> record_valid(#[trigger] r@[k]@),
{
    let cs = str_to_chars(html);
    let lines = split_lines(&cs);
    let n = lines.len();
    let domain = str_to_chars("www.booli.se");
    let lag = str_to_chars("Lägenhet");
    let mut out: Vec<Property> = Vec::new();
    let mut i: usize = 0;
    while i < n
        invariant
            i <= n,
            n == lines@.len(),
            cs@ == html@,
            lines@.map_values(|l: Vec<char>| l@) == lines_of(html@),
            domain@ == domain_marker(),
            lag@ == lagenhet_marker(),
            out@.map_values(|p: Property| p@) == text_records_upto(
                lines_of(html@),
                i as int,
                ts as int,
            ),
            forall|k: int| 0 <= k < out@.len() ==> record_valid(#[trigger] out@[k]@),
        decreases n - i,
    {
        proof {
            assert(lines@.map_values(|l: Vec<char>| l@)[i as int] == lines@[i as int]@);
        }
        let line = trim_exec(&lines[i]);
        if contains_sub(&line, &domain) && contains_sub(&line, &lag) {
            let fs = extract_text_fields(&line);
            match build_record(ExtractMode::Text, fs, i, ts) {
                Some(p) => {
                    proof {
                        lemma_map_values_push(out@, p, |q: Property| q@);
                    }
                    out.push(p);
                },
                None => {},
            }
        }
        i += 1;
    }
    out
}

/// Output of the whole text pipeline: the extracted records, or the
/// reference dataset when there are none.
pub open spec fn pipeline_output(content: Seq<char>, ts: int) -> Seq<RecordV> {
    let recs = text_records(content, ts);
    if recs.len() == 0 {
        reference_v(ts)
    } else {
        recs
    }
}

/// The deciding state: a non-empty crop is kept as it is; an empty
/// one is replaced wholesale by the reference dataset. The result is
/// never empty.
pub fn decide_records(records: Vec<Property>, ts: i64) -> (r: Vec<Property>)
    ensures
        records@.len() == 0 ==> r@.map_values(|p: Property| p@) == reference_v(ts as int),
        records@.len() > 0 ==> r == records,
        r@.len() > 0,
{
    if records.len() == 0 {
        reference_records(ts)
    } else {
        records
    }
}

/// Every record the text pipeline accumulates satisfies the record
/// invariant, whatever the input lines hold.
pub proof fn lemma_text_records_valid(lines: Seq<Seq<char>>, n: int, ts: int)
    ensures
        forall|k: int| 0 <= k < text_records_upto(lines, n, ts).len() ==> record_valid(
            #[trigger] text_records_upto(lines, n, ts)[k],
        ),
    decreases n,
{
    if n > 0 {
        lemma_text_records_valid(lines, n - 1, ts);
        let prev = text_records_upto(lines, n - 1, ts);
        let cur = text_records_upto(lines, n, ts);
        assert forall|k: int| 0 <= k < cur.len() implies record_valid(#[trigger] cur[k]) by {
            if k < prev.len() {
                assert(cur[k] == prev[k]);
            } else {
                crate::builder::lemma_record_rule_valid(
                    ExtractMode::Text,
                    text_fields(trim(lines[n - 1])),
                    n - 1,
                    ts,
                );
            }
        }
    }
}

/// With no fragment among the lines, extraction accumulates nothing.
proof fn lemma_no_fragment_no_records(lines: Seq<Seq<char>>, n: int, ts: int)
    requires
        n <= lines.len(),
        forall|k: int| 0 <= k < lines.len() ==> !is_text_fragment(trim(#[trigger] lines[k])),
    ensures
        text_records_upto(lines, n, ts).len() == 0,
    decreases n,
{
    if n > 0 {
        lemma_no_fragment_no_records(lines, n - 1, ts);
    }
}

/// Fallback trigger: when segmentation yields no fragment at all, the
/// pipeline output is exactly the reference dataset.
pub proof fn lemma_fallback_on_empty_segmentation(content: Seq<char>, ts: int)
    requires
        forall|k: int| 0 <= k < lines_of(content).len() ==> !is_text_fragment(
            trim(#[trigger] lines_of(content)[k]),
        ),
    ensures
        pipeline_output(content, ts) == reference_v(ts),
{
    lemma_no_fragment_no_records(lines_of(content), lines_of(content).len() as int, ts);
}

/// The scraper for the listings site, holding the search bounds.
pub struct BooliScraper {
    pub params: SearchParams,
}

impl BooliScraper {
    /// A scraper with the default search bounds.
    pub fn new() -> (r: Self)
        ensures
            r.params.location@ == "Stockholm"@,
    {
        BooliScraper { params: SearchParams::default() }
    }

    /// A scraper with the given search bounds.
    pub fn with_params(params: SearchParams) -> (r: Self)
        ensures
            r.params == params,
    {
        BooliScraper { params }
    }

    /// Name of the listing source.
    pub fn source_name(&self) -> (r: &'static str)
        ensures
            r@ == "Booli"@,
    {
        "Booli"
    }

    /// Extract records from a text rendering of the page, captured at
    /// the given timestamp.
    pub fn parse_properties_from_html_at(&self, html: &str, ts: i64) -> (r: Vec<Property>)
        ensures
            r@.map_values(|p: Property| p@) == text_records(html@, ts as int),
            forall|k: int| 0 <= k < r@.len() ==> record_valid(#[trigger] r@[k]@),
    {
        extract_text_records(html, ts)
    }

    /// Extract records from a text rendering of the page, captured
    /// now.
    pub fn parse_properties_from_html(&self, html: &str) -> (r: Vec<Property>)
        ensures
            exists|ts: int| r@.map_values(|p: Property| p@) == #[trigger] text_records(html@, ts),
            forall|k: int| 0 <= k < r@.len() ==> record_valid(#[trigger] r@[k]@),
    {
        let ts = now_timestamp();
        let r = extract_text_records(html, ts);
        proof {
            assert(r@.map_values(|p: Property| p@) == text_records(html@, ts as int));
        }
        r
    }

    /// The whole pipeline on fetched page text, captured at the given
    /// timestamp: segmentation, extraction, validation, then the
    /// fallback decision. The result is never empty.
    pub fn scrape_content_at(&self, html: &str, ts: i64) -> (r: Vec<Property>)
        ensures
            r@.map_values(|p: Property| p@) == pipeline_output(html@, ts as int),
            r@.len() > 0,
            forall|k: int| 0 <= k < r@.len() ==> record_valid(#[trigger] r@[k]@),
    {
        let records = extract_text_records(html, ts);
        let r = decide_records(records, ts);
        proof {
            if text_records(html@, ts as int).len() == 0 {
            } else {
                assert(r@.map_values(|p: Property| p@) == pipeline_output(html@, ts as int));
            }
            assert forall|k: int| 0 <= k < r@.len() implies record_valid(#[trigger] r@[k]@) by {
                if text_records(html@, ts as int).len() == 0 {
                    lemma_reference_valid(ts as int);
                    assert(r@.map_values(|p: Property| p@)[k] == r@[k]@);
                }
            }
        }
        r
    }

    /// The whole pipeline on fetched page text, captured now.
    pub fn scrape_content(&self, html: &str) -> (r: Vec<Property>)
        ensures
            exists|ts: int|
                r@.map_values(|p: Property| p@) == #[trigger] pipeline_output(html@, ts),
            r@.len() > 0,
            forall|k: int| 0 <= k < r@.len() ==> record_valid(#[trigger] r@[k]@),
    {
        let ts = now_timestamp();
        let r = self.scrape_content_at(html, ts);
        proof {
            assert(r@.map_values(|p: Property| p@) == pipeline_output(html@, ts as int));
        }
        r
    }
}

impl Default for BooliScraper {
    /// The default scraper: the default search bounds.
    fn default() -> (r: Self)
        ensures
            r.params.location@ == "Stockholm"@,
    {
        BooliScraper::new()
    }
}

/// Every reference record satisfies the record invariant.
pub proof fn lemma_reference_valid(ts: int)
    ensures
        forall|k: int| 0 <= k < reference_v(ts).len() ==> record_valid(#[trigger] reference_v(ts)[k]),
{
    assert forall|k: int| 0 <= k < reference_v(ts).len() implies record_valid(
        #[trigger] reference_v(ts)[k],
    ) by {
        reveal_strlit("Götgatan 120");
        reveal_strlit("Ringvägen 11A");
        reveal_strlit("Tjustgatan 4");
        reveal_strlit("Torkel Knutssonsgatan 31");
        reveal_strlit("Folkungagatan 101");
    }
}

} // verus!
