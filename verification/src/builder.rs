//! The record validator and builder: a field-set either satisfies the
//! minimum-field invariant and becomes a canonical record, or is
//! silently dropped.

use vstd::prelude::*;
use crate::chars::{
    rfind_char_upto, rfind_char, dec_rep, digit_char, dec_chars, digit_char_exec, append_chars,
    append_str, str_to_chars, chars_to_string, sub_chars,
};
use crate::extract::{FieldSet, FieldsV, lemma_rfind_char_upto_range};
use crate::models::{Source, Location, Property, RawEntry, RecordV, record_valid};

verus! {

/// How a page representation is read: card markup, or a flattened
/// text rendering.
#[derive(Debug, Clone, Copy, PartialEq, Eq, Structural)]
pub enum ExtractMode {
    Markup,
    Text,
}

/// Synthetic identity for a fragment without a usable link.
pub open spec fn synth_id(idx: int) -> Seq<char> {
    "booli_"@ + dec_rep(idx)
}

/// Identity rule: the last `/`-delimited segment of the listing URL
/// when present and non-empty, else a synthetic `booli_<index>`.
pub open spec fn id_rule(url: Seq<char>, idx: int) -> Seq<char> {
    if url.len() > 0 {
        match rfind_char_upto(url, '/', url.len() - 1) {
            Some(sl) => if sl + 1 < url.len() {
                url.subrange(sl + 1, url.len() as int)
            } else {
                synth_id(idx)
            },
            None => url,
        }
    } else {
        synth_id(idx)
    }
}

fn synth_id_chars(idx: usize) -> (r: Vec<char>)
    ensures
        r@ == synth_id(idx as int),
{
    let mut r = str_to_chars("booli_");
    let d = dec_chars(idx as u64);
    append_chars(&mut r, &d);
    r
}

/// The identity of a record, per the identity rule.
pub fn derive_id(url: &Vec<char>, idx: usize) -> (r: Vec<char>)
    ensures
        r@ == id_rule(url@, idx as int),
{
    let n = url.len();
    if n == 0 {
        return synth_id_chars(idx);
    }
    match rfind_char(url, '/') {
        Some(sl) => {
            proof {
                lemma_rfind_char_upto_range(url@, '/', n - 1);
            }
            if n - sl > 1 {
                sub_chars(url, sl + 1, n)
            } else {
                synth_id_chars(idx)
            }
        },
        None => {
            let r = sub_chars(url, 0, n);
            assert(url@.subrange(0, n as int) =~= url@);
            r
        },
    }
}

/// Rendering of a tenths count: whole counts bare, fractional counts
/// with one digit after the point.
pub open spec fn tenths_rep(t: int) -> Seq<char> {
    if t % 10 == 0 {
        dec_rep(t / 10)
    } else {
        dec_rep(t / 10).push('.').push(digit_char(t % 10))
    }
}

pub fn tenths_chars(t: u32) -> (r: Vec<char>)
    ensures
        r@ == tenths_rep(t as int),
{
    let mut r = dec_chars((t / 10) as u64);
    if t % 10 != 0 {
        r.push('.');
        r.push(digit_char_exec((t % 10) as u64));
    }
    r
}

/// Description templates, one per extraction mode; the text is
/// synthesised, never copied from the source.
pub open spec fn description_rule(
    mode: ExtractMode,
    area: Seq<char>,
    rooms_tenths: int,
    sqm: int,
) -> Seq<char> {
    match mode {
        ExtractMode::Text => "Lägenhet i "@ + area + ". "@ + tenths_rep(rooms_tenths) + " rum, "@
            + dec_rep(sqm) + " kvm."@,
        ExtractMode::Markup => tenths_rep(rooms_tenths) + " rum lägenhet i "@ + area + ". "@
            + dec_rep(sqm) + " kvm."@,
    }
}

pub fn render_description(mode: ExtractMode, area: &Vec<char>, rooms_tenths: u32, sqm: i32) -> (r:
    Vec<char>)
    ensures
        r@ == description_rule(mode, area@, rooms_tenths as int, sqm as int),
{
    let rooms = tenths_chars(rooms_tenths);
    let size: Vec<char> = if sqm >= 0 {
        dec_chars(sqm as u64)
    } else {
        assert(dec_rep(sqm as int) =~= Seq::<char>::empty());
        Vec::new()
    };
    let mut r: Vec<char> = Vec::new();
    match mode {
        ExtractMode::Text => {
            append_str(&mut r, "Lägenhet i ");
            append_chars(&mut r, area);
            append_str(&mut r, ". ");
            append_chars(&mut r, &rooms);
            append_str(&mut r, " rum, ");
            append_chars(&mut r, &size);
            append_str(&mut r, " kvm.");
        },
        ExtractMode::Markup => {
            append_chars(&mut r, &rooms);
            append_str(&mut r, " rum lägenhet i ");
            append_chars(&mut r, area);
            append_str(&mut r, ". ");
            append_chars(&mut r, &size);
            append_str(&mut r, " kvm.");
        },
    }
    assert(r@ =~= description_rule(mode, area@, rooms_tenths as int, sqm as int));
    r
}

/// Provenance entries carried in a record's raw-data bag.
pub open spec fn raw_rule(mode: ExtractMode, f: FieldsV, id: Seq<char>) -> Seq<
    (Seq<char>, Seq<char>),
> {
    match mode {
        ExtractMode::Text => seq![("area"@, f.area), ("scraped_from"@, "booli_real_data"@)],
        ExtractMode::Markup => seq![
            ("area"@, f.area),
            ("scraped_from"@, "listing_page"@),
            ("booli_id"@, id),
            ("aria_label"@, f.raw_label),
            ("monthly_fee"@, f.monthly_fee),
        ],
    }
}

/// Reference coordinates for the target neighbourhood, in millionths
/// of a degree.
pub const REF_LATITUDE_E6: i64 = 59314500;

pub const REF_LONGITUDE_E6: i64 = 18073600;

/// The validator and builder as one rule: `Some` exactly when the
/// minimum-field invariant holds of the field-set.
pub open spec fn record_rule(mode: ExtractMode, f: FieldsV, idx: int, ts: int) -> Option<RecordV> {
    if f.address.len() > 0 && (f.price > 0 || f.sqm > 0) {
        let id = id_rule(f.url, idx);
        Some(
            RecordV {
                id: id,
                source: Source::Booli,
                city: "Stockholm"@,
                area: Some(f.area),
                latitude_e6: Some(REF_LATITUDE_E6 as int),
                longitude_e6: Some(REF_LONGITUDE_E6 as int),
                address: f.address,
                price: f.price,
                rooms_tenths: f.rooms_tenths,
                sqm: f.sqm,
                description: description_rule(mode, f.area, f.rooms_tenths, f.sqm),
                features: f.features,
                images: Seq::empty(),
                url: f.url,
                scraped_at: ts,
                raw_data: raw_rule(mode, f, id),
            },
        )
    } else {
        None
    }
}

/// Build a record from a field-set. Returns `Some` exactly when the
/// minimum-field invariant holds: a non-empty address together with a
/// positive price or a positive floor area.
pub fn build_record(mode: ExtractMode, f: FieldSet, idx: usize, ts: i64) -> (r: Option<Property>)
    ensures
        match r {
            Some(p) => record_rule(mode, f@, idx as int, ts as int) == Some(p@) && record_valid(
                p@,
            ),
            None => record_rule(mode, f@, idx as int, ts as int) is None,
        },
{
    if !(f.address.as_str().unicode_len() > 0 && (f.price > 0 || f.sqm > 0)) {
        return None;
    }
    let url_chars = str_to_chars(f.url.as_str());
    let id_chars = derive_id(&url_chars, idx);
    let id = chars_to_string(&id_chars);
    let area_chars = str_to_chars(f.area.as_str());
    let desc = render_description(mode, &area_chars, f.rooms_tenths, f.sqm);
    let mut raw: Vec<RawEntry> = Vec::new();
    match mode {
        ExtractMode::Text => {
            raw.push(
                RawEntry { key: String::from_str("area"), value: String::from_str(f.area.as_str()) },
            );
            raw.push(
                RawEntry {
                    key: String::from_str("scraped_from"),
                    value: String::from_str("booli_real_data"),
                },
            );
        },
        ExtractMode::Markup => {
            raw.push(
                RawEntry { key: String::from_str("area"), value: String::from_str(f.area.as_str()) },
            );
            raw.push(
                RawEntry {
                    key: String::from_str("scraped_from"),
                    value: String::from_str("listing_page"),
                },
            );
            raw.push(
                RawEntry {
                    key: String::from_str("booli_id"),
                    value: String::from_str(id.as_str()),
                },
            );
            raw.push(
                RawEntry {
                    key: String::from_str("aria_label"),
                    value: String::from_str(f.raw_label.as_str()),
                },
            );
            raw.push(
                RawEntry {
                    key: String::from_str("monthly_fee"),
                    value: String::from_str(f.monthly_fee.as_str()),
                },
            );
        },
    }
    proof {
        assert(raw@.map_values(|e: RawEntry| e@) =~= raw_rule(
            mode,
            f@,
            id_rule(f.url@, idx as int),
        ));
    }
    let p = Property {
        id,
        source: Source::Booli,
        location: Location {
            city: String::from_str("Stockholm"),
            area: Some(String::from_str(f.area.as_str())),
            latitude_e6: Some(REF_LATITUDE_E6),
            longitude_e6: Some(REF_LONGITUDE_E6),
        },
        address: f.address,
        price: f.price,
        rooms_tenths: f.rooms_tenths,
        sqm: f.sqm,
        description: chars_to_string(&desc),
        features: f.features,
        images: Vec::new(),
        url: f.url,
        scraped_at: ts,
        raw_data: raw,
    };
    proof {
        assert(p@.images =~= Seq::<Seq<char>>::empty());
        assert(p@ =~= record_rule(mode, f@, idx as int, ts as int).unwrap());
    }
    Some(p)
}

/// A record the builder emits always satisfies the record invariant:
/// a non-empty address and a positive price or floor area.
pub proof fn lemma_record_rule_valid(mode: ExtractMode, f: FieldsV, idx: int, ts: int)
    ensures
        record_rule(mode, f, idx, ts) matches Some(rv) ==> record_valid(rv),
{
}

/// Building twice from one field-set and index yields identical
/// records but for the capture time.
pub proof fn lemma_build_idempotent(mode: ExtractMode, f: FieldsV, idx: int, t1: int, t2: int)
    ensures
        ((record_rule(mode, f, idx, t1) is Some) <==> (record_rule(mode, f, idx, t2) is Some)),
        (record_rule(mode, f, idx, t1) is Some) ==> record_rule(mode, f, idx, t1).unwrap() == (
        RecordV { scraped_at: t1, ..record_rule(mode, f, idx, t2).unwrap() }),
{
}

} // verus!
