//! The reference dataset: a fixed set of five plausible records for
//! the target neighbourhood, substituted wholesale when live
//! extraction yields nothing. Every record carries a `mock` marker in
//! its provenance bag so that consumers can tell synthetic data apart.

use vstd::prelude::*;
use crate::builder::{REF_LATITUDE_E6, REF_LONGITUDE_E6};
use crate::chars::lemma_map_values_push;
use crate::models::{Source, Location, Property, RawEntry, RecordV, record_valid};

verus! {

/// Shape shared by every reference record.
pub open spec fn ref_record_v(
    id: Seq<char>,
    area: Seq<char>,
    address: Seq<char>,
    price: int,
    rooms_tenths: int,
    sqm: int,
    desc: Seq<char>,
    features: Seq<Seq<char>>,
    url: Seq<char>,
    fee: Seq<char>,
    ts: int,
) -> RecordV {
    RecordV {
        id: id,
        source: Source::Booli,
        city: "Stockholm"@,
        area: Some(area),
        latitude_e6: Some(REF_LATITUDE_E6 as int),
        longitude_e6: Some(REF_LONGITUDE_E6 as int),
        address: address,
        price: price,
        rooms_tenths: rooms_tenths,
        sqm: sqm,
        description: desc,
        features: features,
        images: Seq::empty(),
        url: url,
        scraped_at: ts,
        raw_data: seq![("mock"@, "true"@), ("monthly_fee"@, fee), ("area"@, area)],
    }
}

/// The five reference records, captured at `ts`.
pub open spec fn reference_v(ts: int) -> Seq<RecordV> {
    seq![
        ref_record_v(
            "booli_sodermalm_1"@,
            "Södermalm"@,
            "Götgatan 120"@,
            5195000,
            20,
            70,
            "Lägenhet på Södermalm. Hiss och balkong. Avgift: 3 449 kr/mån."@,
            seq!["Hiss"@, "Balkong"@],
            "https://www.booli.se/annons/sodermalm1"@,
            "3 449 kr/mån"@,
            ts,
        ),
        ref_record_v(
            "booli_sodermalm_2"@,
            "Södermalm"@,
            "Ringvägen 11A"@,
            7900000,
            40,
            84,
            "Lägenhet på Södermalm. Hiss och balkong. Avgift: 3 390 kr/mån."@,
            seq!["Hiss"@, "Balkong"@],
            "https://www.booli.se/annons/sodermalm2"@,
            "3 390 kr/mån"@,
            ts,
        ),
        ref_record_v(
            "booli_sodermalm_3"@,
            "Katarina"@,
            "Tjustgatan 4"@,
            2395000,
            10,
            24,
            "Liten lägenhet på Katarina. Hiss och balkong. Avgift: 2 405 kr/mån."@,
            seq!["Hiss"@, "Balkong"@],
            "https://www.booli.se/annons/sodermalm3"@,
            "2 405 kr/mån"@,
            ts,
        ),
        ref_record_v(
            "booli_sodermalm_4"@,
            "Södermalm Maria"@,
            "Torkel Knutssonsgatan 31"@,
            12950000,
            40,
            114,
            "Lägenhet på Södermalm. Hiss, balkong och eldstad. Avgift: 4 457 kr/mån."@,
            seq!["Hiss"@, "Balkong"@, "Eldstad"@],
            "https://www.booli.se/annons/sodermalm4"@,
            "4 457 kr/mån"@,
            ts,
        ),
        ref_record_v(
            "booli_sodermalm_5"@,
            "Södermalm"@,
            "Folkungagatan 101"@,
            3495000,
            20,
            39,
            "Lägenhet på Södermalm. Hiss. Avgift: 2 416 kr/mån."@,
            seq!["Hiss"@],
            "https://www.booli.se/annons/sodermalm5"@,
            "2 416 kr/mån"@,
            ts,
        ),
    ]
}

fn push_feature(fs: &mut Vec<String>, name: &str)
    ensures
        final(fs)@.map_values(|s: String| s@) == old(fs)@.map_values(|s: String| s@).push(name@),
{
    let v = String::from_str(name);
    proof {
        lemma_map_values_push(fs@, v, |s: String| s@);
    }
    fs.push(v);
}

/// One reference record from its distinguishing values.
fn ref_record(
    id: &str,
    area: &str,
    address: &str,
    price: i64,
    rooms_tenths: u32,
    sqm: i32,
    desc: &str,
    features: Vec<String>,
    url: &str,
    fee: &str,
    ts: i64,
) -> (p: Property)
    ensures
        p@ == ref_record_v(
            id@,
            area@,
            address@,
            price as int,
            rooms_tenths as int,
            sqm as int,
            desc@,
            features@.map_values(|s: String| s@),
            url@,
            fee@,
            ts as int,
        ),
{
    let mut raw: Vec<RawEntry> = Vec::new();
    raw.push(RawEntry { key: String::from_str("mock"), value: String::from_str("true") });
    raw.push(RawEntry { key: String::from_str("monthly_fee"), value: String::from_str(fee) });
    raw.push(RawEntry { key: String::from_str("area"), value: String::from_str(area) });
    let p = Property {
        id: String::from_str(id),
        source: Source::Booli,
        location: Location {
            city: String::from_str("Stockholm"),
            area: Some(String::from_str(area)),
            latitude_e6: Some(REF_LATITUDE_E6),
            longitude_e6: Some(REF_LONGITUDE_E6),
        },
        address: String::from_str(address),
        price,
        rooms_tenths,
        sqm,
        description: String::from_str(desc),
        features,
        images: Vec::new(),
        url: String::from_str(url),
        scraped_at: ts,
        raw_data: raw,
    };
    proof {
        assert(p@.raw_data =~= seq![("mock"@, "true"@), ("monthly_fee"@, fee@), ("area"@, area@)]);
        assert(p@.images =~= Seq::<Seq<char>>::empty());
        assert(p@ =~= ref_record_v(
            id@,
            area@,
            address@,
            price as int,
            rooms_tenths as int,
            sqm as int,
            desc@,
            features@.map_values(|s: String| s@),
            url@,
            fee@,
            ts as int,
        ));
    }
    p
}

fn features_two() -> (r: Vec<String>)
    ensures
        r@.map_values(|s: String| s@) == seq!["Hiss"@, "Balkong"@],
{
    let mut r: Vec<String> = Vec::new();
    push_feature(&mut r, "Hiss");
    push_feature(&mut r, "Balkong");
    assert(r@.map_values(|s: String| s@) =~= seq!["Hiss"@, "Balkong"@]);
    r
}

fn features_three() -> (r: Vec<String>)
    ensures
        r@.map_values(|s: String| s@) == seq!["Hiss"@, "Balkong"@, "Eldstad"@],
{
    let mut r: Vec<String> = Vec::new();
    push_feature(&mut r, "Hiss");
    push_feature(&mut r, "Balkong");
    push_feature(&mut r, "Eldstad");
    assert(r@.map_values(|s: String| s@) =~= seq!["Hiss"@, "Balkong"@, "Eldstad"@]);
    r
}

fn features_one() -> (r: Vec<String>)
    ensures
        r@.map_values(|s: String| s@) == seq!["Hiss"@],
{
    let mut r: Vec<String> = Vec::new();
    push_feature(&mut r, "Hiss");
    assert(r@.map_values(|s: String| s@) =~= seq!["Hiss"@]);
    r
}

/// The reference dataset, captured at `ts`: exactly the five records
/// of `reference_v`, every one satisfying the record invariant.
pub fn reference_records(ts: i64) -> (r: Vec<Property>)
    ensures
        r@.map_values(|p: Property| p@) == reference_v(ts as int),
        r@.len() == 5,
        forall|k: int| 0 <= k < r@.len() ==> record_valid(#[trigger] r@[k]@),
{
    let mut r: Vec<Property> = Vec::new();
    let p1 = ref_record(
        "booli_sodermalm_1",
        "Södermalm",
        "Götgatan 120",
        5195000,
        20,
        70,
        "Lägenhet på Södermalm. Hiss och balkong. Avgift: 3 449 kr/mån.",
        features_two(),
        "https://www.booli.se/annons/sodermalm1",
        "3 449 kr/mån",
        ts,
    );
    proof {
        lemma_map_values_push(r@, p1, |p: Property| p@);
    }
    r.push(p1);
    let p2 = ref_record(
        "booli_sodermalm_2",
        "Södermalm",
        "Ringvägen 11A",
        7900000,
        40,
        84,
        "Lägenhet på Södermalm. Hiss och balkong. Avgift: 3 390 kr/mån.",
        features_two(),
        "https://www.booli.se/annons/sodermalm2",
        "3 390 kr/mån",
        ts,
    );
    proof {
        lemma_map_values_push(r@, p2, |p: Property| p@);
    }
    r.push(p2);
    let p3 = ref_record(
        "booli_sodermalm_3",
        "Katarina",
        "Tjustgatan 4",
        2395000,
        10,
        24,
        "Liten lägenhet på Katarina. Hiss och balkong. Avgift: 2 405 kr/mån.",
        features_two(),
        "https://www.booli.se/annons/sodermalm3",
        "2 405 kr/mån",
        ts,
    );
    proof {
        lemma_map_values_push(r@, p3, |p: Property| p@);
    }
    r.push(p3);
    let p4 = ref_record(
        "booli_sodermalm_4",
        "Södermalm Maria",
        "Torkel Knutssonsgatan 31",
        12950000,
        40,
        114,
        "Lägenhet på Södermalm. Hiss, balkong och eldstad. Avgift: 4 457 kr/mån.",
        features_three(),
        "https://www.booli.se/annons/sodermalm4",
        "4 457 kr/mån",
        ts,
    );
    proof {
        lemma_map_values_push(r@, p4, |p: Property| p@);
    }
    r.push(p4);
    let p5 = ref_record(
        "booli_sodermalm_5",
        "Södermalm",
        "Folkungagatan 101",
        3495000,
        20,
        39,
        "Lägenhet på Södermalm. Hiss. Avgift: 2 416 kr/mån.",
        features_one(),
        "https://www.booli.se/annons/sodermalm5",
        "2 416 kr/mån",
        ts,
    );
    proof {
        lemma_map_values_push(r@, p5, |p: Property| p@);
    }
    r.push(p5);
    assert(r@.map_values(|p: Property| p@) =~= reference_v(ts as int));
    assert forall|k: int| 0 <= k < r@.len() implies record_valid(#[trigger] r@[k]@) by {
        assert(r@[k]@ == reference_v(ts as int)[k]);
        reveal_strlit("Götgatan 120");
        reveal_strlit("Ringvägen 11A");
        reveal_strlit("Tjustgatan 4");
        reveal_strlit("Torkel Knutssonsgatan 31");
        reveal_strlit("Folkungagatan 101");
    }
    r
}

} // verus!
