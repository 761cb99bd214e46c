//! Tests of the validator and builder, the reference dataset, and the
//! fallback decision of the pipeline controller.

use housing_scout::booli::{decide_records, BooliScraper};
use housing_scout::builder::{build_record, ExtractMode};
use housing_scout::extract::FieldSet;
use housing_scout::models::SearchParams;
use housing_scout::reference::reference_records;

const TS: i64 = 1_700_000_000;

fn sample_fields() -> FieldSet {
    FieldSet {
        address: "Götgatan 120".to_string(),
        area: "Södermalm".to_string(),
        price: 5_195_000,
        sqm: 70,
        rooms_tenths: 20,
        features: vec!["Hiss".to_string()],
        url: "https://www.booli.se/annons/sodermalm1".to_string(),
        raw_label: String::new(),
        monthly_fee: String::new(),
    }
}

#[test]
fn builder_is_idempotent_but_for_capture_time() {
    let f = sample_fields();
    let r1 = build_record(ExtractMode::Text, f.clone(), 3, 100).unwrap();
    let r2 = build_record(ExtractMode::Text, f, 3, 200).unwrap();
    assert_eq!(r1.id, r2.id);
    assert_eq!(r1.source, r2.source);
    assert_eq!(r1.location.city, r2.location.city);
    assert_eq!(r1.location.area, r2.location.area);
    assert_eq!(r1.location.latitude_e6, r2.location.latitude_e6);
    assert_eq!(r1.location.longitude_e6, r2.location.longitude_e6);
    assert_eq!(r1.address, r2.address);
    assert_eq!(r1.price, r2.price);
    assert_eq!(r1.rooms_tenths, r2.rooms_tenths);
    assert_eq!(r1.sqm, r2.sqm);
    assert_eq!(r1.description, r2.description);
    assert_eq!(r1.features, r2.features);
    assert_eq!(r1.images, r2.images);
    assert_eq!(r1.url, r2.url);
    let raw1: Vec<(String, String)> =
        r1.raw_data.iter().map(|e| (e.key.clone(), e.value.clone())).collect();
    let raw2: Vec<(String, String)> =
        r2.raw_data.iter().map(|e| (e.key.clone(), e.value.clone())).collect();
    assert_eq!(raw1, raw2);
    assert_eq!(r1.scraped_at, 100);
    assert_eq!(r2.scraped_at, 200);
}

#[test]
fn builder_requires_address() {
    let mut f = sample_fields();
    f.address = String::new();
    assert!(build_record(ExtractMode::Text, f, 0, TS).is_none());
}

#[test]
fn builder_requires_price_or_sqm() {
    let mut f = sample_fields();
    f.price = 0;
    f.sqm = 0;
    assert!(build_record(ExtractMode::Text, f, 0, TS).is_none());
    let mut g = sample_fields();
    g.price = 0;
    assert!(build_record(ExtractMode::Text, g, 0, TS).is_some());
}

#[test]
fn builder_derives_id_from_url() {
    let f = sample_fields();
    let r = build_record(ExtractMode::Text, f, 7, TS).unwrap();
    assert_eq!(r.id, "sodermalm1");
    let mut g = sample_fields();
    g.url = String::new();
    let r2 = build_record(ExtractMode::Text, g, 7, TS).unwrap();
    assert_eq!(r2.id, "booli_7");
    let mut h = sample_fields();
    h.url = "https://www.booli.se/annons/".to_string();
    let r3 = build_record(ExtractMode::Text, h, 12, TS).unwrap();
    assert_eq!(r3.id, "booli_12");
}

#[test]
fn reference_dataset_shape() {
    let rs = reference_records(TS);
    assert_eq!(rs.len(), 5);
    let ids: Vec<&str> = rs.iter().map(|r| r.id.as_str()).collect();
    assert_eq!(
        ids,
        vec![
            "booli_sodermalm_1",
            "booli_sodermalm_2",
            "booli_sodermalm_3",
            "booli_sodermalm_4",
            "booli_sodermalm_5",
        ]
    );
    for r in &rs {
        assert!(!r.address.is_empty());
        assert!(r.price > 0 || r.sqm > 0);
        assert!(r.raw_data.iter().any(|e| e.key == "mock" && e.value == "true"));
        assert_eq!(r.scraped_at, TS);
    }
    assert_eq!(rs[0].address, "Götgatan 120");
    assert_eq!(rs[0].price, 5_195_000);
    assert_eq!(rs[3].features.len(), 3);
    assert_eq!(rs[4].address, "Folkungagatan 101");
}

#[test]
fn empty_segmentation_triggers_reference_fallback() {
    let scraper = BooliScraper::new();
    let out = scraper.scrape_content_at("", TS);
    let reference = reference_records(TS);
    assert_eq!(out.len(), 5);
    for (a, b) in out.iter().zip(reference.iter()) {
        assert_eq!(a.id, b.id);
        assert_eq!(a.address, b.address);
        assert_eq!(a.price, b.price);
        assert!(a.raw_data.iter().any(|e| e.key == "mock" && e.value == "true"));
    }
}

#[test]
fn real_records_suppress_fallback() {
    let line = "Spara Folkungagatan 101Folkungagatan 101Lägenhet · Södermalm · Stockholm3 495 000 kr39 m\u{b2}2 rum](https://www.booli.se/annons/sodermalm5)";
    let scraper = BooliScraper::new();
    let out = scraper.scrape_content_at(line, TS);
    assert_eq!(out.len(), 1);
    assert_eq!(out[0].id, "sodermalm5");
    assert!(!out[0].raw_data.iter().any(|e| e.key == "mock"));
}

#[test]
fn decide_keeps_nonempty_crop() {
    let scraper = BooliScraper::new();
    let line = "Spara Folkungagatan 101Folkungagatan 101Lägenhet · Södermalm · Stockholm3 495 000 kr39 m\u{b2}2 rum](https://www.booli.se/annons/sodermalm5)";
    let records = scraper.parse_properties_from_html_at(line, TS);
    let decided = decide_records(records, TS);
    assert_eq!(decided.len(), 1);
    assert_eq!(decided[0].id, "sodermalm5");
}

#[test]
fn default_search_params() {
    let p = SearchParams::default();
    assert_eq!(p.location, "Stockholm");
    assert!(p.min_price.is_none());
    assert!(p.max_price.is_none());
    assert!(p.min_rooms_tenths.is_none());
    assert!(p.max_rooms_tenths.is_none());
    assert!(p.min_sqm.is_none());
    assert!(p.max_sqm.is_none());
}

#[test]
fn scraper_source_name() {
    let scraper = BooliScraper::new();
    assert_eq!(scraper.source_name(), "Booli");
    assert_eq!(scraper.params.location, "Stockholm");
    let custom = BooliScraper::with_params(SearchParams {
        location: "Katarina".to_string(),
        min_price: Some(1),
        max_price: None,
        min_rooms_tenths: None,
        max_rooms_tenths: None,
        min_sqm: None,
        max_sqm: None,
    });
    assert_eq!(custom.params.location, "Katarina");
    assert_eq!(custom.params.min_price, Some(1));
}
