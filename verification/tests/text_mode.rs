//! Tests of the text-mode pipeline: segmentation into lines, the
//! field rules, validation, and the fallback decision.

use housing_scout::booli::BooliScraper;

const TS: i64 = 1_700_000_000;

#[test]
fn example_text_line() {
    let line = "Spara Folkungagatan 101Folkungagatan 101Lägenhet · Södermalm · Stockholm3 495 000 kr39 m\u{b2}2 rumvån3Hiss](https://www.booli.se/annons/sodermalm5)";
    let scraper = BooliScraper::new();
    let records = scraper.parse_properties_from_html_at(line, TS);
    assert_eq!(records.len(), 1);
    let r = &records[0];
    assert_eq!(r.address, "Folkungagatan 101");
    assert_eq!(r.price, 3_495_000);
    assert_eq!(r.sqm, 39);
    assert_eq!(r.rooms_tenths, 20);
    assert_eq!(r.features, vec!["Hiss".to_string()]);
    assert_eq!(r.url, "https://www.booli.se/annons/sodermalm5");
    assert_eq!(r.id, "sodermalm5");
    assert_eq!(r.location.area.as_deref(), Some("Södermalm"));
    assert_eq!(r.location.city, "Stockholm");
    assert_eq!(r.scraped_at, TS);
    assert_eq!(r.description, "Lägenhet i Södermalm. 2 rum, 39 kvm.");
}

#[test]
fn price_without_digits_still_emits_on_sqm() {
    let line = "Spara Testgatan 12Testgatan 12Lägenhet · Södermalm · Stockholm kr39 m\u{b2}2 rumHiss](https://www.booli.se/annons/test7)";
    let scraper = BooliScraper::new();
    let records = scraper.parse_properties_from_html_at(line, TS);
    assert_eq!(records.len(), 1);
    assert_eq!(records[0].price, 0);
    assert_eq!(records[0].sqm, 39);
    assert_eq!(records[0].address, "Testgatan 12");
}

#[test]
fn unmatchable_address_drops_record() {
    let line = "Lägenhet · Södermalm · Stockholm3 495 000 kr39 m\u{b2}2 rum](https://www.booli.se/annons/x1)";
    let scraper = BooliScraper::new();
    let records = scraper.parse_properties_from_html_at(line, TS);
    assert!(records.is_empty());
}

#[test]
fn no_price_and_no_sqm_drops_record() {
    let line = "Spara Testgatan 12Testgatan 12Lägenhet vid www.booli.se med 2 rum";
    let scraper = BooliScraper::new();
    let records = scraper.parse_properties_from_html_at(line, TS);
    assert!(records.is_empty());
}

#[test]
fn non_fragment_lines_are_passed_over() {
    let content = "just a header\nwww.booli.se alone is not enough\nLägenhet alone is not enough\n";
    let scraper = BooliScraper::new();
    let records = scraper.parse_properties_from_html_at(content, TS);
    assert!(records.is_empty());
}

#[test]
fn synthetic_id_without_link() {
    let line = "Spara Testgatan 99Testgatan 99Lägenhet at www.booli.se for 5 000 kr";
    let scraper = BooliScraper::new();
    let records = scraper.parse_properties_from_html_at(line, TS);
    assert_eq!(records.len(), 1);
    assert_eq!(records[0].id, "booli_0");
    assert_eq!(records[0].price, 5_000);
    assert_eq!(records[0].url, "");
}

#[test]
fn line_index_feeds_synthetic_id() {
    let content = "first line\nSpara Testgatan 99Testgatan 99Lägenhet at www.booli.se for 5 000 kr";
    let scraper = BooliScraper::new();
    let records = scraper.parse_properties_from_html_at(content, TS);
    assert_eq!(records.len(), 1);
    assert_eq!(records[0].id, "booli_1");
}

#[test]
fn fractional_rooms_are_kept_in_tenths() {
    let line = "Spara Testgatan 12Testgatan 12Lägenhet · Södermalm · Stockholm2 000 000 kr30 m\u{b2}1,5 rum](https://www.booli.se/annons/t2)";
    let scraper = BooliScraper::new();
    let records = scraper.parse_properties_from_html_at(line, TS);
    assert_eq!(records.len(), 1);
    assert_eq!(records[0].rooms_tenths, 15);
    assert!(records[0].description.contains("1.5 rum"));
}

#[test]
fn thousand_separators_are_stripped() {
    let line = "Spara Testgatan 12Testgatan 12Lägenhet · Södermalm · Stockholm12 345 678 kr70 m\u{b2}3 rum](https://www.booli.se/annons/t3)";
    let scraper = BooliScraper::new();
    let records = scraper.parse_properties_from_html_at(line, TS);
    assert_eq!(records.len(), 1);
    assert_eq!(records[0].price, 12_345_678);
}

#[test]
fn feature_vocabulary_order() {
    let line = "Spara Testgatan 12Testgatan 12Lägenhet · Södermalm · StockholmEldstad och Balkong och Hiss5 000 000 kr50 m\u{b2}2 rum](https://www.booli.se/annons/t4)";
    let scraper = BooliScraper::new();
    let records = scraper.parse_properties_from_html_at(line, TS);
    assert_eq!(records.len(), 1);
    assert_eq!(
        records[0].features,
        vec!["Hiss".to_string(), "Balkong".to_string(), "Eldstad".to_string()]
    );
}

#[test]
fn area_defaults_without_separators() {
    let line = "Spara Testgatan 12Testgatan 12Lägenhet at www.booli.se5 000 000 kr50 m\u{b2}2 rum";
    let scraper = BooliScraper::new();
    let records = scraper.parse_properties_from_html_at(line, TS);
    assert_eq!(records.len(), 1);
    assert_eq!(records[0].location.area.as_deref(), Some("Södermalm"));
}

#[test]
fn raw_data_carries_provenance() {
    let line = "Spara Folkungagatan 101Folkungagatan 101Lägenhet · Södermalm · Stockholm3 495 000 kr39 m\u{b2}2 rum](https://www.booli.se/annons/sodermalm5)";
    let scraper = BooliScraper::new();
    let records = scraper.parse_properties_from_html_at(line, TS);
    let raw = &records[0].raw_data;
    assert!(raw.iter().any(|e| e.key == "area" && e.value == "Södermalm"));
    assert!(raw.iter().any(|e| e.key == "scraped_from" && e.value == "booli_real_data"));
    assert!(!raw.iter().any(|e| e.key == "mock"));
}

#[test]
fn last_link_head_wins() {
    let line = "Spara Testgatan 12Testgatan 12Lägenhet · Södermalm · Stockholm5 000 000 kr50 m\u{b2}2 rum](https://www.booli.se/annons/first) more ](https://www.booli.se/annons/second)";
    let scraper = BooliScraper::new();
    let records = scraper.parse_properties_from_html_at(line, TS);
    assert_eq!(records.len(), 1);
    assert_eq!(records[0].url, "https://www.booli.se/annons/second");
    assert_eq!(records[0].id, "second");
}

#[test]
fn capture_time_is_shared_within_a_run() {
    let content = "Spara Testgatan 12Testgatan 12Lägenhet at www.booli.se for 5 000 kr\nSpara Annangatan 3Annangatan 3Lägenhet at www.booli.se for 6 000 kr";
    let scraper = BooliScraper::new();
    let records = scraper.parse_properties_from_html(content);
    assert_eq!(records.len(), 2);
    assert_eq!(records[0].scraped_at, records[1].scraped_at);
}

#[test]
fn oversized_numbers_degrade_to_zero() {
    // A price beyond the machine range parses to zero; the record is
    // still emitted on the strength of the floor area.
    let line = "Spara Testgatan 12Testgatan 12Lägenhet · Södermalm · Stockholm99999999999999999999 kr40 m\u{b2}2 rum](https://www.booli.se/annons/t9)";
    let scraper = BooliScraper::new();
    let records = scraper.parse_properties_from_html_at(line, TS);
    assert_eq!(records.len(), 1);
    assert_eq!(records[0].price, 0);
    assert_eq!(records[0].sqm, 40);
}

#[test]
fn malformed_lines_never_violate_invariant() {
    // A crude linear-congruential stream of bytes drives assorted
    // garbage lines through the pipeline.
    let mut state: u64 = 12345;
    let mut content = String::new();
    for _ in 0..200 {
        for _ in 0..40 {
            state = state.wrapping_mul(6364136223846793005).wrapping_add(1442695040888963407);
            let c = (32 + (state >> 33) % 95) as u8 as char;
            content.push(c);
        }
        state = state.wrapping_mul(6364136223846793005).wrapping_add(1442695040888963407);
        if state % 3 == 0 {
            content.push_str("www.booli.se Lägenhet kr m\u{b2} rum");
        }
        content.push('\n');
    }
    let scraper = BooliScraper::new();
    let records = scraper.parse_properties_from_html_at(&content, TS);
    for r in &records {
        assert!(!r.address.is_empty());
        assert!(r.price > 0 || r.sqm > 0);
    }
}
