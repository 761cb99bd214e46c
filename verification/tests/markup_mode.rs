//! Tests of the markup-mode pipeline: card segmentation through the
//! scraper crate, label parsing, and record assembly.

use housing_scout::markup::{extract_listing_records_at, extract_markup_fields, segment_markup};

const TS: i64 = 1_700_000_000;

fn card(href: &str, aria: &str, size_label: &str, price_text: &str, tags: &[&str]) -> String {
    let mut s = String::new();
    s.push_str("<a class=\"object-card-link\" href=\"");
    s.push_str(href);
    s.push_str("\" aria-label=\"");
    s.push_str(aria);
    s.push_str("\"><ul><li aria-label=\"");
    s.push_str(size_label);
    s.push_str("\"></li><li aria-label=\"3 449 kr/m\u{e5}n\"></li></ul><span class=\"object-card__price--logo\">");
    s.push_str(price_text);
    s.push_str("</span>");
    for t in tags {
        s.push_str("<div class=\"tag\">");
        s.push_str(t);
        s.push_str("</div>");
    }
    s.push_str("</a>");
    s
}

#[test]
fn example_markup_card() {
    let c = card(
        "/annons/sodermalm9",
        "2 rum lägenhet på Götgatan 120 Södermalm, Stockholms kommun",
        "70 kvadratmeter",
        "5 195 000 kr",
        &["Hiss", "Balkong"],
    );
    let page = format!("<html><body>{}</body></html>", c);
    let records = extract_listing_records_at(&page, TS);
    assert_eq!(records.len(), 1);
    let r = &records[0];
    assert_eq!(r.rooms_tenths, 20);
    assert_eq!(r.address, "Götgatan 120");
    assert_eq!(r.location.area.as_deref(), Some("Södermalm"));
    assert_eq!(r.sqm, 70);
    assert_eq!(r.price, 5_195_000);
    assert_eq!(r.features, vec!["Hiss".to_string(), "Balkong".to_string()]);
    assert_eq!(r.id, "sodermalm9");
    assert_eq!(r.url, "https://www.booli.se/annons/sodermalm9");
    assert_eq!(r.description, "2 rum lägenhet i Södermalm. 70 kvm.");
}

#[test]
fn segmentation_finds_cards_in_document_order() {
    let c1 = card(
        "/annons/a1",
        "1 rum lägenhet på Agatan 1 Katarina, Stockholms kommun",
        "30 kvadratmeter",
        "1 000 000 kr",
        &[],
    );
    let c2 = card(
        "/annons/b2",
        "3 rum lägenhet på Bgatan 2 Maria, Stockholms kommun",
        "80 kvadratmeter",
        "8 000 000 kr",
        &["Balkong"],
    );
    let page = format!("<html><body><div>{}</div><div>{}</div></body></html>", c1, c2);
    let frags = segment_markup(&page);
    assert_eq!(frags.len(), 2);
    assert!(frags[0].contains("a1"));
    assert!(frags[1].contains("b2"));
    let records = extract_listing_records_at(&page, TS);
    assert_eq!(records.len(), 2);
    assert_eq!(records[0].id, "a1");
    assert_eq!(records[1].id, "b2");
    assert_eq!(records[1].features, vec!["Balkong".to_string()]);
}

#[test]
fn fields_of_one_fragment() {
    let c = card(
        "/annons/sodermalm9",
        "2 rum lägenhet på Götgatan 120 Södermalm, Stockholms kommun",
        "35,5 kvadratmeter",
        "5 195 000 kr",
        &["Hiss"],
    );
    let f = extract_markup_fields(&c);
    assert_eq!(f.address, "Götgatan 120");
    assert_eq!(f.area, "Södermalm");
    assert_eq!(f.rooms_tenths, 20);
    assert_eq!(f.sqm, 35);
    assert_eq!(f.price, 5_195_000);
    assert_eq!(f.features, vec!["Hiss".to_string()]);
    assert_eq!(f.url, "https://www.booli.se/annons/sodermalm9");
    assert!(f.monthly_fee.contains("kr/m\u{e5}n"));
}

#[test]
fn placeholder_tag_is_excluded() {
    let c = card(
        "/annons/s1",
        "2 rum lägenhet på Cgatan 3 Katarina, Stockholms kommun",
        "40 kvadratmeter",
        "2 000 000 kr",
        &["Snart till salu", "Hiss"],
    );
    let f = extract_markup_fields(&c);
    assert_eq!(f.features, vec!["Hiss".to_string()]);
}

#[test]
fn empty_page_yields_no_records() {
    let records = extract_listing_records_at("<html><body><p>nothing here</p></body></html>", TS);
    assert!(records.is_empty());
    assert!(segment_markup("<html><body></body></html>").is_empty());
}

#[test]
fn card_without_address_is_dropped() {
    let c = card(
        "/annons/s2",
        "ingen adress alls",
        "40 kvadratmeter",
        "2 000 000 kr",
        &[],
    );
    let page = format!("<html><body>{}</body></html>", c);
    let records = extract_listing_records_at(&page, TS);
    assert!(records.is_empty());
}

#[test]
fn missing_link_falls_back_to_index_id() {
    let c = "<a class=\"object-card-link\" aria-label=\"2 rum lägenhet på Dgatan 4 Maria, Stockholms kommun\"><span class=\"object-card__price--logo\">1 500 000 kr</span></a>";
    let page = format!("<html><body>{}</body></html>", c);
    let records = extract_listing_records_at(&page, TS);
    assert_eq!(records.len(), 1);
    assert_eq!(records[0].id, "booli_0");
    assert_eq!(records[0].url, "");
}

#[test]
fn entity_spaces_in_labels_are_decoded() {
    // `&amp;nbsp;` in the markup source turns into a literal `&nbsp;`
    // attribute value, which the extractor decodes to a plain blank.
    let c = card(
        "/annons/s3",
        "2&amp;nbsp;rum lägenhet på Egatan&amp;nbsp;5 Katarina, Stockholms kommun",
        "40&amp;nbsp;kvadratmeter",
        "2 000 000 kr",
        &[],
    );
    let f = extract_markup_fields(&c);
    assert_eq!(f.rooms_tenths, 20);
    assert_eq!(f.address, "Egatan 5");
    assert_eq!(f.sqm, 40);
}

#[test]
fn last_size_label_stands() {
    let c = "<a class=\"object-card-link\" href=\"/annons/s4\" aria-label=\"2 rum lägenhet på Fgatan 6 Maria, Stockholms kommun\"><ul><li aria-label=\"30 kvadratmeter\"></li><li aria-label=\"45 kvadratmeter\"></li></ul></a>";
    let f = extract_markup_fields(c);
    assert_eq!(f.sqm, 45);
}

#[test]
fn aria_label_is_kept_as_provenance() {
    let c = card(
        "/annons/s5",
        "2 rum lägenhet på Ggatan 7 Katarina, Stockholms kommun",
        "40 kvadratmeter",
        "2 000 000 kr",
        &[],
    );
    let page = format!("<html><body>{}</body></html>", c);
    let records = extract_listing_records_at(&page, TS);
    assert_eq!(records.len(), 1);
    let raw = &records[0].raw_data;
    assert!(raw.iter().any(|e| e.key == "scraped_from" && e.value == "listing_page"));
    assert!(raw.iter().any(|e| e.key == "booli_id" && e.value == "s5"));
    assert!(raw.iter().any(|e| e.key == "aria_label" && e.value.contains("Ggatan 7")));
}
