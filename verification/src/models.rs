//! The property data model and its mathematical image.

use vstd::prelude::*;

verus! {

/// Origin of a property listing. Open for extension with further sites.
#[derive(Debug, Clone, Copy, PartialEq, Eq, Structural)]
pub enum Source {
    Booli,
}

/// Where a property lies. Coordinates are in millionths of a degree,
/// so that positions stay exact integers.
#[derive(Debug, Clone)]
pub struct Location {
    pub city: String,
    pub area: Option<String>,
    pub latitude_e6: Option<i64>,
    pub longitude_e6: Option<i64>,
}

/// One provenance entry in a record's raw-data bag.
#[derive(Debug, Clone)]
pub struct RawEntry {
    pub key: String,
    pub value: String,
}

impl View for RawEntry {
    type V = (Seq<char>, Seq<char>);

    open spec fn view(&self) -> (Seq<char>, Seq<char>) {
        (self.key@, self.value@)
    }
}

/// View of an optional string.
pub open spec fn opt_view(o: Option<String>) -> Option<Seq<char>> {
    match o {
        Some(s) => Some(s@),
        None => None,
    }
}

/// View of an optional machine integer.
pub open spec fn opt_int(o: Option<i64>) -> Option<int> {
    match o {
        Some(v) => Some(v as int),
        None => None,
    }
}

/// The canonical output unit: one extracted property.
/// Room counts are held in tenths of a room, so that fractional
/// counts stay exact integers; timestamps are seconds since the epoch.
#[derive(Debug, Clone)]
pub struct Property {
    pub id: String,
    pub source: Source,
    pub location: Location,
    pub address: String,
    pub price: i64,
    pub rooms_tenths: u32,
    pub sqm: i32,
    pub description: String,
    pub features: Vec<String>,
    pub images: Vec<String>,
    pub url: String,
    pub scraped_at: i64,
    pub raw_data: Vec<RawEntry>,
}

/// Mathematical image of a `Property`.
#[verifier::ext_equal]
pub ghost struct RecordV {
    pub id: Seq<char>,
    pub source: Source,
    pub city: Seq<char>,
    pub area: Option<Seq<char>>,
    pub latitude_e6: Option<int>,
    pub longitude_e6: Option<int>,
    pub address: Seq<char>,
    pub price: int,
    pub rooms_tenths: int,
    pub sqm: int,
    pub description: Seq<char>,
    pub features: Seq<Seq<char>>,
    pub images: Seq<Seq<char>>,
    pub url: Seq<char>,
    pub scraped_at: int,
    pub raw_data: Seq<(Seq<char>, Seq<char>)>,
}

impl View for Property {
    type V = RecordV;

    open spec fn view(&self) -> RecordV {
        RecordV {
            id: self.id@,
            source: self.source,
            city: self.location.city@,
            area: opt_view(self.location.area),
            latitude_e6: opt_int(self.location.latitude_e6),
            longitude_e6: opt_int(self.location.longitude_e6),
            address: self.address@,
            price: self.price as int,
            rooms_tenths: self.rooms_tenths as int,
            sqm: self.sqm as int,
            description: self.description@,
            features: self.features@.map_values(|s: String| s@),
            images: self.images@.map_values(|s: String| s@),
            url: self.url@,
            scraped_at: self.scraped_at as int,
            raw_data: self.raw_data@.map_values(|e: RawEntry| e@),
        }
    }
}

/// The record-emission invariant: a record may be produced only with a
/// non-empty address and a positive price or a positive floor area.
pub open spec fn record_valid(r: RecordV) -> bool {
    r.address.len() > 0 && (r.price > 0 || r.sqm > 0)
}

/// Search bounds for a scrape. Room counts are in tenths of a room.
#[derive(Debug, Clone)]
pub struct SearchParams {
    pub location: String,
    pub min_price: Option<i64>,
    pub max_price: Option<i64>,
    pub min_rooms_tenths: Option<u32>,
    pub max_rooms_tenths: Option<u32>,
    pub min_sqm: Option<i32>,
    pub max_sqm: Option<i32>,
}

impl Default for SearchParams {
    /// The default search: all of Stockholm, no bounds.
    fn default() -> (r: Self)
        ensures
            r.location@ == "Stockholm"@,
            r.min_price is None,
            r.max_price is None,
            r.min_rooms_tenths is None,
            r.max_rooms_tenths is None,
            r.min_sqm is None,
            r.max_sqm is None,
    {
        SearchParams {
            location: String::from_str("Stockholm"),
            min_price: None,
            max_price: None,
            min_rooms_tenths: None,
            max_rooms_tenths: None,
            min_sqm: None,
            max_sqm: None,
        }
    }
}

} // verus!
