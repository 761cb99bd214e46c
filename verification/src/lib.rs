//! Extraction pipeline for apartment listings from a listings site.
//!
//! The crate turns a page representation (card markup or a flattened text
//! rendering) into a validated sequence of property records, with a fixed
//! reference dataset as fallback when live extraction yields nothing.

pub mod chars;
pub mod models;
pub mod extract;
pub mod builder;
pub mod reference;
pub mod booli;
pub mod markup;
