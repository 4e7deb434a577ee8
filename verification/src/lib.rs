//! Scraping logic of the manga and novel sources of a plugin repository,
//! and the bookkeeping of the tool that packs those plugins.
//!
//! The host of a plugin performs the network requests and the HTML
//! selector queries; this crate holds what the plugins decide and compute
//! from the values the host hands back.

// Shared text handling, values and helpers.
pub mod text;
pub mod model;
pub mod sort;
pub mod encoding;
pub mod json;
pub mod cipher;
pub mod archive;

// The sources.
pub mod freewebnovel;
pub mod hari_manga;
pub mod manga_dex;
pub mod mangabuddy;
pub mod mangaread_org;
pub mod natomanga;
pub mod novelphoenix;
pub mod readernovel;
pub mod royal_road;
pub mod wtr_lab;
pub mod wuxia_box;

// The packing tool.
pub mod pack;

use vstd::prelude::*;

verus! {

} // verus!
