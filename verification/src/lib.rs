//! Core logic of a local-first photo library service: configuration,
//! album rules, identifiers, scan bookkeeping and task control.

pub mod text;
pub mod calendar;
pub mod album_rules;
pub mod quantity;
pub mod paths;
pub mod config;
pub mod digest;
pub mod models;
pub mod storage;
pub mod ordering;
pub mod scan;
pub mod json;
pub mod tasks;
pub mod api;
pub mod auto_album;
pub mod boot;
pub mod testdata;
pub mod exif_writer;
pub mod glyph;
pub mod exif_reader;
pub mod album_cover;
pub mod scan_job;
