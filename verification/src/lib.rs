//! Organizes a flat collection of downloaded video files into per-playlist
//! directory views made of numbered links, and tracks the date of the last
//! completed run as a lower bound for incremental downloads.
//!
//! The library holds the link engine itself: parsing playlist identifiers out
//! of listing lines, matching playlist video titles against files in a flat
//! per-channel directory, planning the numbered links of each playlist view,
//! and recording the last-run date. Fetching listings, reading directories
//! and creating the links on disk are left to the surrounding program, which
//! hands this library plain strings and carries its plans out.

pub mod config;
pub mod engine;
pub mod playlist;
pub mod resolve;
pub mod text;
pub mod tracker;
