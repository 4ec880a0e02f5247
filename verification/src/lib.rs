//! Measurement logic of a VHS RF signal analyser.

pub mod args;
pub mod binary64;
pub mod capture;
pub mod gui;
pub mod json;
pub mod preset;
pub mod profile;
pub mod report;
pub mod spectrum;
pub mod spurs;
pub mod summary;
pub mod text;
pub mod welch;
