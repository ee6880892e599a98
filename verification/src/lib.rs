//! Onboard profile memory of HID++ devices: decoding, editing, backup and safe writing.
pub mod bytes;
pub mod checksum;
pub mod text;
pub mod description;
pub mod protocol;
pub mod sector;
pub mod assignment;
pub mod report_rate;
pub mod edit;
pub mod sector_read;
pub mod query;
pub mod write;
pub mod flash;
pub mod led;
pub mod onboard_profile;
pub mod route;
pub mod rate;
pub mod led_read;
pub mod snapshot;
pub mod backup;
pub mod session;
pub mod agent;
pub mod apply;
pub mod order;
pub mod registry;
pub mod listing;
pub mod metadata;
pub mod canvas;
pub mod panel;
pub mod report;
pub mod round_trip;
pub mod cli;
pub mod laws;
