//! Firmware logic: input decoding, navigation, refresh scheduling, menus,
//! resume records and diagnostics.

pub mod async_refresh;
pub mod book;
pub mod diag;
pub mod diag_log;
pub mod diag_storage;
pub mod display;
pub mod input;
pub mod error;
pub mod flash;
pub mod menu;
pub mod refresh;
pub mod resume;
pub mod runtime;
pub mod runtime_aggregator;
pub mod runtime_engine;
pub mod serial;
