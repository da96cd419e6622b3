use vstd::prelude::*;

pub mod shared;
pub mod text;
pub mod image_values;
pub mod controller_values;
pub mod controller_entities;
pub mod canvas;
pub mod ordering;
pub mod painting;
pub mod nearest;
pub mod converter;
pub mod two_opt;
pub mod hardware;
pub mod setup;
pub mod events;
pub mod errors;
pub mod cursor;
pub mod ids;
pub mod artwork;
pub mod paint_run;
pub mod event_stream;
pub mod repository;
pub mod image_processing;
pub mod gadget_setup;
pub mod boot_config;
pub mod system_files;
pub mod hid_state;
pub mod diagnostics;
pub mod cli;
pub mod memory_store;
pub mod system_setup;
pub mod controller_test;
pub mod device_io;
pub mod probe;
pub mod connection_report;
pub mod color_text;
pub mod conversion;
pub mod calendar;

verus! {

} // verus!
