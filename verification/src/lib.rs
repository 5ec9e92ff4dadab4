//! Verified core of a Clockify to Solidtime migration tool.
pub mod text;
pub mod models;
pub mod api_envelope;
pub mod fingerprint;
pub mod duration;
pub mod string_map;
pub mod mapping;
pub mod errors;
pub mod select;
pub mod project_mapping;
pub mod ordered;
pub mod compare;
pub mod table;
pub mod report;
pub mod calendar;
pub mod id_set;
pub mod clockify;
pub mod solidtime;
pub mod http;
pub mod validate;
pub mod config;
pub mod migrate;
pub mod completions;
