//! Core logic of the SkyTab command-line client: text handling, the JSON
//! value model, CSV/NDJSON rendering, configuration and credential
//! decisions, update checks and request planning.

pub mod text;
pub mod paths;
pub mod cli;
pub mod json;
pub mod error;
pub mod csv;

pub mod output;
pub mod time;
pub mod read_api;
pub mod requests;
pub mod reports;
pub mod update;
pub mod config;
pub mod cache;
pub mod client;
pub mod mcp;
pub mod doctor;
pub mod display;
