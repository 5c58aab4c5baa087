//! Core library of the MyHelper plugin manager: plugin package lifecycle
//! (download guards, archive validation and extraction planning) and
//! directory-registry synchronization, together with the JSON document
//! utilities that back the per-plugin configuration stores.

pub mod error;
pub mod ident;
pub mod json;
pub mod strutil;
pub mod archive;
pub mod package;
pub mod install;
pub mod sync;
pub mod self_config;
pub mod response;
pub mod window_ops;
pub mod hotkey;
pub mod logger;
pub mod models;
pub mod search;
pub mod web_icon;
pub mod local_icon;
pub mod analyze;
