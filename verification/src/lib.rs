//! Storage management for channel-scoped media libraries: path sandboxing
//! against a fixed allow-list, directory listing with natural ordering and
//! extension filtering, move/delete planning with explicit fallback steps,
//! and upload ingestion rules.

pub mod browse;
pub mod encoder;
pub mod error;
pub mod mutate;
pub mod natsort;
pub mod normpath;
pub mod sandbox;
pub mod strutil;
pub mod upload;
