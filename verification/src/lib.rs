//! Retrieval of device logs from a remote store laid out as
//! `device/date/file`.
//!
//! The crate holds what such a tool decides and computes: how a directory
//! listing is read, which commands address the store, which date folders a
//! device has, and which files of a folder are fetched under which names.
//! Running commands and touching the disk are left to the caller, who reaches
//! the store through the [`types::LogOperations`] trait.

pub mod datetime;
pub mod listing;
pub mod log_getter;
pub mod order;
pub mod s3_cli;
pub mod selection;
pub mod text;
pub mod types;
