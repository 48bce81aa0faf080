//! Verified core of a self-backing-up application: a debouncing backup
//! scheduler, an archiver that packages a database snapshot together with an
//! attachment directory into one compressed archive, a retention pruner that
//! keeps only the newest archives, and the configuration the three share.
//!
//! All filesystem traffic (reading the database file, listing directories,
//! writing and deleting archives) is left to the surrounding binary; the
//! library works on plain values and states what it computes from them.

pub mod config;

pub mod paths;

pub mod archive_name;

pub mod archive;

pub mod retention;

pub mod backup_service;
