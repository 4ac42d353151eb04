//! Tome: consolidate AI coding skills from several sources into one library of
//! symlinks, and publish that library to the tools that consume it.
//!
//! Everything here works on plain values. The caller observes the filesystem
//! (which entries are symlinks, what they point at, what canonicalizes) and hands
//! the observations in; the functions decide what to create, replace, skip or
//! remove, and report the counters, so that a dry run and a real run agree.
pub mod cleanup;
pub mod cli;
pub mod config;
pub mod discover;
pub mod distribute;
pub mod doctor;
pub mod json;
pub mod library;
pub mod links;
pub mod paths;
pub mod server;
pub mod skill;
pub mod status;
pub mod text;
pub mod wizard;
