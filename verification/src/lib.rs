//! The decisions of a sandboxed file service, verified.
//!
//! The service exposes one directory tree over the network. This crate holds
//! what it decides, and nothing of what it does to the disk or the network:
//!
//! - [`path`] resolves a requested path to a location that provably lies
//!   below the sandbox root;
//! - [`session`] keeps the registry of chunked uploads in progress;
//! - [`chunked`] is the chunked upload protocol over that registry: open,
//!   store chunks in any order, merge in index order, or abort;
//! - [`ws_upload`] is the streaming upload protocol of one connection, as a
//!   state machine from events to actions;
//! - [`auth`] checks Basic credentials;
//! - [`files`], [`size`] and [`models`] describe entries, sizes and the
//!   values that travel to and from clients.
//!
//! Paths are lists of names throughout, read from the filesystem root down.

pub mod auth;
pub mod chunked;
pub mod files;
pub mod ids;
pub mod models;
pub mod path;
pub mod session;
pub mod size;
pub mod text;
pub mod ws_upload;

pub use crate::models::AppState;
