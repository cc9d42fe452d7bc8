//! Verified core of a mirror that copies a remote video catalog and its view
//! counts into a local table.
//!
//! The crate holds the decisions of the mirror and none of its transport: the
//! caller fetches pages, exchanges credentials and talks to its database, and
//! hands every outcome to the state machines defined here.
//!
//! - [`brightcove`]: the shapes of the remote answers and the arithmetic of
//!   the catalog's pages.
//! - [`request`]: the texts of the requests to the remote endpoints.
//! - [`sync`]: a catalog pass, which gathers the videos that are newer than
//!   the newest stored one.
//! - [`views`]: a reconciliation pass, which writes the reported view counts.
//! - [`credential`]: the bearer credential and what an exchange changes.
//! - [`db`]: the rows of the video table, and the table held in memory.
//! - [`mirror`]: whole passes over the in-memory table, and what holds of
//!   them.
//! - [`api`]: the rules of the read interface.
//! - [`text_order`]: the order in which the table ranks ids and dates.
//! - [`error`]: the failures that the mirror tells apart.

pub mod api;
pub mod brightcove;
pub mod credential;
pub mod db;
pub mod error;
pub mod mirror;
pub mod request;
pub mod sync;
pub mod text_order;
pub mod views;
