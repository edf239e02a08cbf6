//! Sorting of downloaded media files into a show and movie library.
//!
//! A file's path is cleaned into a title ([`title`]), which gives a show
//! marker and a year ([`mediainfo`]); a catalog supplies the canonical name
//! ([`omdb`], [`tvmaze`], [`query`]); the destination, the placement decision
//! and the permission cascade follow ([`placement`]); a check run gathers
//! destinations that several files map to ([`report`]).
pub mod config;
pub mod error;
pub mod mediainfo;
pub mod omdb;
pub mod placement;
pub mod query;
pub mod report;
pub mod text;
pub mod title;
pub mod tvmaze;
pub mod watch;
