//! View models of a video recorder's HTTP API.
//!
//! The recorder keeps its cameras, their streams and the days on which each
//! stream has recorded in a snapshot ([`db`]). This library turns such a
//! snapshot into the documents that the API serves ([`json`]): maps become
//! lists, slots become names, absent fields are left out. Every document is
//! built whole in memory ([`value`]) before an encoder sees it.

pub mod db;
pub mod json;
pub mod laws;
pub mod ordered;
pub mod text;
pub mod value;
