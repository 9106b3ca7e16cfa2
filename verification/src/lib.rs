//! Core logic of a personal portfolio site backend: the OAuth2 token
//! lifecycle for the music provider (obtain, persist, refresh), bearer-
//! authorised request construction, and the projection of upstream JSON
//! responses into the flat summary values the pages render.
//!
//! All I/O (file system, HTTP, process environment) lives outside this
//! library; these modules hold the decisions and the data transformations,
//! each with a proved contract.

pub mod auth;
pub mod json;
pub mod json_laws;
pub mod riot;
pub mod site;
pub mod spotify;
pub mod urlenc;
