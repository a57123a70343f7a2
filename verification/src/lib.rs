//! The library behind a portfolio and blog API.
//!
//! Its heart is the content repository: a directory of documents, one for
//! each project or blog post, is turned into entities that can be listed,
//! paged and looked up. A document carries a header block between two
//! delimiter lines and a body in Markdown. The header is split off
//! (`front_matter`), decoded (`header_value`) and read field by field; the
//! body is rendered (`markdown`); the file's name gives the slug
//! (`repository`); and the services (`services`) order what loaded, newest
//! first, and cut pages out of it (`listing`). A document that does not
//! load is left out of a listing and is an error only to who asks for it
//! by its slug.
//!
//! Round the repository stand the configuration (`config`), the errors
//! and queries of the API (`error`, `request`), the guard of its
//! administrator's part (`auth`), and the data that it hands out
//! (`models`).
//!
//! Nothing here reads a file, the environment or the network: callers
//! hand in what they read.

pub mod auth;
pub mod config;
pub mod dates;
pub mod error;
pub mod front_matter;
pub mod header_value;
pub mod listing;
pub mod markdown;
pub mod models;
pub mod repository;
pub mod request;
pub mod services;
pub mod slug;
pub mod text;
