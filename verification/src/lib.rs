//! RelMeAuth verification engine: `rel="me"` link extraction from HTML,
//! authorization-endpoint discovery, mutual backlink verification, and
//! authorization-request construction.

mod text;

pub mod authreq;
pub mod github;

pub mod relme;
pub mod resolver;

pub mod html;
pub mod site_url;

pub use text::str_eq;
