//! Package repository back end: table rows, queries over a snapshot of the
//! tables, password and API-key authentication, and the package listing.
pub mod models;
pub mod paging;
pub mod store;
pub mod auth;
pub mod packages;
