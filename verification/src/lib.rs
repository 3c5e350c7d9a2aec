//! Verified core of a pair of HTTP handlers that expose CRUD operations over
//! two related entities — customers and users — kept in a relational store
//! behind an ownership relation that doubles as the authorization boundary.
//!
//! The library holds the logic worth proving: salted identity hashing, the
//! dynamic partial-update statement builder, an executable model of the store
//! with the repository operations over it, the transactional mutation
//! protocol, and the request dispatchers with their response mapping. The
//! surrounding plumbing (event envelope, credential signing, the database
//! connection itself) stays outside.

pub mod customer;
pub mod hashing;
pub mod parse_num;
pub mod protocol;
pub mod records;
pub mod request;
pub mod response;
pub mod text;
pub mod update_sql;
pub mod user;
