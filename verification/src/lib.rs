//! A schema-driven data and query engine: typed application definitions and
//! their validation, the row model between JSON and storage, the statements
//! that realise a model in a relational backend, access rules, and a small
//! read-only query language over the models.

pub mod access;
pub mod error;
pub mod graphql;
pub mod host;
pub mod http;
pub mod json;
pub mod registry;
pub mod row;
pub mod text;
pub mod schema;
pub mod stats;
pub mod storage;
pub mod sync;
pub mod validate;
