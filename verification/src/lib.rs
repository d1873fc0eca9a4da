//! Identity and access-control core: credential hashing, signed time-bound
//! tokens, username validation, a permission bit-set with access-control
//! lists, and a storage-agnostic repository contract with two verified
//! backends (a volatile key-value store and a document-store model).

pub mod auth;
pub mod authentication;
pub mod authz;
pub mod clock;
pub mod config;
pub mod docstore;
pub mod equivalence;
pub mod error;
pub mod inmemory;
pub mod models;
pub mod perms;
pub mod repo;
pub mod schema;
mod store;
pub mod strutil;
pub mod validation;

pub use error::AppError;
pub use error::AppResult;
