//! An in-memory store and a plain error type, for trying the resolver and
//! the commit step without a database.

pub mod errors;
pub mod mock_db;

pub use errors::StringError;
pub use mock_db::MockPackagesDb;
