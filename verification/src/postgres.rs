//! The configuration of the Postgres states backend.
pub use crate::options::PostgresConfig;
