//! Reader for Password Safe V3 databases: authenticates a passphrase, checks
//! the integrity of the whole file, decrypts it and exposes its records.

pub mod error;
pub mod field;
pub mod crypto;
pub mod preamble;
pub mod header;
pub mod record;
pub mod identifier;
pub mod database;
pub mod search;

pub use database::Database;
pub use error::{Error, RequiredField};
pub use header::Header;
pub use preamble::Preamble;
pub use record::Record;
