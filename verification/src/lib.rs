pub mod bytes;
pub mod document;
pub mod engine;
pub mod error;
pub mod fields;
pub mod identifier;
pub mod operation;
pub mod query;
pub mod serializer;
pub mod status;
pub mod storage;
pub mod store;

pub use document::Document;
pub use engine::{BinDb, JsonDb, RedDb, RonDb, YamlDb};
pub use error::{RedDbError, RedDbErrorKind};
pub use query::Query;
pub use status::Status;
pub use storage::FileStorage;
