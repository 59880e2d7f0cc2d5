//! Core of a SQL bridge: column values of three relational backends are
//! decoded into one dynamic value model, named databases are kept in a
//! registry, and versioned migrations are planned and applied in order.

pub mod connection;
pub mod deserialize;
pub mod dialect;
pub mod encoding;
pub mod error;
pub mod migration;
pub mod migrator;
pub mod name_map;
pub mod open;
pub mod plugin;
pub mod registry;
pub mod row;
pub mod statement;
pub mod text;
pub mod value;

pub use error::{BooleanSource, BooleanSourceView, Error, ErrorView};
pub use migration::{Migration, MigrationKind, MigrationList};
pub use plugin::TauriSql;
pub use value::{CanonicalValue, ValueKind, ValueView};
