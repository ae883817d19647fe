//! Make light work of connecting and migrating an SQLite database.
//!
//! A [`ConnectionBuilder`] opens a database file, makes sure that it belongs
//! to the application, and applies the [`Migrations`] that it still lacks.
//! What is asked of the database engine, and in which order, is decided by
//! the setup pass in [`protocol`]; [`model`] says what the commands mean,
//! and [`laws`] what follows for the file.

pub mod builder;
pub mod engine;
pub mod error;
pub mod laws;
pub mod migrations;
pub mod model;
pub mod opener;
pub mod outcomes;
pub mod plan;
pub mod protocol;
pub mod refinement;

pub use builder::ConnectionBuilder;
pub use error::ConnectionBuilderError;
pub use migrations::Migrations;
