//! Model, schema and configuration logic of a terminal spreadsheet for
//! CSV-backed tables.

pub mod util;
pub mod fold;
pub mod strings;
pub mod schema;
pub mod dbconfig;
pub mod kdl_doc;
pub mod db;
pub mod ingest;
pub mod entity_import;
pub mod model;
pub mod view;
