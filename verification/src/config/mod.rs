//! The configuration file: its TOML model, the settings it yields and how
//! they are validated, and the key-by-key view used by `config get/set`.
pub mod toml_doc;
pub mod schema;
pub mod settings;
pub mod keys;
pub mod edit;
