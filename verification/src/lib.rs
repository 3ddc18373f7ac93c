pub mod calculate;
pub mod exceptions;
pub mod measure;
pub mod metric;
pub mod text;
pub mod types;
pub mod version;
