//! What the library promises, stated over plain values: texts, numbers and maps.
pub mod answers;
pub mod deletion;
pub mod namespace;
pub mod requests;
pub mod settings;
pub mod texts;
pub mod transfer;
