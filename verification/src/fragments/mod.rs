//! The first MIME model: content types with named parameters.
pub mod encoding;
pub mod lazy;
pub mod mime;
pub mod model;
pub mod part;
