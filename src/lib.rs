//! Local configuration store of the a11ywatch command line: a JSON
//! configuration document with deep merge and version stamping, and the
//! derived `.env` file that deployment tooling consumes.
pub mod json;
pub mod text;
pub mod env;
pub mod codec;
pub mod store;
pub mod compose;
