//! A three-component version number: major, minor and revision.
//!
//! A [`Version`] is a plain value. It can be built directly, converted from
//! integers and tuples of integers, read from text such as `"1.2.3"`, written
//! back as text, and compared. Every operation carries a contract that is
//! proved against a mathematical model of the value and of its text.

pub mod convert;
pub mod decimal;
pub mod error;
pub mod laws;
pub mod order;
pub mod parse;
pub mod render;
pub mod scan;
pub mod segment;
pub mod version;

pub use error::{NumberError, VersionError};
pub use version::Version;
