//! The ISS items of [`crate::satellites`] under the path that callers of
//! the ISS-only interface use.
pub use crate::satellites::{IssEphemeris, IssEphemerisPoint};
