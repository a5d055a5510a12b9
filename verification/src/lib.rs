//! Filter engine for captured server-status documents: a typed record is
//! normalized from loosely structured JSON and judged against a set of
//! optional criteria.

pub mod text;
pub mod pattern;
pub mod json;
pub mod date;
pub mod filters;
pub mod record;
pub mod matcher;
