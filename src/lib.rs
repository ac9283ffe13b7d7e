//! Extraction of page records from XML export dumps of a wiki.
//!
//! The dump is read as a stream of XML events. A [`DumpParser`] takes these
//! events one at a time and hands out each page of the dump once its closing
//! tag has been seen, together with its title, namespace and the text, format
//! and model of its single revision.

pub mod decimal;
pub mod event;
pub mod laws;
pub mod parser;
pub mod schema;

pub use event::{match_namespace, XmlEvent};
pub use parser::{DumpParser, Error, Outcome, Page};
pub use schema::Namespace;
