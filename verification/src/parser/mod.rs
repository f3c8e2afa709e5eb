//! Parsers for response payloads and post content.

pub mod bbcode;
pub mod grammar;
pub mod laws;
pub mod xml;

pub use bbcode::{parse_content, parse_subject};
pub use xml::{extract_kv, parse_timestamp, XmlDocument, XmlNode};
