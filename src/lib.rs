//! Typed codec for the SOAP/XML messages of a device-enrollment service.
//!
//! - `text`: character helpers and the decimal rendering and reading of integers.
//! - `decimal`, `datetime`: the XML-Schema `decimal` and `dateTime` primitives.
//! - `markup`: a generic element tree, its writer, and its reader.
//! - `schema`: how typed values map onto element content, with the field codecs.
//! - `mde_v2`, `xcep`, `soap`: the message catalog and the SOAP envelope.
//! - `discovery`: the answer to a discovery request.

pub mod text;
pub mod decimal;
pub mod datetime;
pub mod markup;
pub mod schema;
pub mod mde_v2;
pub mod soap;
pub mod discovery;
pub mod xcep;
