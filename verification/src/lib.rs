//! Validation and decoding of the signed init data that a host platform hands
//! to an embedded mini-application.
//!
//! A payload is a URL-encoded list of fields, one of which, `hash`, signs all
//! the others. [`WebAppInitData::new`] splits the payload into its fields,
//! brings them into their canonical order, recomputes the signature from the
//! application's token and compares it with the claimed one, and only then
//! decodes the typed fields.
//!
//! Three things are taken from other crates and stand here as named results,
//! without a definition: what a URL-encoded payload decodes into
//! ([`form::form_pairs`]), the HMAC-SHA256 code of a message
//! ([`signature::keyed_hash`]) and the document that a JSON text writes
//! ([`json::json_text`]). Every contract is exact over these three; the module
//! [`laws`] holds what follows for every payload.

pub mod clock;
pub mod error;
pub mod form;
pub mod hex;
pub mod init_data;
pub mod json;
pub mod laws;
pub mod number;
pub mod order;
pub mod pairs;
pub mod signature;
pub mod user;

pub use crate::error::{Error, JsonError};
pub use crate::hex::hex;
pub use crate::init_data::WebAppInitData;
pub use crate::json::Member;
pub use crate::pairs::RawPairs;
pub use crate::user::{UserMembers, WebAppUser};
