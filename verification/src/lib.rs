//! A 128-bit identifier with a textual form, a tagged wire form and a
//! storage form.
//!
//! The identifier is held as two 64-bit words. Its textual form is the
//! hyphenated hexadecimal form of a UUID, its wire form is a pair of tagged
//! varint fields, and its storage form is either a native 128-bit slot or a
//! sixteen-byte big-endian blob, as the backend allows.

pub mod error;
pub mod id;
pub mod order;
pub mod sqlite_id;
pub mod storage;
pub mod storage_laws;
pub mod text;
pub mod wire;
pub mod wire_laws;
