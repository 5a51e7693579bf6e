//! Prefixed unique identifiers: a short prefix, an underscore and a suffix of
//! 22 base-62 characters, as in `usr_45A0IQarTgXyiRM6VQ9YbX`.
//!
//! An [`IdType`] names a kind of identifier and holds its prefix. A [`Puid`]
//! is one identifier: [`Puid::new`] draws a fresh one, [`Puid::from_str`]
//! parses a text, [`Puid::as_str`] gives the text back, and
//! [`Puid::create_domain`] writes the statement that declares the
//! identifiers of a type to a database.
//!
//! The suffix stands for a 128-bit random number. Such a number makes two
//! identifiers differ with overwhelming probability; it is not meant to keep
//! an identifier from being guessed.

pub mod error;
pub mod ident;
pub mod layout;
pub mod suffix;
pub mod text;

pub use error::Error;
pub use ident::{IdType, Puid};
pub use suffix::{encode, encode_into, encode_suffix, is_valid_suffix_byte};
