//! Parser for Decentralized Identifier (DID) strings and DID URLs.
//!
//! A DID names a subject through a method registry and a method-specific
//! identifier; a DID URL extends it with optional method parameters, a path,
//! a query and a fragment, mirroring generic URI syntax:
//!
//! ```text
//! did                = "did:" method-name ":" method-specific-id
//! method-name        = 1*method-char
//! method-char        = %x61-7A / DIGIT
//! method-specific-id = *idchar
//! idchar             = ALPHA / DIGIT / "." / "-" / "_"
//! did-url            = did *( ";" param ) path-abempty [ "?" query ]
//!                      [ "#" fragment ]
//! param              = param-name "=" param-value
//! param-name         = *param-char
//! param-value        = *param-char
//! param-char         = ALPHA / DIGIT / "." / "-" / "_" / ":"
//! ```
//!
//! `pct-encoded` characters are not recognized, and an embedded `:` inside
//! the method-specific identifier is not treated as a segment boundary: the
//! identifier is a single opaque run of `idchar`s.
//!
//! [`Did::parse`] turns a DID URL into a [`Did`] value and demands that the
//! whole input is consumed; [`Did::is_valid_base_did`] accepts exactly the
//! bare `did:method:id` form. Both carry contracts that tie their results to
//! the specification-level parser [`grammar::spec_parse`], and
//! [`laws`] proves grammar-wide properties of that parser.

pub mod chars;
pub mod did;
pub mod grammar;
pub mod laws;
pub mod scan;

pub use did::Did;
pub use grammar::ParseError;
