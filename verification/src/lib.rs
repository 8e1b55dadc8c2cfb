//! Deserialization-time validation: a declaration compiler that turns
//! per-field validation annotations into a two-stage conversion pipeline,
//! together with the reference validator functions it composes.
//!
//! - [`tokens`] holds the token model declarations are parsed over;
//! - [`decl`] the declaration tree and the diagnostics raised against it;
//! - [`schema`] the parser and resolver that compile a declaration into a
//!   structure specification;
//! - [`synth`] the synthesizer that emits the deserialization capability;
//! - [`pipeline`] the conversion's runtime shape and its ordering laws;
//! - [`validators`] the reference validators the declarations refer to.

pub mod decl;
pub mod pipeline;
pub mod schema;
pub mod synth;
pub mod tokens;
pub mod validators;

pub use validators::{
    accept_checked_number, email, indexes, international_phone_number, max_txt, opt, pass,
    scheme_is_secure, secure_url,
};
