//! Input-abstraction layer for recursive-descent parsers.
//!
//! Wraps a raw span of bytes so that combinators can recover the absolute
//! offset of any sub-slice relative to the original input ([`located::Located`])
//! and thread caller-defined state through a parse ([`stateful::Stateful`]),
//! together with the derived combinators [`combinators::bof`] and
//! [`combinators::span`].

pub mod bytes;
pub mod combinators;
pub mod compare;
pub mod input;
pub mod laws;
pub mod located;
pub mod signal;
pub mod split;
pub mod stateful;
