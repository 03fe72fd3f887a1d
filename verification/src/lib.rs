//! Protocol-ingress layer of a line-oriented chat server: identifier
//! validators, the mode-command grammar validator, a glob-style mask
//! matcher and normalizer, and a line-framing codec.

pub mod codec;
pub mod error;
pub mod modes;
pub mod search;
pub mod sourcemask;
pub mod validators;
pub mod wildcard;
