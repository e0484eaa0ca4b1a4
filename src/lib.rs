//! Static inspection of automation scripts against a policy of allowed
//! function arguments and sensitive-data patterns.
pub mod text;
pub mod analyzer;
pub mod lemmas;
