//! Rule-language parsing and desktop-integration planning for an intercepting HTTP proxy.
pub mod platform;
pub mod rules;
pub mod text;
