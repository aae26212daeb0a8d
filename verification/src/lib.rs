//! A minimal decomposer for `http://` URLs.
//!
//! [`url::Url`] keeps a raw string and, once parsed, the host, port, path and
//! search part found in it. What each of the four is, for every raw string,
//! is defined over sequences of characters in [`syntax`]; the searches that
//! definition rests on live in [`text`].

pub mod syntax;
pub mod text;
pub mod url;
