//! Verified core of a web-novel-to-PDF exporter.
//!
//! The library models a parsed HTML page as a flat node store ([`dom`]),
//! locates content in it with a small selector algebra ([`query`]), applies
//! the two fixed extraction recipes of the target site ([`extract`]),
//! resolves the ordered chapter-identifier list ([`resolve`]), and assembles
//! the final HTML document ([`document`]). Network fetching, HTML parsing
//! into the node store, and PDF rendering are left to an unverified shell
//! around the library; [`policy`] decides its bounded fetch retries and
//! [`cli`] parses its command line.

pub mod cli;
pub mod document;
pub mod dom;
pub mod extract;
pub mod policy;
pub mod query;
pub mod resolve;
pub mod text;
