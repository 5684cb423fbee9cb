//! Rewrites the links in a text, and in the QR codes of an image, to forms
//! that carry no trackers: short links give way to their targets, queries
//! are stripped down to the keys that matter, and pages behind several hosts
//! are named by one.
//!
//! - [`table`] lists the rules in the order in which they run;
//! - [`pattern`] holds their patterns and the engine that searches with them;
//! - [`guard`] tells where a link may start;
//! - [`link`] strips the query of one URL down to a set of keys;
//! - [`splice`] replaces ranges of a text;
//! - [`rules`] applies one rule to a text;
//! - [`pipeline`] takes a text through all of them;
//! - [`qr`] does the same for each QR code of an image, and covers the
//!   codes that changed;
//! - [`redirect`] says how far a lookup follows redirects.
//!
//! Nothing here touches the network. A rewrite that needs the target of a
//! short link stops and says so; the caller looks it up and hands it back.

pub mod guard;
pub mod link;
pub mod pattern;
pub mod pipeline;
pub mod qr;
pub mod redirect;
pub mod rules;
pub mod splice;
pub mod table;

pub use pipeline::{replace_all, Lookup, Rewrite};
pub use qr::{replace_qrcode, QrFailure, QrLookup, QrRewrite};
pub use table::ShortLink;
