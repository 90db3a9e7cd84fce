//! Tournament roster reports: bracket match resolution, profile extraction,
//! and roster aggregation for bracket-style tournaments.
//!
//! The crate holds the logic worth proving, with its behaviour stated in
//! contracts: finding and claiming a team's match in a round ([`bracket`]),
//! best-effort extraction of skill ratings and roles from scraped profile
//! pages ([`profile`]), the stable rating sort and top-six average of the
//! final report ([`report`]), reading identifiers out of pasted bracket
//! URLs ([`links`]), and the provider's wire shape with a proved
//! encode/decode round trip ([`wire`]). Network and store access stay
//! outside, handing plain values in and out.

pub mod bracket;
pub mod config;
pub mod error;
pub mod links;
pub mod profile;
pub mod report;
pub mod text;
pub mod wire;
