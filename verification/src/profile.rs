//! Rated players and the extraction of their data from scraped profile
//! pages.
//!
//! A profile page is third-party HTML whose structure can change under us, so
//! every extraction step is fallible: a missing or unparsable field degrades
//! to an absent value or to `Unknown`, and never aborts the other fields.
//! The DOM walks themselves go through `select`; what each walk returns is a
//! function of the page text alone and is given a name here, and everything
//! done with the returned text is verified.

use vstd::prelude::*;

use select::predicate::Predicate;

use crate::text::{parse_u16, parse_u16_spec, str_eq, trim_chars, trim_spec};

verus! {

/// A player's role classification on the profile site. Anything the page
/// does not state, or states in an unrecognised form, degrades to `Unknown`.
#[derive(Debug)]
pub enum Role {
    Unknown,
    Tank,
    Offense,
    Support,
    Defense,
}

/// A player enriched with scraped skill-rating data. Ephemeral: created per
/// report, never persisted. A rating of 0 is the "unknown / unparsed"
/// sentinel, a valid value rather than an error.
#[derive(Debug)]
pub struct Player {
    pub battletag: String,
    pub sr: u16,
    pub role: Role,
}

/// The direct text of the page's primary heading: the display name half of
/// the battletag.
pub uninterp spec fn heading_name_of(html: Seq<char>) -> Option<Seq<char>>;

/// The text of the smaller element nested in the primary heading: the tag
/// suffix half of the battletag.
pub uninterp spec fn heading_tag_of(html: Seq<char>) -> Option<Seq<char>>;

/// The first text child of the page's distinguished skill-rating element.
pub uninterp spec fn rating_text_of(html: Seq<char>) -> Option<Seq<char>>;

/// The text of the highlighted cell in the first row of the page's roles
/// block.
pub uninterp spec fn role_text_of(html: Seq<char>) -> Option<Seq<char>>;

/// Relies on select's `Document::from`, `Document::find` with the `Name`
/// predicate, `Node::first_child` and `Node::data`: the first `h1` element's
/// direct text node, a pure function of the page text.
#[verifier::external_body]
fn extract_heading_name(html: &str) -> (r: Option<String>)
    ensures
        match r {
            Some(s) => heading_name_of(html@) == Some(s@),
            None => heading_name_of(html@) is None,
        },
{
    let doc = select::document::Document::from(html);
    match doc.find(select::predicate::Name("h1")).next() {
        Some(h) => match h.first_child() {
            Some(c) => match c.data() {
                select::node::Data::Text(t) => Some(t.to_string()),
                _ => None,
            },
            None => None,
        },
        None => None,
    }
}

/// Relies on select's `Document::from`, `find` with the `Name` predicate on
/// the document and on the heading node, `Node::first_child` and
/// `Node::data`: the text of the first `small` element under the first `h1`,
/// a pure function of the page text.
#[verifier::external_body]
fn extract_heading_tag(html: &str) -> (r: Option<String>)
    ensures
        match r {
            Some(s) => heading_tag_of(html@) == Some(s@),
            None => heading_tag_of(html@) is None,
        },
{
    let doc = select::document::Document::from(html);
    match doc.find(select::predicate::Name("h1")).next() {
        Some(h) => match h.find(select::predicate::Name("small")).next() {
            Some(n) => match n.first_child() {
                Some(c) => match c.data() {
                    select::node::Data::Text(t) => Some(t.to_string()),
                    _ => None,
                },
                None => None,
            },
            None => None,
        },
        None => None,
    }
}

/// Relies on select's `Document::from`, `Document::find` with the `Class`
/// predicate, `Node::first_child` and `Node::data`: the first text child of
/// the first element of class `player-skill-rating`, a pure function of the
/// page text.
#[verifier::external_body]
fn extract_rating_text(html: &str) -> (r: Option<String>)
    ensures
        match r {
            Some(s) => rating_text_of(html@) == Some(s@),
            None => rating_text_of(html@) is None,
        },
{
    let doc = select::document::Document::from(html);
    match doc.find(select::predicate::Class("player-skill-rating")).next() {
        Some(n) => match n.first_child() {
            Some(c) => match c.data() {
                select::node::Data::Text(t) => Some(t.to_string()),
                _ => None,
            },
            None => None,
        },
        None => None,
    }
}

/// Relies on select's `Document::from`, `find` with the `Attr`, `Class`,
/// `Child` and `Name` predicates, `Node::first_child` and `Node::data`: the
/// text of the highlighted (`color-white`) cell of the first row of the
/// `roles` data block, a pure function of the page text.
#[verifier::external_body]
fn extract_role_text(html: &str) -> (r: Option<String>)
    ensures
        match r {
            Some(s) => role_text_of(html@) == Some(s@),
            None => role_text_of(html@) is None,
        },
{
    let doc = select::document::Document::from(html);
    let cell = doc.find(select::predicate::Attr("data-portable", "roles")).next().and_then(
        |b| b.find(select::predicate::Class("stripe-rows").child(select::predicate::Name("tr"))).next()
    ).and_then(|row| row.find(select::predicate::Class("color-white")).next()).and_then(
        |c| c.first_child()
    );
    match cell {
        Some(c) => match c.data() {
            select::node::Data::Text(t) => Some(t.to_string()),
            _ => None,
        },
        None => None,
    }
}

/// The battletag a profile page shows: heading text and tag suffix joined,
/// present only when both parts are.
pub open spec fn battletag_text_of(html: Seq<char>) -> Option<Seq<char>> {
    match (heading_name_of(html), heading_tag_of(html)) {
        (Some(n), Some(t)) => Some(n + t),
        _ => None,
    }
}

/// Extracts the display name plus tag suffix from a profile page; absent
/// unless both parts are present.
pub fn parse_battletag(html: &str) -> (r: Option<String>)
    ensures
        match r {
            Some(s) => battletag_text_of(html@) == Some(s@),
            None => battletag_text_of(html@) is None,
        },
{
    let name = extract_heading_name(html);
    let tag = extract_heading_tag(html);
    match (name, tag) {
        (Some(n), Some(t)) => Some(n.concat(t.as_str())),
        _ => None,
    }
}

/// What the rating element's text denotes: its text trimmed of white space
/// and read as an unsigned 16-bit decimal number, if it reads as one.
pub open spec fn rating_of_text(t: Seq<char>) -> Option<u16> {
    parse_u16_spec(trim_spec(t))
}

/// The skill rating a profile page shows, absent when the rating element is
/// missing or its text is not a number.
pub open spec fn rating_of(html: Seq<char>) -> Option<u16> {
    match rating_text_of(html) {
        Some(t) => rating_of_text(t),
        None => None,
    }
}

/// Reads a rating element's text: trims white space, then parses a
/// non-negative 16-bit number; anything else is absent.
pub fn parse_rating_text(t: &str) -> (r: Option<u16>)
    ensures
        r == rating_of_text(t@),
{
    parse_u16(trim_chars(t))
}

/// Extracts the skill rating from a profile page, per [`rating_of`].
pub fn parse_sr(html: &str) -> (r: Option<u16>)
    ensures
        r == rating_of(html@),
{
    match extract_rating_text(html) {
        Some(t) => parse_rating_text(t.as_str()),
        None => None,
    }
}

/// The role a role cell's text denotes: one of the four literal role names,
/// anything else `Unknown`.
pub open spec fn role_of_text(t: Seq<char>) -> Role {
    if t == "Tank"@ {
        Role::Tank
    } else if t == "Offense"@ {
        Role::Offense
    } else if t == "Support"@ {
        Role::Support
    } else if t == "Defense"@ {
        Role::Defense
    } else {
        Role::Unknown
    }
}

/// The role a profile page shows, `Unknown` when the roles block is missing
/// or its text is unrecognised.
pub open spec fn role_of(html: Seq<char>) -> Role {
    match role_text_of(html) {
        Some(t) => role_of_text(t),
        None => Role::Unknown,
    }
}

/// Maps a role cell's text to its role, per [`role_of_text`].
pub fn role_from_text(t: &str) -> (r: Role)
    ensures
        r == role_of_text(t@),
{
    if str_eq(t, "Tank") {
        Role::Tank
    } else if str_eq(t, "Offense") {
        Role::Offense
    } else if str_eq(t, "Support") {
        Role::Support
    } else if str_eq(t, "Defense") {
        Role::Defense
    } else {
        Role::Unknown
    }
}

/// Extracts the role from a profile page, per [`role_of`].
pub fn parse_role(html: &str) -> (r: Role)
    ensures
        r == role_of(html@),
{
    match extract_role_text(html) {
        Some(t) => role_from_text(t.as_str()),
        None => Role::Unknown,
    }
}

/// Builds the rated player a profile page describes: the caller's battletag,
/// the page's rating with absence mapped to the sentinel 0, and the page's
/// role.
pub fn player_from_html(battletag: &str, html: &str) -> (r: Player)
    ensures
        r.battletag@ == battletag@,
        r.sr == (match rating_of(html@) {
            Some(v) => v,
            None => 0u16,
        }),
        r.role == role_of(html@),
{
    let sr = match parse_sr(html) {
        Some(v) => v,
        None => 0,
    };
    Player { battletag: String::from_str(battletag), sr, role: parse_role(html) }
}

} // verus!
