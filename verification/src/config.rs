//! The per-server bracket configuration the core consumes.
//!
//! The configuration store itself is an external collaborator; the core only
//! receives this record and treats its absence as a terminal "not
//! configured" condition, surfaced upward rather than retried.

use vstd::prelude::*;

verus! {

/// The bracket configuration resolved for one server: where the team plays
/// and under which identifier.
pub struct BattlefyConfig {
    /// The stage whose rounds are listed when resolving a matchup.
    pub stage_id: String,
    /// The team's persistent identifier on the bracket provider.
    pub team_id: String,
    /// The stored link to the tournament, as pasted by the operator.
    pub tournament_link: String,
}

impl BattlefyConfig {
    /// Builds a configuration record from its three stored fields.
    pub fn new(stage_id: String, team_id: String, tournament_link: String) -> (r: Self)
        ensures
            r.stage_id@ == stage_id@,
            r.team_id@ == team_id@,
            r.tournament_link@ == tournament_link@,
    {
        BattlefyConfig { stage_id, team_id, tournament_link }
    }
}

} // verus!
