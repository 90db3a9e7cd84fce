//! Bracket data model and match resolution.
//!
//! Teams, players and matches as the bracket provider reports them, plus the
//! pure resolution algorithm: find the caller's match in a round, record which
//! side the caller is on, and pick the opposing team out of a re-fetched match.

use vstd::prelude::*;

use crate::text::str_eq;

verus! {

/// A linked account handle, nested under a player's user record.
#[verifier::ext_equal]
pub struct Battlenet {
    pub battletag: String,
}

/// The linked accounts of a player's user record.
#[verifier::ext_equal]
pub struct Accounts {
    pub battlenet: Battlenet,
}

/// The user record attached to a bracket player.
#[verifier::ext_equal]
pub struct User {
    pub name: String,
    pub accounts: Accounts,
}

/// A player as the bracket provider reports it.
#[verifier::ext_equal]
pub struct Player {
    /// The record's own storage identifier.
    pub id: String,
    /// The stable cross-reference identifier for the player.
    pub pid: String,
    /// The in-game name; may be empty.
    pub ign: String,
    /// The user record; its linked account may stand in for an empty in-game name.
    pub user: User,
}

/// The persistent (cross-tournament) half of a team record.
#[verifier::ext_equal]
pub struct PersistentTeam {
    pub name: String,
    pub logo_url: String,
    pub persistent_player_ids: Vec<String>,
    pub persistent_captain_id: String,
}

/// A team as the bracket provider reports it.
#[verifier::ext_equal]
pub struct Team {
    /// Roster, in the order the provider lists it.
    pub players: Vec<Player>,
    /// The stable identifier that match resolution compares against.
    pub persistent_team_id: String,
    pub persistent_team: PersistentTeam,
    /// The record's own storage identifier.
    pub id: String,
}

/// One side of a match.
#[verifier::ext_equal]
pub struct MatchTeam {
    pub team: Team,
}

/// A match between two teams. `is_top` is a transient flag recorded during
/// resolution: it says which slot the caller's team sits in, and is only
/// meaningful on a match returned by [`find_match`].
#[verifier::ext_equal]
pub struct Match {
    pub id: String,
    pub top: MatchTeam,
    pub bottom: MatchTeam,
    pub is_top: bool,
}

/// The outcome of a name-based team search; callers must handle all three arms.
pub enum SearchResult {
    /// The provider returned no team.
    NoMatch,
    /// The provider returned exactly one team.
    Team(Team),
    /// The provider returned several teams.
    Teams(Vec<Team>),
}

impl Default for Battlenet {
    /// An empty linked account.
    fn default() -> (r: Self)
        ensures
            r.battletag@ == Seq::<char>::empty(),
    {
        Battlenet { battletag: String::new() }
    }
}

impl Default for Accounts {
    /// Empty linked accounts.
    fn default() -> (r: Self)
        ensures
            r.battlenet.battletag@ == Seq::<char>::empty(),
    {
        Accounts { battlenet: Battlenet::default() }
    }
}

impl Default for User {
    /// An empty user record.
    fn default() -> (r: Self)
        ensures
            r.name@ == Seq::<char>::empty(),
            r.accounts.battlenet.battletag@ == Seq::<char>::empty(),
    {
        User { name: String::new(), accounts: Accounts::default() }
    }
}

impl Default for Player {
    /// A player with every field empty.
    fn default() -> (r: Self)
        ensures
            r.id@ == Seq::<char>::empty(),
            r.pid@ == Seq::<char>::empty(),
            r.ign@ == Seq::<char>::empty(),
            r.user.accounts.battlenet.battletag@ == Seq::<char>::empty(),
    {
        Player {
            id: String::new(),
            pid: String::new(),
            ign: String::new(),
            user: User::default(),
        }
    }
}

impl Default for PersistentTeam {
    /// A persistent team record with every field empty.
    fn default() -> (r: Self)
        ensures
            r.name@ == Seq::<char>::empty(),
            r.logo_url@ == Seq::<char>::empty(),
            r.persistent_player_ids@ == Seq::<String>::empty(),
            r.persistent_captain_id@ == Seq::<char>::empty(),
    {
        PersistentTeam {
            name: String::new(),
            logo_url: String::new(),
            persistent_player_ids: Vec::new(),
            persistent_captain_id: String::new(),
        }
    }
}

impl Default for Team {
    /// A team with an empty roster and every field empty.
    fn default() -> (r: Self)
        ensures
            r.players@ == Seq::<Player>::empty(),
            r.persistent_team_id@ == Seq::<char>::empty(),
            r.id@ == Seq::<char>::empty(),
    {
        Team {
            players: Vec::new(),
            persistent_team_id: String::new(),
            persistent_team: PersistentTeam::default(),
            id: String::new(),
        }
    }
}

impl Default for MatchTeam {
    /// A slot holding an empty team.
    fn default() -> (r: Self)
        ensures
            r.team.persistent_team_id@ == Seq::<char>::empty(),
    {
        MatchTeam { team: Team::default() }
    }
}

impl Default for Match {
    /// A match between two empty teams, with the side flag cleared.
    fn default() -> (r: Self)
        ensures
            r.id@ == Seq::<char>::empty(),
            r.top.team.persistent_team_id@ == Seq::<char>::empty(),
            r.bottom.team.persistent_team_id@ == Seq::<char>::empty(),
            r.is_top == false,
    {
        Match {
            id: String::new(),
            top: MatchTeam::default(),
            bottom: MatchTeam::default(),
            is_top: false,
        }
    }
}

/// The displayable handle derived from an in-game name and a linked account
/// tag: the in-game name if non-empty, else the linked tag if non-empty,
/// else absent.
pub open spec fn battletag_of(ign: Seq<char>, linked: Seq<char>) -> Option<Seq<char>> {
    if ign.len() > 0 {
        Some(ign)
    } else if linked.len() > 0 {
        Some(linked)
    } else {
        None
    }
}

/// The handle [`Player::battletag`] yields for a player.
pub open spec fn player_battletag(p: Player) -> Option<Seq<char>> {
    battletag_of(p.ign@, p.user.accounts.battlenet.battletag@)
}

impl Player {
    /// The player's displayable handle, per [`battletag_of`]; a player without
    /// one cannot be looked up on the profile site.
    pub fn battletag(&self) -> (r: Option<&str>)
        ensures
            r is Some <==> player_battletag(*self) is Some,
            r is Some ==> r.unwrap()@ == player_battletag(*self).unwrap(),
    {
        if !self.ign.as_str().is_empty() {
            Some(self.ign.as_str())
        } else if !self.user.accounts.battlenet.battletag.as_str().is_empty() {
            Some(self.user.accounts.battlenet.battletag.as_str())
        } else {
            None
        }
    }
}

impl Team {
    /// The team's display name.
    pub fn name(&self) -> (r: &str)
        ensures
            r@ == self.persistent_team.name@,
    {
        self.persistent_team.name.as_str()
    }

    /// The team's persistent identifier: its identity for matching purposes.
    pub fn pid(&self) -> (r: &str)
        ensures
            r@ == self.persistent_team_id@,
    {
        self.persistent_team_id.as_str()
    }

    /// The team's logo reference.
    pub fn logo_url(&self) -> (r: &str)
        ensures
            r@ == self.persistent_team.logo_url@,
    {
        self.persistent_team.logo_url.as_str()
    }
}

/// The battletags of the roster players that have one, in roster order:
/// exactly the players the enrichment fan-out can look up.
pub open spec fn roster_battletags_spec(s: Seq<Player>) -> Seq<Seq<char>>
    decreases s.len(),
{
    if s.len() == 0 {
        Seq::empty()
    } else {
        let rest = roster_battletags_spec(s.drop_last());
        match player_battletag(s.last()) {
            Some(t) => rest.push(t),
            None => rest,
        }
    }
}

/// Filters a roster to the players that can be enriched: the battletag of
/// each player that has one, in roster order. Players without one are
/// dropped here, before any lookup is attempted.
pub fn roster_battletags(players: &Vec<Player>) -> (r: Vec<String>)
    ensures
        r@.map_values(|t: String| t@) == roster_battletags_spec(players@),
{
    let n = players.len();
    let mut out: Vec<String> = Vec::new();
    let mut i: usize = 0;
    while i < n
        invariant
            0 <= i <= n,
            n == players@.len(),
            out@.map_values(|t: String| t@) == roster_battletags_spec(players@.subrange(0, i as int)),
        decreases n - i,
    {
        let ghost pre = out@;
        match players[i].battletag() {
            Some(t) => {
                out.push(String::from_str(t));
                proof {
                    assert(out@.map_values(|t: String| t@) =~= pre.map_values(
                        |t: String| t@,
                    ).push(out@.last()@));
                }
            },
            None => {},
        }
        proof {
            let p = players@.subrange(0, i as int + 1);
            assert(p.drop_last() =~= players@.subrange(0, i as int));
            assert(p.last() == players@[i as int]);
        }
        i = i + 1;
    }
    proof {
        assert(players@.subrange(0, n as int) =~= players@);
    }
    out
}

/// Whether either slot of a match holds the team with persistent identifier
/// `tid`.
pub open spec fn match_has_team(m: Match, tid: Seq<char>) -> bool {
    m.top.team.persistent_team_id@ == tid || m.bottom.team.persistent_team_id@ == tid
}

/// The match `m` with the side flag recorded for the team `tid`: top if the
/// top slot holds it, bottom otherwise.
pub open spec fn resolved(m: Match, tid: Seq<char>) -> Match {
    Match { is_top: m.top.team.persistent_team_id@ == tid, ..m }
}

/// `s[i]` is the first match in `s` that has the (non-empty) team `tid`.
pub open spec fn first_match_at(s: Seq<Match>, tid: Seq<char>, i: int) -> bool {
    &&& 0 <= i < s.len()
    &&& tid.len() > 0
    &&& match_has_team(s[i], tid)
    &&& forall|j: int| 0 <= j < i ==> !match_has_team(s[j], tid)
}

impl Match {
    /// Whether either slot holds the team `team_id`, recording on success
    /// which side it is: the flag is set to top exactly when the top slot
    /// holds it. On failure the flag is left as it was. Nothing else changes.
    pub fn has_team(&mut self, team_id: &str) -> (r: bool)
        ensures
            r == match_has_team(*old(self), team_id@),
            final(self).id == old(self).id,
            final(self).top == old(self).top,
            final(self).bottom == old(self).bottom,
            r ==> *final(self) == resolved(*old(self), team_id@),
            !r ==> final(self).is_top == old(self).is_top,
    {
        if str_eq(self.top.team.persistent_team_id.as_str(), team_id) {
            self.is_top = true;
            true
        } else if str_eq(self.bottom.team.persistent_team_id.as_str(), team_id) {
            self.is_top = false;
            true
        } else {
            false
        }
    }
}

/// Whether either slot of `m` holds the team `team_id`, without recording a
/// side.
pub fn matches_team(m: &Match, team_id: &str) -> (r: bool)
    ensures
        r == match_has_team(*m, team_id@),
{
    str_eq(m.top.team.persistent_team_id.as_str(), team_id)
        || str_eq(m.bottom.team.persistent_team_id.as_str(), team_id)
}

/// Claims the caller's match out of a round: removes and returns the first
/// match that has the team `team_id`, with its side flag recorded. An empty
/// `team_id` never matches, guarding against empty-string identifiers on
/// either slot. When no match has the team, the list is left unchanged.
pub fn find_match(matches: &mut Vec<Match>, team_id: &str) -> (r: Option<Match>)
    ensures
        team_id@.len() == 0 ==> r is None,
        r is None ==> final(matches)@ == old(matches)@,
        r is None ==> team_id@.len() == 0 || forall|i: int|
            0 <= i < old(matches)@.len() ==> !match_has_team(old(matches)@[i], team_id@),
        r is Some ==> exists|i: int|
            #![trigger old(matches)@.remove(i)]
            first_match_at(old(matches)@, team_id@, i)
                && r == Some(resolved(old(matches)@[i], team_id@))
                && final(matches)@ == old(matches)@.remove(i),
        r is Some ==> final(matches)@.len() + 1 == old(matches)@.len(),
{
    if team_id.is_empty() {
        return None;
    }

    let n = matches.len();
    let mut i: usize = 0;
    while i < n
        invariant
            matches@ == old(matches)@,
            n == matches@.len(),
            0 <= i <= n,
            team_id@.len() > 0,
            forall|j: int| 0 <= j < i ==> !match_has_team(matches@[j], team_id@),
        decreases n - i,
    {
        if matches_team(&matches[i], team_id) {
            let mut m = matches.remove(i);
            let claimed = m.has_team(team_id);
            proof {
                assert(claimed);
                assert(first_match_at(old(matches)@, team_id@, i as int));
                assert(m == resolved(old(matches)@[i as int], team_id@));
            }
            return Some(m);
        }
        i = i + 1;
    }

    None
}

/// Sorts a provider's team-search response into the three outcomes: no team,
/// exactly the one team returned, or the full ambiguous list.
pub fn classify_teams(teams: Vec<Team>) -> (r: SearchResult)
    ensures
        match r {
            SearchResult::NoMatch => teams@.len() == 0,
            SearchResult::Team(t) => teams@.len() == 1 && t == teams@[0],
            SearchResult::Teams(ts) => teams@.len() > 1 && ts@ == teams@,
        },
{
    if teams.len() == 0 {
        SearchResult::NoMatch
    } else if teams.len() == 1 {
        let mut teams = teams;
        let t = teams.pop().unwrap();
        SearchResult::Team(t)
    } else {
        SearchResult::Teams(teams)
    }
}

/// Picks the opposing team out of a re-fetched match list: the slot that is
/// not the caller's, provided the provider returned exactly one match.
/// Any other count is an absent-team condition, not a failure.
pub fn pick_opponent(matches: Vec<Match>, was_top: bool) -> (r: Option<Team>)
    ensures
        matches@.len() != 1 ==> r is None,
        matches@.len() == 1 ==> r == Some(
            if was_top {
                matches@[0].bottom.team
            } else {
                matches@[0].top.team
            },
        ),
{
    if matches.len() != 1 {
        return None;
    }
    let mut matches = matches;
    let m = matches.pop().unwrap();
    if was_top {
        Some(m.bottom.team)
    } else {
        Some(m.top.team)
    }
}

} // verus!
