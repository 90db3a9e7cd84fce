use wahoo::bracket::{Match, Player, Team};
use wahoo::wire::{
    match_from_json, match_to_json, player_from_json, player_to_json, team_from_json, team_to_json,
};

fn sample_player(n: &str) -> Player {
    let mut p: Player = Default::default();
    p.id = format!("id-{}", n);
    p.pid = format!("pid-{}", n);
    p.ign = format!("{}#1234", n);
    p.user.name = String::from(n);
    p.user.accounts.battlenet.battletag = format!("{}#1234", n);
    p
}

fn sample_team() -> Team {
    let mut t: Team = Default::default();
    t.id = String::from("5e15cb20fba5985c0a8b6b7a");
    t.persistent_team_id = String::from("5bfe1b9418ddd9114f14efb0");
    t.persistent_team.name = String::from("wahoo");
    t.persistent_team.logo_url = String::from("http://logo");
    t.persistent_team.persistent_player_ids =
        vec![String::from("p1"), String::from("p2"), String::from("p3")];
    t.persistent_team.persistent_captain_id = String::from("p1");
    t.players = vec![sample_player("alpha"), sample_player("beta")];
    t
}

#[test]
fn player_round_trip() {
    let p = sample_player("alpha");
    let text = player_to_json(&p);
    let q = player_from_json(&text).expect("decoding an encoded player");
    assert_eq!(q.id, p.id);
    assert_eq!(q.pid, p.pid);
    assert_eq!(q.ign, p.ign);
    assert_eq!(q.user.name, p.user.name);
    assert_eq!(q.user.accounts.battlenet.battletag, p.user.accounts.battlenet.battletag);
}

#[test]
fn player_wire_text_is_json() {
    let p = sample_player("alpha");
    let text = player_to_json(&p);
    assert_eq!(
        text,
        "{\"_id\":\"id-alpha\",\"persistentPlayerID\":\"pid-alpha\",\"inGameName\":\"alpha#1234\",\"user\":{\"name\":\"alpha\",\"accounts\":{\"battlenet\":{\"battletag\":\"alpha#1234\"}}}}"
    );
}

#[test]
fn team_round_trip_preserves_identifiers_and_roster() {
    let t = sample_team();
    let text = team_to_json(&t);
    let q = team_from_json(&text).expect("decoding an encoded team");
    assert_eq!(q.persistent_team_id, t.persistent_team_id);
    assert_eq!(q.id, t.id);
    assert_eq!(q.persistent_team.name, t.persistent_team.name);
    assert_eq!(q.persistent_team.logo_url, t.persistent_team.logo_url);
    assert_eq!(
        q.persistent_team.persistent_player_ids,
        t.persistent_team.persistent_player_ids
    );
    assert_eq!(q.persistent_team.persistent_captain_id, t.persistent_team.persistent_captain_id);
    assert_eq!(q.players.len(), t.players.len());
    for (a, b) in q.players.iter().zip(t.players.iter()) {
        assert_eq!(a.pid, b.pid);
        assert_eq!(a.ign, b.ign);
    }
}

#[test]
fn team_round_trip_empty_lists() {
    let mut t: Team = Default::default();
    t.persistent_team_id = String::from("x");
    let text = team_to_json(&t);
    let q = team_from_json(&text).expect("decoding an encoded team");
    assert_eq!(q.persistent_team_id, "x");
    assert!(q.players.is_empty());
    assert!(q.persistent_team.persistent_player_ids.is_empty());
}

#[test]
fn match_round_trip_preserves_both_slots() {
    let mut m: Match = Default::default();
    m.id = String::from("5e15cb20fba5985c0a8b6b7a");
    m.top.team = sample_team();
    m.bottom.team = sample_team();
    m.bottom.team.persistent_team_id = String::from("other");
    let text = match_to_json(&m);
    let q = match_from_json(&text).expect("decoding an encoded match");
    assert_eq!(q.id, m.id);
    assert_eq!(q.top.team.persistent_team_id, m.top.team.persistent_team_id);
    assert_eq!(q.bottom.team.persistent_team_id, "other");
    assert_eq!(q.top.team.players.len(), m.top.team.players.len());
    assert!(!q.is_top);
}

#[test]
fn decoding_rejects_garbage() {
    assert!(player_from_json("").is_none());
    assert!(team_from_json("{}").is_none());
    assert!(match_from_json("not a record").is_none());
}

#[test]
fn decoding_rejects_trailing_text() {
    let p = sample_player("alpha");
    let mut text = player_to_json(&p);
    text.push_str("extra");
    assert!(player_from_json(&text).is_none());
}
