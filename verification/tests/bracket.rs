use wahoo::bracket::{find_match, Match, Player, SearchResult, Team};

fn team_with_pid(pid: &str) -> Team {
    let mut t: Team = Default::default();
    t.persistent_team_id = String::from(pid);
    t
}

fn match_between(id: &str, top_pid: &str, bottom_pid: &str) -> Match {
    let mut m: Match = Default::default();
    m.id = String::from(id);
    m.top.team = team_with_pid(top_pid);
    m.bottom.team = team_with_pid(bottom_pid);
    m
}

fn round_matches() -> Vec<Match> {
    vec![
        match_between("5e15cb20fba5985c0a8b6b00", "aaaaaaaaaaaaaaaaaaaaaaaa", "bbbbbbbbbbbbbbbbbbbbbbbb"),
        match_between("5e15cb20fba5985c0a8b6b7a", "5bfe1b9418ddd9114f14efb0", "cccccccccccccccccccccccc"),
        match_between("5e15cb20fba5985c0a8b6b99", "dddddddddddddddddddddddd", "5bfe1b9418ddd9114f14efb0"),
    ]
}

#[test]
fn find_match_success() {
    let mut matches = round_matches();

    let team_id = "5bfe1b9418ddd9114f14efb0";
    let match_id = String::from("5e15cb20fba5985c0a8b6b7a");
    match find_match(&mut matches, team_id) {
        Some(m) => assert_eq!(m.id, match_id),
        None => panic!("error finding match"),
    }
    assert_eq!(matches.len(), 2);
}

#[test]
fn find_match_no_id() {
    let mut matches = round_matches();

    match find_match(&mut matches, "") {
        Some(m) => panic!("found match with id {}", m.id),
        None => (),
    }
    assert_eq!(matches.len(), 3);
}

#[test]
fn find_match_no_result() {
    let mut matches = round_matches();

    match find_match(&mut matches, "test") {
        Some(m) => panic!("found match with id {}", m.id),
        None => (),
    }
    assert_eq!(matches.len(), 3);
}

#[test]
fn match_has_team() {
    let mut m: Match = Default::default();
    m.top.team.persistent_team_id = String::from("1");
    m.bottom.team.persistent_team_id = String::from("2");

    assert!(m.has_team("1"));
    assert!(m.is_top);
}

#[test]
fn match_has_team_bottom() {
    let mut m: Match = Default::default();
    m.top.team.persistent_team_id = String::from("1");
    m.bottom.team.persistent_team_id = String::from("2");

    assert!(m.has_team("2"));
    assert!(!m.is_top);
}

#[test]
fn match_has_team_absent() {
    let mut m: Match = Default::default();
    m.top.team.persistent_team_id = String::from("1");
    m.bottom.team.persistent_team_id = String::from("2");

    assert!(!m.has_team("3"));
}

#[test]
fn battletag() {
    let mut player: Player = Default::default();
    player.ign = String::from("test#1234");
    assert_eq!(player.battletag(), Some("test#1234"));
}

#[test]
fn battletag_bnet() {
    let mut player: Player = Default::default();
    player.user.accounts.battlenet.battletag = String::from("test#1234");
    assert_eq!(player.battletag(), Some("test#1234"));
}

#[test]
fn battletag_missing() {
    let player: Player = Default::default();
    assert_eq!(player.battletag(), None);
}

#[test]
fn battletag_prefers_in_game_name() {
    let mut player: Player = Default::default();
    player.ign = String::from("main#1111");
    player.user.accounts.battlenet.battletag = String::from("linked#2222");
    assert_eq!(player.battletag(), Some("main#1111"));
}

#[test]
fn classify_no_teams() {
    match wahoo::bracket::classify_teams(Vec::new()) {
        SearchResult::NoMatch => (),
        _ => panic!("expected no teams"),
    }
}

#[test]
fn classify_one_team() {
    let teams = vec![team_with_pid("only")];
    match wahoo::bracket::classify_teams(teams) {
        SearchResult::Team(t) => assert_eq!(t.pid(), "only"),
        _ => panic!("expected exactly one team"),
    }
}

#[test]
fn classify_many_teams() {
    let teams = vec![team_with_pid("a"), team_with_pid("b")];
    match wahoo::bracket::classify_teams(teams) {
        SearchResult::Teams(ts) => assert_eq!(ts.len(), 2),
        _ => panic!("expected the full list back"),
    }
}

#[test]
fn pick_opponent_needs_exactly_one() {
    assert!(wahoo::bracket::pick_opponent(Vec::new(), true).is_none());
    let two = vec![
        match_between("m1", "1", "2"),
        match_between("m2", "1", "2"),
    ];
    assert!(wahoo::bracket::pick_opponent(two, true).is_none());
}

#[test]
fn pick_opponent_takes_other_side() {
    let one = vec![match_between("m1", "1", "2")];
    let opp = wahoo::bracket::pick_opponent(one, true).expect("opponent");
    assert_eq!(opp.pid(), "2");

    let one = vec![match_between("m1", "1", "2")];
    let opp = wahoo::bracket::pick_opponent(one, false).expect("opponent");
    assert_eq!(opp.pid(), "1");
}

#[test]
fn roster_battletags_filters() {
    let mut a: Player = Default::default();
    a.ign = String::from("a#1");
    let b: Player = Default::default();
    let mut c: Player = Default::default();
    c.user.accounts.battlenet.battletag = String::from("c#3");
    let tags = wahoo::bracket::roster_battletags(&vec![a, b, c]);
    assert_eq!(tags, vec![String::from("a#1"), String::from("c#3")]);
}

#[test]
fn team_getters() {
    let mut t: Team = Default::default();
    t.persistent_team_id = String::from("pid");
    t.persistent_team.name = String::from("the team");
    t.persistent_team.logo_url = String::from("http://logo");
    assert_eq!(t.pid(), "pid");
    assert_eq!(t.name(), "the team");
    assert_eq!(t.logo_url(), "http://logo");
}
