use wahoo::links::{find_stage_id, find_team_id, find_tournament_id, trailing_segment};

#[test]
fn team_link_match() {
    let url = "https://battlefy.com/teams/5bfe1b9418ddd9114f14efb0";
    match find_team_id(url) {
        Some(m) => assert_eq!(m, "5bfe1b9418ddd9114f14efb0"),
        None => panic!("url not matched!"),
    }
}

#[test]
fn team_link_no_match() {
    let url = "https://battlefy.com/teams/totally-fake-url";
    match find_team_id(url) {
        Some(m) => panic!("matched {}", m),
        None => (),
    }
}

#[test]
fn find_stage_id_match() {
    let url = "https://battlefy.com/overwatch-open-division-north-america/2019-overwatch-open-division-practice-season-north-america/5d6fdb02c747ff732da36eb4/stage/5d7b716bb7758c268b771f83/bracket/1";
    match find_stage_id(url) {
        Some(s) => assert_eq!(s, "5d7b716bb7758c268b771f83"),
        None => panic!("no stage id found"),
    }
}

#[test]
fn find_stage_id_no_match() {
    let url = "https://battlefy.com/org/tournament/5d6fdb02c747ff732da36eb4";
    match find_stage_id(url) {
        Some(s) => panic!("stage id matched: {}", s),
        None => (),
    }
}

#[test]
fn team_link_inside_longer_text() {
    let url = "see https://battlefy.com/teams/5bfe1b9418ddd9114f14efb0 for the roster";
    match find_team_id(url) {
        Some(m) => assert_eq!(m, "5bfe1b9418ddd9114f14efb0"),
        None => panic!("url not matched!"),
    }
}

#[test]
fn tournament_id_from_bracket_link() {
    let url = "https://battlefy.com/overwatch-open-division-north-america/2019-overwatch-open-division-practice-season-north-america/5d6fdb02c747ff732da36eb4/stage/5d7b716bb7758c268b771f83/bracket/1";
    match find_tournament_id(url) {
        Some(t) => assert_eq!(t, "5d6fdb02c747ff732da36eb4"),
        None => panic!("no tournament id found"),
    }
}

#[test]
fn tournament_id_absent_without_stage_path() {
    let url = "https://battlefy.com/org/tournament/5d6fdb02c747ff732da36eb4";
    assert!(find_tournament_id(url).is_none());
}

#[test]
fn trailing_segment_takes_text_after_last_slash() {
    assert_eq!(trailing_segment("a/b/c"), Some("c"));
    assert_eq!(trailing_segment("ends/with/"), Some(""));
    assert_eq!(trailing_segment("noslash"), None);
}
