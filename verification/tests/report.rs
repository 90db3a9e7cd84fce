use wahoo::bracket::Team;
use wahoo::profile::{Player, Role};
use wahoo::report::{build_report, rating_display, role_icon, sort_by_rating, team_url, top_average};

fn rated(tag: &str, sr: u16) -> Player {
    Player { battletag: String::from(tag), sr, role: Role::Unknown }
}

#[test]
fn top_six_average_of_eight() {
    // eight rated players; the top six by rating are 4500..2000
    let players = vec![
        rated("a", 1000),
        rated("b", 2000),
        rated("c", 3000),
        rated("d", 4000),
        rated("e", 500),
        rated("f", 2500),
        rated("g", 3500),
        rated("h", 4500),
    ];
    let sorted = sort_by_rating(players);
    let avg = top_average(&sorted).expect("an average");
    // floor((4500 + 4000 + 3500 + 3000 + 2500 + 2000) / 6)
    assert_eq!(avg, 3250);
}

#[test]
fn top_average_empty_roster_has_none() {
    let sorted = sort_by_rating(Vec::new());
    assert_eq!(top_average(&sorted), None);
}

#[test]
fn top_average_small_roster_divides_by_count() {
    let sorted = sort_by_rating(vec![rated("a", 100), rated("b", 201)]);
    // floor((201 + 100) / 2)
    assert_eq!(top_average(&sorted), Some(150));
}

#[test]
fn sort_is_descending_and_stable() {
    let players = vec![
        rated("first", 2000),
        rated("second", 3000),
        rated("third", 2000),
        rated("fourth", 1000),
    ];
    let sorted = sort_by_rating(players);
    let tags: Vec<&str> = sorted.iter().map(|p| p.battletag.as_str()).collect();
    assert_eq!(tags, vec!["second", "first", "third", "fourth"]);
}

#[test]
fn build_report_assembles_header_and_average() {
    let mut team: Team = Default::default();
    team.persistent_team_id = String::from("5bfe1b9418ddd9114f14efb0");
    team.persistent_team.name = String::from("wahoo");
    team.persistent_team.logo_url = String::from("http://logo");
    let players = vec![rated("a", 2000), rated("b", 3000)];
    let report = build_report(&team, players);
    assert_eq!(report.team_name, "wahoo");
    assert_eq!(report.team_url, "https://battlefy.com/teams/5bfe1b9418ddd9114f14efb0");
    assert_eq!(report.logo_url, "http://logo");
    assert_eq!(report.players.len(), 2);
    assert_eq!(report.players[0].battletag, "b");
    assert_eq!(report.top_average, Some(2500));
}

#[test]
fn build_report_empty_roster() {
    let team: Team = Default::default();
    let report = build_report(&team, Vec::new());
    assert!(report.players.is_empty());
    assert_eq!(report.top_average, None);
}

#[test]
fn team_url_appends_pid() {
    assert_eq!(team_url("abc"), "https://battlefy.com/teams/abc");
}

#[test]
fn role_icons() {
    assert_eq!(role_icon(&Role::Unknown), ":grey_question:");
    assert_eq!(role_icon(&Role::Tank), ":shield:");
    assert_eq!(role_icon(&Role::Offense), ":crossed_swords:");
    assert_eq!(role_icon(&Role::Support), ":ambulance:");
    assert_eq!(role_icon(&Role::Defense), ":crossed_swords:");
}

#[test]
fn rating_display_shows_number_or_placeholder() {
    assert_eq!(rating_display(2770), "2770");
    assert_eq!(rating_display(0), ":grey_question:");
}
