use wahoo::profile::{parse_battletag, parse_role, parse_sr, player_from_html, Role};

fn test_document() -> &'static str {
    "<html><body>\
     <h1>heckoffnerd<small>#1772</small></h1>\
     <div class=\"player-skill-rating\">2770</div>\
     <div data-portable=\"roles\"><table><tbody class=\"stripe-rows\">\
     <tr><td class=\"color-white\">Tank</td><td>52%</td></tr>\
     <tr><td class=\"color-white\">Support</td><td>48%</td></tr>\
     </tbody></table></div>\
     </body></html>"
}

fn missing_info_document() -> &'static str {
    "<html><body><h1>Tucker<small>#1475</small></h1></body></html>"
}

fn competitive_document() -> &'static str {
    "<html><body>\
     <h1>Ichi<small>#21148</small></h1>\
     <div class=\"player-skill-rating\"> 4692 </div>\
     <div data-portable=\"roles\"><table><tbody class=\"stripe-rows\">\
     <tr><td class=\"color-white\">Tank</td></tr>\
     </tbody></table></div>\
     </body></html>"
}

#[test]
fn test_parse_battletag() {
    let document = test_document();
    match parse_battletag(document) {
        Some(s) => assert_eq!(s, "heckoffnerd#1772"),
        None => panic!("error parsing battletag"),
    }
}

#[test]
fn test_parse_sr() {
    let document = test_document();
    match parse_sr(document) {
        Some(i) => assert_eq!(i, 2770),
        None => panic!("unable to parse sr"),
    }
}

#[test]
fn parse_sr_missing() {
    let document = missing_info_document();
    if let Some(i) = parse_sr(document) {
        panic!("parsed sr: {}", i);
    }
}

#[test]
fn parse_sr_competitive() {
    let document = competitive_document();
    match parse_sr(document) {
        Some(i) => assert_eq!(i, 4692),
        None => panic!("unable to parse sr"),
    }
}

#[test]
fn test_parse_role() {
    let document = test_document();
    match parse_role(document) {
        Role::Tank => (),
        _ => panic!("wrong role"),
    }
}

#[test]
fn parse_role_missing() {
    let document = missing_info_document();
    match parse_role(document) {
        Role::Unknown => (),
        _ => panic!("parsed a role"),
    }
}

#[test]
fn parse_role_competitive() {
    let document = competitive_document();
    let role = parse_role(document);
    match role {
        Role::Tank => (),
        Role::Unknown => panic!("no role parsed"),
        _ => panic!("wrong role parsed"),
    }
}

#[test]
fn parse_battletag_needs_both_parts() {
    let document = "<html><body><h1>nameonly</h1></body></html>";
    assert!(parse_battletag(document).is_none());
}

#[test]
fn parse_sr_non_numeric_is_absent() {
    let document =
        "<html><body><div class=\"player-skill-rating\">Private Profile</div></body></html>";
    assert!(parse_sr(document).is_none());
}

#[test]
fn parse_role_unrecognised_text() {
    let document = "<html><body>\
        <div data-portable=\"roles\"><table><tbody class=\"stripe-rows\">\
        <tr><td class=\"color-white\">Flex</td></tr>\
        </tbody></table></div></body></html>";
    match parse_role(document) {
        Role::Unknown => (),
        _ => panic!("unrecognised text must degrade to no role"),
    }
}

#[test]
fn player_from_html_maps_missing_rating_to_sentinel() {
    let p = player_from_html("Tucker#1475", missing_info_document());
    assert_eq!(p.battletag, "Tucker#1475");
    assert_eq!(p.sr, 0);
    match p.role {
        Role::Unknown => (),
        _ => panic!("expected no role"),
    }
}

#[test]
fn player_from_html_full_profile() {
    let p = player_from_html("heckoffnerd#1772", test_document());
    assert_eq!(p.battletag, "heckoffnerd#1772");
    assert_eq!(p.sr, 2770);
    match p.role {
        Role::Tank => (),
        _ => panic!("expected a tank"),
    }
}
