use malovent_automodder::document::{join_lines, split_lines};
use malovent_automodder::modder::{
    format_choice, get_details, get_ending, get_route_divergence, normalize_route_name,
    ChoiceDetails, Ending, HScene, RepChange,
};
use malovent_automodder::text::count_leading_spaces;

#[test]
fn counts_leading_whitespace() {
    assert_eq!(count_leading_spaces(""), 0);
    assert_eq!(count_leading_spaces("abc"), 0);
    assert_eq!(count_leading_spaces("    abc"), 4);
    assert_eq!(count_leading_spaces("\t x"), 2);
    assert_eq!(count_leading_spaces("   "), 3);
}

#[test]
fn classifies_jump_endings() {
    assert_eq!(
        get_ending("    jump Act_2_Coomer_End"),
        Some(Ending::BadEnding("Ending 3?".to_string()))
    );
    assert_eq!(
        get_ending("jump bye_bye_MalO"),
        Some(Ending::GoodEnding("True Ending".to_string()))
    );
    assert_eq!(
        get_ending("jump a2_good_end"),
        Some(Ending::GoodEnding("Good Ending".to_string()))
    );
    assert_eq!(get_ending("jump somewhere_else"), None);
}

#[test]
fn normalizes_known_route_names() {
    assert_eq!(
        normalize_route_name("Coomer/Waifu Route"),
        Some("Coomer/Waifu Route".to_string())
    );
    assert_eq!(normalize_route_name("Ignore Route"), Some("end?".to_string()));
    assert_eq!(
        normalize_route_name("The Si-Won divergence from the Coom track"),
        Some("Divergence from the Coomer track".to_string())
    );
    assert_eq!(
        normalize_route_name("Locks you into the coomer route for real. No going back!"),
        Some("Locks you into the coomer route".to_string())
    );
    assert_eq!(normalize_route_name("Some Unknown Route"), None);
}

#[test]
fn resolves_route_comments() {
    assert_eq!(
        get_route_divergence("    # Friendly Route"),
        Some("Friendly Route".to_string())
    );
    // not a comment
    assert_eq!(get_route_divergence("    Friendly Route"), None);
    // a comment that speaks of neither a route nor a track
    assert_eq!(get_route_divergence("# Friendly Detour"), None);
    // the route/track test is case-insensitive, the table lookup is not
    assert_eq!(get_route_divergence("# FRIENDLY ROUTE"), None);
    assert_eq!(get_route_divergence("# the Coom track, but unknown text"), None);
}

#[test]
fn extracts_details_from_a_sub_block() {
    let lines: Vec<String> = vec![
        "        $ MalO_Rep += 2".to_string(),
        "        # no Bad End here, just words".to_string(),
        "    back out".to_string(),
        "        $ MalO_Rep -= 9".to_string(),
    ];
    let d = get_details(&lines, 0, 4);
    assert_eq!(d.malo_rep_change, Some(RepChange::Increase("2".to_string())));
    assert_eq!(d.bad_ending, Some("Bad Ending".to_string()));
    assert_eq!(d.ending, None);
    assert_eq!(d.route_divergence, None);
    assert_eq!(d.h_scene, HScene::NoScene);
}

#[test]
fn formats_a_choice_with_every_tag() {
    let details = ChoiceDetails::new(
        HScene::Immediate,
        Some(RepChange::Increase("2".to_string())),
        Some("Bad Ending".to_string()),
        Some("Good Ending".to_string()),
        None,
    );
    let formatted = format_choice(
        "\"Do it\":",
        details,
        false,
        Some("Friendly Route".to_string()),
        4,
    );
    assert_eq!(
        formatted,
        "    \"Do it [gr](MalO +2) [pink]Sex Scene [red]Bad Ending [blue]Friendly Route [gold]Good Ending\":"
    );
}

#[test]
fn formats_with_placeholder_name_once_named() {
    let details = ChoiceDetails::new(
        HScene::NoScene,
        Some(RepChange::Decrease("3".to_string())),
        None,
        None,
        None,
    );
    let formatted = format_choice("\"Snub her\":", details, true, None, 8);
    assert_eq!(formatted, "        \"Snub her [red]([malOname] -3)\":");
}

#[test]
fn splits_and_joins_lines() {
    let lines = split_lines("a\nb\r\nc");
    assert_eq!(lines, vec!["a".to_string(), "b".to_string(), "c".to_string()]);
    assert_eq!(split_lines(""), Vec::<String>::new());
    assert_eq!(split_lines("x\n"), vec!["x".to_string()]);
    assert_eq!(join_lines(&lines), "a\nb\nc\n");
    assert_eq!(join_lines(&Vec::new()), "\n");
}
