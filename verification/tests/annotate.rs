use malovent_automodder::modder::{mod_lines, mod_text};

fn doc(lines: &[&str]) -> Vec<String> {
    lines.iter().map(|s| s.to_string()).collect()
}

#[test]
fn rep_and_comment_ending_tags_in_order() {
    let input = doc(&[
        "menu:",
        "    \"Option A\":",
        "        $ MalO_Rep += 2",
        "        # Good Ending",
    ]);
    let out = mod_lines(&input);
    assert_eq!(out.len(), 4);
    assert_eq!(out[0], "menu:");
    assert_eq!(out[1], "    \"Option A [gr](MalO +2) [red]Good Ending\":");
    assert_eq!(out[2], "        $ MalO_Rep += 2");
    assert_eq!(out[3], "        # Good Ending");
}

#[test]
fn route_comment_above_choice_gives_route_tag() {
    let input = doc(&[
        "menu:",
        "    # Friendly Route",
        "    \"Be nice\":",
        "        pass",
    ]);
    let out = mod_lines(&input);
    assert_eq!(out[1], "    # Friendly Route");
    assert_eq!(out[2], "    \"Be nice [blue]Friendly Route\":");
    assert_eq!(out[3], "        pass");
}

#[test]
fn scene_variable_sets_scene_tag_despite_later_lines() {
    let input = doc(&[
        "menu:",
        "    \"Go upstairs\":",
        "        $ a2_malo_h1 = True",
        "        unrelated narration",
        "        jump somewhere",
    ]);
    let out = mod_lines(&input);
    assert_eq!(out[1], "    \"Go upstairs [pink]Sex Scene\":");
}

#[test]
fn unmatched_scene_variable_sets_no_tag() {
    let input = doc(&[
        "menu:",
        "    \"Go upstairs\":",
        "        $ a2_other_x1 = True",
    ]);
    let out = mod_lines(&input);
    assert_eq!(out[1], "    \"Go upstairs\":");
}

#[test]
fn sibling_choice_ends_sub_block_but_not_menu() {
    let input = doc(&[
        "menu:",
        "    \"A\":",
        "        $ MalO_Rep += 1",
        "    \"B\":",
        "        $ MalO_Rep -= 1",
        "outside",
    ]);
    let out = mod_lines(&input);
    assert_eq!(out[1], "    \"A [gr](MalO +1)\":");
    assert_eq!(out[3], "    \"B [red](MalO -1)\":");
    assert_eq!(out[5], "outside");
}

#[test]
fn lines_outside_menus_are_untouched() {
    let input = doc(&[
        "label start:",
        "    \"not a menu choice\":",
        "    jump good_end",
        "menu:",
        "    narration inside menu",
        "done",
    ]);
    let out = mod_lines(&input);
    assert_eq!(out, input);
}

#[test]
fn naming_assignment_switches_to_placeholder_name() {
    let input = doc(&[
        "menu:",
        "    \"Before\":",
        "        $ MalO_Rep += 1",
        "persistent.malOname = player_name",
        "menu:",
        "    \"After\":",
        "        $ MalO_Rep += 1",
    ]);
    let out = mod_lines(&input);
    assert_eq!(out[1], "    \"Before [gr](MalO +1)\":");
    assert_eq!(out[5], "    \"After [gr]([malOname] +1)\":");
}

#[test]
fn naming_line_inside_menu_does_not_close_it() {
    let input = doc(&[
        "menu:",
        "    \"E\":",
        "        $ MalO_Rep += 1",
        "persistent.malOname = x",
        "    \"F\":",
        "        $ MalO_Rep -= 1",
    ]);
    let out = mod_lines(&input);
    assert_eq!(out[1], "    \"E [gr](MalO +1)\":");
    assert_eq!(out[3], "persistent.malOname = x");
    assert_eq!(out[4], "    \"F [red]([malOname] -1)\":");
}

#[test]
fn closing_line_may_open_the_next_menu() {
    let input = doc(&[
        "menu:",
        "    \"first\":",
        "menu:",
        "    \"second\":",
        "        $ MalO_Rep += 1",
    ]);
    let out = mod_lines(&input);
    assert_eq!(out[1], "    \"first\":");
    assert_eq!(out[2], "menu:");
    assert_eq!(out[3], "    \"second [gr](MalO +1)\":");
}

#[test]
fn blank_line_does_not_end_the_variable_cluster() {
    let input = doc(&[
        "menu:",
        "    \"D\":",
        "",
        "        $ MalO_Rep += 3",
    ]);
    let out = mod_lines(&input);
    assert_eq!(out[1], "    \"D [gr](MalO +3)\":");
}

#[test]
fn fixed_assignments_give_ending_and_route_labels() {
    let input = doc(&[
        "menu:",
        "    \"stay\":",
        "        $ a3_si_zellen = True",
        "    \"drive\":",
        "        $ a3_GTA_MalOd = True",
    ]);
    let out = mod_lines(&input);
    assert_eq!(out[1], "    \"stay [gold]Caged Ending\":");
    assert_eq!(out[3], "    \"drive [blue]Possible Bad Ending\":");
}

#[test]
fn route_comment_takes_priority_over_in_block_override() {
    let input = doc(&[
        "menu:",
        "    # Friendly Route",
        "    \"both\":",
        "        $ a3_GTA_MalOd = True",
    ]);
    let out = mod_lines(&input);
    assert_eq!(out[2], "    \"both [blue]Friendly Route\":");
}

#[test]
fn scene_check_and_jump_ending_after_cluster() {
    let input = doc(&[
        "menu:",
        "    \"C\":",
        "        narration first",
        "        if persistent.hscene_on:",
        "            jump good_end",
    ]);
    let out = mod_lines(&input);
    assert_eq!(out[1], "    \"C [pink]Sex Scene [gold]Good Ending\":");
}

#[test]
fn rep_decrease_inside_cluster() {
    let input = doc(&[
        "menu:",
        "    \"rude\":",
        "        # this leads to a bad end",
        "        $ MalO_Rep -= 5",
    ]);
    let out = mod_lines(&input);
    assert_eq!(out[1], "    \"rude [red](MalO -5) [red]Bad Ending\":");
}

#[test]
fn line_count_is_always_preserved() {
    let input = doc(&[
        "menu:",
        "    \"A\":",
        "        $ MalO_Rep += 1",
        "text",
        "",
        "menu:",
        "    \"B\":",
    ]);
    let out = mod_lines(&input);
    assert_eq!(out.len(), input.len());
}

#[test]
fn empty_document_stays_empty() {
    let input: Vec<String> = Vec::new();
    let out = mod_lines(&input);
    assert!(out.is_empty());
}

#[test]
fn mod_text_is_deterministic() {
    let original = "menu:\n    # Friendly Route\n    \"Be nice\":\n        $ MalO_Rep += 2\n";
    let first = mod_text(original);
    let second = mod_text(original);
    assert_eq!(first, second);
    assert_eq!(
        first,
        "menu:\n    # Friendly Route\n    \"Be nice [gr](MalO +2) [blue]Friendly Route\":\n        $ MalO_Rep += 2\n"
    );
}

#[test]
fn mod_text_guarantees_trailing_newline() {
    assert_eq!(mod_text("plain text"), "plain text\n");
    assert_eq!(mod_text(""), "\n");
}

#[test]
fn mod_text_normalizes_crlf() {
    assert_eq!(mod_text("a\r\nb\r\n"), "a\nb\n");
}
