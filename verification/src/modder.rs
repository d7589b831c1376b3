//! The annotation engine proper: menu-block tracking, metadata
//! extraction for each choice, route-comment resolution, and the choice
//! formatter. The whole pass is specified by `annotate_spec` over the
//! document's lines, seen as sequences of characters.

use vstd::prelude::*;

use crate::text::{
    count_leading_spaces, find_char, find_from, has_prefix, has_substr, has_suffix,
    lemma_find_from_bounds, lower_seq, repeat_spaces, spaces, str_contains, str_contains_lower,
    str_ends_with, str_eq, str_starts_with, trim_of, trim_spec, ws_prefix_len,
};

verus! {

/// Declares `std::io::Error` so that `ModderError` can carry it; the
/// value is opaque here, nothing about it is assumed.
#[verifier::external_type_specification]
#[verifier::external_body]
pub struct ExIoError(std::io::Error);

/// The one error the engine's surroundings can surface: a failed read,
/// write or backup copy of the document. The engine itself never fails;
/// heuristic misses degrade silently to an absent annotation.
pub enum ModderError {
    IoError(std::io::Error),
}

/// A change of the player's reputation with MalO, with the textual
/// amount taken from the assignment line.
#[derive(Debug, PartialEq, Eq)]
pub enum RepChange {
    Increase(String),
    Decrease(String),
}

/// An ending a choice was classified as leading to, with its display label.
#[derive(Debug, PartialEq, Eq)]
pub enum Ending {
    BadEnding(String),
    GoodEnding(String),
}

/// Whether a choice was classified as leading to a special scene.
#[derive(Debug, PartialEq, Eq, Clone, Copy)]
pub enum HScene {
    NoScene,
    Immediate,
    Later,
}

/// The metadata inferred for one choice line from its sub-block and the
/// comment above it; built once per choice and discarded after formatting.
#[derive(Debug, PartialEq, Eq)]
pub struct ChoiceDetails {
    pub h_scene: HScene,
    pub malo_rep_change: Option<RepChange>,
    pub bad_ending: Option<String>,
    pub ending: Option<String>,
    pub route_divergence: Option<String>,
}

/// Mathematical image of `RepChange`.
pub ghost enum RepChangeView {
    Increase(Seq<char>),
    Decrease(Seq<char>),
}

/// Mathematical image of `Ending`.
pub ghost enum EndingView {
    BadEnding(Seq<char>),
    GoodEnding(Seq<char>),
}

/// Mathematical image of `ChoiceDetails`.
pub ghost struct DetailsView {
    pub h_scene: HScene,
    pub malo_rep_change: Option<RepChangeView>,
    pub bad_ending: Option<Seq<char>>,
    pub ending: Option<Seq<char>>,
    pub route_divergence: Option<Seq<char>>,
}

impl View for RepChange {
    type V = RepChangeView;

    open spec fn view(&self) -> RepChangeView {
        match self {
            RepChange::Increase(s) => RepChangeView::Increase(s@),
            RepChange::Decrease(s) => RepChangeView::Decrease(s@),
        }
    }
}

impl View for Ending {
    type V = EndingView;

    open spec fn view(&self) -> EndingView {
        match self {
            Ending::BadEnding(s) => EndingView::BadEnding(s@),
            Ending::GoodEnding(s) => EndingView::GoodEnding(s@),
        }
    }
}

/// View of an optional string as an optional character sequence.
pub open spec fn opt_str_view(o: Option<String>) -> Option<Seq<char>> {
    match o {
        Some(s) => Some(s@),
        None => None,
    }
}

/// View of an optional reputation change.
pub open spec fn opt_rep_view(o: Option<RepChange>) -> Option<RepChangeView> {
    match o {
        Some(r) => Some(r@),
        None => None,
    }
}

/// View of an optional ending classification.
pub open spec fn opt_ending_view(o: Option<Ending>) -> Option<EndingView> {
    match o {
        Some(e) => Some(e@),
        None => None,
    }
}

impl View for ChoiceDetails {
    type V = DetailsView;

    open spec fn view(&self) -> DetailsView {
        DetailsView {
            h_scene: self.h_scene,
            malo_rep_change: opt_rep_view(self.malo_rep_change),
            bad_ending: opt_str_view(self.bad_ending),
            ending: opt_str_view(self.ending),
            route_divergence: opt_str_view(self.route_divergence),
        }
    }
}

impl ChoiceDetails {
    /// Bundles the extracted fields into one record.
    pub fn new(
        h_scene: HScene,
        malo_rep_change: Option<RepChange>,
        bad_ending: Option<String>,
        ending: Option<String>,
        route_divergence: Option<String>,
    ) -> (r: Self)
        ensures
            r.h_scene == h_scene,
            r.malo_rep_change == malo_rep_change,
            r.bad_ending == bad_ending,
            r.ending == ending,
            r.route_divergence == route_divergence,
    {
        ChoiceDetails { h_scene, malo_rep_change, bad_ending, ending, route_divergence }
    }
}

/// What a trimmed `jump` line is classified as: fixed substring checks,
/// first match wins.
pub open spec fn ending_spec(line: Seq<char>) -> Option<EndingView> {
    let t = trim_spec(line);
    if has_substr(t, "Act_2_Coomer_End"@) {
        Some(EndingView::BadEnding("Ending 3?"@))
    } else if has_substr(t, "bye_bye_MalO"@) {
        Some(EndingView::GoodEnding("True Ending"@))
    } else if has_substr(t, "good_end"@) {
        Some(EndingView::GoodEnding("Good Ending"@))
    } else {
        None
    }
}

/// Classifies a jump line as leading to an ending, if any.
pub fn get_ending(line: &str) -> (r: Option<Ending>)
    ensures
        opt_ending_view(r) == ending_spec(line@),
{
    let t = trim_of(line);
    if str_contains(t, "Act_2_Coomer_End") {
        Some(Ending::BadEnding(String::from_str("Ending 3?")))
    } else if str_contains(t, "bye_bye_MalO") {
        Some(Ending::GoodEnding(String::from_str("True Ending")))
    } else if str_contains(t, "good_end") {
        Some(Ending::GoodEnding(String::from_str("Good Ending")))
    } else {
        None
    }
}

/// The fixed table from recognized route-comment text to display label.
pub open spec fn normalize_spec(name: Seq<char>) -> Option<Seq<char>> {
    if name == "Coomer/Waifu Route"@ {
        Some("Coomer/Waifu Route"@)
    } else if name == "Friendly Route"@ {
        Some("Friendly Route"@)
    } else if name == "Ignore Route"@ {
        Some("end?"@)
    } else if name == "The Friendly, non-advancing route"@ {
        Some("The Friendly, non-advancing route"@)
    } else if name == "The Si-Won divergence from the Coom track"@ {
        Some("Divergence from the Coomer track"@)
    } else if name == "Locks you into the coomer route for real. No going back!"@ {
        Some("Locks you into the coomer route"@)
    } else {
        None
    }
}

/// Looks the literal route-comment text up in the fixed table;
/// unrecognized text yields no label, deliberately and silently.
pub fn normalize_route_name(route_name: &str) -> (r: Option<String>)
    ensures
        opt_str_view(r) == normalize_spec(route_name@),
{
    if str_eq(route_name, "Coomer/Waifu Route") {
        Some(String::from_str("Coomer/Waifu Route"))
    } else if str_eq(route_name, "Friendly Route") {
        Some(String::from_str("Friendly Route"))
    } else if str_eq(route_name, "Ignore Route") {
        Some(String::from_str("end?"))
    } else if str_eq(route_name, "The Friendly, non-advancing route") {
        Some(String::from_str("The Friendly, non-advancing route"))
    } else if str_eq(route_name, "The Si-Won divergence from the Coom track") {
        Some(String::from_str("Divergence from the Coomer track"))
    } else if str_eq(route_name, "Locks you into the coomer route for real. No going back!") {
        Some(String::from_str("Locks you into the coomer route"))
    } else {
        None
    }
}

/// What the line above a choice resolves to: a route label when it is a
/// comment that speaks of a route or track and its text is in the table.
pub open spec fn route_div_spec(line: Seq<char>) -> Option<Seq<char>> {
    let t = trim_spec(line);
    if has_prefix(t, "#"@) && (has_substr(lower_seq(t), "route"@) || has_substr(
        lower_seq(t),
        "track"@,
    )) {
        normalize_spec(trim_spec(t.subrange(1, t.len() as int)))
    } else {
        None
    }
}

/// Resolves the line preceding a choice to a route label, if it is a
/// recognized route-divergence comment.
pub fn get_route_divergence(line: &str) -> (r: Option<String>)
    ensures
        opt_str_view(r) == route_div_spec(line@),
{
    let t = trim_of(line);
    if str_starts_with(t, "#") {
        if str_contains_lower(t, "route") || str_contains_lower(t, "track") {
            proof {
                reveal_strlit("#");
            }
            let rest = t.substring_char(1, t.unicode_len());
            let name = trim_of(rest);
            normalize_route_name(name)
        } else {
            None
        }
    } else {
        None
    }
}

/// One ASCII decimal digit.
pub open spec fn is_digit(c: char) -> bool {
    c == '0' || c == '1' || c == '2' || c == '3' || c == '4' || c == '5' || c == '6' || c == '7'
        || c == '8' || c == '9'
}

/// A scene-variable token of the shape `a<digit>_<mid>_h<digit>` occurs
/// in `s` at position `i`, for a given middle word.
pub open spec fn h_token_at(s: Seq<char>, i: int, mid: Seq<char>) -> bool {
    &&& 0 <= i
    &&& i + 6 + mid.len() <= s.len()
    &&& s[i] == 'a'
    &&& is_digit(s[i + 1])
    &&& s[i + 2] == '_'
    &&& s.subrange(i + 3, i + 3 + mid.len()) == mid
    &&& s[i + 3 + mid.len()] == '_'
    &&& s[i + 4 + mid.len()] == 'h'
    &&& is_digit(s[i + 5 + mid.len()])
}

/// `s` holds a scene-variable token `a<digit>_(malo|si|zellen)_h<digit>`.
pub open spec fn h_pattern_match(s: Seq<char>) -> bool {
    exists|i: int|
        h_token_at(s, i, "malo"@) || h_token_at(s, i, "si"@) || h_token_at(s, i, "zellen"@)
}

/// Relies on `regex::Regex::is_match` with the fixed pattern
/// `a[0-9]_(?:malo|si|zellen)_h[0-9]`: it returns true exactly when the
/// haystack holds a substring of that shape. The pattern is ASCII-only,
/// so a byte-level occurrence in the UTF-8 text and a character-level
/// occurrence coincide. `regex::Regex::new` cannot fail on this fixed,
/// well-formed pattern.
#[verifier::external_body]
fn matches_h_pattern(line: &str) -> (r: bool)
    ensures
        r == h_pattern_match(line@),
{
    regex::Regex::new("a[0-9]_(?:malo|si|zellen)_h[0-9]").unwrap().is_match(line)
}

/// The text between the first `=` of `s` and the next `=` (or the end);
/// empty when `s` has no `=`. This is where an assignment's amount sits.
pub open spec fn after_first_eq(s: Seq<char>) -> Seq<char> {
    let i = find_from(s, 0, '=');
    if i == s.len() {
        Seq::empty()
    } else {
        s.subrange(i + 1, find_from(s, i + 1, '='))
    }
}

/// Exec extraction of the text after the first `=`.
fn split_after_eq<'a>(s: &'a str) -> (r: &'a str)
    ensures
        r@ == after_first_eq(s@),
{
    let len = s.unicode_len();
    proof {
        lemma_find_from_bounds(s@, 0, '=');
    }
    let j = find_char(s, 0, '=');
    if j == len {
        let r = s.substring_char(0, 0);
        proof {
            assert(r@ =~= after_first_eq(s@));
        }
        r
    } else {
        proof {
            lemma_find_from_bounds(s@, j + 1, '=');
        }
        let k = find_char(s, j + 1, '=');
        s.substring_char(j + 1, k)
    }
}

/// The extractor's running state: the metadata gathered so far, and
/// whether the scan is still in the leading variable/comment cluster.
pub ghost struct ScanState {
    pub in_vars: bool,
    pub d: DetailsView,
}

/// The extractor's starting state: no metadata, still in the cluster.
pub open spec fn initial_scan() -> ScanState {
    ScanState {
        in_vars: true,
        d: DetailsView {
            h_scene: HScene::NoScene,
            malo_rep_change: None,
            bad_ending: None,
            ending: None,
            route_divergence: None,
        },
    }
}

/// Classification of one trimmed line inside a choice's sub-block,
/// mirroring the priority-ordered heuristics: comments may set a
/// bad-ending label; statement lines may set a reputation change, the
/// scene flag, or a fixed ending or route label; the first line that is
/// non-empty, no comment and no statement ends the cluster; after that,
/// only the scene-flag check and jump-line classification apply.
pub open spec fn scan_step(st: ScanState, cleaned: Seq<char>) -> ScanState {
    if st.in_vars {
        if has_prefix(cleaned, "#"@) {
            if has_substr(cleaned, "Ending"@) {
                ScanState {
                    d: DetailsView {
                        bad_ending: Some(trim_spec(cleaned.subrange(1, cleaned.len() as int))),
                        ..st.d
                    },
                    ..st
                }
            } else if has_substr(cleaned, "bad end"@) || has_substr(cleaned, "Bad End"@) {
                ScanState { d: DetailsView { bad_ending: Some("Bad Ending"@), ..st.d }, ..st }
            } else {
                st
            }
        } else if has_prefix(cleaned, "$"@) {
            if has_substr(cleaned, "MalO_Rep"@) {
                if has_substr(cleaned, "+="@) {
                    ScanState {
                        d: DetailsView {
                            malo_rep_change: Some(
                                RepChangeView::Increase(trim_spec(after_first_eq(cleaned))),
                            ),
                            ..st.d
                        },
                        ..st
                    }
                } else if has_substr(cleaned, "-="@) {
                    ScanState {
                        d: DetailsView {
                            malo_rep_change: Some(
                                RepChangeView::Decrease(trim_spec(after_first_eq(cleaned))),
                            ),
                            ..st.d
                        },
                        ..st
                    }
                } else {
                    st
                }
            } else if h_pattern_match(cleaned) {
                ScanState { d: DetailsView { h_scene: HScene::Immediate, ..st.d }, ..st }
            } else if has_substr(cleaned, "a3_si_zellen = True"@) {
                ScanState { d: DetailsView { ending: Some("Caged Ending"@), ..st.d }, ..st }
            } else if has_substr(cleaned, "a3_helped_zellen = False"@) {
                st
            } else if has_substr(cleaned, "a3_GTA_MalOd = True"@) {
                ScanState {
                    d: DetailsView { route_divergence: Some("Possible Bad Ending"@), ..st.d },
                    ..st
                }
            } else if has_substr(cleaned, "label bye_bye_MalO:"@) {
                ScanState { d: DetailsView { ending: Some("True Ending"@), ..st.d }, ..st }
            } else {
                st
            }
        } else if cleaned.len() == 0 {
            st
        } else {
            ScanState { in_vars: false, ..st }
        }
    } else if has_substr(cleaned, "persistent.hscene_on"@) {
        ScanState { d: DetailsView { h_scene: HScene::Immediate, ..st.d }, ..st }
    } else if has_prefix(cleaned, "jump"@) {
        match ending_spec(cleaned) {
            Some(EndingView::BadEnding(e)) => ScanState {
                d: DetailsView { bad_ending: Some(e), ..st.d },
                ..st
            },
            Some(EndingView::GoodEnding(e)) => ScanState {
                d: DetailsView { ending: Some(e), ..st.d },
                ..st
            },
            None => st,
        }
    } else {
        st
    }
}

/// The metadata accumulated by scanning lines from `j` on, inside the
/// sub-block of a choice at indentation `n`: the scan stops, without
/// error, at the first non-empty line whose indentation is at most `n`;
/// blank lines are skipped, not treated as the block's end.
pub open spec fn details_from(lines: Seq<Seq<char>>, j: int, n: int, st: ScanState) -> DetailsView
    decreases lines.len() - j,
{
    if j < 0 || j >= lines.len() {
        st.d
    } else {
        let cleaned = trim_spec(lines[j]);
        if ws_prefix_len(lines[j]) <= n && cleaned.len() != 0 {
            st.d
        } else {
            details_from(lines, j + 1, n, scan_step(st, cleaned))
        }
    }
}

/// The metadata record for a choice at indentation `n` whose sub-block
/// starts at line `start`.
pub open spec fn details_spec(lines: Seq<Seq<char>>, start: int, n: int) -> DetailsView {
    details_from(lines, start, n, initial_scan())
}

/// The extractor's state, assembled from the exec scan variables.
spec fn mk_scan(
    iv: bool,
    h: HScene,
    rep: Option<RepChange>,
    bad: Option<String>,
    endl: Option<String>,
    route: Option<String>,
) -> ScanState {
    ScanState {
        in_vars: iv,
        d: DetailsView {
            h_scene: h,
            malo_rep_change: opt_rep_view(rep),
            bad_ending: opt_str_view(bad),
            ending: opt_str_view(endl),
            route_divergence: opt_str_view(route),
        },
    }
}

/// Scans the lines following a choice line (from `start`) for the
/// choice's metadata; `indent_size` is the choice's own indentation.
pub fn get_details(lines: &Vec<String>, start: usize, indent_size: usize) -> (r: ChoiceDetails)
    ensures
        r@ == details_spec(lines.deep_view(), start as int, indent_size as int),
{
    let ghost dv: Seq<Seq<char>> = lines.deep_view();
    let n_lines = lines.len();
    let mut j = if start > n_lines {
        n_lines
    } else {
        start
    };
    let mut in_vars = true;
    let mut h_v = HScene::NoScene;
    let mut rep_v: Option<RepChange> = None;
    let mut bad_v: Option<String> = None;
    let mut ending_v: Option<String> = None;
    let mut route_v: Option<String> = None;
    while j < n_lines
        invariant
            j <= n_lines,
            n_lines == lines@.len(),
            dv == lines.deep_view(),
            details_spec(dv, start as int, indent_size as int) == details_from(
                dv,
                j as int,
                indent_size as int,
                mk_scan(in_vars, h_v, rep_v, bad_v, ending_v, route_v),
            ),
        ensures
            details_spec(dv, start as int, indent_size as int) == mk_scan(
                in_vars,
                h_v,
                rep_v,
                bad_v,
                ending_v,
                route_v,
            ).d,
        decreases n_lines - j,
    {
        let ghost st0 = mk_scan(in_vars, h_v, rep_v, bad_v, ending_v, route_v);
        let line: &String = &lines[j];
        proof {
            assert(dv[j as int] == line@);
        }
        let cleaned = trim_of(line.as_str());
        let leading = count_leading_spaces(line.as_str());
        if leading <= indent_size && !cleaned.is_empty() {
            break ;
        }
        if in_vars {
            if str_starts_with(cleaned, "#") {
                if str_contains(cleaned, "Ending") {
                    proof {
                        reveal_strlit("#");
                    }
                    let rest = cleaned.substring_char(1, cleaned.unicode_len());
                    bad_v = Some(String::from_str(trim_of(rest)));
                } else if str_contains(cleaned, "bad end") || str_contains(cleaned, "Bad End") {
                    bad_v = Some(String::from_str("Bad Ending"));
                }
            } else if str_starts_with(cleaned, "$") {
                if str_contains(cleaned, "MalO_Rep") {
                    if str_contains(cleaned, "+=") {
                        let amount = String::from_str(trim_of(split_after_eq(cleaned)));
                        rep_v = Some(RepChange::Increase(amount));
                    } else if str_contains(cleaned, "-=") {
                        let amount = String::from_str(trim_of(split_after_eq(cleaned)));
                        rep_v = Some(RepChange::Decrease(amount));
                    }
                } else if matches_h_pattern(cleaned) {
                    h_v = HScene::Immediate;
                } else if str_contains(cleaned, "a3_si_zellen = True") {
                    ending_v = Some(String::from_str("Caged Ending"));
                } else if str_contains(cleaned, "a3_helped_zellen = False") {
                    // recognized, deliberately without an effect
                } else if str_contains(cleaned, "a3_GTA_MalOd = True") {
                    route_v = Some(String::from_str("Possible Bad Ending"));
                } else if str_contains(cleaned, "label bye_bye_MalO:") {
                    ending_v = Some(String::from_str("True Ending"));
                }
            } else if cleaned.unicode_len() == 0 {
                // a blank line is skipped, not treated as the cluster's end
            } else {
                in_vars = false;
            }
        } else if str_contains(cleaned, "persistent.hscene_on") {
            h_v = HScene::Immediate;
        } else if str_starts_with(cleaned, "jump") {
            match get_ending(cleaned) {
                Some(Ending::BadEnding(e)) => bad_v = Some(e),
                Some(Ending::GoodEnding(e)) => ending_v = Some(e),
                None => {},
            }
        }
        proof {
            assert(mk_scan(in_vars, h_v, rep_v, bad_v, ending_v, route_v) == scan_step(
                st0,
                trim_spec(dv[j as int]),
            ));
        }
        j = j + 1;
    }
    ChoiceDetails::new(h_v, rep_v, bad_v, ending_v, route_v)
}

/// The reputation tag appended for a choice, if any: the display name is
/// the `[malOname]` placeholder once the player-facing name has been
/// assigned, the literal name before that.
pub open spec fn rep_tag(rep: Option<RepChangeView>, named: bool) -> Seq<char> {
    match rep {
        None => Seq::empty(),
        Some(RepChangeView::Increase(v)) => (if named {
            " [gr]([malOname] +"@
        } else {
            " [gr](MalO +"@
        }) + v + ")"@,
        Some(RepChangeView::Decrease(v)) => (if named {
            " [red]([malOname] -"@
        } else {
            " [red](MalO -"@
        }) + v + ")"@,
    }
}

/// The scene tag appended for a choice, if any.
pub open spec fn scene_tag(h: HScene) -> Seq<char> {
    match h {
        HScene::NoScene => Seq::empty(),
        HScene::Immediate => " [pink]Sex Scene"@,
        HScene::Later => " [pink]Sex Scene Later"@,
    }
}

/// A prefixed tag for an optional label; empty when the label is absent.
pub open spec fn opt_tag(prefix: Seq<char>, o: Option<Seq<char>>) -> Seq<char> {
    match o {
        Some(v) => prefix + v,
        None => Seq::empty(),
    }
}

/// The route tag. The label resolved from the comment preceding the
/// choice takes priority; the label set by an in-block assignment is the
/// fallback. The precedence is fixed this way round so that an explicit
/// route-divergence comment always shows.
pub open spec fn route_tag(comment: Option<Seq<char>>, in_block: Option<Seq<char>>) -> Seq<char> {
    match comment {
        Some(v) => " [blue]"@ + v,
        None => opt_tag(" [blue]"@, in_block),
    }
}

/// The rewritten choice line: original indentation, the choice text with
/// its terminator stripped, then in fixed order the reputation, scene,
/// bad-ending, route and ending tags, each only if present, and the
/// terminator re-appended.
pub open spec fn format_spec(
    choice: Seq<char>,
    d: DetailsView,
    named: bool,
    route_name: Option<Seq<char>>,
    indent: int,
) -> Seq<char> {
    spaces(indent) + choice.subrange(0, choice.len() - 2) + rep_tag(d.malo_rep_change, named)
        + scene_tag(d.h_scene) + opt_tag(" [red]"@, d.bad_ending) + route_tag(
        route_name,
        d.route_divergence,
    ) + opt_tag(" [gold]"@, d.ending) + "\":"@
}

/// Composes the annotated display line for one choice. `choice` is the
/// trimmed choice line, still carrying the `":` terminator; `indent_size`
/// is its original indentation, which the result restores.
pub fn format_choice(
    choice: &str,
    choice_details: ChoiceDetails,
    named_malo: bool,
    route_name: Option<String>,
    indent_size: usize,
) -> (r: String)
    requires
        has_suffix(choice@, "\":"@),
    ensures
        r@ == format_spec(
            choice@,
            choice_details@,
            named_malo,
            opt_str_view(route_name),
            indent_size as int,
        ),
{
    proof {
        reveal_strlit("\":");
    }
    let len = choice.unicode_len();
    let base = choice.substring_char(0, len - 2);
    let mut out = repeat_spaces(indent_size);
    out.append(base);
    let ghost p1: Seq<char> = spaces(indent_size as int) + choice@.subrange(
        0,
        choice@.len() - 2,
    );
    proof {
        assert(out@ =~= p1);
    }
    match &choice_details.malo_rep_change {
        Some(RepChange::Increase(v)) => {
            out.append(if named_malo { " [gr]([malOname] +" } else { " [gr](MalO +" });
            out.append(v.as_str());
            out.append(")");
        },
        Some(RepChange::Decrease(v)) => {
            out.append(if named_malo { " [red]([malOname] -" } else { " [red](MalO -" });
            out.append(v.as_str());
            out.append(")");
        },
        None => {},
    }
    let ghost p2: Seq<char> = p1 + rep_tag(choice_details@.malo_rep_change, named_malo);
    proof {
        assert(out@ =~= p2);
    }
    match choice_details.h_scene {
        HScene::NoScene => {},
        HScene::Immediate => out.append(" [pink]Sex Scene"),
        HScene::Later => out.append(" [pink]Sex Scene Later"),
    }
    let ghost p3: Seq<char> = p2 + scene_tag(choice_details@.h_scene);
    proof {
        assert(out@ =~= p3);
    }
    match &choice_details.bad_ending {
        Some(v) => {
            out.append(" [red]");
            out.append(v.as_str());
        },
        None => {},
    }
    let ghost p4: Seq<char> = p3 + opt_tag(" [red]"@, choice_details@.bad_ending);
    proof {
        assert(out@ =~= p4);
    }
    match &route_name {
        Some(v) => {
            out.append(" [blue]");
            out.append(v.as_str());
        },
        None => {
            match &choice_details.route_divergence {
                Some(v) => {
                    out.append(" [blue]");
                    out.append(v.as_str());
                },
                None => {},
            }
        },
    }
    let ghost p5: Seq<char> = p4 + route_tag(
        opt_str_view(route_name),
        choice_details@.route_divergence,
    );
    proof {
        assert(out@ =~= p5);
    }
    match &choice_details.ending {
        Some(v) => {
            out.append(" [gold]");
            out.append(v.as_str());
        },
        None => {},
    }
    let ghost p6: Seq<char> = p5 + opt_tag(" [gold]"@, choice_details@.ending);
    proof {
        assert(out@ =~= p6);
    }
    out.append("\":");
    proof {
        assert(out@ =~= format_spec(
            choice@,
            choice_details@,
            named_malo,
            opt_str_view(route_name),
            indent_size as int,
        ));
    }
    out
}

/// The block tracker's running state: the opening indentation of the
/// active menu block, if any, and whether the player-facing name has
/// been assigned yet.
pub ghost struct PassState {
    pub menu: Option<int>,
    pub named: bool,
}

/// The tracker's starting state: outside any menu, name not assigned.
pub open spec fn initial_pass() -> PassState {
    PassState { menu: None, named: false }
}

/// The line that assigns the player-facing name; once seen, the
/// formatter uses the placeholder name for the rest of the document.
pub open spec fn is_naming_line(cleaned: Seq<char>) -> bool {
    has_prefix(cleaned, "persistent.malOname = "@)
}

/// The tracker's transition for one line. A naming line only sets the
/// flag. Otherwise: a line at or under the active menu's opening
/// indentation closes the block and is itself reconsidered as a fresh
/// menu opener; outside a menu, a line whose trimmed text starts with
/// the menu-opening token opens a block at its own indentation.
pub open spec fn step_state(lines: Seq<Seq<char>>, i: int, st: PassState) -> PassState {
    let cleaned = trim_spec(lines[i]);
    if is_naming_line(cleaned) {
        PassState { named: true, ..st }
    } else {
        let ind = ws_prefix_len(lines[i]);
        let opened = if has_prefix(cleaned, "menu:"@) {
            Some(ind)
        } else {
            None
        };
        match st.menu {
            Some(m) => if ind <= m {
                PassState { menu: opened, ..st }
            } else {
                st
            },
            None => PassState { menu: opened, ..st },
        }
    }
}

/// The tracker's state when line `i` is reached.
pub open spec fn state_at(lines: Seq<Seq<char>>, i: int) -> PassState
    decreases i,
{
    if i <= 0 {
        initial_pass()
    } else {
        step_state(lines, i - 1, state_at(lines, i - 1))
    }
}

/// Line `i` is emitted as a choice: inside an active menu block, deeper
/// than its opening indentation, trimmed text ending with the choice
/// terminator, and not a naming line.
pub open spec fn is_choice_at(lines: Seq<Seq<char>>, i: int, st: PassState) -> bool {
    let cleaned = trim_spec(lines[i]);
    &&& !is_naming_line(cleaned)
    &&& st.menu is Some
    &&& ws_prefix_len(lines[i]) > st.menu->0
    &&& has_suffix(cleaned, "\":"@)
}

/// What the pass writes for line `i` in state `st`: choice lines are
/// reformatted from their metadata and the comment above them; every
/// other line is kept exactly.
pub open spec fn out_line(lines: Seq<Seq<char>>, i: int, st: PassState) -> Seq<char> {
    if is_choice_at(lines, i, st) {
        let ind = ws_prefix_len(lines[i]);
        let route = if i >= 1 {
            route_div_spec(lines[i - 1])
        } else {
            None
        };
        format_spec(
            trim_spec(lines[i]),
            details_spec(lines, i + 1, ind),
            st.named,
            route,
            ind,
        )
    } else {
        lines[i]
    }
}

/// The rewritten document from line `i` on, starting in state `st`.
pub open spec fn annotate_from(lines: Seq<Seq<char>>, i: int, st: PassState) -> Seq<Seq<char>>
    decreases lines.len() - i,
{
    if i < 0 || i >= lines.len() {
        Seq::empty()
    } else {
        seq![out_line(lines, i, st)] + annotate_from(lines, i + 1, step_state(lines, i, st))
    }
}

/// The whole rewritten document: one forward pass from the start.
pub open spec fn annotate_spec(lines: Seq<Seq<char>>) -> Seq<Seq<char>> {
    annotate_from(lines, 0, initial_pass())
}

/// Rewrites a document, given as its lines: every choice line of every
/// menu block is replaced by its annotated form, every other line is
/// kept; the line count never changes.
pub fn mod_lines(lines: &Vec<String>) -> (out: Vec<String>)
    ensures
        out.deep_view() == annotate_spec(lines.deep_view()),
        out@.len() == lines@.len(),
{
    let ghost dv: Seq<Seq<char>> = lines.deep_view();
    proof {
        lemma_annotate_from_len(dv, 0, initial_pass());
    }
    let n_lines = lines.len();
    let mut out: Vec<String> = Vec::new();
    let mut menu: Option<usize> = None;
    let mut named = false;
    let mut i: usize = 0;
    while i < n_lines
        invariant
            0 <= i <= n_lines,
            n_lines == lines@.len(),
            dv == lines.deep_view(),
            out@.len() == i,
            menu is Some ==> i >= 1,
            mk_pass(menu, named) == state_at(dv, i as int),
            annotate_spec(dv) == out.deep_view() + annotate_from(
                dv,
                i as int,
                mk_pass(menu, named),
            ),
        decreases n_lines - i,
    {
        let ghost st0 = mk_pass(menu, named);
        let ghost out0 = out.deep_view();
        let line: &String = &lines[i];
        proof {
            assert(dv[i as int] == line@);
        }
        let cleaned = trim_of(line.as_str());
        if str_starts_with(cleaned, "persistent.malOname = ") {
            named = true;
            out.push(line.clone());
        } else {
            let leading = count_leading_spaces(line.as_str());
            match menu {
                Some(m) => {
                    if leading <= m {
                        menu = if str_starts_with(cleaned, "menu:") {
                            Some(leading)
                        } else {
                            None
                        };
                        out.push(line.clone());
                    } else if str_ends_with(cleaned, "\":") {
                        let route = get_route_divergence(lines[i - 1].as_str());
                        let details = get_details(lines, i + 1, leading);
                        let formatted = format_choice(cleaned, details, named, route, leading);
                        out.push(formatted);
                    } else {
                        out.push(line.clone());
                    }
                },
                None => {
                    if str_starts_with(cleaned, "menu:") {
                        menu = Some(leading);
                    }
                    out.push(line.clone());
                },
            }
        }
        proof {
            assert(mk_pass(menu, named) == step_state(dv, i as int, st0));
            assert(out@.len() == i + 1);
            assert(out@[i as int]@ == out_line(dv, i as int, st0));
            assert(out.deep_view() =~= out0 + seq![out_line(dv, i as int, st0)]);
            assert(annotate_from(dv, i as int, st0) == seq![out_line(dv, i as int, st0)]
                + annotate_from(dv, i as int + 1, step_state(dv, i as int, st0)));
            assert(out0 + annotate_from(dv, i as int, st0) =~= out.deep_view() + annotate_from(
                dv,
                i as int + 1,
                mk_pass(menu, named),
            ));
        }
        i = i + 1;
    }
    proof {
        assert(annotate_spec(dv) =~= out.deep_view());
    }
    out
}

/// The whole rewrite on a document's text: split into lines, annotate
/// every choice, rejoin with a trailing newline guaranteed.
pub open spec fn mod_text_spec(contents: Seq<char>) -> Seq<char> {
    crate::document::join_lines_spec(annotate_spec(crate::document::split_lines_spec(contents)))
}

/// Rewrites a whole document given as text. This is the entire compute
/// path; reading the file, the backup copy and the final write are the
/// caller's business.
pub fn mod_text(contents: &str) -> (r: String)
    ensures
        r@ == mod_text_spec(contents@),
{
    let lines = crate::document::split_lines(contents);
    let rewritten = mod_lines(&lines);
    crate::document::join_lines(&rewritten)
}

/// The tracker's state, assembled from the exec pass variables.
spec fn mk_pass(menu: Option<usize>, named: bool) -> PassState {
    PassState {
        menu: match menu {
            Some(m) => Some(m as int),
            None => None,
        },
        named,
    }
}

/// The rewritten document has exactly one line per input line.
pub proof fn lemma_annotate_from_len(lines: Seq<Seq<char>>, i: int, st: PassState)
    ensures
        0 <= i <= lines.len() ==> annotate_from(lines, i, st).len() == lines.len() - i,
    decreases lines.len() - i,
{
    if 0 <= i < lines.len() {
        lemma_annotate_from_len(lines, i + 1, step_state(lines, i, st));
    }
}

/// Law: for every document, the rewritten output has exactly as many
/// lines as the input.
pub proof fn lemma_line_count_preserved(lines: Seq<Seq<char>>)
    ensures
        annotate_spec(lines).len() == lines.len(),
{
    lemma_annotate_from_len(lines, 0, initial_pass());
}

proof fn lemma_annotate_at_from(lines: Seq<Seq<char>>, j: int, i: int)
    requires
        0 <= j <= i < lines.len(),
    ensures
        annotate_from(lines, j, state_at(lines, j))[i - j] == out_line(
            lines,
            i,
            state_at(lines, i),
        ),
    decreases i - j,
{
    lemma_annotate_from_len(lines, j + 1, step_state(lines, j, state_at(lines, j)));
    if j < i {
        assert(state_at(lines, j + 1) == step_state(lines, j, state_at(lines, j)));
        lemma_annotate_at_from(lines, j + 1, i);
    }
}

/// Each output line is a function of its own line, its neighbours, and
/// the tracker's state when it is reached.
pub proof fn lemma_annotate_at(lines: Seq<Seq<char>>, i: int)
    requires
        0 <= i < lines.len(),
    ensures
        annotate_spec(lines)[i] == out_line(lines, i, state_at(lines, i)),
{
    lemma_annotate_at_from(lines, 0, i);
}

/// Law: any line reached outside a menu block is kept exactly.
pub proof fn lemma_outside_menu_unchanged(lines: Seq<Seq<char>>, i: int)
    requires
        0 <= i < lines.len(),
        state_at(lines, i).menu is None,
    ensures
        annotate_spec(lines)[i] == lines[i],
{
    lemma_annotate_at(lines, i);
}

/// Law: more generally, every line that is not emitted as a choice — a
/// naming line, a menu opener, a closing line, narration inside a block —
/// is kept exactly.
pub proof fn lemma_non_choice_unchanged(lines: Seq<Seq<char>>, i: int)
    requires
        0 <= i < lines.len(),
        !is_choice_at(lines, i, state_at(lines, i)),
    ensures
        annotate_spec(lines)[i] == lines[i],
{
    lemma_annotate_at(lines, i);
}

/// Law: a menu block closes exactly when a line's indentation is at most
/// the opening indentation, and only then; a deeper line, choice or not,
/// leaves the block open. The closing line itself may open a new block.
/// (A naming line is consumed before the tracker looks at it, hence the
/// exclusion here.)
pub proof fn lemma_menu_scope(lines: Seq<Seq<char>>, i: int, m: int)
    requires
        0 <= i,
        state_at(lines, i).menu == Some(m),
        !is_naming_line(trim_spec(lines[i])),
    ensures
        ws_prefix_len(lines[i]) > m ==> state_at(lines, i + 1).menu == Some(m),
        ws_prefix_len(lines[i]) <= m ==> state_at(lines, i + 1).menu == (if has_prefix(
            trim_spec(lines[i]),
            "menu:"@,
        ) {
            Some(ws_prefix_len(lines[i]))
        } else {
            None::<int>
        }),
{
    assert(state_at(lines, i + 1) == step_state(lines, i, state_at(lines, i)));
}

/// Law: a non-empty line at or under a choice's own indentation ends
/// that choice's metadata scan on the spot. Together with
/// `lemma_menu_scope`, a line at a nested choice's indentation ends the
/// choice's scan while the enclosing menu block, opened shallower, stays
/// open.
pub proof fn lemma_subblock_ends(lines: Seq<Seq<char>>, j: int, c: int, st: ScanState)
    requires
        0 <= j < lines.len(),
        ws_prefix_len(lines[j]) <= c,
        trim_spec(lines[j]).len() != 0,
    ensures
        details_from(lines, j, c, st) == st.d,
{
}

/// Law: the scene flag is monotonic. Once some line of a choice's
/// sub-block has set it, no later line of the same scan unsets it,
/// whatever the later lines hold.
pub proof fn lemma_scene_flag_monotone(lines: Seq<Seq<char>>, j: int, n: int, st: ScanState)
    requires
        st.d.h_scene == HScene::Immediate,
    ensures
        details_from(lines, j, n, st).h_scene == HScene::Immediate,
    decreases lines.len() - j,
{
    if 0 <= j < lines.len() {
        let cleaned = trim_spec(lines[j]);
        if !(ws_prefix_len(lines[j]) <= n && cleaned.len() != 0) {
            assert(scan_step(st, cleaned).d.h_scene == HScene::Immediate);
            lemma_scene_flag_monotone(lines, j + 1, n, scan_step(st, cleaned));
        }
    }
}

/// The naming line sets the flag for the very next line.
pub proof fn lemma_naming_line_sets_flag(lines: Seq<Seq<char>>, i: int)
    requires
        0 <= i,
        is_naming_line(trim_spec(lines[i])),
    ensures
        state_at(lines, i + 1).named,
{
    assert(state_at(lines, i + 1) == step_state(lines, i, state_at(lines, i)));
}

/// Law: the naming flag is never reset; once set it holds for the whole
/// rest of the pass.
pub proof fn lemma_naming_monotone(lines: Seq<Seq<char>>, i: int, j: int)
    requires
        0 <= i <= j,
        state_at(lines, i).named,
    ensures
        state_at(lines, j).named,
    decreases j - i,
{
    if i < j {
        assert(state_at(lines, i + 1) == step_state(lines, i, state_at(lines, i)));
        lemma_naming_monotone(lines, i + 1, j);
    }
}

/// Law: once the naming-assignment line has been seen anywhere in the
/// document, every subsequent choice, in whatever block, is formatted
/// with the naming flag set, so its reputation tag uses the placeholder
/// name.
pub proof fn lemma_placeholder_after_naming(lines: Seq<Seq<char>>, i: int, j: int)
    requires
        0 <= i < j < lines.len(),
        is_naming_line(trim_spec(lines[i])),
        is_choice_at(lines, j, state_at(lines, j)),
    ensures
        annotate_spec(lines)[j] == format_spec(
            trim_spec(lines[j]),
            details_spec(lines, j + 1, ws_prefix_len(lines[j])),
            true,
            route_div_spec(lines[j - 1]),
            ws_prefix_len(lines[j]),
        ),
{
    lemma_naming_line_sets_flag(lines, i);
    lemma_naming_monotone(lines, i + 1, j);
    lemma_annotate_at(lines, j);
}

} // verus!
