use bse::color::Color;
use bse::sync::state::ConnectionState;
use bse::ui::command_palette::{filter, palette_frame, Command, CommandPaletteState, PaletteInput};
use bse::ui::info::AppInfo;
use bse::ui::pen_options::{default_palette, ColorSwatch};
use bse::ui::status_bar::{connection_pill, ConnectionStatus};
use bse::ui::theme::{start_hot_reload, PillTone, ThemeMode};

fn cmd(id: &'static str, title: &str) -> Command {
    Command::new(id, title)
}

#[test]
fn empty_query_returns_all() {
    let cs = vec![cmd("a", "Foo"), cmd("b", "Bar")];
    assert_eq!(filter(&cs, "").len(), 2);
}

#[test]
fn substring_match() {
    let cs = vec![cmd("a", "Sign out"), cmd("b", "Switch room")];
    let out = filter(&cs, "sign");
    assert_eq!(out.len(), 1);
    assert_eq!(out[0].id, "a");
}

#[test]
fn title_start_outranks_substring() {
    let cs = vec![cmd("a", "Open settings"), cmd("b", "Settings export")];
    let out = filter(&cs, "set");
    assert_eq!(out[0].id, "b", "title-start match should rank first");
}

#[test]
fn blank_query_keeps_original_order() {
    let cs = vec![cmd("a", "Zeta"), cmd("b", "Alpha"), cmd("c", "Mid")];
    let out = filter(&cs, "   \t");
    let ids: Vec<&str> = out.iter().map(|c| c.id).collect();
    assert_eq!(ids, vec!["a", "b", "c"]);
}

#[test]
fn ranking_is_case_insensitive_and_stable() {
    // Same score (same length, no start, same word-prefix) : original order kept.
    let cs = vec![
        cmd("x", "Go PEN"),
        cmd("y", "Up pen"),
        cmd("z", "Nothing"),
    ];
    let out = filter(&cs, "Pen");
    let ids: Vec<&str> = out.iter().map(|c| c.id).collect();
    assert_eq!(ids, vec!["x", "y"]);
}

#[test]
fn shorter_titles_win_ties() {
    let cs = vec![cmd("long", "Export as image file"), cmd("short", "Export")];
    let out = filter(&cs, "export");
    let ids: Vec<&str> = out.iter().map(|c| c.id).collect();
    assert_eq!(ids, vec!["short", "long"]);
}

#[test]
fn word_prefix_outranks_inner_substring() {
    // "tool" starts a word in the first title, is inside a word in the second.
    let cs = vec![cmd("inner", "Mytools"), cmd("word", "My tools")];
    let out = filter(&cs, "tool");
    let ids: Vec<&str> = out.iter().map(|c| c.id).collect();
    assert_eq!(ids, vec!["word", "inner"]);
}

#[test]
fn query_with_spaces_matches_substring_only() {
    let cs = vec![cmd("a", "Sign out now")];
    let out = filter(&cs, "n o");
    assert_eq!(out.len(), 1);
    let none = filter(&cs, "out  now");
    assert!(none.is_empty());
}

#[test]
fn command_builders_set_fields() {
    let c = Command::new("pen", "Switch to Pen")
        .with_icon("P")
        .with_hint("Ctrl+P")
        .with_category("Tool");
    assert_eq!(c.id, "pen");
    assert_eq!(c.title, "Switch to Pen");
    assert_eq!(c.icon, Some("P"));
    assert_eq!(c.hint.as_deref(), Some("Ctrl+P"));
    assert_eq!(c.category, Some("Tool"));
    let plain = Command::new("x", "X");
    assert!(plain.hint.is_none() && plain.icon.is_none() && plain.category.is_none());
}

#[test]
fn palette_open_close_reset_state() {
    let mut s = CommandPaletteState::default();
    assert!(!s.open);
    s.query.push_str("abc");
    s.highlight = 3;
    s.open();
    assert!(s.open);
    assert!(s.query.is_empty());
    assert_eq!(s.highlight, 0);
    s.query.push_str("x");
    s.highlight = 2;
    s.close();
    assert!(!s.open);
    assert!(s.query.is_empty());
    assert_eq!(s.highlight, 0);
}

#[test]
fn palette_navigation_wraps() {
    let mut s = CommandPaletteState::default();
    s.highlight = 7;
    s.clamp_highlight(3);
    assert_eq!(s.highlight, 2);
    s.highlight_next(3);
    assert_eq!(s.highlight, 0);
    s.highlight_prev(3);
    assert_eq!(s.highlight, 2);
    s.highlight_prev(3);
    assert_eq!(s.highlight, 1);
    s.highlight_next(3);
    assert_eq!(s.highlight, 2);
    s.clamp_highlight(0);
    assert_eq!(s.highlight, 0);
    s.highlight_next(0);
    assert_eq!(s.highlight, 0);
}

#[test]
fn app_title_format() {
    let info = AppInfo { name: "BSE", version: "0.0.2", milestone: "v002" };
    assert_eq!(info.title(), "BSE 0.0.2 — v002");
}

#[test]
fn swatches_and_palette() {
    let s = ColorSwatch::new(1, 2, 3);
    assert_eq!((s.r, s.g, s.b), (1, 2, 3));
    let p = default_palette();
    assert_eq!(p.len(), 8);
    assert_eq!(p[3], ColorSwatch::new(0xFF, 0xD0, 0x2F));
}

#[test]
fn connection_pill_texts() {
    assert_eq!(connection_pill(ConnectionStatus::Offline).0, "● Offline");
    assert_eq!(
        connection_pill(ConnectionStatus::Connected).1,
        Color::rgb(0x00, 0xB4, 0x73)
    );
    assert_eq!(connection_pill(ConnectionStatus::Connecting).0, "● Connecting…");
    assert_eq!(connection_pill(ConnectionStatus::Reconnecting).0, "● Reconnecting…");
    assert_eq!(
        ConnectionStatus::from_state(ConnectionState::Reconnecting),
        ConnectionStatus::Reconnecting
    );
    assert_eq!(ConnectionStatus::default(), ConnectionStatus::Offline);
    assert_eq!(ThemeMode::default(), ThemeMode::Light);
}

#[test]
fn hot_reload_stub_does_nothing() {
    let r = start_hot_reload(std::path::PathBuf::from("tokens.ron"), |_: ()| {});
    assert!(r.is_none());
}

#[test]
fn pill_tone_colors_are_tint_and_text() {
    assert_eq!(
        PillTone::Success.colors(),
        (Color::rgba(0x00, 0xB4, 0x73, 40), Color::rgb(0x00, 0x7A, 0x4D))
    );
    assert_eq!(
        PillTone::Brand.colors(),
        (Color::rgb(0xFF, 0xF8, 0xE0), Color::rgb(0x74, 0x60, 0x19))
    );
    assert_eq!(PillTone::Neutral.colors().0.a, 30);
    assert_eq!(PillTone::Error.colors().1, Color::rgb(0xB9, 0x1C, 0x1C));
    assert_eq!(PillTone::Warning.colors().0, Color::rgba(0xE6, 0x9A, 0x00, 50));
}

#[test]
fn shorter_title_wins_equal_flags() {
    let cs = vec![cmd("long", "Export settings now"), cmd("short", "Export settings")];
    let out = filter(&cs, "export");
    assert_eq!(out.len(), 2);
    assert_eq!(out[0].id, "short");
    assert_eq!(out[1].id, "long");
}

#[test]
fn long_title_start_loses_to_short_substring() {
    // A title-start match more than 150 bytes longer no longer outranks a
    // bare substring match.
    let long = format!("set{}", "x".repeat(160));
    let cs = vec![cmd("sub", "Reset"), cmd("start", &long)];
    let out = filter(&cs, "set");
    assert_eq!(out[0].id, "sub");
}

fn no_input() -> PaletteInput {
    PaletteInput {
        escape: false,
        backdrop_clicked: false,
        arrow_down: false,
        arrow_up: false,
        enter: false,
        clicked_row: None,
        edited_query: None,
    }
}

fn open_palette(query: &str, highlight: usize) -> CommandPaletteState {
    CommandPaletteState { open: true, query: query.to_string(), highlight }
}

#[test]
fn palette_frame_closed_ignores_input() {
    let cs = vec![cmd("a", "Foo")];
    let mut st = CommandPaletteState::default();
    let chosen = palette_frame(&mut st, &cs, PaletteInput { enter: true, ..no_input() });
    assert_eq!(chosen, None);
    assert!(!st.open);
}

#[test]
fn palette_frame_escape_closes() {
    let cs = vec![cmd("a", "Foo")];
    let mut st = open_palette("fo", 0);
    let chosen = palette_frame(&mut st, &cs, PaletteInput { escape: true, enter: true, ..no_input() });
    assert_eq!(chosen, None);
    assert!(!st.open);
    assert_eq!(st.query, "");
}

#[test]
fn palette_frame_arrows_then_enter_fire_row() {
    let cs = vec![cmd("a", "Foo"), cmd("b", "Bar"), cmd("c", "Baz")];
    let mut st = open_palette("", 0);
    assert_eq!(palette_frame(&mut st, &cs, PaletteInput { arrow_up: true, ..no_input() }), None);
    assert_eq!(st.highlight, 2);
    assert_eq!(palette_frame(&mut st, &cs, PaletteInput { arrow_down: true, ..no_input() }), None);
    assert_eq!(st.highlight, 0);
    let chosen = palette_frame(&mut st, &cs, PaletteInput { arrow_down: true, enter: true, ..no_input() });
    assert_eq!(chosen, Some("b"));
    assert!(!st.open);
}

#[test]
fn palette_frame_filters_with_query_and_keeps_typing() {
    let cs = vec![cmd("a", "Sign out"), cmd("b", "Switch room")];
    let mut st = open_palette("room", 5);
    let chosen = palette_frame(
        &mut st,
        &cs,
        PaletteInput { edited_query: Some("roo".into()), ..no_input() },
    );
    assert_eq!(chosen, None);
    assert!(st.open);
    assert_eq!(st.highlight, 0);
    assert_eq!(st.query, "roo");
    assert_eq!(palette_frame(&mut st, &cs, PaletteInput { enter: true, ..no_input() }), Some("b"));
}

#[test]
fn palette_frame_last_firing_row_wins() {
    let cs = vec![cmd("a", "Foo"), cmd("b", "Bar"), cmd("c", "Baz")];
    let mut st = open_palette("", 1);
    let chosen = palette_frame(&mut st, &cs, PaletteInput { enter: true, clicked_row: Some(2), ..no_input() });
    assert_eq!(chosen, Some("c"));
    let mut st = open_palette("", 1);
    let chosen = palette_frame(&mut st, &cs, PaletteInput { enter: true, clicked_row: Some(0), ..no_input() });
    assert_eq!(chosen, Some("b"));
    let mut st = open_palette("", 1);
    assert_eq!(palette_frame(&mut st, &cs, PaletteInput { clicked_row: Some(9), ..no_input() }), None);
}

#[test]
fn palette_frame_backdrop_click_closes_before_drawing() {
    let cs = vec![cmd("a", "Foo"), cmd("b", "Bar")];
    let mut st = open_palette("bar", 0);
    assert_eq!(palette_frame(&mut st, &cs, PaletteInput { backdrop_clicked: true, ..no_input() }), None);
    assert!(!st.open);
    assert_eq!(st.query, "");
    // In the same frame the list is drawn unfiltered, so Enter fires row 0.
    let mut st = open_palette("bar", 0);
    let chosen = palette_frame(&mut st, &cs, PaletteInput { backdrop_clicked: true, enter: true, ..no_input() });
    assert_eq!(chosen, Some("a"));
}
