use codex_local::area::Area;
use codex_local::canvas::{buffer_is_sound, text_is_drawable};
use codex_local::mention::{
    build_line, file_name_start, name_spans, MentionType, SearchResult, Selection, TypeLabel,
};
use codex_local::popup::{
    line_count, list_area_of, render_popup, render_rows, try_render_popup, visible_window, Drawn,
    ScrollState, Window,
};
use codex_local::style::{StyledLine, StyledSpan, TextColor, TextStyle, BOLD, DIM, ITALIC};
use ratatui::buffer::Buffer;
use ratatui::layout::Rect;
use ratatui::style::{Color, Modifier};

fn style(color: Option<TextColor>, modifiers: u16) -> TextStyle {
    TextStyle { color, modifiers }
}

fn span(text: &str, color: Option<TextColor>, modifiers: u16) -> StyledSpan {
    StyledSpan { text: text.to_string(), style: style(color, modifiers) }
}

const CYAN: Option<TextColor> = Some(TextColor::Cyan);

fn row(name: &str, matches: Option<Vec<usize>>) -> SearchResult {
    SearchResult {
        display_name: name.to_string(),
        description: None,
        mention_type: MentionType::File,
        label: TypeLabel {
            ordinary: span("F", Some(TextColor::Magenta), 0),
            selected: span("F", Some(TextColor::Magenta), BOLD),
        },
        selection: Selection::File(name.to_string()),
        match_indices: matches,
    }
}

fn tool(name: &str, matches: Option<Vec<usize>>) -> SearchResult {
    SearchResult {
        mention_type: MentionType::Other,
        selection: Selection::Tool { insert_text: name.to_string() },
        ..row(name, matches)
    }
}

#[test]
fn the_file_name_begins_behind_the_last_separator() {
    assert_eq!(file_name_start(&row("src/main.rs", None)), 4);
    assert_eq!(file_name_start(&row("a\\b/c\\d.rs", None)), 6);
    assert_eq!(file_name_start(&row("main.rs", None)), 0);
    assert_eq!(file_name_start(&row("", None)), 0);
    assert_eq!(file_name_start(&row("dir/", None)), 4);
    assert_eq!(file_name_start(&row("\u{e9}\u{e9}/x", None)), 3);
}

#[test]
fn only_files_have_a_file_name() {
    assert_eq!(file_name_start(&tool("a/b", None)), usize::MAX);
    let mut directory = row("a/b", None);
    directory.mention_type = MentionType::Other;
    assert_eq!(file_name_start(&directory), usize::MAX);
    let mut odd = tool("a/b", None);
    odd.mention_type = MentionType::File;
    assert_eq!(file_name_start(&odd), usize::MAX);
}

#[test]
fn a_name_without_matches_is_parted_at_its_file_name() {
    let base = style(None, BOLD);
    assert_eq!(
        name_spans(&row("\u{e9}/main.rs", None), base),
        vec![span("\u{e9}/", None, BOLD), span("main.rs", CYAN, BOLD)]
    );
    assert_eq!(name_spans(&row("main.rs", None), base), vec![span("main.rs", CYAN, BOLD)]);
    assert_eq!(
        name_spans(&row("dir/", None), base),
        vec![span("dir/", None, BOLD), span("", CYAN, BOLD)]
    );
    assert_eq!(name_spans(&tool("a/b", None), base), vec![span("a/b", None, BOLD)]);
}

#[test]
fn matching_characters_are_bold() {
    let base = style(None, 0);
    assert_eq!(
        name_spans(&row("a/bc", Some(vec![0, 3])), base),
        vec![
            span("a", None, BOLD),
            span("/", None, 0),
            span("b", CYAN, 0),
            span("c", CYAN, BOLD),
        ]
    );
    assert_eq!(
        name_spans(&tool("ab", Some(vec![])), base),
        vec![span("a", None, 0), span("b", None, 0)]
    );
    assert_eq!(name_spans(&row("", Some(vec![0])), base), Vec::new());
}

#[test]
fn match_positions_out_of_order_are_not_reached() {
    let base = style(None, 0);
    assert_eq!(
        name_spans(&tool("abc", Some(vec![1, 0, 2])), base),
        vec![span("a", None, 0), span("b", None, BOLD), span("c", None, 0)]
    );
    assert_eq!(
        name_spans(&tool("abc", Some(vec![1, 1, 2])), base),
        vec![span("a", None, 0), span("b", None, BOLD), span("c", None, 0)]
    );
}

#[test]
fn a_line_has_a_label_a_name_and_a_description() {
    let mut candidate = tool("name", None);
    candidate.description = Some("what it does".to_string());
    assert_eq!(
        build_line(&candidate, false).spans,
        vec![
            span("F", Some(TextColor::Magenta), 0),
            span("  ", None, DIM),
            span("name", None, 0),
            span("  ", None, DIM),
            span("what it does", None, DIM),
        ]
    );
    assert_eq!(
        build_line(&candidate, true).spans,
        vec![
            span("F", Some(TextColor::Magenta), BOLD),
            span("  ", None, BOLD),
            span("name", None, BOLD),
            span("  ", None, BOLD),
            span("what it does", None, BOLD),
        ]
    );
    candidate.description = Some(String::new());
    assert_eq!(build_line(&candidate, false).spans.len(), 3);
    candidate.description = None;
    assert_eq!(build_line(&candidate, false).spans.len(), 3);
}

fn text(line: &StyledLine) -> String {
    line.spans.iter().map(|s| s.text.as_str()).collect()
}

#[test]
fn the_spans_of_a_line_spell_its_parts() {
    for candidate in [
        row("a/b/c.rs", None),
        row("a/b/c.rs", Some(vec![2, 4])),
        tool("a/b/c.rs", Some(vec![0])),
        row("a/b/", None),
    ] {
        let expected = format!("F  {}", candidate.display_name);
        assert_eq!(text(&build_line(&candidate, true)), expected);
        assert_eq!(text(&build_line(&candidate, false)), expected);
    }
}

fn state(selected_idx: Option<usize>, scroll_top: usize) -> ScrollState {
    ScrollState { selected_idx, scroll_top }
}

#[test]
fn the_window_follows_the_selection() {
    assert_eq!(visible_window(20, 5, &state(None, 3)), Window { first: 3, room: 5 });
    assert_eq!(visible_window(20, 5, &state(Some(1), 3)), Window { first: 1, room: 5 });
    assert_eq!(visible_window(20, 5, &state(Some(7), 3)), Window { first: 3, room: 5 });
    assert_eq!(visible_window(20, 5, &state(Some(8), 3)), Window { first: 4, room: 5 });
    assert_eq!(visible_window(20, 5, &state(None, 40)), Window { first: 19, room: 5 });
    assert_eq!(visible_window(20, 100, &state(None, 0)), Window { first: 0, room: 8 });
    assert_eq!(visible_window(3, 100, &state(None, 0)), Window { first: 0, room: 3 });
    assert_eq!(visible_window(3, 0, &state(None, 0)), Window { first: 0, room: 1 });
    assert_eq!(visible_window(3, 2, &state(Some(9), 0)), Window { first: 8, room: 2 });
}

#[test]
fn the_selected_row_is_always_in_the_window() {
    for rows in 1..12 {
        for height in 1..12 {
            for top in 0..14 {
                for selected in 0..rows {
                    let window = visible_window(rows, height, &state(Some(selected), top));
                    assert!(window.first <= selected && selected < window.first + window.room);
                }
            }
        }
    }
}

fn whole(line: StyledLine, _width: usize) -> StyledLine {
    line
}

fn lines(buf: &Buffer) -> Vec<String> {
    let area = *buf.area();
    (area.y..area.y + area.height)
        .map(|y| (area.x..area.x + area.width).map(|x| buf[(x, y)].symbol()).collect())
        .collect()
}

#[test]
fn rows_are_drawn_one_below_the_other() {
    let mut buf = Buffer::empty(Rect::new(0, 0, 12, 5));
    let rows = [tool("one", None), tool("two", None), row("x/y", Some(vec![2]))];
    let area = Area { x: 1, y: 1, width: 10, height: 3 };
    render_rows(area, &mut buf, &rows, &state(Some(1), 0), "nothing", &whole);
    assert_eq!(
        lines(&buf),
        vec![
            "            ",
            " F  one     ",
            " F  two     ",
            " F  x/y     ",
            "            ",
        ]
    );
    assert_eq!(buf[(4, 1)].modifier, Modifier::empty());
    assert_eq!(buf[(2, 1)].modifier, Modifier::DIM);
    assert_eq!(buf[(4, 2)].modifier, Modifier::BOLD);
    assert_eq!(buf[(1, 2)].fg, Color::Magenta);
    assert_eq!(buf[(4, 3)].fg, Color::Reset);
    assert_eq!(buf[(6, 3)].fg, Color::Cyan);
    assert_eq!(buf[(6, 3)].modifier, Modifier::BOLD);
}

#[test]
fn rows_are_cut_to_the_width_of_the_area() {
    let mut buf = Buffer::empty(Rect::new(0, 0, 12, 1));
    let rows = [tool("abcdefghijkl", None)];
    let area = Area { x: 0, y: 0, width: 7, height: 1 };
    let cut = |line: StyledLine, width: usize| StyledLine {
        spans: vec![span(&format!("{}:{}", width, text(&line)), None, 0)],
    };
    render_rows(area, &mut buf, &rows, &state(None, 0), "nothing", &cut);
    assert_eq!(lines(&buf), vec!["7:F  ab     "]);
}

#[test]
fn the_message_stands_where_there_are_no_rows() {
    let mut buf = Buffer::empty(Rect::new(0, 0, 10, 3));
    let area = Area { x: 1, y: 1, width: 8, height: 2 };
    render_rows(area, &mut buf, &[], &state(None, 0), "nothing", &whole);
    assert_eq!(lines(&buf), vec!["          ", " nothing  ", "          "]);
    assert_eq!(buf[(1, 1)].modifier, Modifier::ITALIC);
    assert_eq!(ITALIC, Modifier::ITALIC.bits());
    assert_eq!(BOLD, Modifier::BOLD.bits());
    assert_eq!(DIM, Modifier::DIM.bits());
}

#[test]
fn nothing_is_drawn_without_height() {
    let mut buf = Buffer::empty(Rect::new(0, 0, 10, 3));
    let area = Area { x: 0, y: 0, width: 10, height: 0 };
    render_rows(area, &mut buf, &[tool("one", None)], &state(None, 0), "nothing", &whole);
    render_rows(area, &mut buf, &[], &state(None, 0), "nothing", &whole);
    assert_eq!(buf, Buffer::empty(Rect::new(0, 0, 10, 3)));
}

#[test]
fn a_stale_selection_shows_no_rows() {
    let mut buf = Buffer::empty(Rect::new(0, 0, 10, 3));
    let area = Area { x: 0, y: 0, width: 10, height: 3 };
    render_rows(area, &mut buf, &[tool("one", None)], &state(Some(9), 0), "nothing", &whole);
    assert_eq!(buf, Buffer::empty(Rect::new(0, 0, 10, 3)));
}

#[test]
fn a_high_popup_keeps_its_lowest_row_for_the_footer() {
    let mut buf = Buffer::empty(Rect::new(0, 0, 12, 5));
    let rows = [tool("one", None), tool("two", None), tool("three", None)];
    let area = Area { x: 0, y: 0, width: 12, height: 4 };
    let hint = render_popup(area, &mut buf, &rows, &state(None, 0), "nothing", &whole);
    assert_eq!(hint, Some(Area { x: 2, y: 3, width: 10, height: 1 }));
    assert_eq!(
        lines(&buf),
        vec![
            "  F  one    ",
            "  F  two    ",
            "            ",
            "            ",
            "            ",
        ]
    );
}

#[test]
fn a_low_popup_has_no_footer() {
    let mut buf = Buffer::empty(Rect::new(0, 0, 12, 3));
    let rows = [tool("one", None), tool("two", None), tool("three", None)];
    let area = Area { x: 0, y: 0, width: 12, height: 2 };
    let hint = render_popup(area, &mut buf, &rows, &state(Some(2), 0), "nothing", &whole);
    assert_eq!(hint, None);
    assert_eq!(lines(&buf), vec!["  F  two    ", "  F  three  ", "            "]);
}

#[test]
fn a_narrow_popup_has_an_empty_footer() {
    let mut buf = Buffer::empty(Rect::new(0, 0, 4, 4));
    let area = Area { x: 0, y: 0, width: 1, height: 4 };
    let drawn = try_render_popup(area, &mut buf, &[], &state(None, 0), "nothing", &whole);
    assert_eq!(drawn, Drawn::Popup(Some(Area { x: 2, y: 3, width: 0, height: 1 })));
    assert_eq!(buf, Buffer::empty(Rect::new(0, 0, 4, 4)));
}

#[test]
fn a_buffer_that_lacks_cells_takes_the_lines_whose_cells_it_has() {
    let mut buf = Buffer::empty(Rect::new(0, 0, 8, 2));
    assert!(buffer_is_sound(&buf));
    buf.content.pop();
    assert!(!buffer_is_sound(&buf));
    let rows = [tool("a", None), tool("b", None)];
    let before = buf.clone();
    let area = Area { x: 0, y: 0, width: 8, height: 2 };
    let drawn = try_render_popup(area, &mut buf, &rows, &state(None, 0), "nothing", &whole);
    assert_eq!(drawn, Drawn::Impossible);
    assert_eq!(buf, before);

    let drawn = try_render_popup(area, &mut buf, &rows[..1], &state(None, 0), "nothing", &whole);
    assert_eq!(drawn, Drawn::Popup(None));
    let line: String = buf.content[..8].iter().map(|cell| cell.symbol()).collect();
    assert_eq!(line, "  F  a  ");

    let narrow = Area { width: 7, ..area };
    let drawn = try_render_popup(narrow, &mut buf, &rows, &state(None, 0), "nothing", &whole);
    assert_eq!(drawn, Drawn::Popup(None));
    let line: String = buf.content[8..].iter().map(|cell| cell.symbol()).collect();
    assert_eq!(line, "  F  b ");
}

#[test]
fn a_line_without_columns_needs_no_cells() {
    let mut buf = Buffer::empty(Rect::new(0, 0, 8, 1));
    buf.content.clear();
    let area = Area { x: 0, y: 0, width: 8, height: 1 };
    let drawn = try_render_popup(area, &mut buf, &[], &state(None, 0), "", &whole);
    assert_eq!(drawn, Drawn::Popup(None));
    let drawn = try_render_popup(area, &mut buf, &[], &state(None, 0), "a", &whole);
    assert_eq!(drawn, Drawn::Impossible);
}

#[test]
fn a_buffer_with_spare_cells_keeps_them() {
    let mut buf = filled(Rect::new(0, 0, 6, 1));
    buf.content.extend(filled(Rect::new(0, 0, 3, 1)).content);
    assert!(buffer_is_sound(&buf));
    let area = Area { x: 0, y: 0, width: 6, height: 1 };
    let drawn = try_render_popup(area, &mut buf, &[], &state(None, 0), "none", &whole);
    assert_eq!(drawn, Drawn::Popup(None));
    let all: String = buf.content.iter().map(|cell| cell.symbol()).collect();
    assert_eq!(all, "##none###");
}

fn message_in_the_last_columns(columns: u16, message: &str) -> Option<String> {
    let frame = Rect { x: u16::MAX - columns - 2, y: 0, width: columns + 2, height: 1 };
    let mut buf = filled(frame);
    assert!(!buffer_is_sound(&buf));
    let area = Area { x: frame.x, y: 0, width: frame.width, height: 1 };
    match try_render_popup(area, &mut buf, &[], &state(None, 0), message, &whole) {
        Drawn::Popup(hint) => {
            assert_eq!(hint, None);
            Some(buf.content[2..].iter().map(|cell| cell.symbol()).collect())
        }
        Drawn::Impossible => {
            assert_eq!(buf, filled(frame));
            None
        }
    }
}

#[test]
fn the_last_column_is_drawn_on_and_not_overrun() {
    assert_eq!(message_in_the_last_columns(6, "none").as_deref(), Some("none##"));
    assert_eq!(message_in_the_last_columns(4, "none").as_deref(), Some("none"));
    assert_eq!(message_in_the_last_columns(3, "none"), None);
    assert_eq!(message_in_the_last_columns(4, ""), Some("####".to_string()));
}

#[test]
fn columns_are_counted_by_clusters_up_to_the_last_one() {
    let two = "\u{6f22}\u{5b57}";
    assert_eq!(message_in_the_last_columns(4, two).as_deref(), Some("\u{6f22} \u{5b57} "));
    assert_eq!(message_in_the_last_columns(2, two), None);
    assert_eq!(message_in_the_last_columns(2, "ae\u{301}").as_deref(), Some("ae\u{301}"));
    assert_eq!(message_in_the_last_columns(1, "ae\u{301}"), None);
}

#[test]
fn each_span_of_a_row_is_kept_off_the_end() {
    let frame = Rect { x: u16::MAX - 8, y: 0, width: 8, height: 1 };
    let area = Area { x: frame.x, y: 0, width: 8, height: 1 };
    let mut buf = filled(frame);
    let rows = [tool("abc", None)];
    let drawn = try_render_popup(area, &mut buf, &rows, &state(None, 0), "nothing", &whole);
    assert_eq!(drawn, Drawn::Popup(None));
    let line: String = buf.content.iter().map(|cell| cell.symbol()).collect();
    assert_eq!(line, "##F  abc");
    let rows = [tool("abcd", None)];
    let drawn = try_render_popup(area, &mut buf, &rows, &state(None, 0), "nothing", &whole);
    assert_eq!(drawn, Drawn::Impossible);
    let rows = [tool("abcd", Some(vec![]))];
    let drawn = try_render_popup(area, &mut buf, &rows, &state(None, 0), "nothing", &whole);
    assert_eq!(drawn, Drawn::Popup(None));
}

#[test]
fn colours_are_drawn_as_they_are_named() {
    for (color, expected) in [
        (TextColor::Black, Color::Black),
        (TextColor::Red, Color::Red),
        (TextColor::Green, Color::Green),
        (TextColor::Yellow, Color::Yellow),
        (TextColor::Blue, Color::Blue),
        (TextColor::Magenta, Color::Magenta),
        (TextColor::Cyan, Color::Cyan),
        (TextColor::Gray, Color::Gray),
    ] {
        let mut candidate = tool("one", None);
        candidate.label.ordinary = span("L", Some(color), 0);
        let mut buf = Buffer::empty(Rect::new(0, 0, 8, 1));
        let area = Area { x: 0, y: 0, width: 8, height: 1 };
        render_rows(area, &mut buf, &[candidate], &state(None, 0), "nothing", &whole);
        assert_eq!(buf[(0, 0)].fg, expected);
    }
}

#[test]
fn taking_columns_away_leaves_the_rest() {
    let area = Area { x: 3, y: 1, width: 5, height: 2 };
    assert_eq!(area.inset(2), Area { x: 5, y: 1, width: 3, height: 2 });
    assert_eq!(area.inset(9), Area { x: 12, y: 1, width: 0, height: 2 });
}

#[test]
fn long_texts_are_drawn_where_their_characters_cannot_join() {
    assert!(text_is_drawable(""));
    assert!(text_is_drawable(&"a".repeat(0x5000)));
    assert!(text_is_drawable(&"\u{1100}".repeat(0x3fff)));
    assert!(!text_is_drawable(&"\u{1100}".repeat(0x4000)));
    assert!(!text_is_drawable(&format!("a{}b", "\u{1100}".repeat(0x4000))));
    let halves = format!("{}a{}", "\u{1100}".repeat(0x3fff), "\u{1100}".repeat(0x3fff));
    assert!(text_is_drawable(&halves));
    assert!(text_is_drawable(&"\u{4e00}".repeat(0x4000)));
    assert!(!text_is_drawable(&"\u{4dff}".repeat(0x4000)));
    assert!(!text_is_drawable(&"\u{a000}".repeat(0x4000)));
    for letter in ["\u{e9}", "\u{3b1}", "\u{436}", "\u{5d0}", "\u{628}", "\u{3042}", "\u{ac00}"] {
        assert!(text_is_drawable(&letter.repeat(0x4000)));
    }
}

fn filled(area: Rect) -> Buffer {
    let mut buf = Buffer::empty(area);
    for cell in buf.content.iter_mut() {
        cell.set_symbol("#");
    }
    buf
}

#[test]
fn lines_below_the_shown_rows_stay_as_they_were() {
    let mut buf = filled(Rect::new(0, 0, 7, 4));
    let rows = [tool("a", None), tool("b", None), tool("c", None)];
    let area = Area { x: 1, y: 0, width: 5, height: 3 };
    assert_eq!(line_count(area, 3, &state(None, 7)), 1);
    render_rows(area, &mut buf, &rows, &state(None, 7), "nothing", &whole);
    assert_eq!(lines(&buf), vec!["#F  c##", "#######", "#######", "#######"]);
}

#[test]
fn the_list_moves_down_to_the_selected_row() {
    let mut buf = Buffer::empty(Rect::new(0, 0, 80, 2));
    let rows = [row("a", None), row("b", None), row("c", None)];
    let area = Area { x: 0, y: 0, width: 80, height: 2 };
    render_rows(area, &mut buf, &rows, &state(Some(2), 0), "nothing", &whole);
    assert_eq!(lines(&buf)[0].trim_end(), "F  b");
    assert_eq!(lines(&buf)[1].trim_end(), "F  c");
    assert_eq!(buf[(3, 0)].modifier, Modifier::empty());
    assert_eq!(buf[(3, 1)].modifier, Modifier::BOLD);
}

#[test]
fn the_message_changes_one_line_however_the_list_was_scrolled() {
    let area = Area { x: 0, y: 1, width: 7, height: 3 };
    let mut first = filled(Rect::new(0, 0, 7, 4));
    render_rows(area, &mut first, &[], &state(None, 0), "none", &whole);
    assert_eq!(lines(&first), vec!["#######", "none###", "#######", "#######"]);
    let mut second = filled(Rect::new(0, 0, 7, 4));
    render_rows(area, &mut second, &[], &state(Some(3), 9), "none", &whole);
    assert_eq!(first, second);
}

#[test]
fn the_message_is_on_the_first_line_of_a_buffer_that_begins_below() {
    let mut buf = filled(Rect::new(0, 2, 7, 2));
    let area = Area { x: 0, y: 0, width: 7, height: 4 };
    render_rows(area, &mut buf, &[], &state(None, 0), "none", &whole);
    assert_eq!(lines(&buf), vec!["none###", "#######"]);
}

#[test]
fn the_rows_leave_the_margins_of_the_popup() {
    let mut buf = filled(Rect::new(0, 0, 9, 6));
    let rows = [tool("a", None), tool("b", None)];
    let area = Area { x: 1, y: 1, width: 8, height: 4 };
    let hint = render_popup(area, &mut buf, &rows, &state(None, 0), "nothing", &whole);
    assert_eq!(hint, Some(Area { x: 3, y: 4, width: 6, height: 1 }));
    assert_eq!(
        lines(&buf),
        vec![
            "#########",
            "###F  a##",
            "###F  b##",
            "#########",
            "#########",
            "#########",
        ]
    );
}

#[test]
fn drawing_twice_gives_the_same_cells() {
    let rows = [row("x/y", Some(vec![2])), tool("b", None)];
    let area = Area { x: 0, y: 0, width: 9, height: 3 };
    let mut first = filled(Rect::new(0, 0, 9, 3));
    render_rows(area, &mut first, &rows, &state(Some(0), 0), "nothing", &whole);
    let mut second = filled(Rect::new(0, 0, 9, 3));
    render_rows(area, &mut second, &rows, &state(Some(0), 0), "nothing", &whole);
    assert_eq!(first, second);
}

#[test]
fn what_is_not_drawn_is_not_looked_at() {
    let mut buf = Buffer::empty(Rect::new(0, 0, 9, 2));
    let long = "\u{1100}".repeat(0x4000);
    let area = Area { x: 0, y: 0, width: 9, height: 1 };
    render_rows(area, &mut buf, &[tool("a", None)], &state(None, 0), &long, &whole);
    assert_eq!(lines(&buf), vec!["F  a     ", "         "]);

    buf.content.pop();
    let before = buf.clone();
    let flat = Area { x: 0, y: 0, width: 9, height: 0 };
    let drawn = try_render_popup(flat, &mut buf, &[], &state(None, 0), &long, &whole);
    assert_eq!(drawn, Drawn::Popup(None));
    assert_eq!(buf, before);
    let stale = state(Some(9), 0);
    let drawn = try_render_popup(area, &mut buf, &[tool("a", None)], &stale, "nothing", &whole);
    assert_eq!(drawn, Drawn::Popup(None));
    assert_eq!(buf, before);
}

#[test]
fn the_list_takes_the_popup_without_its_inset_and_its_lowest_rows() {
    let high = Area { x: 4, y: 1, width: 9, height: 3 };
    assert_eq!(list_area_of(high), Area { x: 6, y: 1, width: 7, height: 1 });
    let low = Area { x: 4, y: 1, width: 1, height: 2 };
    assert_eq!(list_area_of(low), Area { x: 6, y: 1, width: 0, height: 2 });
    assert_eq!(line_count(low, 0, &state(None, 0)), 1);
    assert_eq!(line_count(low, 5, &state(None, 0)), 2);
    assert_eq!(line_count(low, 5, &state(Some(9), 0)), 0);
}

#[test]
fn footers_differ_on_their_line_only() {
    let rows = [tool("a", None), tool("b", None)];
    let area = Area { x: 0, y: 0, width: 9, height: 4 };
    let with_footer = |symbol: &str| {
        let mut buf = filled(Rect::new(0, 0, 9, 5));
        let hint = render_popup(area, &mut buf, &rows, &state(None, 0), "nothing", &whole).unwrap();
        for x in hint.x..hint.x + hint.width {
            buf[(x, hint.y)].set_symbol(symbol);
        }
        buf
    };
    let (one, two) = (lines(&with_footer("1")), lines(&with_footer("2")));
    assert_eq!(one[3], "##1111111");
    assert_eq!(two[3], "##2222222");
    for y in [0, 1, 2, 4] {
        assert_eq!(one[y], two[y]);
    }
}
