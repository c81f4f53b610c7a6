use tt::message::ServerMessage;
use tt::render::{
    cursor_position, mode_text, numbered_lines, render, render_with, status_line,
    status_position, GUTTER_WIDTH, TAB_WIDTH,
};
use tt::state::{Buffer, BufferMode, TermTextState};

fn state_with_text(text: &str, size: (u16, u16)) -> TermTextState {
    let mut state = TermTextState::default();
    state.size = size;
    state.create_buffer("/tmp/a.txt").data.push_str(text);
    state
}

#[test]
fn cursor_accounts_for_gutter_and_tab() {
    let state = state_with_text("ab\tc", (80, 24));
    let messages = render(&state);
    assert_eq!(messages.len(), 3);
    assert_eq!(messages[2], ServerMessage::Cursor((GUTTER_WIDTH + 2 + 4 + 1, 0)));
    assert_eq!(messages[2], ServerMessage::Cursor((16, 0)));
    assert_eq!(TAB_WIDTH, 4);
    assert_eq!(GUTTER_WIDTH, 9);
}

#[test]
fn render_shows_text_status_and_cursor() {
    let state = state_with_text("ab\tc", (80, 24));
    assert_eq!(
        render(&state),
        vec![
            ServerMessage::Update((0, 0), (80, 24), vec!["     1 | ab    c".to_string()]),
            ServerMessage::Update(
                (0, 23),
                (80, 1),
                vec!["tt: Normal \"/tmp/a.txt\"".to_string()]
            ),
            ServerMessage::Cursor((16, 0)),
        ]
    );
}

#[test]
fn render_without_a_buffer_shows_status_and_cursor_only() {
    let mut state = TermTextState::default();
    state.size = (40, 10);
    assert_eq!(
        render(&state),
        vec![
            ServerMessage::Update((0, 9), (40, 1), vec!["tt: Normal".to_string()]),
            ServerMessage::Cursor((9, 0)),
        ]
    );
}

#[test]
fn render_numbers_the_lines_from_one() {
    let state = state_with_text("one\ntwo\n\nfour", (80, 24));
    let messages = render(&state);
    assert_eq!(
        messages[0],
        ServerMessage::Update(
            (0, 0),
            (80, 24),
            vec![
                "     1 | one".to_string(),
                "     2 | two".to_string(),
                "     3 | ".to_string(),
                "     4 | four".to_string(),
            ]
        )
    );
    assert_eq!(messages[2], ServerMessage::Cursor((13, 3)));
}

#[test]
fn render_of_a_text_that_ends_in_a_newline_has_a_last_empty_line() {
    let state = state_with_text("a\n", (80, 24));
    let messages = render(&state);
    assert_eq!(
        messages[0],
        ServerMessage::Update(
            (0, 0),
            (80, 24),
            vec!["     1 | a".to_string(), "     2 | ".to_string()]
        )
    );
    assert_eq!(messages[2], ServerMessage::Cursor((9, 1)));
}

#[test]
fn render_of_an_empty_buffer_is_one_empty_line() {
    let state = state_with_text("", (80, 24));
    let messages = render(&state);
    assert_eq!(
        messages[0],
        ServerMessage::Update((0, 0), (80, 24), vec!["     1 | ".to_string()])
    );
    assert_eq!(messages[2], ServerMessage::Cursor((9, 0)));
}

#[test]
fn render_with_height_zero_puts_the_status_on_row_zero() {
    let state = state_with_text("x", (80, 0));
    let messages = render(&state);
    assert_eq!(
        messages[1],
        ServerMessage::Update((0, 0), (80, 1), vec!["tt: Normal \"/tmp/a.txt\"".to_string()])
    );
    assert_eq!(status_position((80, 0)), (0, 0));
    assert_eq!(status_position((80, 1)), (0, 0));
    assert_eq!(status_position((80, 50)), (0, 49));
    assert_eq!(status_position((0, 65535)), (0, 65534));
}

#[test]
fn render_shows_mode_and_command_in_the_status_line() {
    let mut state = state_with_text("x", (80, 24));
    state.mode = BufferMode::Command;
    state.command = Some("write out".to_string());
    let messages = render(&state);
    assert_eq!(
        messages[1],
        ServerMessage::Update(
            (0, 23),
            (80, 1),
            vec!["tt: Command write out \"/tmp/a.txt\"".to_string()]
        )
    );
    state.mode = BufferMode::Insert;
    state.command = None;
    assert_eq!(
        render(&state)[1],
        ServerMessage::Update(
            (0, 23),
            (80, 1),
            vec!["tt: Insert \"/tmp/a.txt\"".to_string()]
        )
    );
}

#[test]
fn render_quotes_the_path_as_std_shows_paths() {
    let mut state = TermTextState::default();
    state.size = (80, 24);
    state.create_buffer("/tmp/with \"quote\"\\and\ttab.txt");
    let messages = render(&state);
    assert_eq!(
        messages[1],
        ServerMessage::Update(
            (0, 23),
            (80, 1),
            vec!["tt: Normal \"/tmp/with \\\"quote\\\"\\\\and\\ttab.txt\"".to_string()]
        )
    );
    let path = std::path::Path::new("/tmp/with \"quote\"\\and\ttab.txt");
    let expected = format!("tt: Normal {:?}", path);
    assert_eq!(messages[1], ServerMessage::Update((0, 23), (80, 1), vec![expected]));
}

#[test]
fn render_of_a_buffer_without_path_shows_no_path() {
    let mut state = TermTextState::default();
    state.size = (80, 24);
    state.buffers.push(Buffer { path: None, data: "hi".to_string(), pos: (0, 0) });
    assert_eq!(
        render(&state),
        vec![
            ServerMessage::Update((0, 0), (80, 24), vec!["     1 | hi".to_string()]),
            ServerMessage::Update((0, 23), (80, 1), vec!["tt: Normal".to_string()]),
            ServerMessage::Cursor((11, 0)),
        ]
    );
}

#[test]
fn render_shows_the_current_buffer_only() {
    let mut state = state_with_text("behind", (80, 24));
    state.create_buffer("/tmp/b.txt").data.push_str("front");
    let messages = render(&state);
    assert_eq!(
        messages[0],
        ServerMessage::Update((0, 0), (80, 24), vec!["     1 | front".to_string()])
    );
    assert_eq!(
        messages[1],
        ServerMessage::Update((0, 23), (80, 1), vec!["tt: Normal \"/tmp/b.txt\"".to_string()])
    );
}

#[test]
fn render_changes_nothing() {
    let state = state_with_text("a\tb\nc", (80, 24));
    let first = render(&state);
    let second = render(&state);
    assert_eq!(first, second);
    assert_eq!(state.buffers[0].data, "a\tb\nc");
}

#[test]
fn numbered_lines_expand_tabs_to_four_spaces() {
    assert_eq!(numbered_lines("\t"), vec!["     1 |     ".to_string()]);
    assert_eq!(numbered_lines("a\t\tb"), vec!["     1 | a        b".to_string()]);
}

#[test]
fn numbered_lines_pad_the_number_to_six_columns() {
    let text = "\n".repeat(100);
    let lines = numbered_lines(&text);
    assert_eq!(lines.len(), 101);
    assert_eq!(lines[0], "     1 | ");
    assert_eq!(lines[8], "     9 | ");
    assert_eq!(lines[9], "    10 | ");
    assert_eq!(lines[99], "   100 | ");
    assert_eq!(lines[100], "   101 | ");
}

#[test]
fn numbered_lines_widen_for_numbers_of_more_than_six_digits() {
    let text = "\n".repeat(1_000_000);
    let lines = numbered_lines(&text);
    assert_eq!(lines.len(), 1_000_001);
    assert_eq!(lines[99_998], " 99999 | ");
    assert_eq!(lines[99_999], "100000 | ");
    assert_eq!(lines[999_998], "999999 | ");
    assert_eq!(lines[999_999], "1000000 | ");
    assert_eq!(lines[1_000_000], "1000001 | ");
}

#[test]
fn numbered_lines_show_what_std_formats() {
    let text = "\n".repeat(1234);
    let lines = numbered_lines(&text);
    for (index, line) in lines.iter().enumerate() {
        assert_eq!(line, &format!("{:6} | ", index + 1));
    }
}

#[test]
fn cursor_position_counts_rows_and_columns() {
    assert_eq!(cursor_position(""), (9, 0));
    assert_eq!(cursor_position("abc"), (12, 0));
    assert_eq!(cursor_position("abc\n"), (9, 1));
    assert_eq!(cursor_position("abc\nde\tf"), (9 + 2 + 4 + 1, 1));
    assert_eq!(cursor_position("\n\n\n"), (9, 3));
    assert_eq!(cursor_position("\u{e9}\u{4e2d}"), (11, 0));
}

#[test]
fn cursor_position_stops_at_the_largest_coordinate() {
    let wide = "x".repeat(70_000);
    assert_eq!(cursor_position(&wide), (65535, 0));
    let almost = "x".repeat(65_526);
    assert_eq!(cursor_position(&almost), (65535, 0));
    let fits = "x".repeat(65_525);
    assert_eq!(cursor_position(&fits), (65534, 0));
    let tall = "\n".repeat(70_000);
    assert_eq!(cursor_position(&tall), (9, 65535));
    let tabs = "\t".repeat(20_000);
    assert_eq!(cursor_position(&tabs), (65535, 0));
}

#[test]
fn status_line_joins_mode_command_and_path() {
    assert_eq!(status_line(BufferMode::Normal, None, None), "tt: Normal");
    assert_eq!(status_line(BufferMode::Insert, None, Some("\"a\"")), "tt: Insert \"a\"");
    assert_eq!(status_line(BufferMode::Command, Some(""), None), "tt: Command ");
    assert_eq!(
        status_line(BufferMode::Command, Some("open x"), Some("\"/p\"")),
        "tt: Command open x \"/p\""
    );
}

#[test]
fn mode_text_names_each_mode() {
    assert_eq!(mode_text(BufferMode::Normal), "Normal");
    assert_eq!(mode_text(BufferMode::Insert), "Insert");
    assert_eq!(mode_text(BufferMode::Command), "Command");
    assert_eq!(mode_text(BufferMode::Command), format!("{:?}", BufferMode::Command));
}

#[test]
fn render_with_shows_the_quoted_path_as_it_is_given() {
    let state = state_with_text("a\tb", (20, 5));
    assert_eq!(
        render_with(&state, Some("<path>")),
        vec![
            ServerMessage::Update((0, 0), (20, 5), vec!["     1 | a    b".to_string()]),
            ServerMessage::Update((0, 4), (20, 1), vec!["tt: Normal <path>".to_string()]),
            ServerMessage::Cursor((15, 0)),
        ]
    );
    assert_eq!(
        render_with(&state, None),
        vec![
            ServerMessage::Update((0, 0), (20, 5), vec!["     1 | a    b".to_string()]),
            ServerMessage::Update((0, 4), (20, 1), vec!["tt: Normal".to_string()]),
            ServerMessage::Cursor((15, 0)),
        ]
    );
}

#[test]
fn render_is_render_with_the_path_quoted() {
    let state = state_with_text("x\ny", (80, 24));
    assert_eq!(render(&state), render_with(&state, Some("\"/tmp/a.txt\"")));
    assert_ne!(render(&state), render_with(&state, Some("/tmp/a.txt")));
}

#[test]
fn render_quotes_a_path_with_a_single_quote_as_std_does() {
    let mut state = TermTextState::default();
    state.size = (80, 24);
    state.create_buffer("/tmp/it's");
    let messages = render(&state);
    let path = std::path::Path::new("/tmp/it's");
    assert_eq!(
        messages[1],
        ServerMessage::Update((0, 23), (80, 1), vec![format!("tt: Normal {:?}", path)])
    );
    assert_eq!(
        messages[1],
        ServerMessage::Update((0, 23), (80, 1), vec!["tt: Normal \"/tmp/it's\"".to_string()])
    );
}
