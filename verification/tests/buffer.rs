use text_editor::state::AppState;

/// A buffer on `text` with the cursor moved to `offset`.
fn buffer_at(text: &str, offset: usize) -> AppState {
    let mut state = AppState::with_text(text);
    for _ in 0..offset {
        state.move_cursor_right();
    }
    assert_eq!(state.cursor_position(), offset);
    state
}

#[test]
fn with_text_holds_the_text_and_starts_at_offset_zero() {
    let state = AppState::with_text("hello");
    assert_eq!(state.text(), "hello");
    assert_eq!(state.len(), 5);
    assert_eq!(state.cursor_position(), 0);
}

#[test]
fn with_text_of_nothing_is_empty() {
    let state = AppState::with_text("");
    assert_eq!(state.text(), "");
    assert_eq!(state.len(), 0);
    assert_eq!(state.cursor_position(), 0);
}

#[test]
fn text_counts_characters_not_bytes() {
    let state = AppState::with_text("né\nü!");
    assert_eq!(state.len(), 5);
    assert_eq!(state.text(), "né\nü!");
    let state = buffer_at("né\nü!", 4);
    assert_eq!(state.get_cursor_location(), (1, 1));
}

#[test]
fn clamp_keeps_offsets_of_the_text() {
    let state = AppState::with_text("hello");
    for offset in 0..=5 {
        assert_eq!(state.clamp_cursor(offset), offset);
    }
}

#[test]
fn clamp_bounds_offsets_beyond_the_text() {
    let state = AppState::with_text("hello");
    assert_eq!(state.clamp_cursor(6), 5);
    assert_eq!(state.clamp_cursor(1000), 5);
    assert_eq!(state.clamp_cursor(usize::MAX), 5);
    let empty = AppState::with_text("");
    assert_eq!(empty.clamp_cursor(0), 0);
    assert_eq!(empty.clamp_cursor(1), 0);
}

#[test]
fn clamp_never_leaves_the_text() {
    let state = AppState::with_text("ab\ncd");
    for offset in [0, 1, 4, 5, 6, 77, usize::MAX - 1, usize::MAX] {
        assert!(state.clamp_cursor(offset) <= state.len());
    }
}

#[test]
fn left_then_right_restores_the_offset() {
    for offset in 1..=5 {
        let mut state = buffer_at("ab\ncd", offset);
        state.move_cursor_left();
        assert_eq!(state.cursor_position(), offset - 1);
        state.move_cursor_right();
        assert_eq!(state.cursor_position(), offset);
        assert_eq!(state.text(), "ab\ncd");
    }
}

#[test]
fn right_then_left_restores_the_offset() {
    for offset in 0..5 {
        let mut state = buffer_at("ab\ncd", offset);
        state.move_cursor_right();
        assert_eq!(state.cursor_position(), offset + 1);
        state.move_cursor_left();
        assert_eq!(state.cursor_position(), offset);
    }
}

#[test]
fn left_at_the_start_stays() {
    let mut state = AppState::with_text("abc");
    state.move_cursor_left();
    assert_eq!(state.cursor_position(), 0);
    state.move_cursor_left();
    assert_eq!(state.cursor_position(), 0);
    state.move_cursor_right();
    assert_eq!(state.cursor_position(), 1);
}

#[test]
fn right_at_the_end_stays() {
    let mut state = buffer_at("abc", 3);
    state.move_cursor_right();
    assert_eq!(state.cursor_position(), 3);
    state.move_cursor_right();
    assert_eq!(state.cursor_position(), 3);
    state.move_cursor_left();
    assert_eq!(state.cursor_position(), 2);
}

#[test]
fn moves_on_an_empty_buffer_stay() {
    let mut state = AppState::with_text("");
    state.move_cursor_left();
    state.move_cursor_right();
    state.move_cursor_up();
    state.move_cursor_down();
    assert_eq!(state.cursor_position(), 0);
    assert_eq!(state.text(), "");
}

#[test]
fn locate_cursor_on_empty_buffer() {
    let state = AppState::with_text("");
    assert_eq!(state.get_cursor_location(), (0, 0));
}

#[test]
fn locate_cursor_at_offset_zero() {
    assert_eq!(AppState::with_text("abc").get_cursor_location(), (0, 0));
    assert_eq!(AppState::with_text("\nabc").get_cursor_location(), (0, 0));
}

#[test]
fn locate_cursor_on_second_line() {
    let state = buffer_at("ab\ncd", 4);
    assert_eq!(state.get_cursor_location(), (1, 1));
}

#[test]
fn locate_cursor_at_every_offset() {
    let expected = [(0, 0), (0, 1), (0, 2), (1, 0), (1, 1), (1, 2)];
    for (offset, location) in expected.iter().enumerate() {
        assert_eq!(buffer_at("ab\ncd", offset).get_cursor_location(), *location);
    }
}

#[test]
fn locate_cursor_behind_a_break_is_at_the_start_of_the_next_line() {
    assert_eq!(buffer_at("abc\n", 3).get_cursor_location(), (0, 3));
    assert_eq!(buffer_at("abc\n", 4).get_cursor_location(), (1, 0));
    assert_eq!(buffer_at("\n\n", 1).get_cursor_location(), (1, 0));
    assert_eq!(buffer_at("\n\n", 2).get_cursor_location(), (2, 0));
}

#[test]
fn move_up_into_a_shorter_line_clamps_the_column() {
    let mut state = buffer_at("ab\ncde", 6);
    assert_eq!(state.get_cursor_location(), (1, 3));
    state.move_cursor_up();
    assert_eq!(state.get_cursor_location(), (0, 2));
    assert_eq!(state.cursor_position(), 2);
}

#[test]
fn move_up_keeps_the_column_where_the_line_is_long_enough() {
    let mut state = buffer_at("abcd\nef\nghi", 10);
    assert_eq!(state.get_cursor_location(), (2, 2));
    state.move_cursor_up();
    assert_eq!(state.cursor_position(), 7);
    assert_eq!(state.get_cursor_location(), (1, 2));
    state.move_cursor_up();
    assert_eq!(state.cursor_position(), 2);
    assert_eq!(state.get_cursor_location(), (0, 2));
}

#[test]
fn move_up_on_the_first_line_stays() {
    let mut state = buffer_at("ab\ncd", 2);
    state.move_cursor_up();
    assert_eq!(state.cursor_position(), 2);
    assert_eq!(state.text(), "ab\ncd");
}

#[test]
fn move_up_onto_an_empty_line() {
    let mut state = buffer_at("ab\n\ncd", 6);
    assert_eq!(state.get_cursor_location(), (2, 2));
    state.move_cursor_up();
    assert_eq!(state.cursor_position(), 3);
    assert_eq!(state.get_cursor_location(), (1, 0));
}

#[test]
fn move_down_into_a_shorter_line_clamps_the_column() {
    let mut state = buffer_at("abcd\nef", 4);
    assert_eq!(state.get_cursor_location(), (0, 4));
    state.move_cursor_down();
    assert_eq!(state.cursor_position(), 7);
    assert_eq!(state.get_cursor_location(), (1, 2));
}

#[test]
fn move_down_keeps_the_column_where_the_line_is_long_enough() {
    let mut state = buffer_at("ab\ncdef\ngh", 1);
    state.move_cursor_down();
    assert_eq!(state.cursor_position(), 4);
    assert_eq!(state.get_cursor_location(), (1, 1));
    state.move_cursor_down();
    assert_eq!(state.cursor_position(), 9);
    assert_eq!(state.get_cursor_location(), (2, 1));
}

#[test]
fn move_down_on_the_last_line_stays() {
    let mut state = buffer_at("ab\ncd", 4);
    state.move_cursor_down();
    assert_eq!(state.cursor_position(), 4);
    let mut single = buffer_at("abc", 1);
    single.move_cursor_down();
    assert_eq!(single.cursor_position(), 1);
}

#[test]
fn move_down_onto_the_empty_line_behind_a_last_break() {
    let mut state = buffer_at("abc\n", 2);
    state.move_cursor_down();
    assert_eq!(state.cursor_position(), 4);
    assert_eq!(state.get_cursor_location(), (1, 0));
    state.move_cursor_down();
    assert_eq!(state.cursor_position(), 4);
    state.move_cursor_up();
    assert_eq!(state.cursor_position(), 0);
}

#[test]
fn down_then_up_restores_the_offset_between_lines_of_equal_length() {
    for offset in 0..=2 {
        let mut state = buffer_at("ab\ncd", offset);
        state.move_cursor_down();
        assert_eq!(state.cursor_position(), offset + 3);
        state.move_cursor_up();
        assert_eq!(state.cursor_position(), offset);
    }
}

#[test]
fn enter_char_splices_at_the_cursor() {
    let mut state = buffer_at("hello", 2);
    state.enter_char('X');
    assert_eq!(state.text(), "heXllo");
    assert_eq!(state.cursor_position(), 3);
    assert_eq!(state.len(), 6);
}

#[test]
fn enter_char_at_both_ends() {
    let mut state = AppState::with_text("b");
    state.enter_char('a');
    assert_eq!(state.text(), "ab");
    assert_eq!(state.cursor_position(), 1);
    state.move_cursor_right();
    state.enter_char('c');
    assert_eq!(state.text(), "abc");
    assert_eq!(state.cursor_position(), 3);
}

#[test]
fn enter_char_takes_characters_of_any_width() {
    let mut state = AppState::with_text("");
    state.enter_char('ü');
    state.enter_char('漢');
    state.enter_char('!');
    assert_eq!(state.text(), "ü漢!");
    assert_eq!(state.cursor_position(), 3);
    assert_eq!(state.get_cursor_location(), (0, 3));
    state.delete_char();
    state.delete_char();
    assert_eq!(state.text(), "ü");
    assert_eq!(state.cursor_position(), 1);
}

#[test]
fn insert_break_at_end_puts_the_cursor_on_a_new_line() {
    let mut state = buffer_at("abc", 3);
    state.enter_char('\n');
    assert_eq!(state.text(), "abc\n");
    assert_eq!(state.get_cursor_location(), (1, 0));
}

#[test]
fn insert_break_in_the_middle_splits_the_line() {
    let mut state = buffer_at("abcd", 2);
    state.enter_char('\n');
    assert_eq!(state.text(), "ab\ncd");
    assert_eq!(state.cursor_position(), 3);
    assert_eq!(state.get_cursor_location(), (1, 0));
}

#[test]
fn delete_char_at_offset_zero_changes_nothing() {
    let mut state = AppState::with_text("abc");
    state.delete_char();
    assert_eq!(state.text(), "abc");
    assert_eq!(state.cursor_position(), 0);
    let mut empty = AppState::with_text("");
    empty.delete_char();
    assert_eq!(empty.text(), "");
    assert_eq!(empty.cursor_position(), 0);
}

#[test]
fn delete_char_removes_the_character_before_the_cursor() {
    let mut state = buffer_at("hello", 2);
    state.delete_char();
    assert_eq!(state.text(), "hllo");
    assert_eq!(state.cursor_position(), 1);
    let mut at_end = buffer_at("hello", 5);
    at_end.delete_char();
    assert_eq!(at_end.text(), "hell");
    assert_eq!(at_end.cursor_position(), 4);
}

#[test]
fn delete_char_joins_lines() {
    let mut state = buffer_at("ab\ncd", 3);
    state.delete_char();
    assert_eq!(state.text(), "abcd");
    assert_eq!(state.cursor_position(), 2);
    assert_eq!(state.get_cursor_location(), (0, 2));
}

#[test]
fn enter_then_delete_restores_the_buffer() {
    for offset in 0..=5 {
        let mut state = buffer_at("ab\ncd", offset);
        state.enter_char('x');
        state.delete_char();
        assert_eq!(state, buffer_at("ab\ncd", offset));
    }
}

#[test]
fn cursor_stays_in_the_text_under_any_operation() {
    let mut state = AppState::with_text("a\nbc\n\ndef");
    for round in 0..40 {
        match round % 7 {
            0 => state.move_cursor_down(),
            1 => state.move_cursor_right(),
            2 => state.enter_char('\n'),
            3 => state.move_cursor_up(),
            4 => state.delete_char(),
            5 => state.move_cursor_left(),
            _ => state.enter_char('z'),
        }
        assert!(state.cursor_position() <= state.len());
        assert_eq!(state.len(), state.text().chars().count());
    }
}
