use tui_chat::screen::{layout_from_panes, screen_layout};
use tui_chat::view::{compose_chat_message, ChatMessage, ChatView, Key, KeyMods, KeyOutcome};

fn type_str(v: &mut ChatView, s: &str) {
    for c in s.chars() {
        assert_eq!(v.handle_key(Key::Char(c), KeyMods::Plain), KeyOutcome::Nothing);
    }
}

fn msg(user: &str, ts: &str, m: &str) -> ChatMessage {
    ChatMessage { username: user.to_string(), timestamp: ts.to_string(), msg: m.to_string() }
}

#[test]
fn typing_inserts_at_cursor() {
    let mut v = ChatView::new();
    type_str(&mut v, "hllo");
    v.handle_key(Key::Left, KeyMods::Plain);
    v.handle_key(Key::Left, KeyMods::Plain);
    v.handle_key(Key::Left, KeyMods::Plain);
    v.handle_key(Key::Char('e'), KeyMods::Plain);
    assert_eq!(v.input_text(), "hello");
    assert_eq!(v.cursor(), 2);
    assert_eq!(v.input_with_cursor(), "he|llo");
}

#[test]
fn backspace_undoes_typing() {
    let mut v = ChatView::new();
    type_str(&mut v, "abc");
    v.handle_key(Key::Left, KeyMods::Plain);
    v.handle_key(Key::Char('x'), KeyMods::Plain);
    assert_eq!(v.input_text(), "abxc");
    v.handle_key(Key::Backspace, KeyMods::Plain);
    assert_eq!(v.input_text(), "abc");
    assert_eq!(v.cursor(), 2);
}

#[test]
fn cursor_stays_in_bounds() {
    let mut v = ChatView::new();
    v.handle_key(Key::Left, KeyMods::Plain);
    v.handle_key(Key::Backspace, KeyMods::Plain);
    assert_eq!(v.cursor(), 0);
    type_str(&mut v, "ab");
    v.handle_key(Key::Right, KeyMods::Plain);
    assert_eq!(v.cursor(), 2);
    assert_eq!(v.input_with_cursor(), "ab|");
}

#[test]
fn modified_keys_are_ignored() {
    let mut v = ChatView::new();
    assert_eq!(v.handle_key(Key::Char('A'), KeyMods::Other), KeyOutcome::Nothing);
    assert_eq!(v.handle_key(Key::Enter, KeyMods::AltOnly), KeyOutcome::Nothing);
    assert_eq!(v.handle_key(Key::Other, KeyMods::Plain), KeyOutcome::Nothing);
    assert_eq!(v.input_text(), "");
}

#[test]
fn enter_submits_and_clears() {
    let mut v = ChatView::new();
    type_str(&mut v, "hi all");
    assert_eq!(v.handle_key(Key::Enter, KeyMods::Plain), KeyOutcome::Submit("hi all".to_string()));
    assert_eq!(v.input_text(), "");
    assert_eq!(v.cursor(), 0);
    assert_eq!(v.handle_key(Key::Enter, KeyMods::Plain), KeyOutcome::Submit(String::new()));
}

#[test]
fn esc_quits() {
    let mut v = ChatView::new();
    assert_eq!(v.handle_key(Key::Esc, KeyMods::Plain), KeyOutcome::Quit);
}

#[test]
fn scrolling_saturates() {
    let mut v = ChatView::new();
    v.handle_key(Key::Down, KeyMods::Plain);
    assert_eq!(v.scroll_offset(), 0);
    v.handle_key(Key::Up, KeyMods::Plain);
    v.handle_key(Key::Up, KeyMods::Plain);
    assert_eq!(v.scroll_offset(), 2);
    v.handle_key(Key::Up, KeyMods::AltOnly);
    assert_eq!(v.input_scroll(), 1);
    v.handle_key(Key::Down, KeyMods::AltOnly);
    v.handle_key(Key::Down, KeyMods::AltOnly);
    assert_eq!(v.input_scroll(), 0);
}

#[test]
fn message_line_format() {
    assert_eq!(msg("ann", "12:00", "hey").display_line(), "12:00:ann - hey");
}

#[test]
fn sent_message_carries_time_user_and_text() {
    let m = compose_chat_message(
        "2024-01-02 03:04:05".to_string(),
        "ann".to_string(),
        "hello".to_string(),
    );
    assert_eq!(m, msg("ann", "2024-01-02 03:04:05", "hello"));
    assert_eq!(m.display_line(), "2024-01-02 03:04:05:ann - hello");
}

#[test]
fn receiving_adds_lines_and_resets_scroll() {
    let mut v = ChatView::new();
    v.handle_key(Key::Up, KeyMods::Plain);
    v.receive(Some(msg("ann", "t", "hey")), 80);
    assert_eq!(v.line_count(), 1);
    assert_eq!(v.scroll_offset(), 0);
    assert_eq!(v.visible_text(10), "t:ann - hey");
}

#[test]
fn undecodable_line_only_resets_scroll() {
    let mut v = ChatView::new();
    v.handle_key(Key::Up, KeyMods::Plain);
    v.receive(None, 80);
    assert_eq!(v.line_count(), 0);
    assert_eq!(v.scroll_offset(), 0);
}

#[test]
fn long_message_is_wrapped_to_the_pane() {
    let mut v = ChatView::new();
    v.receive(Some(msg("ann", "t", "one two three four five")), 12);
    assert!(v.line_count() > 1);
    assert_eq!(v.visible_text(20), "t:ann - one\ntwo three\nfour five");
}

#[test]
fn short_message_keeps_one_line_without_trailing_spaces() {
    let mut v = ChatView::new();
    v.receive(Some(msg("a", "t", "x   ")), 40);
    assert_eq!(v.line_count(), 1);
    assert_eq!(v.visible_text(5), "t:a - x");
}

#[test]
fn window_shows_newest_lines_and_scrolls_back() {
    let mut v = ChatView::new();
    for i in 0..10 {
        v.receive(Some(msg("u", &i.to_string(), "m")), 80);
    }
    assert_eq!(v.visible_window(3), (7, 10));
    assert_eq!(v.visible_text(3), "7:u - m\n8:u - m\n9:u - m");
    v.handle_key(Key::Up, KeyMods::Plain);
    v.handle_key(Key::Up, KeyMods::Plain);
    assert_eq!(v.visible_window(3), (5, 8));
    for _ in 0..20 {
        v.handle_key(Key::Up, KeyMods::Plain);
    }
    assert_eq!(v.visible_window(3), (0, 3));
    assert_eq!(v.visible_window(50), (0, 10));
}

#[test]
fn input_pane_wraps_the_line_with_cursor() {
    let mut v = ChatView::new();
    type_str(&mut v, "aaa bbb");
    assert_eq!(v.input_pane_text(80), "aaa bbb|");
    assert_eq!(v.input_pane_text(5), "aaa\nbbb|");
}

#[test]
fn layout_leaves_room_for_borders() {
    let l = layout_from_panes((0, 0, 100, 45), (0, 45, 100, 5));
    assert_eq!((l.pane_width, l.pane_height, l.input_width), (98, 43, 98));
    let l = layout_from_panes((0, 0, 1, 1), (0, 1, 0, 0));
    assert_eq!((l.pane_width, l.pane_height, l.input_width), (0, 0, 0));
}

#[test]
fn screen_is_split_nine_tenths_to_one_tenth() {
    let l = screen_layout((0, 0, 100, 50));
    assert_eq!(l.display, (0, 0, 100, 45));
    assert_eq!(l.input, (0, 45, 100, 5));
    assert_eq!(l.pane_height, 43);
    assert_eq!(l.input_width, 98);
}

#[test]
fn left_then_right_restores_cursor() {
    let mut v = ChatView::new();
    type_str(&mut v, "xyz");
    v.handle_key(Key::Left, KeyMods::Plain);
    let before = (v.input_text(), v.cursor());
    v.handle_key(Key::Left, KeyMods::Plain);
    v.handle_key(Key::Right, KeyMods::Plain);
    assert_eq!((v.input_text(), v.cursor()), before);
}

#[test]
fn keys_leave_received_lines_alone() {
    let mut v = ChatView::new();
    v.receive(Some(msg("u", "t", "m")), 80);
    type_str(&mut v, "abc");
    v.handle_key(Key::Backspace, KeyMods::Plain);
    v.handle_key(Key::Enter, KeyMods::Plain);
    assert_eq!(v.line_count(), 1);
    assert_eq!(v.visible_text(4), "t:u - m");
}

#[test]
fn input_pane_reaches_the_bottom_edge() {
    for (w, h) in [(80u16, 37u16), (10, 1), (120, 728), (3, 0)] {
        let l = screen_layout((0, 0, w, h));
        assert_eq!(l.input.1 + l.input.3, h);
        assert_eq!(l.display.1, 0);
    }
}
