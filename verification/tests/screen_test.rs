// Tests for the screen state, the terminal front-end and the desktop front-end.

use hatch_chat::gui::{
    apply_frame_input, apply_ui_event, input_line, line_color, peer_color, AfterPoll, FrameInput,
    GuiState,
};
use hatch_chat::screen::{peer_label, status_lines, ConnPeer, EventKind};
use hatch_chat::text::{decimal_text, join2, join3, shorten, sorts_before};
use hatch_chat::tui::{
    cursor_column, first_visible, handle_key_event, handle_polled, handle_ui_event,
    highlighted_peer, line_style, short_pid, KeyCode, KeyPress, LineColor, Polled, TuiState,
    UiEvent, UserAction,
};

fn connected(peer_id: &str, direct: bool) -> UiEvent {
    UiEvent::PeerConnected {
        peer_id: peer_id.to_string(),
        addr: "gossip".to_string(),
        direct,
    }
}

fn press(state: &mut TuiState, key: KeyCode) -> Option<UserAction> {
    handle_key_event(state, KeyPress { key, control: false })
}

fn no_input() -> FrameInput {
    FrameInput {
        typed: Vec::new(),
        backspace: false,
        clicked: None,
        tab: false,
        up: false,
        down: false,
        enter: false,
        quit: false,
    }
}

fn texts(state: &GuiState) -> Vec<&str> {
    state.events.iter().map(|e| e.text.as_str()).collect()
}

#[test]
fn maps_events_to_state() {
    let mut s = GuiState::new("me".to_string());

    apply_ui_event(&mut s, UiEvent::CacheCount(7));
    assert_eq!(s.cache_count, 7);

    apply_ui_event(&mut s, UiEvent::LocalPeerId("x".to_string()));
    assert_eq!(s.our_peer_id, "x");

    apply_ui_event(&mut s, UiEvent::PeerConnected {
        peer_id: "abc".into(),
        addr: "gossip".into(),
        direct: true,
    });
    assert_eq!(s.connected_peers.len(), 1);
    // Idempotent on duplicate peer_id.
    apply_ui_event(&mut s, UiEvent::PeerConnected {
        peer_id: "abc".into(),
        addr: "gossip".into(),
        direct: true,
    });
    assert_eq!(s.connected_peers.len(), 1);

    apply_ui_event(&mut s, UiEvent::PeerDisconnected {
        peer_id: "abc".into(),
    });
    assert_eq!(s.connected_peers.len(), 0);

    // Chat goes to the chat buffer.
    apply_ui_event(&mut s, UiEvent::ChatMessage {
        from: "bob".into(),
        text: "hi".into(),
    });
    assert!(s.chat.last().unwrap().text.contains("hi"));
    assert_eq!(s.chat.len(), 1);
    assert!(!s.events.is_empty());
}

#[test]
fn event_log_is_capped() {
    let mut s = GuiState::new("me".to_string());
    for i in 0..600 {
        apply_ui_event(&mut s, UiEvent::Info(format!("line {i}")));
    }
    assert!(s.events.len() <= 500);
}

#[test]
fn chat_and_events_are_separate() {
    let mut s = GuiState::new("me".to_string());
    for i in 0..1100 {
        apply_ui_event(&mut s, UiEvent::Info(format!("evt {i}")));
    }
    apply_ui_event(&mut s, UiEvent::ChatMessage {
        from: "a".into(),
        text: "hello".into(),
    });
    assert!(s.events.len() <= 500);
    assert_eq!(s.chat.len(), 1);
}

#[test]
fn oldest_lines_leave_first() {
    let mut s = GuiState::new("me".to_string());
    for i in 0..600 {
        apply_ui_event(&mut s, UiEvent::Info(format!("line {i}")));
    }
    assert_eq!(s.events.len(), 500);
    assert_eq!(s.events[0].text, "line 100");
    assert_eq!(s.events[499].text, "line 599");
    for i in 0..1001 {
        apply_ui_event(&mut s, UiEvent::ChatMessage { from: "a".into(), text: format!("{i}") });
    }
    assert_eq!(s.chat.len(), 1000);
    assert_eq!(s.chat[0].text, "[a] 1");
    assert_eq!(s.chat[999].text, "[a] 1000");
}

#[test]
fn events_log_exact_lines() {
    let mut s = GuiState::new("me".to_string());
    apply_ui_event(&mut s, UiEvent::Warn("careful".to_string()));
    apply_ui_event(&mut s, connected("abc", true));
    apply_ui_event(&mut s, connected("12D3KooWabcdefghijklmnop", false));
    apply_ui_event(&mut s, UiEvent::PeerDisconnected { peer_id: "abc".to_string() });
    assert_eq!(
        texts(&s),
        vec![
            "careful",
            "Connected to abc (direct)",
            "Connected to 12D3KooWabcdefghi... (relayed)",
            "Disconnected from abc",
        ]
    );
    assert_eq!(s.events[0].kind, EventKind::Warn);
    assert_eq!(s.events[1].kind, EventKind::System);
    assert_eq!(s.connected_peers.len(), 1);
    assert_eq!(s.connected_peers[0].addr, "gossip");
    assert!(!s.connected_peers[0].direct);
}

#[test]
fn disconnecting_moves_the_selection_back() {
    let mut s = GuiState::new("me".to_string());
    for id in ["a", "b", "c"] {
        apply_ui_event(&mut s, connected(id, true));
    }
    s.selected_peer = 2;
    apply_ui_event(&mut s, UiEvent::PeerDisconnected { peer_id: "c".to_string() });
    assert_eq!(s.selected_peer, 1);
    apply_ui_event(&mut s, UiEvent::PeerDisconnected { peer_id: "a".to_string() });
    assert_eq!(s.selected_peer, 0);
    assert_eq!(s.connected_peers[0].peer_id, "b");
    apply_ui_event(&mut s, UiEvent::PeerDisconnected { peer_id: "b".to_string() });
    assert_eq!(s.selected_peer, 0);
}

#[test]
fn reconnecting_gives_the_list_back() {
    let mut s = GuiState::new("me".to_string());
    apply_ui_event(&mut s, connected("a", true));
    apply_ui_event(&mut s, connected("b", true));
    apply_ui_event(&mut s, UiEvent::PeerDisconnected { peer_id: "b".to_string() });
    let ids: Vec<&str> = s.connected_peers.iter().map(|p| p.peer_id.as_str()).collect();
    assert_eq!(ids, vec!["a"]);
}

#[test]
fn status_and_labels() {
    let mut s = GuiState::new("abcdefghijklmnopqrstu".to_string());
    apply_ui_event(&mut s, connected("p", true));
    apply_ui_event(&mut s, UiEvent::CacheCount(120));
    let lines = status_lines(&s);
    assert_eq!(lines[0], "ID: abcdefghijklmnopq...");
    assert_eq!(lines[1], "Peers: 1 connected");
    assert_eq!(lines[2], "Cache: 120 peers");
    assert_eq!(peer_label(&s.connected_peers[0]), "D p");
    let relayed = ConnPeer { peer_id: "q".to_string(), addr: "x".to_string(), direct: false };
    assert_eq!(peer_label(&relayed), "R q");
}

#[test]
fn startup_line_is_logged() {
    let state = TuiState::start("me".to_string(), 4);
    assert_eq!(state.screen.events.len(), 1);
    assert_eq!(state.screen.events[0].text, "hatch-chat TUI started");
    assert_eq!(state.screen.events[0].kind, EventKind::System);
    assert_eq!(state.screen.cache_count, 4);
    assert!(!state.should_quit);
}

#[test]
fn enter_sends_the_line_and_clears_it() {
    let mut state = TuiState::start(String::new(), 0);
    assert!(press(&mut state, KeyCode::Enter).is_none());
    press(&mut state, KeyCode::Char('h'));
    press(&mut state, KeyCode::Char('é'));
    press(&mut state, KeyCode::Char('x'));
    press(&mut state, KeyCode::Backspace);
    assert_eq!(state.screen.input, "hé");
    match press(&mut state, KeyCode::Enter) {
        Some(UserAction::Broadcast { text }) => assert_eq!(text, "hé"),
        other => panic!("unexpected {other:?}"),
    }
    assert_eq!(state.screen.input, "");
    press(&mut state, KeyCode::Backspace);
    assert_eq!(state.screen.input, "");
}

#[test]
fn escape_and_control_c_quit() {
    let mut state = TuiState::start(String::new(), 0);
    assert!(press(&mut state, KeyCode::Char('c')).is_none());
    assert_eq!(state.screen.input, "c");
    assert!(!state.should_quit);
    let sent = handle_key_event(&mut state, KeyPress { key: KeyCode::Char('c'), control: true });
    assert!(matches!(sent, Some(UserAction::Quit)));
    assert!(state.should_quit);
    let mut other = TuiState::start(String::new(), 0);
    assert!(matches!(press(&mut other, KeyCode::Esc), Some(UserAction::Quit)));
    assert!(other.should_quit);
    assert!(press(&mut other, KeyCode::Other).is_none());
}

#[test]
fn keys_move_the_selection() {
    let mut state = TuiState::start(String::new(), 0);
    press(&mut state, KeyCode::Tab);
    assert_eq!(state.screen.selected_peer, 0);
    assert_eq!(highlighted_peer(&state.screen), None);
    for id in ["a", "b", "c"] {
        handle_ui_event(&mut state, connected(id, true));
    }
    press(&mut state, KeyCode::Up);
    assert_eq!(state.screen.selected_peer, 0);
    press(&mut state, KeyCode::Down);
    press(&mut state, KeyCode::Down);
    press(&mut state, KeyCode::Down);
    assert_eq!(state.screen.selected_peer, 2);
    assert_eq!(highlighted_peer(&state.screen), Some(2));
    press(&mut state, KeyCode::Tab);
    assert_eq!(state.screen.selected_peer, 0);
    press(&mut state, KeyCode::Tab);
    press(&mut state, KeyCode::Tab);
    press(&mut state, KeyCode::Tab);
    assert_eq!(state.screen.selected_peer, 0);
}

#[test]
fn polling_ends_with_the_channel() {
    let mut state = TuiState::start(String::new(), 0);
    assert!(handle_polled(&mut state, Polled::Event(UiEvent::CacheCount(3))));
    assert_eq!(state.screen.cache_count, 3);
    assert!(!handle_polled(&mut state, Polled::Empty));
    assert!(!state.should_quit);
    assert!(!handle_polled(&mut state, Polled::Disconnected));
    assert!(state.should_quit);

    let mut gui = GuiState::new(String::new());
    let again = hatch_chat::gui::handle_polled(&mut gui, Polled::Event(UiEvent::CacheCount(5)));
    assert_eq!(again, AfterPoll::Again);
    assert_eq!(gui.cache_count, 5);
    assert_eq!(hatch_chat::gui::handle_polled(&mut gui, Polled::Empty), AfterPoll::Draw);
    assert_eq!(hatch_chat::gui::handle_polled(&mut gui, Polled::Disconnected), AfterPoll::Leave);
}

#[test]
fn line_styles() {
    assert_eq!(line_style(EventKind::System), ("[System] ", LineColor::Cyan));
    assert_eq!(line_style(EventKind::Warn), ("[WARN] ", LineColor::Yellow));
    assert_eq!(line_style(EventKind::Chat), ("", LineColor::Green));
    assert_eq!(line_style(EventKind::Info), ("", LineColor::Gray));
    assert_eq!(line_color(EventKind::System), 0x66CCFF);
    assert_eq!(line_color(EventKind::Chat), 0x66FF88);
    assert_eq!(line_color(EventKind::Warn), 0xFFCC44);
    assert_eq!(line_color(EventKind::Info), 0xAAAAAA);
}

#[test]
fn panel_geometry() {
    assert_eq!(first_visible(10, 3), 7);
    assert_eq!(first_visible(3, 3), 0);
    assert_eq!(first_visible(0, 3), 0);
    assert_eq!(cursor_column(5, 40, 10), 18);
    assert_eq!(cursor_column(5, 10, 10), 14);
    assert_eq!(cursor_column(5, 0, 10), 5);
    assert_eq!(cursor_column(0, 40, 65536), 3);
    assert_eq!(cursor_column(65000, 536, 532), 65535);
}

#[test]
fn frames_edit_and_send() {
    let mut s = GuiState::new(String::new());
    let mut input = no_input();
    input.typed = vec!['h', '\u{8}', 'i', '\u{7f}', '\u{9f}', '\u{a0}'];
    assert!(apply_frame_input(&mut s, &input).is_empty());
    assert_eq!(s.input, "hi\u{a0}");
    let mut input = no_input();
    input.backspace = true;
    assert!(apply_frame_input(&mut s, &input).is_empty());
    assert_eq!(s.input, "hi");
    assert_eq!(input_line(&s), "> hi_");
    assert_eq!(hatch_chat::tui::input_line(&s), "> hi");
    let mut input = no_input();
    input.enter = true;
    input.quit = true;
    let actions = apply_frame_input(&mut s, &input);
    assert_eq!(actions.len(), 2);
    match &actions[0] {
        UserAction::Broadcast { text } => assert_eq!(text, "hi"),
        other => panic!("unexpected {other:?}"),
    }
    assert!(matches!(actions[1], UserAction::Quit));
    assert_eq!(s.input, "");
    let mut input = no_input();
    input.enter = true;
    assert!(apply_frame_input(&mut s, &input).is_empty());
}

#[test]
fn frames_cycle_the_selection() {
    let mut s = GuiState::new(String::new());
    let mut input = no_input();
    input.tab = true;
    apply_frame_input(&mut s, &input);
    assert_eq!(s.selected_peer, 0);
    apply_ui_event(&mut s, connected("a", true));
    apply_ui_event(&mut s, connected("b", true));
    apply_frame_input(&mut s, &input);
    assert_eq!(s.selected_peer, 1);
    assert_eq!(peer_color(&s, 1), 0xFFFF66);
    assert_eq!(peer_color(&s, 0), 0xCCCCCC);
    apply_frame_input(&mut s, &input);
    assert_eq!(s.selected_peer, 0);
}

#[test]
fn frames_move_the_selection_up_and_down() {
    let mut s = GuiState::new(String::new());
    let mut down = no_input();
    down.down = true;
    let mut up = no_input();
    up.up = true;
    apply_frame_input(&mut s, &down);
    apply_frame_input(&mut s, &up);
    assert_eq!(s.selected_peer, 0);
    for id in ["a", "b", "c"] {
        apply_ui_event(&mut s, connected(id, true));
    }
    s.selected_peer = 1;
    assert!(apply_frame_input(&mut s, &down).is_empty());
    assert_eq!(s.selected_peer, 2);
    apply_frame_input(&mut s, &down);
    assert_eq!(s.selected_peer, 2);
    apply_frame_input(&mut s, &up);
    apply_frame_input(&mut s, &up);
    apply_frame_input(&mut s, &up);
    assert_eq!(s.selected_peer, 0);
    s.selected_peer = usize::MAX;
    apply_frame_input(&mut s, &down);
    assert_eq!(s.selected_peer, usize::MAX);
}

#[test]
fn clicks_select_peers() {
    let mut s = GuiState::new(String::new());
    for id in ["a", "b", "c"] {
        apply_ui_event(&mut s, connected(id, true));
    }
    let mut click = no_input();
    click.clicked = Some(2);
    assert!(apply_frame_input(&mut s, &click).is_empty());
    assert_eq!(s.selected_peer, 2);
    click.clicked = Some(3);
    apply_frame_input(&mut s, &click);
    assert_eq!(s.selected_peer, 2);
    // A click comes before the keys of the same frame, and Tab before Up and Down.
    click.clicked = Some(0);
    click.tab = true;
    click.down = true;
    apply_frame_input(&mut s, &click);
    assert_eq!(s.selected_peer, 2);
}

#[test]
fn both_front_ends_move_alike() {
    let mut gui = GuiState::new(String::new());
    let mut tui = TuiState::start(String::new(), 0);
    for id in ["a", "b"] {
        apply_ui_event(&mut gui, connected(id, true));
        handle_ui_event(&mut tui, connected(id, true));
    }
    let mut down = no_input();
    down.down = true;
    let mut up = no_input();
    up.up = true;
    for (input, key) in [
        (&down, KeyCode::Down),
        (&down, KeyCode::Down),
        (&up, KeyCode::Up),
        (&up, KeyCode::Up),
    ] {
        apply_frame_input(&mut gui, input);
        press(&mut tui, key);
        assert_eq!(gui.selected_peer, tui.screen.selected_peer);
    }
    let mut quit = no_input();
    quit.quit = true;
    assert!(matches!(apply_frame_input(&mut gui, &quit)[..], [UserAction::Quit]));
    assert!(matches!(press(&mut tui, KeyCode::Esc), Some(UserAction::Quit)));
}

#[test]
fn identifiers_are_shortened() {
    assert_eq!(short_pid("abcdefghijklmnopqrst"), "abcdefghijklmnopqrst");
    assert_eq!(short_pid("abcdefghijklmnopqrstu"), "abcdefghijklmnopq...");
    assert_eq!(shorten("ééééééééééééééééééééé"), "ééééééééééééééééé...");
    assert_eq!(shorten(&shorten("abcdefghijklmnopqrstu")), "abcdefghijklmnopq...");
    assert_eq!(shorten(""), "");
}

#[test]
fn texts_and_numerals() {
    assert_eq!(join2("a", "é"), "aé");
    assert_eq!(join3("a", "", "c"), "ac");
    assert_eq!(decimal_text(0), "0");
    assert_eq!(decimal_text(9), "9");
    assert_eq!(decimal_text(10), "10");
    assert_eq!(decimal_text(u64::MAX), "18446744073709551615");
    assert!(sorts_before("a", "b"));
    assert!(sorts_before("a", "aa"));
    assert!(!sorts_before("a", "a"));
    assert!(!sorts_before("b", "a"));
    assert!(sorts_before("z", "é"));
    assert!(sorts_before("\u{ffff}", "\u{10000}"));
}

#[test]
fn tabs_visit_every_peer_once_in_order() {
    let mut state = TuiState::start(String::new(), 0);
    for id in ["a", "b", "c", "d"] {
        handle_ui_event(&mut state, connected(id, true));
    }
    press(&mut state, KeyCode::Down);
    let mut visited = Vec::new();
    for _ in 0..4 {
        visited.push(state.screen.selected_peer);
        press(&mut state, KeyCode::Tab);
    }
    assert_eq!(visited, vec![1, 2, 3, 0]);
    assert_eq!(state.screen.selected_peer, 1);
}

#[test]
fn each_line_is_in_the_log_of_its_kind() {
    let mut s = GuiState::new("me".to_string());
    apply_ui_event(&mut s, UiEvent::Info("i".to_string()));
    apply_ui_event(&mut s, UiEvent::ChatMessage { from: "a".into(), text: "t".into() });
    apply_ui_event(&mut s, UiEvent::Warn("w".to_string()));
    apply_ui_event(&mut s, connected("p", true));
    s.push("pushed".to_string(), EventKind::Chat);
    assert!(s.chat.iter().all(|e| e.kind == EventKind::Chat));
    assert!(s.events.iter().all(|e| e.kind != EventKind::Chat));
    assert_eq!((s.chat.len(), s.events.len()), (2, 3));
}
