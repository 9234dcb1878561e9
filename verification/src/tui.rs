//! The terminal front-end: the channel messages, the state behind the terminal screen, key
//! handling, and the text and geometry of its panels.
use vstd::prelude::*;

use crate::screen::{apply_ui_event, ChatScreen, EventKind};
use crate::text::{join2, shorten};

verus! {

/// Events sent from the node to a front-end.
#[derive(Debug, Clone)]
pub enum UiEvent {
    /// General info message.
    Info(String),
    /// Warning message.
    Warn(String),
    /// A peer connected.
    PeerConnected { peer_id: String, addr: String, direct: bool },
    /// A peer disconnected.
    PeerDisconnected { peer_id: String },
    /// A chat message was received (or echoed from us).
    ChatMessage { from: String, text: String },
    /// Number of peers in the persistent cache.
    CacheCount(usize),
    /// The local node's EndpointId.
    LocalPeerId(String),
}

/// Actions sent from a front-end to the node.
#[derive(Debug, Clone)]
pub enum UserAction {
    /// Broadcast a message to all peers via gossip.
    Broadcast { text: String },
    /// Quit the application.
    Quit,
}

/// What a [`UiEvent`] says, with its strings as character sequences.
#[verifier::ext_equal]
pub enum UiEventView {
    Info(Seq<char>),
    Warn(Seq<char>),
    PeerConnected { peer_id: Seq<char>, addr: Seq<char>, direct: bool },
    PeerDisconnected { peer_id: Seq<char> },
    ChatMessage { from: Seq<char>, text: Seq<char> },
    CacheCount(usize),
    LocalPeerId(Seq<char>),
}

impl View for UiEvent {
    type V = UiEventView;

    open spec fn view(&self) -> UiEventView {
        match *self {
            UiEvent::Info(message) => UiEventView::Info(message@),
            UiEvent::Warn(message) => UiEventView::Warn(message@),
            UiEvent::PeerConnected { peer_id, addr, direct } => UiEventView::PeerConnected {
                peer_id: peer_id@,
                addr: addr@,
                direct,
            },
            UiEvent::PeerDisconnected { peer_id } => UiEventView::PeerDisconnected {
                peer_id: peer_id@,
            },
            UiEvent::ChatMessage { from, text } => UiEventView::ChatMessage {
                from: from@,
                text: text@,
            },
            UiEvent::CacheCount(count) => UiEventView::CacheCount(count),
            UiEvent::LocalPeerId(id) => UiEventView::LocalPeerId(id@),
        }
    }
}

/// What a [`UserAction`] says.
#[verifier::ext_equal]
pub enum UserActionView {
    Broadcast { text: Seq<char> },
    Quit,
}

impl View for UserAction {
    type V = UserActionView;

    open spec fn view(&self) -> UserActionView {
        match *self {
            UserAction::Broadcast { text } => UserActionView::Broadcast { text: text@ },
            UserAction::Quit => UserActionView::Quit,
        }
    }
}

/// What polling the event channel brought.
pub enum Polled {
    /// An event was waiting.
    Event(UiEvent),
    /// Nothing is waiting.
    Empty,
    /// The node is gone.
    Disconnected,
}

/// A key, as far as the terminal front-end tells keys apart.
#[derive(Debug, Clone, Copy)]
pub enum KeyCode {
    Esc,
    Enter,
    Tab,
    Up,
    Down,
    Backspace,
    Char(char),
    Other,
}

/// A key press with the state of the control modifier.
#[derive(Debug, Clone, Copy)]
pub struct KeyPress {
    pub key: KeyCode,
    pub control: bool,
}

/// The state behind the terminal screen.
#[derive(Debug)]
pub struct TuiState {
    pub screen: ChatScreen,
    pub should_quit: bool,
}

/// The content of a [`TuiState`].
#[verifier::ext_equal]
pub struct TuiView {
    pub screen: crate::screen::ScreenView,
    pub should_quit: bool,
}

impl View for TuiState {
    type V = TuiView;

    open spec fn view(&self) -> TuiView {
        TuiView { screen: self.screen@, should_quit: self.should_quit }
    }
}

impl TuiView {
    /// The state after a key press, and the action that the press sends to the node.
    ///
    /// Escape and control-C quit. Enter sends the input line, unless it is empty, and clears it.
    /// Tab moves the selection to the next peer, past the last one back to the first; Up and
    /// Down move it by one and stop at the ends. Backspace deletes the last character, and any
    /// other character is typed.
    pub open spec fn pressed(self, press: KeyPress) -> (TuiView, Option<UserActionView>) {
        let screen = self.screen;
        let quit = (TuiView { should_quit: true, ..self }, Some(UserActionView::Quit));
        match press.key {
            KeyCode::Esc => quit,
            KeyCode::Enter => if screen.input.len() == 0 {
                (self, None)
            } else {
                (
                    self.with_input(Seq::empty()),
                    Some(UserActionView::Broadcast { text: screen.input }),
                )
            },
            KeyCode::Tab => if screen.peers.len() == 0 {
                (self, None)
            } else {
                (self.with_selected((screen.selected + 1) % screen.peers.len() as int), None)
            },
            KeyCode::Up => if screen.selected > 0 {
                (self.with_selected(screen.selected - 1), None)
            } else {
                (self, None)
            },
            KeyCode::Down => if screen.selected + 1 < screen.peers.len() {
                (self.with_selected(screen.selected + 1), None)
            } else {
                (self, None)
            },
            KeyCode::Backspace => if screen.input.len() == 0 {
                (self, None)
            } else {
                (self.with_input(screen.input.drop_last()), None)
            },
            KeyCode::Char(c) => if c == 'c' && press.control {
                quit
            } else {
                (self.with_input(screen.input.push(c)), None)
            },
            KeyCode::Other => (self, None),
        }
    }

    /// The state with another input line.
    pub open spec fn with_input(self, input: Seq<char>) -> TuiView {
        TuiView { screen: crate::screen::ScreenView { input, ..self.screen }, ..self }
    }

    /// The state with another selection.
    pub open spec fn with_selected(self, selected: int) -> TuiView {
        TuiView {
            screen: crate::screen::ScreenView { selected: selected as usize, ..self.screen },
            ..self
        }
    }

    /// The state after one poll of the event channel.
    pub open spec fn polled(self, polled: Polled) -> TuiView {
        match polled {
            Polled::Event(event) => TuiView { screen: self.screen.after(event@), ..self },
            Polled::Empty => self,
            Polled::Disconnected => TuiView { should_quit: true, ..self },
        }
    }
}

impl TuiState {
    /// The state at startup, with the first line in the event log.
    pub fn start(our_peer_id: String, initial_cache_count: usize) -> (state: TuiState)
        ensures
            state@ == (TuiView {
                screen: (crate::screen::ScreenView {
                    chat: Seq::empty(),
                    events: Seq::empty(),
                    peers: Seq::empty(),
                    our_peer_id: our_peer_id@,
                    cache_count: initial_cache_count,
                    input: Seq::empty(),
                    selected: 0,
                }).logged("hatch-chat TUI started"@, EventKind::System),
                should_quit: false,
            }),
            state@.screen.well_formed(),
    {
        let mut screen = ChatScreen::new(our_peer_id);
        screen.cache_count = initial_cache_count;
        screen.push("hatch-chat TUI started".to_owned(), EventKind::System);
        TuiState { screen, should_quit: false }
    }
}

/// Applies a node event.
pub fn handle_ui_event(state: &mut TuiState, event: UiEvent)
    ensures
        final(state)@ == (TuiView {
            screen: old(state)@.screen.after(event@),
            ..old(state)@
        }),
{
    apply_ui_event(&mut state.screen, event);
}

/// Takes in what one poll of the event channel brought and says whether to poll again before
/// drawing.
pub fn handle_polled(state: &mut TuiState, polled: Polled) -> (again: bool)
    ensures
        final(state)@ == old(state)@.polled(polled),
        again == (polled is Event),
{
    match polled {
        Polled::Event(event) => {
            handle_ui_event(state, event);
            true
        },
        Polled::Empty => false,
        Polled::Disconnected => {
            state.should_quit = true;
            false
        },
    }
}

/// Handles a key press and returns the action to send to the node, if any.
pub fn handle_key_event(state: &mut TuiState, press: KeyPress) -> (action: Option<UserAction>)
    requires
        press.key is Down || (press.key is Tab && old(state).screen.connected_peers@.len() > 0)
            ==> old(state).screen.selected_peer < usize::MAX,
    ensures
        final(state)@ == old(state)@.pressed(press).0,
        match action {
            Some(sent) => old(state)@.pressed(press).1 == Some(sent@),
            None => old(state)@.pressed(press).1 is None,
        },
{
    match press.key {
        KeyCode::Esc => {
            state.should_quit = true;
            Some(UserAction::Quit)
        },
        KeyCode::Enter => {
            if state.screen.input.as_str().is_empty() {
                None
            } else {
                let mut text = String::new();
                std::mem::swap(&mut text, &mut state.screen.input);
                Some(UserAction::Broadcast { text })
            }
        },
        KeyCode::Tab => {
            if state.screen.connected_peers.len() > 0 {
                state.screen.selected_peer = (state.screen.selected_peer + 1)
                    % state.screen.connected_peers.len();
            }
            None
        },
        KeyCode::Up => {
            if state.screen.selected_peer > 0 {
                state.screen.selected_peer = state.screen.selected_peer - 1;
            }
            None
        },
        KeyCode::Down => {
            if state.screen.selected_peer + 1 < state.screen.connected_peers.len() {
                state.screen.selected_peer = state.screen.selected_peer + 1;
            }
            None
        },
        KeyCode::Backspace => {
            state.screen.input.pop();
            None
        },
        KeyCode::Char(c) => {
            if c == 'c' && press.control {
                state.should_quit = true;
                Some(UserAction::Quit)
            } else {
                state.screen.input.push(c);
                None
            }
        },
        KeyCode::Other => None,
    }
}

/// The colour of a log line.
#[derive(Debug, Clone, Copy, PartialEq, Eq, Structural)]
pub enum LineColor {
    Cyan,
    Green,
    Yellow,
    Gray,
}

/// The tag in front of a log line of the given kind.
pub open spec fn line_prefix_text(kind: EventKind) -> Seq<char> {
    match kind {
        EventKind::System => "[System] "@,
        EventKind::Warn => "[WARN] "@,
        EventKind::Chat | EventKind::Info => ""@,
    }
}

/// The tag in front of a log line and the colour of the line.
pub fn line_style(kind: EventKind) -> (style: (&'static str, LineColor))
    ensures
        style.0@ == line_prefix_text(kind),
        style.1 == match kind {
            EventKind::System => LineColor::Cyan,
            EventKind::Chat => LineColor::Green,
            EventKind::Warn => LineColor::Yellow,
            EventKind::Info => LineColor::Gray,
        },
{
    match kind {
        EventKind::System => ("[System] ", LineColor::Cyan),
        EventKind::Chat => ("", LineColor::Green),
        EventKind::Warn => ("[WARN] ", LineColor::Yellow),
        EventKind::Info => ("", LineColor::Gray),
    }
}

/// The index of the first visible line of a log with `total` lines in a panel of `height` rows.
pub fn first_visible(total: usize, height: usize) -> (first: usize)
    ensures
        first <= total,
        total <= height ==> first == 0,
        total > height ==> total - first == height,
{
    if total > height {
        total - height
    } else {
        0
    }
}

/// The cursor column in the input panel: behind the border, the prompt and the input, but never
/// right of the panel's last column. `input_len` is the input's length in bytes.
pub fn cursor_column(area_x: u16, area_width: u16, input_len: usize) -> (column: u16)
    requires
        area_x + 3 + input_len as int % 0x1_0000 <= u16::MAX,
        area_x + area_width <= 0x1_0000,
    ensures
        column == vstd::math::min(
            area_x + 3 + input_len as int % 0x1_0000,
            area_x + if area_width == 0 {
                0
            } else {
                area_width - 1
            },
        ),
{
    let offset: u16 = (input_len % 0x1_0000) as u16;
    let wanted: u16 = area_x + 3 + offset;
    let last: u16 = if area_width == 0 {
        area_x
    } else {
        area_x + (area_width - 1)
    };
    if wanted < last {
        wanted
    } else {
        last
    }
}

/// The input line with its prompt.
pub fn input_line(screen: &ChatScreen) -> (line: String)
    ensures
        line@ == "> "@ + screen@.input,
{
    join2("> ", screen.input.as_str())
}

/// The peer that is highlighted in the list: the selected one, if it is on the list.
pub fn highlighted_peer(screen: &ChatScreen) -> (index: Option<usize>)
    ensures
        index == if screen@.selected < screen@.peers.len() {
            Some(screen@.selected)
        } else {
            None
        },
{
    if screen.selected_peer < screen.connected_peers.len() {
        Some(screen.selected_peer)
    } else {
        None
    }
}

/// An identifier shortened for display.
pub fn short_pid(id: &str) -> (shown: String)
    ensures
        shown@ == crate::text::shortened(id@),
{
    shorten(id)
}

/// Key presses keep the screen well formed.
pub proof fn keys_keep_screens_well_formed(state: TuiView, press: KeyPress)
    requires
        state.screen.well_formed(),
        state.screen.peers.len() <= usize::MAX,
    ensures
        state.pressed(press).0.screen.well_formed(),
{
}

/// Escape and control-C quit and send exactly one quit action; no other key does either.
pub proof fn only_escape_and_control_c_quit(state: TuiView, press: KeyPress)
    requires
        !state.should_quit,
    ensures
        state.pressed(press).0.should_quit <==> (press.key is Esc || (press.key == KeyCode::Char('c')
            && press.control)),
        state.pressed(press).0.should_quit <==> state.pressed(press).1 == Some(
            UserActionView::Quit,
        ),
{
}

/// Typing a character and deleting it again gives the input line back.
pub proof fn backspace_undoes_typing(state: TuiView, c: char, control: bool)
    requires
        !(c == 'c' && control),
    ensures
        ({
            let typed = state.pressed(KeyPress { key: KeyCode::Char(c), control }).0;
            typed.pressed(KeyPress { key: KeyCode::Backspace, control: false }).0 == state
        }),
{
    let typed = state.pressed(KeyPress { key: KeyCode::Char(c), control }).0;
    assert(typed.screen.input.drop_last() =~= state.screen.input);
}

/// The state after Tab was pressed a number of times.
pub open spec fn tabbed(state: TuiView, times: nat) -> TuiView
    decreases times,
{
    if times == 0 {
        state
    } else {
        tabbed(state, (times - 1) as nat).pressed(KeyPress { key: KeyCode::Tab, control: false }).0
    }
}

/// Each Tab moves the selection one place on, from the last peer to the first, and changes
/// nothing else.
pub proof fn tabs_move_through_peers_in_order(state: TuiView, times: nat)
    requires
        state.screen.selected < state.screen.peers.len() <= usize::MAX,
    ensures
        tabbed(state, times) == state.with_selected(
            (state.screen.selected + times) % state.screen.peers.len() as int,
        ),
    decreases times,
{
    let n = state.screen.peers.len() as int;
    if times == 0 {
        vstd::arithmetic::div_mod::lemma_small_mod(state.screen.selected as nat, n as nat);
    } else {
        tabs_move_through_peers_in_order(state, (times - 1) as nat);
        let before = (state.screen.selected + times - 1) % n;
        vstd::arithmetic::div_mod::lemma_mod_bound(state.screen.selected + times - 1, n);
        vstd::arithmetic::div_mod::lemma_add_mod_noop_right(
            1,
            state.screen.selected + times - 1,
            n,
        );
        assert((before + 1) % n == (state.screen.selected + times) % n);
    }
}

/// Within as many Tabs as there are peers, each peer is selected exactly once, the one that was
/// selected at the start counted with no Tab.
pub proof fn tabs_visit_every_peer_once(state: TuiView, target: usize)
    requires
        state.screen.selected < state.screen.peers.len() <= usize::MAX,
        target < state.screen.peers.len(),
    ensures
        ({
            let n = state.screen.peers.len();
            let distance = if target >= state.screen.selected {
                target - state.screen.selected
            } else {
                target - state.screen.selected + n
            };
            &&& 0 <= distance < n
            &&& forall|times: nat|
                times < n ==> ((#[trigger] tabbed(state, times)).screen.selected == target <==> times
                    == distance)
        }),
{
    let n = state.screen.peers.len() as int;
    let start = state.screen.selected as int;
    assert forall|times: nat| times < n implies (#[trigger] tabbed(
        state,
        times,
    )).screen.selected as int == if start + times < n {
        start + times
    } else {
        start + times - n
    } by {
        tabs_move_through_peers_in_order(state, times);
        if start + times < n {
            vstd::arithmetic::div_mod::lemma_small_mod((start + times) as nat, n as nat);
        } else {
            vstd::arithmetic::div_mod::lemma_small_mod((start + times - n) as nat, n as nat);
            vstd::arithmetic::div_mod::lemma_mod_add_multiples_vanish(start + times - n, n);
        }
    }
}

/// Pressing Tab as often as there are peers brings the selection back to where it was.
pub proof fn tab_cycles_through_all_peers(state: TuiView)
    requires
        state.screen.selected < state.screen.peers.len() <= usize::MAX,
    ensures
        tabbed(state, state.screen.peers.len()) == state,
{
    let n = state.screen.peers.len();
    tabs_move_through_peers_in_order(state, n);
    assert((state.screen.selected + n) % (n as int) == state.screen.selected) by {
        vstd::arithmetic::div_mod::lemma_mod_add_multiples_vanish(
            state.screen.selected as int,
            n as int,
        );
        vstd::arithmetic::div_mod::lemma_small_mod(state.screen.selected as nat, n);
    }
}

} // verus!
