//! The desktop front-end: how one frame's input changes the screen and what it sends to the node.
use vstd::prelude::*;

use crate::screen::{ChatScreen, EventKind};
use crate::text::join3;
use crate::tui::{Polled, UserAction};

pub use crate::screen::apply_ui_event;

verus! {

/// The state behind the desktop window.
pub type GuiState = ChatScreen;

/// The keyboard and window input of one frame.
#[derive(Debug)]
pub struct FrameInput {
    /// The characters typed since the last frame, in order.
    pub typed: Vec<char>,
    pub backspace: bool,
    /// The place in the peer list that was clicked, if one was.
    pub clicked: Option<usize>,
    pub tab: bool,
    pub up: bool,
    pub down: bool,
    pub enter: bool,
    /// Escape was pressed or the window is to be closed.
    pub quit: bool,
}

/// What a front-end does after it polled the event channel.
#[derive(Debug, Clone, Copy, PartialEq, Eq, Structural)]
pub enum AfterPoll {
    /// Poll again.
    Again,
    /// Draw the frame.
    Draw,
    /// Ask the node to quit and close the window.
    Leave,
}

/// Whether a character is a control character: the code points below U+0020 and those from
/// U+007F to U+009F.
pub open spec fn is_control_char(c: char) -> bool {
    c as u32 <= 0x1f || 0x7f <= c as u32 <= 0x9f
}

/// Whether a character is a control character.
fn is_control(c: char) -> (control: bool)
    ensures
        control == is_control_char(c),
{
    let code = c as u32;
    code <= 0x1f || (0x7f <= code && code <= 0x9f)
}

/// The input line after the typed characters and, if it was pressed, the backspace.
pub open spec fn edited(input: Seq<char>, typed: Seq<char>, backspace: bool) -> Seq<char> {
    let longer = input + typed.filter(|c: char| !is_control_char(c));
    if backspace && longer.len() > 0 {
        longer.drop_last()
    } else {
        longer
    }
}

/// The selection on a list of `len` peers after one frame's input: a click selects the clicked
/// peer, Tab moves to the next peer, past the last one back to the first, and Up and Down move by
/// one and stop at the ends, in this order.
pub open spec fn moved(selected: int, len: int, input: FrameInput) -> int {
    let clicked = match input.clicked {
        Some(index) if index < len => index as int,
        _ => selected,
    };
    let tabbed = if input.tab && len > 0 {
        (clicked + 1) % len
    } else {
        clicked
    };
    let raised = if input.up && tabbed > 0 {
        tabbed - 1
    } else {
        tabbed
    };
    if input.down && raised + 1 < len {
        raised + 1
    } else {
        raised
    }
}

impl crate::screen::ScreenView {
    /// The screen after one frame's input: printable characters are typed, backspace deletes one,
    /// clicks, Tab, Up and Down move the selection, and Enter clears a line that is not empty.
    pub open spec fn after_frame(self, input: FrameInput) -> Self {
        let line = edited(self.input, input.typed@, input.backspace);
        crate::screen::ScreenView {
            input: if input.enter {
                Seq::empty()
            } else {
                line
            },
            selected: moved(self.selected as int, self.peers.len() as int, input) as usize,
            ..self
        }
    }

    /// What one frame's input sends to the node: Enter broadcasts a line that is not empty, and
    /// after that comes the wish to quit.
    pub open spec fn frame_actions(self, input: FrameInput) -> Seq<crate::tui::UserActionView> {
        let line = edited(self.input, input.typed@, input.backspace);
        let sent = if input.enter && line.len() > 0 {
            seq![crate::tui::UserActionView::Broadcast { text: line }]
        } else {
            seq![]
        };
        if input.quit {
            sent.push(crate::tui::UserActionView::Quit)
        } else {
            sent
        }
    }
}

/// The contents of a list of actions.
pub open spec fn action_views(actions: Seq<UserAction>) -> Seq<crate::tui::UserActionView> {
    Seq::new(actions.len(), |i: int| actions[i]@)
}

/// Types the printable characters.
fn type_chars(state: &mut GuiState, typed: &Vec<char>)
    ensures
        final(state)@ == (crate::screen::ScreenView {
            input: old(state)@.input + typed@.filter(|c: char| !is_control_char(c)),
            ..old(state)@
        }),
{
    let ghost printable = |c: char| !is_control_char(c);
    let mut i: usize = 0;
    proof {
        reveal(Seq::filter);
        assert(typed@.take(0).filter(printable) =~= Seq::empty());
        assert(state@.input =~= old(state)@.input + typed@.take(0).filter(printable));
    }
    while i < typed.len()
        invariant
            printable == (|c: char| !is_control_char(c)),
            i <= typed@.len(),
            state@ == (crate::screen::ScreenView {
                input: old(state)@.input + typed@.take(i as int).filter(printable),
                ..old(state)@
            }),
        decreases typed@.len() - i,
    {
        proof {
            reveal(Seq::filter);
            assert(typed@.take(i + 1).drop_last() =~= typed@.take(i as int));
        }
        if !is_control(typed[i]) {
            state.input.push(typed[i]);
            assert(state@.input =~= old(state)@.input + typed@.take(i + 1).filter(printable));
        }
        i = i + 1;
    }
    assert(typed@.take(i as int) =~= typed@);
}

/// Moves the selection by the clicks and keys of one frame.
fn move_selection(state: &mut GuiState, input: &FrameInput)
    requires
        input.tab && old(state).connected_peers@.len() > 0 ==> old(state).selected_peer
            < usize::MAX,
    ensures
        final(state)@ == (crate::screen::ScreenView {
            selected: moved(
                old(state)@.selected as int,
                old(state)@.peers.len() as int,
                *input,
            ) as usize,
            ..old(state)@
        }),
{
    let count = state.connected_peers.len();
    if let Some(index) = input.clicked {
        if index < count {
            state.selected_peer = index;
        }
    }
    if input.tab && count > 0 {
        state.selected_peer = (state.selected_peer + 1) % count;
    }
    if input.up && state.selected_peer > 0 {
        state.selected_peer = state.selected_peer - 1;
    }
    if input.down && count > 0 && state.selected_peer < count - 1 {
        state.selected_peer = state.selected_peer + 1;
    }
}

/// Applies one frame's input and returns the actions to send to the node, in order. The window
/// closes when the input asks to quit.
pub fn apply_frame_input(state: &mut GuiState, input: &FrameInput) -> (actions: Vec<UserAction>)
    requires
        input.tab && old(state).connected_peers@.len() > 0 ==> old(state).selected_peer
            < usize::MAX,
    ensures
        final(state)@ == old(state)@.after_frame(*input),
        action_views(actions@) == old(state)@.frame_actions(*input),
{
    let mut actions: Vec<UserAction> = Vec::new();
    type_chars(state, &input.typed);
    if input.backspace {
        state.input.pop();
    }
    let ghost line = state@.input;
    assert(line == edited(old(state)@.input, input.typed@, input.backspace));
    assert(state@.peers.len() == old(state)@.peers.len());
    move_selection(state, input);
    assert(action_views(actions@) =~= Seq::empty());
    if input.enter && !state.input.as_str().is_empty() {
        let mut text = String::new();
        std::mem::swap(&mut text, &mut state.input);
        actions.push(UserAction::Broadcast { text });
        assert(action_views(actions@) =~= seq![
            crate::tui::UserActionView::Broadcast { text: line },
        ]);
    }
    assert(input.enter ==> state@.input =~= Seq::empty());
    if input.quit {
        let ghost sent = action_views(actions@);
        actions.push(UserAction::Quit);
        assert(action_views(actions@) =~= sent.push(crate::tui::UserActionView::Quit));
    }
    actions
}

/// Takes in what one poll of the event channel brought. When the node is gone the window closes.
pub fn handle_polled(state: &mut GuiState, polled: Polled) -> (next: AfterPoll)
    ensures
        final(state)@ == match polled {
            Polled::Event(event) => old(state)@.after(event@),
            _ => old(state)@,
        },
        next == match polled {
            Polled::Event(_) => AfterPoll::Again,
            Polled::Empty => AfterPoll::Draw,
            Polled::Disconnected => AfterPoll::Leave,
        },
{
    match polled {
        Polled::Event(event) => {
            apply_ui_event(state, event);
            AfterPoll::Again
        },
        Polled::Empty => AfterPoll::Draw,
        Polled::Disconnected => AfterPoll::Leave,
    }
}

/// The input line with its prompt and cursor.
pub fn input_line(state: &GuiState) -> (line: String)
    ensures
        line@ == "> "@ + state@.input + "_"@,
{
    join3("> ", state.input.as_str(), "_")
}

/// The colour of a log line, as `0xRRGGBB`.
pub fn line_color(kind: EventKind) -> (color: u32)
    ensures
        color == match kind {
            EventKind::System => 0x66CCFFu32,
            EventKind::Chat => 0x66FF88u32,
            EventKind::Warn => 0xFFCC44u32,
            EventKind::Info => 0xAAAAAAu32,
        },
{
    match kind {
        EventKind::System => 0x66CCFF,
        EventKind::Chat => 0x66FF88,
        EventKind::Warn => 0xFFCC44,
        EventKind::Info => 0xAAAAAA,
    }
}

/// The colour of the peer at `index` in the list: the selected peer stands out.
pub fn peer_color(state: &GuiState, index: usize) -> (color: u32)
    ensures
        color == if index == state@.selected {
            0xFFFF66u32
        } else {
            0xCCCCCCu32
        },
{
    if index == state.selected_peer {
        0xFFFF66
    } else {
        0xCCCCCC
    }
}

/// A frame's input keeps the screen well formed and touches neither the logs nor the peer list.
pub proof fn frames_keep_screens_well_formed(
    screen: crate::screen::ScreenView,
    input: FrameInput,
)
    requires
        screen.well_formed(),
        screen.peers.len() <= usize::MAX,
    ensures
        ({
            let next = screen.after_frame(input);
            &&& next.well_formed()
            &&& next.chat == screen.chat
            &&& next.events == screen.events
            &&& next.peers == screen.peers
        }),
{
}

/// The two front-ends agree: a frame with a single Enter, Tab, Up, Down, backspace, printable
/// character or wish to quit leaves the same screen, and sends the same action, as the same key
/// press in the terminal, where Escape stands for the wish to quit.
pub proof fn front_ends_agree(screen: crate::screen::ScreenView, input: FrameInput, c: char)
    requires
        !is_control_char(c),
        input.clicked is None,
    ensures
        ({
            let terminal = crate::tui::TuiView { screen, should_quit: false };
            let same_as = |key: crate::tui::KeyCode|
                {
                    let pressed = terminal.pressed(
                        crate::tui::KeyPress { key, control: false },
                    );
                    &&& screen.after_frame(input) == pressed.0.screen
                    &&& input.quit == pressed.0.should_quit
                    &&& screen.frame_actions(input) == match pressed.1 {
                        Some(action) => seq![action],
                        None => seq![],
                    }
                };
            let nothing_typed = input.typed@ == Seq::<char>::empty();
            let keys = (
                input.enter,
                input.tab,
                input.up,
                input.down,
                input.backspace,
                input.quit,
            );
            &&& nothing_typed && keys == (true, false, false, false, false, false) ==> same_as(
                crate::tui::KeyCode::Enter,
            )
            &&& nothing_typed && keys == (false, true, false, false, false, false) ==> same_as(
                crate::tui::KeyCode::Tab,
            )
            &&& nothing_typed && keys == (false, false, true, false, false, false) ==> same_as(
                crate::tui::KeyCode::Up,
            )
            &&& nothing_typed && keys == (false, false, false, true, false, false) ==> same_as(
                crate::tui::KeyCode::Down,
            )
            &&& nothing_typed && keys == (false, false, false, false, true, false) ==> same_as(
                crate::tui::KeyCode::Backspace,
            )
            &&& nothing_typed && keys == (false, false, false, false, false, true) ==> same_as(
                crate::tui::KeyCode::Esc,
            )
            &&& input.typed@ == seq![c] && keys == (false, false, false, false, false, false)
                ==> same_as(crate::tui::KeyCode::Char(c))
        }),
{
    reveal_with_fuel(Seq::filter, 2);
    let printable = |c: char| !is_control_char(c);
    assert(Seq::<char>::empty().filter(printable) =~= Seq::empty());
    assert(seq![c].drop_last() =~= Seq::empty());
    assert(seq![c].filter(printable) =~= seq![c]);
    assert(screen.input + Seq::<char>::empty() =~= screen.input);
    assert(screen.input + seq![c] =~= screen.input.push(c));
    if screen.input.len() == 0 {
        assert(screen.input =~= Seq::empty());
    }
    assert(Seq::<crate::tui::UserActionView>::empty().push(crate::tui::UserActionView::Quit)
        =~= seq![crate::tui::UserActionView::Quit]);
}

/// A click on a peer selects it, whatever was selected before; a click beside the list changes
/// nothing.
pub proof fn clicking_selects_the_peer(screen: crate::screen::ScreenView, input: FrameInput)
    requires
        input.clicked is Some,
        !input.tab,
        !input.up,
        !input.down,
    ensures
        screen.after_frame(input).selected == if input.clicked->0 < screen.peers.len() {
            input.clicked->0
        } else {
            screen.selected
        },
{
}

} // verus!
