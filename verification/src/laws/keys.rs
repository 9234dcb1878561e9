//! Laws of the terminal front-end: what each key does to the screen and sends to the node.
use vstd::prelude::*;

use crate::screen::EventKind;
use crate::tui::{KeyCode, KeyPress, Polled, UiEvent};

verus! {

/// Whether the two states agree in all but the input line and the selection.
pub open spec fn same_but_input_and_selection(
    a: crate::tui::TuiView,
    b: crate::tui::TuiView,
) -> bool {
    &&& a.screen.chat == b.screen.chat
    &&& a.screen.events == b.screen.events
    &&& a.screen.peers == b.screen.peers
    &&& a.screen.our_peer_id == b.screen.our_peer_id
    &&& a.screen.cache_count == b.screen.cache_count
    &&& a.should_quit == b.should_quit
}

/// No key touches the logs, the peers, the local id or the count, and only quitting sets the wish
/// to quit.
pub proof fn keys_touch_input_and_selection_only(state: crate::tui::TuiView, press: KeyPress)
    ensures
        ({
            let next = state.pressed(press).0;
            &&& next.screen.chat == state.screen.chat
            &&& next.screen.events == state.screen.events
            &&& next.screen.peers == state.screen.peers
            &&& next.screen.our_peer_id == state.screen.our_peer_id
            &&& next.screen.cache_count == state.screen.cache_count
            &&& state.should_quit ==> next.should_quit
        }),
{
}

/// A typed character, with or without control but for control-C, stands at the end of the input
/// line, behind all that was there, and nothing is sent.
pub proof fn typed_characters_are_appended(state: crate::tui::TuiView, c: char, control: bool)
    requires
        !(c == 'c' && control),
    ensures
        ({
            let (next, sent) = state.pressed(KeyPress { key: KeyCode::Char(c), control });
            let n = state.screen.input.len() as int;
            &&& next.screen.input.len() == n + 1
            &&& forall|i: int|
                0 <= i < n ==> #[trigger] next.screen.input[i] == state.screen.input[i]
            &&& next.screen.input[n] == c
            &&& next.screen.selected == state.screen.selected
            &&& same_but_input_and_selection(next, state)
            &&& sent is None
        }),
{
}

/// Backspace takes the last character off the input line and no other, and does nothing to an
/// empty line; nothing is sent.
pub proof fn backspace_takes_the_last_character(state: crate::tui::TuiView, control: bool)
    ensures
        ({
            let (next, sent) = state.pressed(KeyPress { key: KeyCode::Backspace, control });
            let n = state.screen.input.len() as int;
            &&& n == 0 ==> next.screen.input.len() == 0
            &&& n > 0 ==> next.screen.input.len() == n - 1
            &&& forall|i: int|
                0 <= i < n - 1 ==> #[trigger] next.screen.input[i] == state.screen.input[i]
            &&& next.screen.selected == state.screen.selected
            &&& same_but_input_and_selection(next, state)
            &&& sent is None
        }),
{
}

/// Enter sends the input line, whole, and empties it; on an empty line it sends nothing.
pub proof fn enter_sends_the_whole_line(state: crate::tui::TuiView, control: bool)
    ensures
        ({
            let (next, sent) = state.pressed(KeyPress { key: KeyCode::Enter, control });
            &&& state.screen.input.len() == 0 ==> sent is None
            &&& state.screen.input.len() > 0 ==> sent is Some && sent->0 is Broadcast
                && sent->0->text == state.screen.input
            &&& next.screen.input.len() == 0
            &&& next.screen.selected == state.screen.selected
            &&& same_but_input_and_selection(next, state)
        }),
{
}

/// Escape and control-C ask the node to quit, and leave the screen as it is.
pub proof fn quitting_is_sent_and_noted(state: crate::tui::TuiView, control: bool)
    ensures
        ({
            let (next, sent) = state.pressed(KeyPress { key: KeyCode::Esc, control });
            next.should_quit && next.screen == state.screen && sent == Some(
                crate::tui::UserActionView::Quit,
            )
        }),
        ({
            let (next, sent) = state.pressed(KeyPress { key: KeyCode::Char('c'), control: true });
            next.should_quit && next.screen == state.screen && sent == Some(
                crate::tui::UserActionView::Quit,
            )
        }),
{
}

/// Tab selects the next peer, and the first one behind the last; Up and Down select the peer
/// before and behind, and stay at the ends. The input line stays, and nothing is sent.
pub proof fn arrows_and_tab_move_by_one(state: crate::tui::TuiView, control: bool)
    requires
        state.screen.peers.len() <= usize::MAX,
    ensures
        ({
            let (tab, sent_tab) = state.pressed(KeyPress { key: KeyCode::Tab, control });
            let (up, sent_up) = state.pressed(KeyPress { key: KeyCode::Up, control });
            let (down, sent_down) = state.pressed(KeyPress { key: KeyCode::Down, control });
            let at = state.screen.selected;
            let n = state.screen.peers.len();
            &&& at + 1 < n ==> tab.screen.selected == at + 1
            &&& at + 1 == n ==> tab.screen.selected == 0
            &&& n > 0 ==> tab.screen.selected < n
            &&& n == 0 ==> tab.screen.selected == at
            &&& at > 0 ==> up.screen.selected == at - 1
            &&& at == 0 ==> up.screen.selected == 0
            &&& at + 1 < n ==> down.screen.selected == at + 1
            &&& at + 1 >= n ==> down.screen.selected == at
            &&& tab.screen.input == state.screen.input
            &&& up.screen.input == state.screen.input
            &&& down.screen.input == state.screen.input
            &&& same_but_input_and_selection(tab, state)
            &&& same_but_input_and_selection(up, state)
            &&& same_but_input_and_selection(down, state)
            &&& sent_tab is None && sent_up is None && sent_down is None
        }),
{
    let n = state.screen.peers.len() as int;
    let at = state.screen.selected as int;
    if n > 0 {
        vstd::arithmetic::div_mod::lemma_mod_bound(at + 1, n);
        if at + 1 < n {
            vstd::arithmetic::div_mod::lemma_small_mod((at + 1) as nat, n as nat);
        } else if at + 1 == n {
            vstd::arithmetic::div_mod::lemma_mod_self_0(n);
        }
    }
}

/// A key without a meaning of its own changes nothing and sends nothing.
pub proof fn other_keys_do_nothing(state: crate::tui::TuiView, control: bool)
    ensures
        state.pressed(KeyPress { key: KeyCode::Other, control }) == (
            state,
            None::<crate::tui::UserActionView>,
        ),
{
}

/// Typing a text character by character and pressing Enter sends exactly that text behind what was
/// in the input line before.
pub proof fn typed_texts_are_sent_whole(state: crate::tui::TuiView, text: Seq<char>)
    requires
        text.len() > 0,
    ensures
        typed(state, text).pressed(KeyPress { key: KeyCode::Enter, control: false }).1 == Some(
            crate::tui::UserActionView::Broadcast { text: state.screen.input + text },
        ),
{
    lemma_typed(state, text);
}

/// The state after a text was typed character by character.
pub open spec fn typed(state: crate::tui::TuiView, text: Seq<char>) -> crate::tui::TuiView
    decreases text.len(),
{
    if text.len() == 0 {
        state
    } else {
        typed(state, text.drop_last()).pressed(
            KeyPress { key: KeyCode::Char(text.last()), control: false },
        ).0
    }
}

proof fn lemma_typed(state: crate::tui::TuiView, text: Seq<char>)
    ensures
        typed(state, text).screen.input == state.screen.input + text,
    decreases text.len(),
{
    if text.len() == 0 {
        assert(state.screen.input + text =~= state.screen.input);
    } else {
        let before = typed(state, text.drop_last());
        lemma_typed(state, text.drop_last());
        typed_characters_are_appended(before, text.last(), false);
        assert(typed(state, text).screen.input =~= state.screen.input + text);
    }
}

/// A waiting event is applied to the screen as it came, nothing changes where none waits, and the
/// loss of the node is the wish to quit.
pub proof fn polling_applies_events(state: crate::tui::TuiView, event: UiEvent)
    ensures
        state.polled(Polled::Event(event)).screen == state.screen.after(event@),
        state.polled(Polled::Event(event)).should_quit == state.should_quit,
        state.polled(Polled::Empty) == state,
        state.polled(Polled::Disconnected).should_quit,
        state.polled(Polled::Disconnected).screen == state.screen,
{
}

/// System lines and warnings carry a tag, chat and info lines none.
pub proof fn tags_tell_kinds_apart()
    ensures
        crate::tui::line_prefix_text(EventKind::System) == "[System] "@,
        crate::tui::line_prefix_text(EventKind::Warn) == "[WARN] "@,
        crate::tui::line_prefix_text(EventKind::Chat).len() == 0,
        crate::tui::line_prefix_text(EventKind::Info).len() == 0,
{
    reveal_strlit("");
}

/// What is said of the terminal's state is said of all of it.
pub proof fn terminal_states_are_seen_whole(state: crate::tui::TuiState)
    ensures
        state@.screen == state.screen@,
        state@.should_quit == state.should_quit,
{
}

} // verus!
