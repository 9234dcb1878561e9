//! Laws of the desktop front-end: what one frame's input does to the screen and sends to the node.
use vstd::prelude::*;

use crate::gui::FrameInput;
use crate::tui::UserAction;

verus! {

/// Whether the frame brings no key, no click and no wish to quit beside what was typed.
pub open spec fn only_typed(input: FrameInput) -> bool {
    &&& !input.backspace
    &&& input.clicked is None
    &&& !input.tab
    &&& !input.up
    &&& !input.down
    &&& !input.enter
    &&& !input.quit
}

/// A frame touches neither the logs, nor the peers, nor the local id, nor the count.
pub proof fn frames_touch_input_and_selection_only(
    screen: crate::screen::ScreenView,
    input: FrameInput,
)
    ensures
        ({
            let next = screen.after_frame(input);
            &&& next.chat == screen.chat
            &&& next.events == screen.events
            &&& next.peers == screen.peers
            &&& next.our_peer_id == screen.our_peer_id
            &&& next.cache_count == screen.cache_count
        }),
{
}

/// Whether a character has a code point below 32 or from 127 to 159.
pub open spec fn control(c: char) -> bool {
    (c as int) < 32 || 127 <= (c as int) <= 159
}

/// A printable character that was typed stands at the end of the input line; a control character
/// leaves the line as it is. Nothing is sent.
pub proof fn printable_characters_are_appended(
    screen: crate::screen::ScreenView,
    input: FrameInput,
    c: char,
)
    requires
        only_typed(input),
        input.typed@ == seq![c],
    ensures
        ({
            let line = screen.after_frame(input).input;
            let n = screen.input.len() as int;
            &&& control(c) ==> line == screen.input
            &&& !control(c) ==> line.len() == n + 1 && line[n] == c && forall|i: int|
                0 <= i < n ==> #[trigger] line[i] == screen.input[i]
            &&& screen.after_frame(input).selected == screen.selected
            &&& screen.frame_actions(input).len() == 0
        }),
{
    reveal_with_fuel(Seq::filter, 2);
    let line = screen.after_frame(input).input;
    assert(seq![c].drop_last() =~= Seq::empty());
    let printable = |c: char| !crate::gui::is_control_char(c);
    if control(c) {
        assert(seq![c].filter(printable) =~= Seq::empty());
        assert(line =~= screen.input);
    } else {
        assert(seq![c].filter(printable) =~= seq![c]);
        assert(line =~= screen.input.push(c));
    }
}

/// Typing in one frame is typing the same characters over two frames.
pub proof fn typing_may_be_split(
    screen: crate::screen::ScreenView,
    whole: FrameInput,
    first: FrameInput,
    second: FrameInput,
)
    requires
        only_typed(whole),
        only_typed(first),
        only_typed(second),
        whole.typed@ == first.typed@ + second.typed@,
    ensures
        screen.after_frame(whole) == screen.after_frame(first).after_frame(second),
        screen.after_frame(whole).input.len() <= screen.input.len() + whole.typed@.len(),
{
    let printable = |c: char| !crate::gui::is_control_char(c);
    lemma_filter_split(first.typed@, second.typed@, printable);
    let (a, b) = (first.typed@.filter(printable), second.typed@.filter(printable));
    assert(screen.input + (a + b) =~= (screen.input + a) + b);
    lemma_filter_len(whole.typed@, printable);
}

proof fn lemma_filter_len(list: Seq<char>, keep: spec_fn(char) -> bool)
    ensures
        list.filter(keep).len() <= list.len(),
    decreases list.len(),
{
    reveal(Seq::filter);
    if list.len() > 0 {
        lemma_filter_len(list.drop_last(), keep);
    }
}

proof fn lemma_filter_split(a: Seq<char>, b: Seq<char>, keep: spec_fn(char) -> bool)
    ensures
        (a + b).filter(keep) == a.filter(keep) + b.filter(keep),
    decreases b.len(),
{
    reveal(Seq::filter);
    if b.len() == 0 {
        assert(a + b =~= a);
        assert(a.filter(keep) + b.filter(keep) =~= a.filter(keep));
    } else {
        let front = b.drop_last();
        lemma_filter_split(a, front, keep);
        assert((a + b).drop_last() =~= a + front);
        assert((a + b).last() == b.last());
        assert((a + b).filter(keep) =~= a.filter(keep) + b.filter(keep));
    }
}

/// A frame without any input changes nothing and sends nothing.
pub proof fn idle_frames_change_nothing(screen: crate::screen::ScreenView, input: FrameInput)
    requires
        only_typed(input),
        input.typed@.len() == 0,
    ensures
        screen.after_frame(input) == screen,
        screen.frame_actions(input).len() == 0,
{
    reveal(Seq::filter);
    let printable = |c: char| !crate::gui::is_control_char(c);
    assert(input.typed@.filter(printable) =~= Seq::empty());
    assert(screen.after_frame(input).input =~= screen.input);
}

/// Backspace takes one character off the end of the line as the same frame without it, Enter and
/// quitting leaves it, and does nothing to an empty line.
pub proof fn backspace_takes_one_character_off(
    screen: crate::screen::ScreenView,
    input: FrameInput,
    plain: FrameInput,
)
    requires
        only_typed(plain),
        plain.typed@ == input.typed@,
        input.backspace,
        !input.enter,
    ensures
        ({
            let line = screen.after_frame(plain).input;
            let left = screen.after_frame(input).input;
            &&& line.len() == 0 ==> left.len() == 0
            &&& line.len() > 0 ==> left.len() == line.len() - 1
            &&& forall|i: int| 0 <= i < line.len() - 1 ==> #[trigger] left[i] == line[i]
        }),
{
}

/// Enter sends the line as the same frame without Enter leaves it, whole, and empties it; an empty
/// line is not sent. The wish to quit is sent behind it, and only then, and nothing else is sent.
pub proof fn enter_sends_the_edited_line(
    screen: crate::screen::ScreenView,
    input: FrameInput,
    without: FrameInput,
)
    requires
        without.typed@ == input.typed@,
        without.backspace == input.backspace,
        !without.enter,
    ensures
        ({
            let line = screen.after_frame(without).input;
            let sent = screen.frame_actions(input);
            let broadcasts: int = if input.enter && line.len() > 0 {
                1
            } else {
                0
            };
            let quits: int = if input.quit {
                1
            } else {
                0
            };
            &&& input.enter ==> screen.after_frame(input).input.len() == 0
            &&& !input.enter ==> screen.after_frame(input).input == line
            &&& sent.len() == broadcasts + quits
            &&& broadcasts == 1 ==> sent[0] is Broadcast && sent[0]->text == line
            &&& quits == 1 ==> sent[sent.len() - 1] is Quit
        }),
{
}

/// A single click, Tab, Up or Down moves the selection as it says, and none of them leaves it where
/// it is.
pub proof fn single_keys_move_by_one(screen: crate::screen::ScreenView, input: FrameInput)
    requires
        screen.peers.len() <= usize::MAX,
    ensures
        ({
            let to = screen.after_frame(input).selected;
            let at = screen.selected;
            let n = screen.peers.len();
            let keys = (input.tab, input.up, input.down);
            &&& keys == (false, false, false) && input.clicked is None ==> to == at
            &&& keys == (false, false, false) && input.clicked is Some ==> to == (
            if input.clicked->0 < n {
                input.clicked->0
            } else {
                at
            })
            &&& keys == (true, false, false) && input.clicked is None ==> {
                &&& at + 1 < n ==> to == at + 1
                &&& at + 1 == n ==> to == 0
                &&& n > 0 ==> to < n
                &&& n == 0 ==> to == at
            }
            &&& keys == (false, true, false) && input.clicked is None ==> {
                &&& at > 0 ==> to == at - 1
                &&& at == 0 ==> to == 0
            }
            &&& keys == (false, false, true) && input.clicked is None ==> {
                &&& at + 1 < n ==> to == at + 1
                &&& at + 1 >= n ==> to == at
            }
        }),
{
    let n = screen.peers.len() as int;
    let at = screen.selected as int;
    if n > 0 {
        vstd::arithmetic::div_mod::lemma_mod_bound(at + 1, n);
        if at + 1 < n {
            vstd::arithmetic::div_mod::lemma_small_mod((at + 1) as nat, n as nat);
        } else if at + 1 == n {
            vstd::arithmetic::div_mod::lemma_mod_self_0(n);
        }
    }
}

/// Several of them in one frame act as in frames of their own: the click first, then Tab, then Up,
/// then Down.
pub proof fn keys_of_one_frame_act_in_turn(
    screen: crate::screen::ScreenView,
    input: FrameInput,
    click: FrameInput,
    tab: FrameInput,
    up: FrameInput,
    down: FrameInput,
)
    requires
        screen.selected < screen.peers.len() <= usize::MAX,
        (click.clicked, click.tab, click.up, click.down) == (input.clicked, false, false, false),
        (tab.clicked, tab.tab, tab.up, tab.down) == (None::<usize>, input.tab, false, false),
        (up.clicked, up.tab, up.up, up.down) == (None::<usize>, false, input.up, false),
        (down.clicked, down.tab, down.up, down.down) == (None::<usize>, false, false, input.down),
    ensures
        screen.after_frame(input).selected == screen.after_frame(click).after_frame(
            tab,
        ).after_frame(up).after_frame(down).selected,
{
    let n = screen.peers.len() as int;
    let clicked = screen.after_frame(click);
    assert(clicked.selected < n);
    vstd::arithmetic::div_mod::lemma_mod_bound(clicked.selected + 1, n);
}

/// What is said of a list of actions is said of each of them.
pub proof fn actions_are_seen_whole(actions: Seq<UserAction>, i: int)
    ensures
        crate::gui::action_views(actions).len() == actions.len(),
        0 <= i < actions.len() ==> crate::gui::action_views(actions)[i] == actions[i]@,
{
}

} // verus!
