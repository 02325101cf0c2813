//! What holds of the editor whatever keys arrive.
use vstd::prelude::*;
use crate::history::lemma_appended_no_repeats;
use crate::screen::Screen;
use crate::terminal::state::{anchor_row, Event, Key, State};
use crate::text::trimmed;

verus! {

/// A key leaves the invariant of the state in place.
pub proof fn lemma_step_keeps_invariant(st: State, event: Event)
    requires
        st.wf(),
    ensures
        st.step(event).0.wf(),
{
    reveal(State::step);
    lemma_appended_no_repeats(st.history, st.confirmed_line());
    let next = st.step(event).0;
    assert(next.catalog == st.catalog);
    if next.buffer == st.buffer {
        assert(next.suggestions() == st.suggestions());
    }
}

/// No key rewrites the past: the prompt and the catalog stay, and the
/// history stays or gains one line at its end.
pub proof fn lemma_step_keeps_the_past(st: State, event: Event)
    ensures
        st.step(event).0.prefix == st.prefix,
        st.step(event).0.catalog == st.catalog,
        st.step(event).0.history == st.history || exists|line: Seq<char>|
            st.step(event).0.history == st.history.push(line),
        st.step(event).1 is None ==> st.step(event).0.history == st.history,
{
    reveal(State::step);
    let after = st.step(event).0.history;
    if after != st.history {
        assert(after == st.history.push(st.confirmed_line()));
    }
}

/// Any sequence of keys leaves the invariant of the state in place.
pub proof fn lemma_keys_keep_invariant(st: State, events: Seq<Event>)
    requires
        st.wf(),
    ensures
        st.after(events).wf(),
    decreases events.len(),
{
    if events.len() > 0 {
        lemma_keys_keep_invariant(st, events.drop_last());
        lemma_step_keeps_invariant(st.after(events.drop_last()), events.last());
    }
}

/// The cursor never leaves the line: after each key of any sequence of keys,
/// of which typing and deleting are two kinds, its column lies between 1 and
/// one past the length of the line.
pub proof fn lemma_cursor_stays_in_line(st: State, events: Seq<Event>)
    requires
        st.wf(),
    ensures
        forall|k: int|
            0 <= k <= events.len() ==> 1 <= (#[trigger] st.after(events.take(k))).cursor
                <= st.after(events.take(k)).buffer.len() + 1,
{
    assert forall|k: int| 0 <= k <= events.len() implies 1 <= (#[trigger] st.after(
        events.take(k),
    )).cursor <= st.after(events.take(k)).buffer.len() + 1 by {
        lemma_keys_keep_invariant(st, events.take(k));
    }
}

/// On a screen that has room for the overlay and one more row, the overlay
/// ends on the screen: the line stays where the overlay fits below it, and
/// else moves up by exactly the rows that did not fit.
pub proof fn lemma_anchor_makes_room(screen: Screen, size: int)
    requires
        0 <= size,
        size + 1 <= screen.height,
    ensures
        anchor_row(screen, size) + size + 1 <= screen.height,
        screen.row + size + 1 <= screen.height ==> anchor_row(screen, size) == screen.row,
        screen.row + size + 1 > screen.height ==> screen.row - anchor_row(screen, size)
            == screen.row + size + 1 - screen.height,
{
}

/// Drawing the overlay changes nothing but what is drawn, and what it draws
/// ends by putting the cursor back at its column.
pub proof fn lemma_overlay_restores_cursor(st: State, screen: Screen)
    ensures
        st.show_suggestions(screen) == (State {
            output: st.show_suggestions(screen).output,
            ..st
        }),
        exists|drawn: Seq<char>, row: u16|
            st.overlay(screen) == drawn + crate::screen::goto_sequence(st.column(), row),
{
    let list = st.suggestions();
    if list.len() == 0 {
        let drawn = crate::terminal::state::clear_below(st.column(), screen)
            + crate::terminal::state::full_line(st.prefix, st.buffer, screen.row);
        assert(st.overlay(screen) == drawn + crate::screen::goto_sequence(
            st.column(),
            screen.row,
        ));
    } else {
        let row = crate::terminal::state::anchor_row(screen, list.len() as int);
        let whole = st.overlay(screen);
        let end = crate::screen::goto_sequence(st.column(), row);
        let drawn = whole.take(whole.len() - end.len());
        assert(whole =~= drawn + end);
    }
}

/// The key that confirms the line.
pub open spec fn enter(screen: Screen) -> Event {
    Event { key: Key::Char('\n'), screen }
}

/// Confirming an empty line with nothing chosen adds nothing to the history
/// and does not end the read cycle: the cycle goes on with the keys that
/// follow.
pub proof fn lemma_empty_confirm_goes_on(st: State, screen: Screen, rest: Seq<Event>)
    requires
        st.wf(),
        st.buffer.len() == 0,
        st.selection == 0,
    ensures
        st.step(enter(screen)).1 is None,
        st.step(enter(screen)).0.history == st.history,
        st.run(seq![enter(screen)] + rest) == st.step(enter(screen)).0.run(rest),
{
    reveal(State::step);
    assert(trimmed(st.buffer) =~= Seq::<char>::empty());
    let events = seq![enter(screen)] + rest;
    assert(events[0] == enter(screen));
    assert(events.skip(1) =~= rest);
}

/// Every key of `events` is the one that cycles the selection forward.
pub open spec fn all_cycle_forward(events: Seq<Event>) -> bool {
    forall|i: int| 0 <= i < events.len() ==> (#[trigger] events[i]).key == Key::Char('\t')
}

/// Cycling forward counts up and stops at the end of the list: after `n`
/// presses the selection has grown by `n`, or stands on the last suggestion
/// where fewer were left. The line stays as it is.
pub proof fn lemma_cycle_forward_clamps(st: State, events: Seq<Event>)
    requires
        st.wf(),
        all_cycle_forward(events),
    ensures
        st.after(events).buffer == st.buffer,
        st.after(events).catalog == st.catalog,
        st.after(events).selection == if st.selection + events.len() <= st.suggestions().len() {
            st.selection + events.len()
        } else {
            st.suggestions().len() as int
        },
    decreases events.len(),
{
    reveal(State::step);
    if events.len() > 0 {
        let before = events.drop_last();
        assert forall|i: int| 0 <= i < before.len() implies (#[trigger] before[i]).key == Key::Char(
            '\t',
        ) by {
            assert(before[i] == events[i]);
        }
        lemma_cycle_forward_clamps(st, before);
        lemma_keys_keep_invariant(st, before);
        assert(events.last() == events[events.len() - 1]);
    }
}

/// Whether going one line back in the history and one line forward again
/// leaves the line as it was. Within the history that is so where the line
/// is the one that navigation stands on. At the oldest line going back does
/// nothing, so the line must be the second oldest, unless there is no
/// second. Behind the newest line going forward does nothing, so the line
/// must be the newest.
pub open spec fn navigation_returns(st: State) -> bool {
    if st.history_index == 0 {
        st.history.len() <= 1 || st.buffer == st.history[1]
    } else if st.history_index < st.history.len() {
        st.buffer == st.history[st.history_index]
    } else {
        st.buffer == st.history[st.history.len() - 1]
    }
}

/// Going one line back in the history and then one line forward, with no
/// key between the two, restores the line exactly where `navigation_returns`
/// holds: for one, wherever the line is a line of the history that has a
/// line before it.
pub proof fn lemma_navigation_round_trip(st: State, up: Screen, down: Screen)
    requires
        st.wf(),
    ensures
        navigation_returns(st) <==> st.navigate_prev(up).navigate_next(down).buffer == st.buffer,
        0 < st.history_index < st.history.len() ==> st.navigate_prev(up).navigate_next(
            down,
        ).history_index == st.history_index,
{
}

} // verus!
