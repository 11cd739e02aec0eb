//! Laws of the transition table, stated and proved over the
//! mathematical model of the interaction state.

use vstd::prelude::*;

use crate::app::CurrentScreen;
use crate::app::CurrentlyEditing;
use crate::app::KeyPress;
use crate::app::Model;
use crate::app::Signal;
use crate::app::init;
use crate::app::next;
use crate::app::signal_of;

verus! {

/// A state is well-placed when a field is being edited only on the
/// Editing screen. (That the screen is always exactly one of Main,
/// Editing and Exiting is given by the `CurrentScreen` type itself.)
pub open spec fn field_only_while_editing(m: Model) -> bool {
    m.editing is Some ==> m.screen is Editing
}

/// One key press preserves well-placement.
pub proof fn lemma_next_preserves_field_placement(m: Model, key: KeyPress)
    requires
        field_only_while_editing(m),
    ensures
        field_only_while_editing(next(m, key)),
{
}

/// The state after a whole sequence of key presses, first press first.
pub open spec fn run(m: Model, keys: Seq<KeyPress>) -> Model
    decreases keys.len(),
{
    if keys.len() == 0 {
        m
    } else {
        run(next(m, keys[0]), keys.drop_first())
    }
}

/// Well-placement holds after every sequence of key presses from a
/// well-placed state.
pub proof fn lemma_run_preserves_field_placement(m: Model, keys: Seq<KeyPress>)
    requires
        field_only_while_editing(m),
    ensures
        field_only_while_editing(run(m, keys)),
    decreases keys.len(),
{
    if keys.len() > 0 {
        lemma_next_preserves_field_placement(m, keys[0]);
        lemma_run_preserves_field_placement(next(m, keys[0]), keys.drop_first());
    }
}

/// From the initial state, every sequence of key presses leaves a
/// field being edited only while the Editing screen is active.
pub proof fn lemma_reachable_field_placement(keys: Seq<KeyPress>)
    ensures
        field_only_while_editing(run(init(), keys)),
{
    lemma_run_preserves_field_placement(init(), keys);
}

/// A key press the transition table ignores in the given state: it
/// matches no row that moves the state or ends the interaction.
pub open spec fn ignored(m: Model, key: KeyPress) -> bool {
    match m.screen {
        CurrentScreen::Main => (match key {
            KeyPress::Char(c) => c != 'e' && c != 'q',
            _ => true,
        }),
        CurrentScreen::Exiting => (match key {
            KeyPress::Char(c) => c != 'y' && c != 'n',
            _ => true,
        }),
        CurrentScreen::Editing => (match key {
            KeyPress::Other => true,
            KeyPress::Tab => false,
            KeyPress::Enter => m.editing is None,
            KeyPress::Backspace => m.editing is None,
            KeyPress::Char(_) => m.editing is None,
        }),
    }
}

/// An ignored key press leaves the whole state — screen, edited
/// field, both scratch texts and the pair map — unchanged, and the
/// interaction goes on.
pub proof fn lemma_ignored_key_is_noop(m: Model, key: KeyPress)
    requires
        ignored(m, key),
    ensures
        next(m, key) == m,
        signal_of(m, key) == Signal::Continue,
{
}

/// Commit law: from Editing with the Value field active and scratch
/// texts K and V, Enter maps K to V, clears both texts, and returns
/// to Main with no field being edited.
pub proof fn lemma_commit(m: Model)
    requires
        m.screen is Editing,
        m.editing == Some(CurrentlyEditing::Value),
    ensures
        next(m, KeyPress::Enter).pairs == m.pairs.insert(m.key_input, m.value_input),
        next(m, KeyPress::Enter).pairs[m.key_input] == m.value_input,
        next(m, KeyPress::Enter).key_input == Seq::<char>::empty(),
        next(m, KeyPress::Enter).value_input == Seq::<char>::empty(),
        next(m, KeyPress::Enter).screen is Main,
        next(m, KeyPress::Enter).editing is None,
{
}

/// Toggle law: while a field is being edited, two Tab presses in a
/// row restore the edited field — indeed the whole state.
pub proof fn lemma_tab_twice(m: Model)
    requires
        m.screen is Editing,
        m.editing is Some,
    ensures
        next(next(m, KeyPress::Tab), KeyPress::Tab).editing == m.editing,
        next(next(m, KeyPress::Tab), KeyPress::Tab) == m,
{
    assert(next(next(m, KeyPress::Tab), KeyPress::Tab) =~= m);
}

/// Backspace never fails: on empty text (or with no field set) it
/// leaves the whole state unchanged.
pub proof fn lemma_backspace_on_empty(m: Model)
    requires
        m.screen is Editing,
        (match m.editing {
            Some(CurrentlyEditing::Key) => m.key_input.len() == 0,
            Some(CurrentlyEditing::Value) => m.value_input.len() == 0,
            None => true,
        }),
    ensures
        next(m, KeyPress::Backspace) == m,
{
    assert(next(m, KeyPress::Backspace) =~= m);
}

} // verus!
