//! The interaction state machine: screens, the field being edited, the
//! in-progress key/value text, and the committed pair list.

use vstd::prelude::*;

verus! {

/// Relies on `String::push` of std: it appends the given character to
/// the end of the string.
pub assume_specification[ String::push ](s: &mut String, ch: char)
    ensures
        final(s)@ == old(s)@.push(ch),
;

/// Relies on `String::pop` of std: it removes the last character of
/// the string and returns it, returning `None` on an empty string.
pub assume_specification[ String::pop ](s: &mut String) -> (r: Option<char>)
    ensures
        old(s)@.len() == 0 ==> r == None::<char> && final(s)@ == old(s)@,
        old(s)@.len() > 0 ==> r == Some(old(s)@.last()) && final(s)@ == old(s)@.drop_last(),
;

/// Which top-level screen of the interaction is active.
#[derive(Clone, Copy, Debug, PartialEq, Eq, Structural)]
pub enum CurrentScreen {
    Main,
    Editing,
    Exiting,
}

/// Which of the two text inputs receives characters while editing.
#[derive(Clone, Copy, Debug, PartialEq, Eq, Structural)]
pub enum CurrentlyEditing {
    Key,
    Value,
}

/// One key press, as the state machine sees it. Release events and keys
/// outside this set are mapped to `Other` (or dropped) by the hosting loop.
#[derive(Clone, Copy, Debug, PartialEq, Eq, Structural)]
pub enum KeyPress {
    Char(char),
    Enter,
    Backspace,
    Tab,
    Other,
}

/// What the controller tells the hosting loop after each key press:
/// keep going, or stop, with a flag saying whether the pair list
/// should be emitted.
#[derive(Clone, Copy, Debug, PartialEq, Eq, Structural)]
pub enum Signal {
    Continue,
    Terminate(bool),
}

/// The one fallible class of the system: the pair map could not be
/// encoded for output. The encoding used here is total, so no state
/// ever produces it; it stays in the interface for the caller to
/// handle.
#[derive(Clone, Copy, Debug, PartialEq, Eq, Structural)]
pub struct SerializationError;

/// Mathematical view of the whole interaction state: the two scratch
/// texts as character sequences, the committed pairs as a map, and the
/// screen/field position.
#[verifier::ext_equal]
pub ghost struct Model {
    pub key_input: Seq<char>,
    pub value_input: Seq<char>,
    pub pairs: Map<Seq<char>, Seq<char>>,
    pub screen: CurrentScreen,
    pub editing: Option<CurrentlyEditing>,
}

/// The map that a pair list denotes: later entries win, though under
/// `unique_keys` every key occurs at most once.
pub open spec fn map_of(s: Seq<(String, String)>) -> Map<Seq<char>, Seq<char>>
    decreases s.len(),
{
    if s.len() == 0 {
        Map::empty()
    } else {
        map_of(s.drop_last()).insert(s.last().0@, s.last().1@)
    }
}

/// No two entries of the pair list share a key.
pub open spec fn unique_keys(s: Seq<(String, String)>) -> bool {
    forall|i: int, j: int| 0 <= i < j < s.len() ==> s[i].0@ != s[j].0@
}

/// Some entry of the pair list has key `k`.
pub open spec fn has_key(s: Seq<(String, String)>, k: Seq<char>) -> bool {
    exists|i: int| 0 <= i < s.len() && s[i].0@ == k
}

/// The text with its last character removed; empty text is unchanged.
pub open spec fn chopped(s: Seq<char>) -> Seq<char> {
    if s.len() == 0 {
        s
    } else {
        s.drop_last()
    }
}

/// The field toggle: Key and Value swap; an unset field becomes Key.
pub open spec fn toggled(e: Option<CurrentlyEditing>) -> Option<CurrentlyEditing> {
    match e {
        Some(CurrentlyEditing::Key) => Some(CurrentlyEditing::Value),
        Some(CurrentlyEditing::Value) => Some(CurrentlyEditing::Key),
        None => Some(CurrentlyEditing::Key),
    }
}

/// The state at program start: empty texts, no pairs, Main screen,
/// no field being edited.
pub open spec fn init() -> Model {
    Model {
        key_input: Seq::empty(),
        value_input: Seq::empty(),
        pairs: Map::empty(),
        screen: CurrentScreen::Main,
        editing: None,
    }
}

/// A character appended to whichever input is being edited; a no-op
/// when no field is set.
pub open spec fn pushed(m: Model, c: char) -> Model {
    match m.editing {
        Some(CurrentlyEditing::Key) => Model { key_input: m.key_input.push(c), ..m },
        Some(CurrentlyEditing::Value) => Model { value_input: m.value_input.push(c), ..m },
        None => m,
    }
}

/// The last character removed from whichever input is being edited;
/// a no-op on empty text or when no field is set.
pub open spec fn popped(m: Model) -> Model {
    match m.editing {
        Some(CurrentlyEditing::Key) => Model { key_input: chopped(m.key_input), ..m },
        Some(CurrentlyEditing::Value) => Model { value_input: chopped(m.value_input), ..m },
        None => m,
    }
}

/// The scratch pair committed: the map gains (key, value), both texts
/// are cleared, the screen returns to Main, and no field is edited.
pub open spec fn committed(m: Model) -> Model {
    Model {
        key_input: Seq::empty(),
        value_input: Seq::empty(),
        pairs: m.pairs.insert(m.key_input, m.value_input),
        screen: CurrentScreen::Main,
        editing: None,
    }
}

/// The transition table: the state after one key press.
pub open spec fn next(m: Model, key: KeyPress) -> Model {
    match m.screen {
        CurrentScreen::Main => (match key {
            KeyPress::Char(c) => if c == 'e' {
                Model { screen: CurrentScreen::Editing, editing: Some(CurrentlyEditing::Key), ..m }
            } else if c == 'q' {
                Model { screen: CurrentScreen::Exiting, ..m }
            } else {
                m
            },
            _ => m,
        }),
        CurrentScreen::Exiting => m,
        CurrentScreen::Editing => (match key {
            KeyPress::Enter => (match m.editing {
                Some(CurrentlyEditing::Key) => Model { editing: Some(CurrentlyEditing::Value), ..m },
                Some(CurrentlyEditing::Value) => committed(m),
                None => m,
            }),
            KeyPress::Backspace => popped(m),
            KeyPress::Tab => Model { editing: toggled(m.editing), ..m },
            KeyPress::Char(c) => pushed(m, c),
            KeyPress::Other => m,
        }),
    }
}

/// What the hosting loop is told after one key press: only the Exiting
/// screen ends the interaction, `y` with emission, `n` without.
pub open spec fn signal_of(m: Model, key: KeyPress) -> Signal {
    if m.screen is Exiting && key == KeyPress::Char('y') {
        Signal::Terminate(true)
    } else if m.screen is Exiting && key == KeyPress::Char('n') {
        Signal::Terminate(false)
    } else {
        Signal::Continue
    }
}

/// A key that occurs in no entry of the pair list is absent from the
/// map the list denotes.
proof fn lemma_map_of_absent(s: Seq<(String, String)>, k: Seq<char>)
    requires
        !has_key(s, k),
    ensures
        !map_of(s).contains_key(k),
    decreases s.len(),
{
    if s.len() > 0 {
        assert(s[s.len() - 1].0@ != k);
        assert(!has_key(s.drop_last(), k)) by {
            assert forall|i: int| 0 <= i < s.drop_last().len() implies s.drop_last()[i].0@ != k by {
                assert(s.drop_last()[i] == s[i]);
            }
        }
        lemma_map_of_absent(s.drop_last(), k);
    }
}

/// Removing the one entry that carries key `k` from a pair list with
/// unique keys removes exactly `k` from the denoted map, and leaves a
/// list with unique keys, none of them `k`.
proof fn lemma_map_of_remove(s: Seq<(String, String)>, i: int)
    requires
        unique_keys(s),
        0 <= i < s.len(),
    ensures
        map_of(s.remove(i)) == map_of(s).remove(s[i].0@),
        unique_keys(s.remove(i)),
        !has_key(s.remove(i), s[i].0@),
    decreases s.len(),
{
    let k = s[i].0@;
    let r = s.remove(i);
    s.remove_ensures(i);
    assert(unique_keys(r)) by {
        assert forall|a: int, b: int| 0 <= a < b < r.len() implies r[a].0@ != r[b].0@ by {
            let a0: int = if a < i { a } else { a + 1 };
            let b0: int = if b < i { b } else { b + 1 };
            assert(r[a] == s[a0]);
            assert(r[b] == s[b0]);
        }
    }
    assert(!has_key(r, k)) by {
        assert forall|a: int| 0 <= a < r.len() implies r[a].0@ != k by {
            let a0: int = if a < i { a } else { a + 1 };
            assert(r[a] == s[a0]);
            assert(s[a0].0@ != s[i].0@);
        }
    }
    if i == s.len() - 1 {
        assert(r =~= s.drop_last());
        assert(!has_key(s.drop_last(), k));
        lemma_map_of_absent(s.drop_last(), k);
        assert(map_of(s) == map_of(s.drop_last()).insert(k, s.last().1@));
        assert(map_of(s).remove(k) =~= map_of(s.drop_last()));
    } else {
        assert(s.len() >= 2);
        let d = s.drop_last();
        assert(unique_keys(d)) by {
            assert forall|a: int, b: int| 0 <= a < b < d.len() implies d[a].0@ != d[b].0@ by {
                assert(d[a] == s[a]);
                assert(d[b] == s[b]);
            }
        }
        assert(d[i] == s[i]);
        lemma_map_of_remove(d, i);
        assert(r.drop_last() =~= d.remove(i)) by {
            d.remove_ensures(i);
        }
        assert(r.last() == s.last());
        assert(map_of(r) == map_of(d.remove(i)).insert(s.last().0@, s.last().1@));
        assert(s.last().0@ != k);
        assert(map_of(d).remove(k).insert(s.last().0@, s.last().1@) =~= map_of(
            d,
        ).insert(s.last().0@, s.last().1@).remove(k));
    }
}

/// Appending an entry to a pair list inserts its key and value into
/// the denoted map.
proof fn lemma_map_of_push(s: Seq<(String, String)>, p: (String, String))
    ensures
        map_of(s.push(p)) == map_of(s).insert(p.0@, p.1@),
{
    assert(s.push(p).drop_last() =~= s);
    assert(s.push(p).last() == p);
}

/// The index of the entry that carries `key`, if any: `None` means no
/// entry does.
fn find_key(pairs: &Vec<(String, String)>, key: &String) -> (r: Option<usize>)
    ensures
        (match r {
            Some(i) => i < pairs@.len() && pairs@[i as int].0@ == key@,
            None => !has_key(pairs@, key@),
        }),
{
    let n = pairs.len();
    let mut i: usize = 0;
    while i < n
        invariant
            i <= n,
            n == pairs@.len(),
            forall|j: int| 0 <= j < i ==> pairs@[j].0@ != key@,
        decreases n - i,
    {
        if pairs[i].0 == *key {
            return Some(i);
        }
        i += 1;
    }
    None
}

/// The interaction state: scratch texts, committed pairs, and the
/// screen/field position. The committed pairs are held as a list whose
/// keys stay unique (see [`App::wf`]), and denote the map [`map_of`].
pub struct App {
    /// The key currently being typed.
    pub key_input: String,
    /// The value currently being typed.
    pub value_input: String,
    /// The committed pairs; keys are unique, order carries no meaning.
    pub pairs: Vec<(String, String)>,
    /// The screen the user is on.
    pub current_screen: CurrentScreen,
    /// The field receiving input, if any; set only while editing.
    pub currently_editing: Option<CurrentlyEditing>,
}

impl App {
    /// The pair list never holds two entries with the same key.
    pub open spec fn wf(self) -> bool {
        unique_keys(self.pairs@)
    }

    /// The state this value stands for.
    pub open spec fn model(self) -> Model {
        Model {
            key_input: self.key_input@,
            value_input: self.value_input@,
            pairs: map_of(self.pairs@),
            screen: self.current_screen,
            editing: self.currently_editing,
        }
    }

    /// A fresh interaction: empty texts, no pairs, Main screen.
    pub fn new() -> (app: App)
        ensures
            app.wf(),
            app.model() == init(),
    {
        let app = App {
            key_input: String::new(),
            value_input: String::new(),
            pairs: Vec::new(),
            current_screen: CurrentScreen::Main,
            currently_editing: None,
        };
        proof {
            assert(app.model() =~= init());
        }
        app
    }

    /// Commit the scratch pair: `(key_input, value_input)` goes into
    /// the pair map, overwriting any prior value for the same key —
    /// an empty or repeated key is allowed. Both scratch texts are
    /// cleared and no field is edited afterwards; the screen does not
    /// change here.
    pub fn save_key_value(&mut self)
        requires
            old(self).wf(),
        ensures
            final(self).wf(),
            map_of(final(self).pairs@) == map_of(old(self).pairs@).insert(
                old(self).key_input@,
                old(self).value_input@,
            ),
            final(self).key_input@ == Seq::<char>::empty(),
            final(self).value_input@ == Seq::<char>::empty(),
            final(self).currently_editing == None::<CurrentlyEditing>,
            final(self).current_screen == old(self).current_screen,
    {
        let ghost pairs0 = self.pairs@;
        let ghost k = self.key_input@;
        match find_key(&self.pairs, &self.key_input) {
            Some(i) => {
                let _ = self.pairs.remove(i);
                proof {
                    lemma_map_of_remove(pairs0, i as int);
                }
            },
            None => {
                proof {
                    lemma_map_of_absent(pairs0, k);
                }
            },
        }
        let ghost pairs1 = self.pairs@;
        let pair = (self.key_input.clone(), self.value_input.clone());
        self.pairs.push(pair);
        proof {
            lemma_map_of_push(pairs1, pair);
            assert(map_of(self.pairs@) =~= map_of(pairs0).insert(k, old(self).value_input@));
            assert(unique_keys(self.pairs@)) by {
                assert forall|a: int, b: int|
                    0 <= a < b < self.pairs@.len() implies self.pairs@[a].0@
                    != self.pairs@[b].0@ by {
                    if b == self.pairs@.len() - 1 {
                        assert(self.pairs@[a] == pairs1[a]);
                        assert(!has_key(pairs1, k));
                    } else {
                        assert(self.pairs@[a] == pairs1[a]);
                        assert(self.pairs@[b] == pairs1[b]);
                    }
                }
            }
        }
        self.key_input = String::new();
        self.value_input = String::new();
        self.currently_editing = None;
    }

    /// Append `c` to whichever input is being edited; a no-op when no
    /// field is set. The pairs and the screen/field position are
    /// untouched.
    pub fn push_to_active(&mut self, c: char)
        ensures
            final(self).model() == pushed(old(self).model(), c),
            final(self).pairs == old(self).pairs,
            final(self).current_screen == old(self).current_screen,
            final(self).currently_editing == old(self).currently_editing,
    {
        match &self.currently_editing {
            Some(CurrentlyEditing::Key) => self.key_input.push(c),
            Some(CurrentlyEditing::Value) => self.value_input.push(c),
            None => {},
        }
        proof {
            assert(self.model() =~= pushed(old(self).model(), c));
        }
    }

    /// Remove the last character of whichever input is being edited; a
    /// no-op on empty text or when no field is set — in particular it
    /// never fails. The pairs and the screen/field position are
    /// untouched.
    pub fn pop_from_active(&mut self)
        ensures
            final(self).model() == popped(old(self).model()),
            final(self).pairs == old(self).pairs,
            final(self).current_screen == old(self).current_screen,
            final(self).currently_editing == old(self).currently_editing,
    {
        match &self.currently_editing {
            Some(CurrentlyEditing::Key) => {
                let _ = self.key_input.pop();
            },
            Some(CurrentlyEditing::Value) => {
                let _ = self.value_input.pop();
            },
            None => {},
        }
        proof {
            assert(self.model() =~= popped(old(self).model()));
        }
    }

    /// Swap the edited field between Key and Value; an unset field
    /// becomes Key. Nothing else changes.
    pub fn toggle_editing(&mut self)
        ensures
            final(self).currently_editing == toggled(old(self).currently_editing),
            final(self).key_input == old(self).key_input,
            final(self).value_input == old(self).value_input,
            final(self).pairs == old(self).pairs,
            final(self).current_screen == old(self).current_screen,
    {
        if let Some(edit_mode) = &self.currently_editing {
            match edit_mode {
                CurrentlyEditing::Key => self.currently_editing = Some(CurrentlyEditing::Value),
                CurrentlyEditing::Value => self.currently_editing = Some(CurrentlyEditing::Key),
            }
        } else {
            self.currently_editing = Some(CurrentlyEditing::Key);
        }
    }
    /// The committed pairs encoded as one flat JSON object, each key
    /// mapped to its value. The encoding is total: the call always
    /// succeeds, and the error case is never returned.
    pub fn serialize(&self) -> (r: Result<String, SerializationError>)
        ensures
            (r matches Ok(s) && s@ == crate::json::object(self.pairs@)),
    {
        Ok(crate::json::pairs_to_json(&self.pairs))
    }

    /// Feed one key press through the transition table: the state
    /// moves to `next(old state, key)` and the hosting loop is told
    /// `signal_of(old state, key)` — `Terminate` only from the Exiting
    /// screen, on `y` (emit) or `n` (do not emit).
    pub fn handle_key(&mut self, key: KeyPress) -> (r: Signal)
        requires
            old(self).wf(),
        ensures
            final(self).wf(),
            final(self).model() == next(old(self).model(), key),
            r == signal_of(old(self).model(), key),
    {
        match self.current_screen {
            CurrentScreen::Main => {
                match key {
                    KeyPress::Char(c) => {
                        if c == 'e' {
                            self.current_screen = CurrentScreen::Editing;
                            self.currently_editing = Some(CurrentlyEditing::Key);
                        } else if c == 'q' {
                            self.current_screen = CurrentScreen::Exiting;
                        }
                    },
                    _ => {},
                }
            },
            CurrentScreen::Exiting => {
                match key {
                    KeyPress::Char(c) => {
                        if c == 'y' {
                            return Signal::Terminate(true);
                        }
                        if c == 'n' {
                            return Signal::Terminate(false);
                        }
                    },
                    _ => {},
                }
            },
            CurrentScreen::Editing => {
                match key {
                    KeyPress::Enter => {
                        match &self.currently_editing {
                            Some(CurrentlyEditing::Key) => {
                                self.currently_editing = Some(CurrentlyEditing::Value);
                            },
                            Some(CurrentlyEditing::Value) => {
                                self.save_key_value();
                                self.current_screen = CurrentScreen::Main;
                                proof {
                                    assert(self.model() =~= committed(old(self).model()));
                                }
                            },
                            None => {},
                        }
                    },
                    KeyPress::Backspace => self.pop_from_active(),
                    KeyPress::Tab => self.toggle_editing(),
                    KeyPress::Char(c) => self.push_to_active(c),
                    KeyPress::Other => {},
                }
            },
        }
        proof {
            assert(self.model() =~= next(old(self).model(), key));
        }
        Signal::Continue
    }
}

} // verus!
