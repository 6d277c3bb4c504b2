//! What the application decides between the terminal and the parts of the interface: the
//! number typed before a key, the keys typed so far and the bindings they match, the actions
//! it handles itself, and which parts receive an action.

use vstd::prelude::*;
use crate::action::{Action, ActionTarget, RoutedAction, render_request, to_all};
use crate::components::{ComponentName, Id};
use crate::keys::{KeyCode, KeyEvent, MAX_SEQUENCE_LENGTH, key_sequence_of, parse_key_sequence};
use crate::text::push_str;
use crate::ui_navigation::{
    Direction, NavigationError, UINavigation, View, components_of, grid_ok, has_component, nav_target,
    view_components,
};
use vstd::view::View as _;

verus! {

/// The value of a decimal digit.
pub open spec fn digit_value(c: char) -> Option<int> {
    if '0' <= c <= '9' {
        Some(c as int - '0' as int)
    } else {
        None
    }
}

/// `x`, but no more than `usize::MAX`.
pub open spec fn clamp_usize(x: int) -> int {
    if x > usize::MAX {
        usize::MAX as int
    } else {
        x
    }
}

/// The position of the first binding whose keys are `keys`.
pub open spec fn binding_of(keymap: Seq<(Vec<KeyEvent>, Action)>, keys: Seq<KeyEvent>) -> Option<int>
    decreases keymap.len(),
{
    if keymap.len() == 0 {
        None
    } else {
        match binding_of(keymap.drop_last(), keys) {
            Some(k) => Some(k),
            None => if keymap.last().0@ == keys {
                Some(keymap.len() - 1)
            } else {
                None
            },
        }
    }
}

/// The binding matched by the keys typed so far: the one for the longest end of them, from
/// the end that starts at `i` on (the whole of them for `i == 0`).
pub open spec fn suffix_binding(events: Seq<KeyEvent>, keymap: Seq<(Vec<KeyEvent>, Action)>, i: int) -> Option<int>
    decreases events.len() - i,
{
    if i < 0 || i >= events.len() {
        None
    } else {
        match binding_of(keymap, events.subrange(i, events.len() as int)) {
            Some(k) => Some(k),
            None => suffix_binding(events, keymap, i + 1),
        }
    }
}

/// The number typed before a key and the keys typed since the last binding matched.
pub struct KeyInput {
    pub current_prefix: usize,
    pub should_reset_prefix: bool,
    pub key_presses_since_should_reset: usize,
    pub last_tick_key_events: Vec<KeyEvent>,
}

impl KeyInput {
    /// No number, no keys.
    pub fn new() -> (r: Self)
        ensures
            r.current_prefix == 0,
            !r.should_reset_prefix,
            r.key_presses_since_should_reset == 0,
            r.last_tick_key_events@.len() == 0,
    {
        KeyInput {
            current_prefix: 0,
            should_reset_prefix: false,
            key_presses_since_should_reset: 0,
            last_tick_key_events: Vec::new(),
        }
    }

    /// Forgets the number typed.
    pub fn reset_prefix(&mut self)
        ensures
            final(self).current_prefix == 0,
            !final(self).should_reset_prefix,
            final(self).key_presses_since_should_reset == 0,
            final(self).last_tick_key_events@ == old(self).last_tick_key_events@,
    {
        self.key_presses_since_should_reset = 0;
        self.should_reset_prefix = false;
        self.current_prefix = 0;
    }

    /// Takes a key: a digit extends the number typed (up to the largest number), another
    /// character ends it, escape forgets it; the key is kept; once the number is ended, it is
    /// forgotten after as many more keys as a binding can have.
    pub fn record_key(&mut self, key: KeyEvent)
        ensures
            final(self).last_tick_key_events@ == old(self).last_tick_key_events@.push(key),
            ({
                let (p1, s1, c1) = match key.code {
                    KeyCode::Esc => (0int, false, 0int),
                    KeyCode::Char(ch) => if !old(self).should_reset_prefix {
                        match digit_value(ch) {
                            Some(d) => (
                                clamp_usize(clamp_usize(old(self).current_prefix * 10) + d),
                                false,
                                old(self).key_presses_since_should_reset as int,
                            ),
                            None => (
                                old(self).current_prefix as int,
                                true,
                                old(self).key_presses_since_should_reset as int,
                            ),
                        }
                    } else {
                        (
                            old(self).current_prefix as int,
                            old(self).should_reset_prefix,
                            old(self).key_presses_since_should_reset as int,
                        )
                    },
                    _ => (
                        old(self).current_prefix as int,
                        old(self).should_reset_prefix,
                        old(self).key_presses_since_should_reset as int,
                    ),
                };
                if s1 {
                    let c2 = clamp_usize(c1 + 1);
                    if c2 >= MAX_SEQUENCE_LENGTH {
                        &&& final(self).current_prefix == 0
                        &&& !final(self).should_reset_prefix
                        &&& final(self).key_presses_since_should_reset == 0
                    } else {
                        &&& final(self).current_prefix == p1
                        &&& final(self).should_reset_prefix
                        &&& final(self).key_presses_since_should_reset == c2
                    }
                } else {
                    &&& final(self).current_prefix == p1
                    &&& !final(self).should_reset_prefix
                    &&& final(self).key_presses_since_should_reset == c1
                }
            }),
    {
        match key.code {
            KeyCode::Char(c) => {
                if !self.should_reset_prefix {
                    if '0' <= c && c <= '9' {
                        let digit: usize = ((c as u32) - ('0' as u32)) as usize;
                        self.current_prefix = if self.current_prefix > usize::MAX / 10 {
                            usize::MAX
                        } else {
                            self.current_prefix * 10
                        };
                        self.current_prefix = self.current_prefix.saturating_add(digit);
                    } else {
                        self.should_reset_prefix = true;
                    }
                }
            },
            KeyCode::Esc => self.reset_prefix(),
            _ => {},
        }
        self.last_tick_key_events.push(key);
        if self.should_reset_prefix {
            self.key_presses_since_should_reset = self.key_presses_since_should_reset.saturating_add(1);
            if self.key_presses_since_should_reset >= MAX_SEQUENCE_LENGTH {
                self.reset_prefix();
            }
        }
    }

    /// Looks for a binding of `keymap` that the keys typed so far end with, the longest end
    /// first; where one matches, the keys are forgotten and its position is given.
    pub fn match_keymap(&mut self, keymap: &Vec<(Vec<KeyEvent>, Action)>) -> (r: Option<usize>)
        ensures
            r == (match suffix_binding(old(self).last_tick_key_events@, keymap@, 0) {
                Some(k) => Some(k as usize),
                None => None::<usize>,
            }),
            r is Some ==> final(self).last_tick_key_events@.len() == 0,
            r is None ==> final(self).last_tick_key_events@ == old(self).last_tick_key_events@,
            final(self).current_prefix == old(self).current_prefix,
            final(self).should_reset_prefix == old(self).should_reset_prefix,
            final(self).key_presses_since_should_reset == old(self).key_presses_since_should_reset,
    {
        let n = self.last_tick_key_events.len();
        let mut i: usize = 0;
        while i < n
            invariant
                i <= n,
                n == self.last_tick_key_events@.len(),
                self.last_tick_key_events@ == old(self).last_tick_key_events@,
                self.current_prefix == old(self).current_prefix,
                self.should_reset_prefix == old(self).should_reset_prefix,
                self.key_presses_since_should_reset == old(self).key_presses_since_should_reset,
                suffix_binding(self.last_tick_key_events@, keymap@, i as int) == suffix_binding(
                    self.last_tick_key_events@,
                    keymap@,
                    0,
                ),
            decreases n - i,
        {
            let found = find_binding(keymap, &self.last_tick_key_events, i);
            match found {
                Some(k) => {
                    proof {
                        lemma_binding_fits(keymap@, self.last_tick_key_events@.subrange(i as int, n as int));
                    }
                    self.last_tick_key_events = Vec::new();
                    return Some(k);
                },
                None => {},
            }
            i += 1;
        }
        None
    }

    /// Keeps no more than the last keys a binding can have.
    pub fn tick(&mut self)
        ensures
            final(self).last_tick_key_events@ == (if old(self).last_tick_key_events@.len() > MAX_SEQUENCE_LENGTH {
                old(self).last_tick_key_events@.skip(
                    old(self).last_tick_key_events@.len() - MAX_SEQUENCE_LENGTH,
                )
            } else {
                old(self).last_tick_key_events@
            }),
            final(self).current_prefix == old(self).current_prefix,
            final(self).should_reset_prefix == old(self).should_reset_prefix,
            final(self).key_presses_since_should_reset == old(self).key_presses_since_should_reset,
    {
        let ghost start = self.last_tick_key_events@;
        while self.last_tick_key_events.len() > MAX_SEQUENCE_LENGTH
            invariant
                self.current_prefix == old(self).current_prefix,
                self.should_reset_prefix == old(self).should_reset_prefix,
                self.key_presses_since_should_reset == old(self).key_presses_since_should_reset,
                start == old(self).last_tick_key_events@,
                self.last_tick_key_events@.len() <= start.len(),
                self.last_tick_key_events@ == start.skip(start.len() - self.last_tick_key_events@.len()),
                start.len() > MAX_SEQUENCE_LENGTH ==> self.last_tick_key_events@.len() >= MAX_SEQUENCE_LENGTH,
                start.len() <= MAX_SEQUENCE_LENGTH ==> self.last_tick_key_events@ == start,
            decreases self.last_tick_key_events@.len(),
        {
            let ghost before = self.last_tick_key_events@;
            self.last_tick_key_events.remove(0);
            assert(self.last_tick_key_events@ =~= start.skip(start.len() - self.last_tick_key_events@.len()));
        }
        assert(start.skip(0) =~= start);
    }
}

/// A binding whose keys are the keys typed from position `i` on.
fn find_binding(keymap: &Vec<(Vec<KeyEvent>, Action)>, events: &Vec<KeyEvent>, i: usize) -> (r: Option<usize>)
    requires
        i <= events@.len(),
    ensures
        r == (match binding_of(keymap@, events@.subrange(i as int, events@.len() as int)) {
            Some(k) => Some(k as usize),
            None => None::<usize>,
        }),
{
    let ghost keys = events@.subrange(i as int, events@.len() as int);
    let mut k: usize = 0;
    while k < keymap.len()
        invariant
            k <= keymap@.len(),
            i <= events@.len(),
            keys == events@.subrange(i as int, events@.len() as int),
            binding_of(keymap@.take(k as int), keys) is None,
        decreases keymap@.len() - k,
    {
        assert(keymap@.take(k + 1).drop_last() =~= keymap@.take(k as int));
        let seq = &keymap[k].0;
        if same_keys(seq, events, i) {
            assert(binding_of(keymap@.take(k + 1), keys) == Some(k as int));
            proof {
                lemma_binding_stays(keymap@, keys, k + 1);
            }
            return Some(k);
        }
        k += 1;
    }
    assert(keymap@.take(keymap@.len() as int) =~= keymap@);
    None
}

/// The keys of `seq` are the keys typed from position `i` on.
fn same_keys(seq: &Vec<KeyEvent>, events: &Vec<KeyEvent>, i: usize) -> (r: bool)
    requires
        i <= events@.len(),
    ensures
        r == (seq@ == events@.subrange(i as int, events@.len() as int)),
{
    let n = events.len();
    if seq.len() != n - i {
        return false;
    }
    let mut j: usize = 0;
    while j < seq.len()
        invariant
            j <= seq@.len(),
            seq@.len() == n - i,
            n == events@.len(),
            i <= n,
            forall|k: int| 0 <= k < j ==> seq@[k] == events@[i + k],
        decreases seq@.len() - j,
    {
        if seq[j] != events[i + j] {
            assert(seq@[j as int] != events@.subrange(i as int, n as int)[j as int]);
            return false;
        }
        j += 1;
    }
    assert(seq@ =~= events@.subrange(i as int, n as int));
    true
}

/// A binding found among the first `n` stays the first one found among all.
proof fn lemma_binding_stays(keymap: Seq<(Vec<KeyEvent>, Action)>, keys: Seq<KeyEvent>, n: int)
    requires
        0 <= n <= keymap.len(),
        binding_of(keymap.take(n), keys) is Some,
    ensures
        binding_of(keymap, keys) == binding_of(keymap.take(n), keys),
    decreases keymap.len() - n,
{
    if n < keymap.len() {
        assert(keymap.take(n + 1).drop_last() =~= keymap.take(n));
        lemma_binding_stays(keymap, keys, n + 1);
    } else {
        assert(keymap.take(n) =~= keymap);
    }
}

/// A binding found is a position of the keymap.
proof fn lemma_binding_fits(keymap: Seq<(Vec<KeyEvent>, Action)>, keys: Seq<KeyEvent>)
    ensures
        binding_of(keymap, keys) matches Some(k) ==> 0 <= k < keymap.len() && keymap[k].0@ == keys,
    decreases keymap.len(),
{
    if keymap.len() > 0 {
        lemma_binding_fits(keymap.drop_last(), keys);
    }
}

/// The key bindings of each part (and of each view, and `Global` for everywhere): a
/// sequence of keys and the action it stands for.
pub struct KeyBindings {
    pub bindings: Vec<(ComponentName, Vec<(Vec<KeyEvent>, Action)>)>,
}

/// The position of the first entry for `name`.
pub open spec fn entry_for(bindings: Seq<(ComponentName, Vec<(Vec<KeyEvent>, Action)>)>, name: ComponentName) -> Option<int>
    decreases bindings.len(),
{
    if bindings.len() == 0 {
        None
    } else {
        match entry_for(bindings.drop_last(), name) {
            Some(k) => Some(k),
            None => if bindings.last().0 == name {
                Some(bindings.len() - 1)
            } else {
                None
            },
        }
    }
}

/// The bindings read from the configuration, with the keys of each still as text.
pub open spec fn read_keys_ok(parsed: Seq<(ComponentName, Vec<(String, Action)>)>) -> bool {
    forall|i: int, j: int|
        0 <= i < parsed.len() && 0 <= j < parsed[i].1@.len() ==> (#[trigger] key_sequence_of(
            parsed[i].1@[j].0@,
        )) is Ok
}

impl KeyBindings {
    /// The bindings of `name`, if it has any.
    pub fn get(&self, name: ComponentName) -> (r: Option<&Vec<(Vec<KeyEvent>, Action)>>)
        ensures
            match entry_for(self.bindings@, name) {
                Some(k) => r == Some(&self.bindings@[k].1),
                None => r is None,
            },
    {
        let mut i: usize = 0;
        while i < self.bindings.len()
            invariant
                i <= self.bindings@.len(),
                entry_for(self.bindings@.take(i as int), name) is None,
            decreases self.bindings@.len() - i,
        {
            assert(self.bindings@.take(i + 1).drop_last() =~= self.bindings@.take(i as int));
            if self.bindings[i].0 == name {
                assert(entry_for(self.bindings@.take(i + 1), name) == Some(i as int));
                proof {
                    lemma_entry_stays(self.bindings@, name, i + 1);
                }
                return Some(&self.bindings[i].1);
            }
            i += 1;
        }
        assert(self.bindings@.take(self.bindings@.len() as int) =~= self.bindings@);
        None
    }

    /// The bindings from the configuration, each key text read as a key sequence (see
    /// `parse_key_sequence`); the first text that is no key sequence makes it fail, with
    /// `deserializing failed: ` before the reason.
    pub fn from_strings(parsed: Vec<(ComponentName, Vec<(String, Action)>)>) -> (r: Result<KeyBindings, String>)
        ensures
            read_keys_ok(parsed@) ==> (r matches Ok(kb) && kb.bindings@.len() == parsed@.len() && forall|i: int|
                0 <= i < parsed@.len() ==> {
                    &&& (#[trigger] kb.bindings@[i]).0 == parsed@[i].0
                    &&& kb.bindings@[i].1@.len() == parsed@[i].1@.len()
                    &&& forall|j: int|
                        0 <= j < parsed@[i].1@.len() ==> {
                            &&& Ok::<Seq<KeyEvent>, Seq<char>>((#[trigger] kb.bindings@[i].1@[j]).0@)
                                == key_sequence_of(parsed@[i].1@[j].0@)
                            &&& kb.bindings@[i].1@[j].1 == parsed@[i].1@[j].1
                        }
                }),
            !read_keys_ok(parsed@) ==> (r matches Err(e) && exists|i: int, j: int|
                0 <= i < parsed@.len() && 0 <= j < parsed@[i].1@.len() && (#[trigger] key_sequence_of(
                    parsed@[i].1@[j].0@,
                ) matches Err(m) && e@ == "deserializing failed: "@ + m)),
    {
        let ghost orig = parsed@;
        let mut rest = parsed;
        let mut out: Vec<(ComponentName, Vec<(Vec<KeyEvent>, Action)>)> = Vec::new();
        while rest.len() > 0
            invariant
                orig == parsed@,
                out@.len() + rest@.len() == orig.len(),
                rest@ == orig.skip(out@.len() as int),
                forall|i: int|
                    0 <= i < out@.len() ==> {
                        &&& (#[trigger] out@[i]).0 == orig[i].0
                        &&& out@[i].1@.len() == orig[i].1@.len()
                        &&& forall|j: int|
                            0 <= j < orig[i].1@.len() ==> {
                                &&& Ok::<Seq<KeyEvent>, Seq<char>>((#[trigger] out@[i].1@[j]).0@)
                                    == key_sequence_of(orig[i].1@[j].0@)
                                &&& out@[i].1@[j].1 == orig[i].1@[j].1
                            }
                    },
            decreases rest@.len(),
        {
            let ghost k = out@.len() as int;
            let (name, entries) = rest.remove(0);
            assert(name == orig[k].0 && entries@ == orig[k].1@);
            let ghost e0 = entries@;
            let mut entries = entries;
            let mut converted: Vec<(Vec<KeyEvent>, Action)> = Vec::new();
            while entries.len() > 0
                invariant
                    orig == parsed@,
                    0 <= k < orig.len(),
                    e0 == orig[k].1@,
                    out@.len() == k,
                    converted@.len() + entries@.len() == e0.len(),
                    entries@ == e0.skip(converted@.len() as int),
                    forall|j: int|
                        0 <= j < converted@.len() ==> {
                            &&& Ok::<Seq<KeyEvent>, Seq<char>>((#[trigger] converted@[j]).0@)
                                == key_sequence_of(e0[j].0@)
                            &&& converted@[j].1 == e0[j].1
                        },
                decreases entries@.len(),
            {
                let ghost j = converted@.len() as int;
                let (text, action) = entries.remove(0);
                assert(text == e0[j].0 && action == e0[j].1);
                match parse_key_sequence(text.as_str()) {
                    Ok(keys) => {
                        converted.push((keys, action));
                        assert(entries@ =~= e0.skip(converted@.len() as int));
                    },
                    Err(m) => {
                        let mut msg = String::new();
                        proof {
                            reveal_strlit("");
                        }
                        push_str(&mut msg, "deserializing failed: ");
                        push_str(&mut msg, m.as_str());
                        proof {
                            assert(0 <= k < orig.len() && 0 <= j < orig[k].1@.len());
                            assert(key_sequence_of(orig[k].1@[j].0@) == Err::<Seq<KeyEvent>, Seq<char>>(m@));
                            assert(!read_keys_ok(orig));
                        }
                        return Err(msg);
                    },
                }
            }
            out.push((name, converted));
            assert(rest@ =~= orig.skip(out@.len() as int));
        }
        proof {
            assert forall|i: int, j: int|
                0 <= i < orig.len() && 0 <= j < orig[i].1@.len() implies (#[trigger] key_sequence_of(
                    orig[i].1@[j].0@,
                )) is Ok by {
                assert(Ok::<Seq<KeyEvent>, Seq<char>>(out@[i].1@[j].0@) == key_sequence_of(orig[i].1@[j].0@));
            }
        }
        Ok(KeyBindings { bindings: out })
    }
}

/// An entry found among the first `n` stays the first one found among all.
proof fn lemma_entry_stays(bindings: Seq<(ComponentName, Vec<(Vec<KeyEvent>, Action)>)>, name: ComponentName, n: int)
    requires
        0 <= n <= bindings.len(),
        entry_for(bindings.take(n), name) is Some,
    ensures
        entry_for(bindings, name) == entry_for(bindings.take(n), name),
    decreases bindings.len() - n,
{
    if n < bindings.len() {
        assert(bindings.take(n + 1).drop_last() =~= bindings.take(n));
        lemma_entry_stays(bindings, name, n + 1);
    } else {
        assert(bindings.take(n) =~= bindings);
    }
}

/// What the terminal is asked to do.
#[derive(Debug, Clone, Copy, PartialEq, Eq, Structural)]
pub enum AppEffect {
    ClearScreen,
    Resize(u16, u16),
    Render,
    Quit,
}

/// What an action for the application leads to: the actions to send, and what the terminal
/// is asked to do.
pub struct AppStep {
    pub actions: Vec<RoutedAction>,
    pub effect: Option<AppEffect>,
}

/// The direction a focus action moves the focus in.
pub open spec fn focus_direction(a: Action) -> Option<Direction> {
    match a {
        Action::FocusLeft => Some(Direction::Left),
        Action::FocusRight => Some(Direction::Right),
        Action::FocusUp => Some(Direction::Up),
        Action::FocusDown => Some(Direction::Down),
        _ => None,
    }
}

/// Handles an action sent to the application: the terminal's own work, moving the focus
/// (which is drawn again), the next view, the popup, and forgetting old keys at each tick.
pub fn handle_app_action(nav: &mut UINavigation, keys: &mut KeyInput, action: &Action) -> (r: Result<AppStep, NavigationError>)
    requires
        old(nav).wf(),
        old(nav).layouts_ok(),
    ensures
        final(nav).wf(),
        final(nav).layouts_ok(),
        forall|v: View| final(nav).layout(v) == old(nav).layout(v),
        final(nav).views() == old(nav).views(),
        match *action {
            Action::ClearScreen => r matches Ok(s) && s.effect == Some(AppEffect::ClearScreen) && s.actions@.len() == 0
                && *final(nav) == *old(nav),
            Action::Resize(w, h) => r matches Ok(s) && s.effect == Some(AppEffect::Resize(w, h)) && s.actions@.len() == 0
                && *final(nav) == *old(nav),
            Action::Render => r matches Ok(s) && s.effect == Some(AppEffect::Render) && s.actions@.len() == 0
                && *final(nav) == *old(nav),
            Action::QuitHelp => r matches Ok(s) && s.effect is None && s.actions@ == seq![
                RoutedAction { action: Action::ViewMain, target: ActionTarget::All },
            ] && *final(nav) == *old(nav),
            Action::Quit => r matches Ok(s) && s.effect == Some(AppEffect::Quit) && s.actions@.len() == 0
                && *final(nav) == *old(nav),
            Action::FocusLeft | Action::FocusRight | Action::FocusUp | Action::FocusDown => {
                &&& final(nav).shown_view() == old(nav).shown_view()
                &&& final(nav).popup_id() == old(nav).popup_id()
                &&& match old(nav).layout(old(nav).shown_view()) {
                    Some(g) => match nav_target(g, old(nav).focus(), focus_direction(*action)->0) {
                        Some(t) => r matches Ok(s) && s.effect is None && s.actions@ == seq![
                            RoutedAction { action: Action::Render, target: ActionTarget::App },
                        ] && final(nav).focus() == (if t == Id::Empty { old(nav).focus() } else { t }),
                        None => r is Err && final(nav).focus() == old(nav).focus(),
                    },
                    None => r is Err && final(nav).focus() == old(nav).focus(),
                }
            },
            Action::NextView => r matches Ok(s) && s.effect is None && s.actions@ == seq![
                RoutedAction { action: Action::Render, target: ActionTarget::App },
            ] && final(nav).view_index() == (old(nav).view_index() + 1) % (old(nav).views().len() as int)
                && final(nav).shown_view() == old(nav).views()[final(nav).view_index()]
                && final(nav).focus() == final(nav).shown_view().default_id(),
            Action::Popup(name) => r matches Ok(s) && s.effect is None && s.actions@.len() == 0
                && final(nav).popup_id() == Some(Id::CompName(name)) && final(nav).shown_view()
                == old(nav).shown_view() && final(nav).focus() == old(nav).focus(),
            Action::QuitPopup => r matches Ok(s) && s.effect is None && s.actions@.len() == 0
                && final(nav).popup_id() is None && final(nav).shown_view() == old(nav).shown_view()
                && final(nav).focus() == old(nav).focus(),
            _ => r matches Ok(s) && s.effect is None && s.actions@.len() == 0 && *final(nav) == *old(nav),
        },
        match *action {
            Action::Tick => final(keys).last_tick_key_events@ == (if old(keys).last_tick_key_events@.len()
                > MAX_SEQUENCE_LENGTH {
                old(keys).last_tick_key_events@.skip(
                    old(keys).last_tick_key_events@.len() - MAX_SEQUENCE_LENGTH,
                )
            } else {
                old(keys).last_tick_key_events@
            }),
            _ => final(keys).last_tick_key_events@ == old(keys).last_tick_key_events@,
        },
        final(keys).current_prefix == old(keys).current_prefix,
        final(keys).should_reset_prefix == old(keys).should_reset_prefix,
        final(keys).key_presses_since_should_reset == old(keys).key_presses_since_should_reset,
{
    match action {
        Action::ClearScreen => Ok(AppStep { actions: Vec::new(), effect: Some(AppEffect::ClearScreen) }),
        Action::Resize(w, h) => Ok(AppStep { actions: Vec::new(), effect: Some(AppEffect::Resize(*w, *h)) }),
        Action::Render => Ok(AppStep { actions: Vec::new(), effect: Some(AppEffect::Render) }),
        Action::QuitHelp => {
            let mut v: Vec<RoutedAction> = Vec::new();
            v.push(to_all(Action::ViewMain));
            Ok(AppStep { actions: v, effect: None })
        },
        Action::Quit => Ok(AppStep { actions: Vec::new(), effect: Some(AppEffect::Quit) }),
        Action::FocusLeft => focus_step(nav, Direction::Left),
        Action::FocusRight => focus_step(nav, Direction::Right),
        Action::FocusUp => focus_step(nav, Direction::Up),
        Action::FocusDown => focus_step(nav, Direction::Down),
        Action::NextView => {
            nav.next_view();
            let mut v: Vec<RoutedAction> = Vec::new();
            v.push(render_request());
            Ok(AppStep { actions: v, effect: None })
        },
        Action::Tick => {
            keys.tick();
            Ok(AppStep { actions: Vec::new(), effect: None })
        },
        Action::Popup(name) => {
            nav.set_popup(*name);
            Ok(AppStep { actions: Vec::new(), effect: None })
        },
        Action::QuitPopup => {
            nav.remove_popup();
            Ok(AppStep { actions: Vec::new(), effect: None })
        },
        _ => Ok(AppStep { actions: Vec::new(), effect: None }),
    }
}

fn focus_step(nav: &mut UINavigation, d: Direction) -> (r: Result<AppStep, NavigationError>)
    requires
        old(nav).wf(),
        old(nav).layouts_ok(),
    ensures
        final(nav).wf(),
        final(nav).layouts_ok(),
        forall|v: View| final(nav).layout(v) == old(nav).layout(v),
        final(nav).views() == old(nav).views(),
        final(nav).shown_view() == old(nav).shown_view(),
        final(nav).popup_id() == old(nav).popup_id(),
        match old(nav).layout(old(nav).shown_view()) {
            Some(g) => match nav_target(g, old(nav).focus(), d) {
                Some(t) => r matches Ok(s) && s.effect is None && s.actions@ == seq![
                    RoutedAction { action: Action::Render, target: ActionTarget::App },
                ] && final(nav).focus() == (if t == Id::Empty { old(nav).focus() } else { t }),
                None => r is Err && final(nav).focus() == old(nav).focus(),
            },
            None => r is Err && final(nav).focus() == old(nav).focus(),
        },
{
    proof {
        let v = nav.shown_view();
        assert(nav.layout(v) matches Some(g) ==> grid_ok(g));
    }
    match nav.move_to(&d) {
        Ok(()) => {
            let mut v: Vec<RoutedAction> = Vec::new();
            v.push(render_request());
            Ok(AppStep { actions: v, effect: None })
        },
        Err(e) => Err(e),
    }
}

/// The parts that receive an action sent to `target`: all parts; the parts of a view; the
/// parts of the given names; the part with the focus; none for the application itself.
pub open spec fn receivers_of(target: ActionTarget, focus: Id) -> Seq<Id> {
    let all = view_components(View::TaskView) + view_components(View::CalendarView) + view_components(View::PopupView);
    match target {
        ActionTarget::All => all.map_values(|n: ComponentName| Id::CompName(n)),
        ActionTarget::View(v) => view_components(v).map_values(|n: ComponentName| Id::CompName(n)),
        ActionTarget::Specific(names) => all.filter(|n: ComponentName| names@.contains(n)).map_values(
            |n: ComponentName| Id::CompName(n),
        ),
        ActionTarget::Active => seq![focus],
        ActionTarget::App => Seq::empty(),
    }
}

/// Whether an action sent to `target` ends the number typed before a key.
pub open spec fn ends_prefix(target: ActionTarget) -> bool {
    match target {
        ActionTarget::View(_) | ActionTarget::Specific(_) | ActionTarget::Active => true,
        _ => false,
    }
}

/// The parts that receive an action sent to `target` (see `receivers_of`), and whether it
/// ends the number typed; the part with the focus must be a part of the view shown.
pub fn receivers(nav: &UINavigation, target: &ActionTarget) -> (r: Result<(Vec<Id>, bool), NavigationError>)
    ensures
        match *target {
            ActionTarget::Active => if has_component(nav.shown_view(), nav.focus()) {
                r matches Ok((ids, e)) && ids@ == seq![nav.focus()] && e
            } else {
                r is Err
            },
            _ => r matches Ok((ids, e)) && ids@ == receivers_of(*target, nav.focus()) && e == ends_prefix(*target),
        },
{
    match target {
        ActionTarget::All => {
            let mut ids = components_of(View::TaskView);
            let mut more = components_of(View::CalendarView);
            ids.append(&mut more);
            let mut popup = components_of(View::PopupView);
            ids.append(&mut popup);
            proof {
                let a = view_components(View::TaskView);
                let b = view_components(View::CalendarView);
                let c = view_components(View::PopupView);
                assert(ids@ =~= (a + b + c).map_values(|n: ComponentName| Id::CompName(n)));
            }
            Ok((ids, false))
        },
        ActionTarget::View(v) => Ok((components_of(*v), true)),
        ActionTarget::Specific(names) => {
            let mut ids: Vec<Id> = Vec::new();
            let all_ids = {
                let mut a = components_of(View::TaskView);
                let mut b = components_of(View::CalendarView);
                a.append(&mut b);
                let mut c = components_of(View::PopupView);
                a.append(&mut c);
                a
            };
            let ghost all = view_components(View::TaskView) + view_components(View::CalendarView) + view_components(View::PopupView);
            assert(all_ids@ =~= all.map_values(|n: ComponentName| Id::CompName(n)));
            let mut i: usize = 0;
            while i < all_ids.len()
                invariant
                    i <= all_ids@.len(),
                    all_ids@ == all.map_values(|n: ComponentName| Id::CompName(n)),
                    ids@ == all.take(i as int).filter(|n: ComponentName| names@.contains(n)).map_values(
                        |n: ComponentName| Id::CompName(n),
                    ),
                decreases all_ids@.len() - i,
            {
                let id = all_ids[i];
                let name = id.get_name();
                proof {
                    reveal(Seq::filter);
                    assert(all.take(i + 1).drop_last() =~= all.take(i as int));
                    assert(all.take(i + 1).last() == all[i as int]);
                    assert(id == Id::CompName(all[i as int]));
                }
                if name_in(names, name) {
                    ids.push(id);
                    proof {
                        reveal(Seq::filter);
                        assert(ids@ =~= all.take(i + 1).filter(|n: ComponentName| names@.contains(n)).map_values(
                            |n: ComponentName| Id::CompName(n),
                        ));
                    }
                } else {
                    proof {
                        reveal(Seq::filter);
                        assert(all.take(i + 1).filter(|n: ComponentName| names@.contains(n)) =~= all.take(i as int).filter(
                            |n: ComponentName| names@.contains(n),
                        ));
                    }
                }
                i += 1;
            }
            assert(all.take(all.len() as int) =~= all);
            Ok((ids, true))
        },
        ActionTarget::Active => match nav.current_component() {
            Ok(id) => {
                let mut ids: Vec<Id> = Vec::new();
                ids.push(id);
                Ok((ids, true))
            },
            Err(e) => Err(e),
        },
        ActionTarget::App => Ok((Vec::new(), false)),
    }
}

fn name_in(names: &Vec<ComponentName>, name: ComponentName) -> (r: bool)
    ensures
        r == names@.contains(name),
{
    let mut i: usize = 0;
    while i < names.len()
        invariant
            i <= names@.len(),
            forall|j: int| 0 <= j < i ==> names@[j] != name,
        decreases names@.len() - i,
    {
        if names[i] == name {
            assert(names@[i as int] == name);
            return true;
        }
        i += 1;
    }
    false
}

} // verus!
