//! The date input popup: the words typed are read one after the other as dates relative
//! to the date reached so far, starting from the date shown when the popup opened.

use vstd::prelude::*;
use crate::action::{Action, ActionTarget, RoutedAction, render_request, to_all, to_app};
use crate::date::{DateTime, now};
use crate::keys::KeyCode;
use crate::parser::{parse_date_at, parse_date_defined, parse_date_is_defined, spec_parse_date};
use crate::text::{is_whitespace, is_whitespace_exec, push_char};

verus! {

/// The words of `s` (separated by white space), after the word `cur` begun before it.
pub open spec fn ws_words(s: Seq<char>, cur: Seq<char>) -> Seq<Seq<char>>
    decreases s.len(),
{
    if s.len() == 0 {
        if cur.len() > 0 {
            seq![cur]
        } else {
            Seq::empty()
        }
    } else if is_whitespace(s[0]) {
        (if cur.len() > 0 {
            seq![cur]
        } else {
            Seq::empty()
        }) + ws_words(s.skip(1), Seq::empty())
    } else {
        ws_words(s.skip(1), cur.push(s[0]))
    }
}

/// The date that the first entry of `cache` from the `k`-th on gives for the word `w` read
/// from the date `from`, `None` where none holds it.
pub open spec fn lookup_from(cache: Seq<(Seq<char>, DateTime, DateTime)>, w: Seq<char>, from: DateTime, k: int) -> Option<DateTime>
    decreases cache.len() - k,
{
    if k < 0 || k >= cache.len() {
        None
    } else if cache[k].0 == w && cache[k].1 == from {
        Some(cache[k].2)
    } else {
        lookup_from(cache, w, from, k + 1)
    }
}

/// The date that the cache gives for the word `w` read from the date `from`.
pub open spec fn lookup(cache: Seq<(Seq<char>, DateTime, DateTime)>, w: Seq<char>, from: DateTime) -> Option<DateTime> {
    lookup_from(cache, w, from, 0)
}

/// The dates of every entry of the cache exist.
pub open spec fn entries_valid(cache: Seq<(Seq<char>, DateTime, DateTime)>) -> bool {
    forall|i: int| 0 <= i < cache.len() ==> (#[trigger] cache[i]).1.wf() && cache[i].2.wf()
}

/// Reading the words from the `i`-th on, from the date `parsed`: a word the cache holds as
/// read from the date so far gives the date it gave then; another one is read relative to
/// the date so far (and the cache learns what it gave); a word that is no date changes
/// nothing. `None` where a word cannot be read within range. Gives the date reached and the
/// cache.
pub open spec fn input_fold(
    words: Seq<Seq<char>>,
    i: int,
    parsed: DateTime,
    cache: Seq<(Seq<char>, DateTime, DateTime)>,
    now: DateTime,
) -> Option<(DateTime, Seq<(Seq<char>, DateTime, DateTime)>)>
    decreases words.len() - i,
{
    if i < 0 || i >= words.len() {
        Some((parsed, cache))
    } else {
        let w = words[i];
        match lookup(cache, w, parsed) {
            Some(to) => input_fold(words, i + 1, to, cache, now),
            None => if !parse_date_defined(w, parsed) {
                None
            } else {
                match spec_parse_date(w, parsed, now) {
                    Some(new) => if new.wf() {
                        input_fold(words, i + 1, new, cache.push((w, parsed, new)), now)
                    } else {
                        None
                    },
                    None => input_fold(words, i + 1, parsed, cache, now),
                }
            },
        }
    }
}

/// Reading the words from the `i`-th on, from the date `parsed`, without a cache.
pub open spec fn plain_fold(words: Seq<Seq<char>>, i: int, parsed: DateTime, now: DateTime) -> Option<DateTime>
    decreases words.len() - i,
{
    if i < 0 || i >= words.len() {
        Some(parsed)
    } else {
        let w = words[i];
        if !parse_date_defined(w, parsed) {
            None
        } else {
            match spec_parse_date(w, parsed, now) {
                Some(new) => if new.wf() {
                    plain_fold(words, i + 1, new, now)
                } else {
                    None
                },
                None => plain_fold(words, i + 1, parsed, now),
            }
        }
    }
}

/// Every entry of the cache gives what reading its word from its date gives at `now`.
pub open spec fn cache_agrees(cache: Seq<(Seq<char>, DateTime, DateTime)>, now: DateTime) -> bool {
    forall|i: int|
        0 <= i < cache.len() ==> {
            &&& parse_date_defined((#[trigger] cache[i]).0, cache[i].1)
            &&& spec_parse_date(cache[i].0, cache[i].1, now) == Some(cache[i].2)
            &&& cache[i].2.wf()
        }
}

/// An entry found by `lookup_from` is in the cache.
proof fn lemma_lookup_found(cache: Seq<(Seq<char>, DateTime, DateTime)>, w: Seq<char>, from: DateTime, k: int)
    requires
        lookup_from(cache, w, from, k) is Some,
    ensures
        exists|i: int| 0 <= i < cache.len() && cache[i] == (w, from, lookup_from(cache, w, from, k)->0),
    decreases cache.len() - k,
{
    if !(cache[k].0 == w && cache[k].1 == from) {
        lemma_lookup_found(cache, w, from, k + 1);
    } else {
        assert(cache[k] == (w, from, lookup_from(cache, w, from, k)->0));
    }
}

/// A cache that agrees with reading the words gives the date that reading them without it
/// gives, and it still agrees afterwards: the cache only spares reading a word again.
pub proof fn lemma_cache_keeps_results(
    words: Seq<Seq<char>>,
    i: int,
    parsed: DateTime,
    cache: Seq<(Seq<char>, DateTime, DateTime)>,
    now: DateTime,
)
    requires
        cache_agrees(cache, now),
    ensures
        match input_fold(words, i, parsed, cache, now) {
            Some((d, c)) => plain_fold(words, i, parsed, now) == Some(d) && cache_agrees(c, now),
            None => plain_fold(words, i, parsed, now) is None,
        },
    decreases words.len() - i,
{
    if 0 <= i < words.len() {
        let w = words[i];
        match lookup(cache, w, parsed) {
            Some(to) => {
                lemma_lookup_found(cache, w, parsed, 0);
                let k = choose|k: int| 0 <= k < cache.len() && cache[k] == (w, parsed, to);
                assert(cache_agrees(cache, now) && 0 <= k < cache.len());
                assert(parse_date_defined(cache[k].0, cache[k].1));
                lemma_cache_keeps_results(words, i + 1, to, cache, now);
            },
            None => {
                if parse_date_defined(w, parsed) {
                    match spec_parse_date(w, parsed, now) {
                        Some(new) => {
                            if new.wf() {
                                let c2 = cache.push((w, parsed, new));
                                assert forall|j: int| 0 <= j < c2.len() implies {
                                    &&& parse_date_defined((#[trigger] c2[j]).0, c2[j].1)
                                    &&& spec_parse_date(c2[j].0, c2[j].1, now) == Some(c2[j].2)
                                    &&& c2[j].2.wf()
                                } by {
                                    if j < cache.len() {
                                        assert(c2[j] == cache[j]);
                                    }
                                }
                                lemma_cache_keeps_results(words, i + 1, new, c2, now);
                            }
                        },
                        None => {
                            lemma_cache_keeps_results(words, i + 1, parsed, cache, now);
                        },
                    }
                }
            },
        }
    }
}

/// The date input: the date it started from, the date the words typed give, the text
/// typed, and the words already read with the dates they were read from and gave.
pub struct DateInput {
    pub start_date: DateTime,
    pub result_date: DateTime,
    pub input: String,
    pub parsed: Vec<(Vec<char>, DateTime, DateTime)>,
}

impl DateInput {
    /// The words already read, with the dates they gave.
    pub open spec fn cache(&self) -> Seq<(Seq<char>, DateTime, DateTime)> {
        self.parsed@.map_values(|e: (Vec<char>, DateTime, DateTime)| (e.0@, e.1, e.2))
    }

    /// Nothing typed, starting from the current date.
    pub fn new() -> (r: Self)
        ensures
            r.start_date.wf(),
            r.result_date.wf(),
            r.input@.len() == 0,
            r.cache().len() == 0,
    {
        let start = now();
        let result = now();
        let r = DateInput { start_date: start, result_date: result, input: String::new(), parsed: Vec::new() };
        proof {
            reveal_strlit("");
            assert(r.cache() =~= Seq::<(Seq<char>, DateTime, DateTime)>::empty());
        }
        r
    }

    /// The words of `text` can all be read within range (see `input_fold`).
    pub fn input_defined(&self, text: &str, now: DateTime) -> (r: bool)
        requires
            self.start_date.wf(),
            entries_valid(self.cache()),
            now.wf(),
        ensures
            r == input_fold(ws_words(text@, Seq::empty()), 0, self.start_date, self.cache(), now) is Some,
    {
        let words = words_of(text);
        fold_exec(&words, self.start_date, &self.parsed, now).is_some()
    }

    /// Takes the text after a key that edits it or moves in it (a character, backspace, or
    /// left and right): its words are read (see `input_fold`) and the date they give is the
    /// result.
    pub fn input_changed(&mut self, text: String, now: DateTime)
        requires
            old(self).start_date.wf(),
            entries_valid(old(self).cache()),
            now.wf(),
            input_fold(ws_words(text@, Seq::empty()), 0, old(self).start_date, old(self).cache(), now) is Some,
        ensures
            final(self).start_date == old(self).start_date,
            final(self).input@ == text@,
            (final(self).result_date, final(self).cache()) == input_fold(
                ws_words(text@, Seq::empty()),
                0,
                old(self).start_date,
                old(self).cache(),
                now,
            )->0,
            entries_valid(final(self).cache()),
    {
        let words = words_of(text.as_str());
        match fold_exec(&words, self.start_date, &self.parsed, now) {
            Some((date, added)) => {
                let ghost before = self.parsed@;
                let ghost new_entries = added@;
                let mut added = added;
                self.parsed.append(&mut added);
                self.result_date = date;
                self.input = text;
                proof {
                    assert(self.cache() =~= before.map_values(|e: (Vec<char>, DateTime, DateTime)| (e.0@, e.1, e.2))
                        + new_entries.map_values(|e: (Vec<char>, DateTime, DateTime)| (e.0@, e.1, e.2)));
                }
            },
            None => {},
        }
    }

    /// Takes a date shown by another part as the start, while nothing is typed.
    pub fn update(&mut self, action: &Action)
        ensures
            final(self).result_date == old(self).result_date,
            final(self).input@ == old(self).input@,
            final(self).cache() == old(self).cache(),
            final(self).start_date == (match *action {
                Action::CurrentDateUpdated(d) => if old(self).input@.len() == 0 {
                    d
                } else {
                    old(self).start_date
                },
                _ => old(self).start_date,
            }),
    {
        match action {
            Action::CurrentDateUpdated(d) => {
                if self.input.as_str().unicode_len() == 0 {
                    self.start_date = *d;
                }
            },
            _ => {},
        }
    }

    /// What a key leads to after the text is taken: enter closes the popup with the date
    /// typed, escape closes it with the date it started from (both forget the text and the
    /// words read); another key shows the date typed so far.
    pub fn key_reply(&mut self, code: KeyCode) -> (r: Vec<RoutedAction>)
        ensures
            final(self).start_date == old(self).start_date,
            final(self).result_date == old(self).result_date,
            match code {
                KeyCode::Enter => {
                    &&& r@ == seq![
                        RoutedAction { action: Action::QuitPopup, target: ActionTarget::App },
                        RoutedAction { action: Action::CurrentDateUpdated(old(self).result_date), target: ActionTarget::All },
                        RoutedAction { action: Action::Render, target: ActionTarget::App },
                    ]
                    &&& final(self).input@.len() == 0
                    &&& final(self).cache().len() == 0
                },
                KeyCode::Esc => {
                    &&& r@ == seq![
                        RoutedAction { action: Action::QuitPopup, target: ActionTarget::App },
                        RoutedAction { action: Action::CurrentDateUpdated(old(self).start_date), target: ActionTarget::All },
                        RoutedAction { action: Action::Render, target: ActionTarget::App },
                    ]
                    &&& final(self).input@.len() == 0
                    &&& final(self).cache().len() == 0
                },
                _ => {
                    &&& r@ == seq![
                        RoutedAction { action: Action::CurrentDateUpdated(old(self).result_date), target: ActionTarget::All },
                        RoutedAction { action: Action::Render, target: ActionTarget::App },
                    ]
                    &&& final(self).input@ == old(self).input@
                    &&& final(self).cache() == old(self).cache()
                },
            },
    {
        let mut v: Vec<RoutedAction> = Vec::new();
        match code {
            KeyCode::Enter => {
                self.input = String::new();
                self.parsed = Vec::new();
                v.push(to_app(Action::QuitPopup));
                v.push(to_all(Action::CurrentDateUpdated(self.result_date)));
                v.push(render_request());
                proof {
                    reveal_strlit("");
                    assert(self.cache() =~= Seq::<(Seq<char>, DateTime, DateTime)>::empty());
                }
            },
            KeyCode::Esc => {
                self.input = String::new();
                self.parsed = Vec::new();
                v.push(to_app(Action::QuitPopup));
                v.push(to_all(Action::CurrentDateUpdated(self.start_date)));
                v.push(render_request());
                proof {
                    reveal_strlit("");
                    assert(self.cache() =~= Seq::<(Seq<char>, DateTime, DateTime)>::empty());
                }
            },
            _ => {
                v.push(to_all(Action::CurrentDateUpdated(self.result_date)));
                v.push(render_request());
            },
        }
        v
    }
}

/// The words of `s`, separated by white space.
fn words_of(s: &str) -> (r: Vec<Vec<char>>)
    ensures
        r@.map_values(|w: Vec<char>| w@) == ws_words(s@, Seq::empty()),
{
    let v = crate::parser::chars_of(s);
    let mut words: Vec<Vec<char>> = Vec::new();
    let mut cur: Vec<char> = Vec::new();
    let mut i: usize = 0;
    assert(v@.skip(0) =~= v@);
    assert(words@.map_values(|w: Vec<char>| w@) =~= Seq::<Seq<char>>::empty());
    while i < v.len()
        invariant
            i <= v@.len(),
            v@ == s@,
            words@.map_values(|w: Vec<char>| w@) + ws_words(v@.skip(i as int), cur@) == ws_words(v@, Seq::empty()),
        decreases v@.len() - i,
    {
        let ghost rest = v@.skip(i as int);
        let ghost before = words@.map_values(|w: Vec<char>| w@);
        assert(rest[0] == v@[i as int]);
        assert(rest.skip(1) =~= v@.skip(i + 1));
        if is_whitespace_exec(v[i]) {
            let ghost c = cur@;
            if cur.len() > 0 {
                let done = cur;
                cur = Vec::new();
                words.push(done);
                assert(words@.map_values(|w: Vec<char>| w@) =~= before.push(c));
                assert(before + (seq![c] + ws_words(v@.skip(i + 1), Seq::empty())) =~= before.push(c) + ws_words(
                    v@.skip(i + 1),
                    Seq::empty(),
                ));
            } else {
                assert(Seq::<Seq<char>>::empty() + ws_words(v@.skip(i + 1), Seq::empty()) =~= ws_words(
                    v@.skip(i + 1),
                    Seq::empty(),
                ));
            }
            assert(cur@ =~= Seq::<char>::empty());
        } else {
            cur.push(v[i]);
        }
        i += 1;
    }
    let ghost before = words@.map_values(|w: Vec<char>| w@);
    let ghost c = cur@;
    assert(v@.skip(i as int) =~= Seq::<char>::empty());
    if cur.len() > 0 {
        words.push(cur);
        assert(words@.map_values(|w: Vec<char>| w@) =~= before + seq![c]);
    } else {
        assert(before + Seq::<Seq<char>>::empty() =~= before);
    }
    words
}

fn same_chars(a: &Vec<char>, b: &Vec<char>) -> (r: bool)
    ensures
        r == (a@ == b@),
{
    if a.len() != b.len() {
        return false;
    }
    let mut i: usize = 0;
    while i < a.len()
        invariant
            i <= a@.len(),
            a@.len() == b@.len(),
            forall|k: int| 0 <= k < i ==> a@[k] == b@[k],
        decreases a@.len() - i,
    {
        if a[i] != b[i] {
            return false;
        }
        i += 1;
    }
    assert(a@ =~= b@);
    true
}

fn string_of(v: &Vec<char>) -> (r: String)
    ensures
        r@ == v@,
{
    let mut s = String::new();
    proof {
        reveal_strlit("");
    }
    let mut i: usize = 0;
    while i < v.len()
        invariant
            i <= v@.len(),
            s@ == v@.take(i as int),
        decreases v@.len() - i,
    {
        push_char(&mut s, v[i]);
        i += 1;
        assert(s@ =~= v@.take(i as int));
    }
    assert(v@.take(v@.len() as int) =~= v@);
    s
}

/// The date that `cache` followed by `added` gives for the word `w` read from `from`.
fn lookup_entry(
    cache: &Vec<(Vec<char>, DateTime, DateTime)>,
    added: &Vec<(Vec<char>, DateTime, DateTime)>,
    w: &Vec<char>,
    from: DateTime,
) -> (r: Option<DateTime>)
    ensures
        r == lookup(
            cache@.map_values(|e: (Vec<char>, DateTime, DateTime)| (e.0@, e.1, e.2)) + added@.map_values(
                |e: (Vec<char>, DateTime, DateTime)| (e.0@, e.1, e.2),
            ),
            w@,
            from,
        ),
{
    let ghost all = cache@.map_values(|e: (Vec<char>, DateTime, DateTime)| (e.0@, e.1, e.2)) + added@.map_values(
        |e: (Vec<char>, DateTime, DateTime)| (e.0@, e.1, e.2),
    );
    let mut i: usize = 0;
    while i < cache.len()
        invariant
            i <= cache@.len(),
            all == cache@.map_values(|e: (Vec<char>, DateTime, DateTime)| (e.0@, e.1, e.2)) + added@.map_values(
                |e: (Vec<char>, DateTime, DateTime)| (e.0@, e.1, e.2),
            ),
            lookup_from(all, w@, from, 0) == lookup_from(all, w@, from, i as int),
        decreases cache@.len() - i,
    {
        assert(all[i as int] == (cache@[i as int].0@, cache@[i as int].1, cache@[i as int].2));
        if same_chars(&cache[i].0, w) && cache[i].1 == from {
            return Some(cache[i].2);
        }
        i += 1;
    }
    let mut j: usize = 0;
    while j < added.len()
        invariant
            j <= added@.len(),
            all == cache@.map_values(|e: (Vec<char>, DateTime, DateTime)| (e.0@, e.1, e.2)) + added@.map_values(
                |e: (Vec<char>, DateTime, DateTime)| (e.0@, e.1, e.2),
            ),
            lookup_from(all, w@, from, 0) == lookup_from(all, w@, from, cache@.len() + j),
        decreases added@.len() - j,
    {
        assert(all[cache@.len() + j] == (added@[j as int].0@, added@[j as int].1, added@[j as int].2));
        if same_chars(&added[j].0, w) && added[j].1 == from {
            return Some(added[j].2);
        }
        j += 1;
    }
    None
}

/// Reads the words (see `input_fold`), giving the date reached and the entries the cache
/// learns, or `None` where a word cannot be read within range.
fn fold_exec(words: &Vec<Vec<char>>, start: DateTime, cache: &Vec<(Vec<char>, DateTime, DateTime)>, now: DateTime) -> (r: Option<
    (DateTime, Vec<(Vec<char>, DateTime, DateTime)>),
>)
    requires
        start.wf(),
        now.wf(),
        entries_valid(cache@.map_values(|e: (Vec<char>, DateTime, DateTime)| (e.0@, e.1, e.2))),
    ensures
        ({
            let c0 = cache@.map_values(|e: (Vec<char>, DateTime, DateTime)| (e.0@, e.1, e.2));
            let f = input_fold(words@.map_values(|w: Vec<char>| w@), 0, start, c0, now);
            match r {
                Some((d, added)) => f == Some((d, c0 + added@.map_values(|e: (Vec<char>, DateTime, DateTime)| (e.0@, e.1, e.2))))
                    && entries_valid(added@.map_values(|e: (Vec<char>, DateTime, DateTime)| (e.0@, e.1, e.2))),
                None => f is None,
            }
        }),
{
    let ghost ws = words@.map_values(|w: Vec<char>| w@);
    let ghost c0 = cache@.map_values(|e: (Vec<char>, DateTime, DateTime)| (e.0@, e.1, e.2));
    let mut parsed = start;
    let mut added: Vec<(Vec<char>, DateTime, DateTime)> = Vec::new();
    let mut i: usize = 0;
    assert(c0 + added@.map_values(|e: (Vec<char>, DateTime, DateTime)| (e.0@, e.1, e.2)) =~= c0);
    while i < words.len()
        invariant
            i <= words@.len(),
            start.wf(),
            now.wf(),
            parsed.wf(),
            ws == words@.map_values(|w: Vec<char>| w@),
            c0 == cache@.map_values(|e: (Vec<char>, DateTime, DateTime)| (e.0@, e.1, e.2)),
            entries_valid(c0),
            entries_valid(added@.map_values(|e: (Vec<char>, DateTime, DateTime)| (e.0@, e.1, e.2))),
            input_fold(ws, i as int, parsed, c0 + added@.map_values(|e: (Vec<char>, DateTime, DateTime)| (e.0@, e.1, e.2)), now)
                == input_fold(ws, 0, start, c0, now),
        decreases words@.len() - i,
    {
        let w = &words[i];
        let ghost cur = c0 + added@.map_values(|e: (Vec<char>, DateTime, DateTime)| (e.0@, e.1, e.2));
        assert(ws[i as int] == w@);
        match lookup_entry(cache, &added, w, parsed) {
            Some(to) => {
                proof {
                    lemma_lookup_found(cur, w@, parsed, 0);
                    let k = choose|k: int| 0 <= k < cur.len() && cur[k] == (w@, parsed, to);
                    if k < c0.len() {
                        assert(cur[k] == c0[k]);
                    } else {
                        assert(cur[k] == added@.map_values(|e: (Vec<char>, DateTime, DateTime)| (e.0@, e.1, e.2))[k - c0.len()]);
                    }
                }
                parsed = to;
            },
            None => {
                let text = string_of(w);
                if !parse_date_is_defined(text.as_str(), parsed) {
                    return None;
                }
                match parse_date_at(text.as_str(), parsed, now) {
                    Some(new) => {
                        if !new.is_valid() {
                            return None;
                        }
                        let ghost before = added@;
                        added.push((w.clone(), parsed, new));
                        assert(added@.map_values(|e: (Vec<char>, DateTime, DateTime)| (e.0@, e.1, e.2)) =~= before.map_values(
                            |e: (Vec<char>, DateTime, DateTime)| (e.0@, e.1, e.2),
                        ).push((w@, parsed, new)));
                        assert(c0 + added@.map_values(|e: (Vec<char>, DateTime, DateTime)| (e.0@, e.1, e.2)) =~= cur.push((w@, parsed, new)));
                        parsed = new;
                    },
                    None => {},
                }
            },
        }
        i += 1;
    }
    Some((parsed, added))
}

} // verus!
