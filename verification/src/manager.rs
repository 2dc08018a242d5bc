use vstd::prelude::*;

use crate::dates::{thursday_options_for, thursday_options_spec, today_days};
use crate::keys::Key;
use crate::model::{Direct, Entry, ItemKind, O3, Polarity, Store, kind_output};
use crate::order::{display_order, display_order_exec, is_display_order};
use crate::text::{bytes_of, edit_is_defined, edit_is_safe, edit_text, edited_bytes, edited_cursor, str_trim, text_len, trim_chars};

verus! {

/// The step the entry wizard is at.
#[derive(Clone, Copy, Debug, PartialEq, Eq, Structural)]
pub enum EntryStep {
    SelectItemType,
    SelectPolarity,
    EnterText,
}

/// The state of adding an entry: its type, its polarity, and the text typed so far with a
/// cursor (a byte position in the text).
#[derive(Debug)]
pub struct EntryWizard {
    pub step: EntryStep,
    pub is_topic: bool,
    pub polarity: Option<Polarity>,
    pub text: String,
    pub cursor: usize,
}

/// A wizard as it starts: choosing the type, nothing typed.
pub open spec fn is_fresh_wizard(w: EntryWizard) -> bool {
    &&& w.step == EntryStep::SelectItemType
    &&& !w.is_topic
    &&& w.polarity is None
    &&& w.text@ == Seq::<char>::empty()
    &&& w.cursor == 0
}

impl EntryWizard {
    /// A wizard at its first step, with no text.
    pub fn new() -> (w: Self)
        ensures
            is_fresh_wizard(w),
    {
        EntryWizard {
            step: EntryStep::SelectItemType,
            is_topic: false,
            polarity: None,
            text: String::new(),
            cursor: 0,
        }
    }
}

/// The screen the manager shows and what it holds.
#[derive(Debug)]
pub enum Mode {
    O3List,
    O3Detail { o3_idx: usize, prev_list_selected: usize },
    CreatingO3,
    SettingDate { o3_idx: usize },
    AddingEntry { o3_idx: usize, wizard: EntryWizard },
    EditingOutput { o3_idx: usize, entry_idx: usize, text: String, cursor: usize },
}

/// What is to be done after a key has been handled.
#[derive(Clone, Copy, Debug, PartialEq, Eq, Structural)]
pub enum Action {
    /// Nothing but to show the new state.
    Continue,
    /// The store changed: write it, then show the new state.
    Save,
    /// Leave the program.
    Quit,
}

/// The manager: the meetings, the next id, the selected row and the screen.
#[derive(Debug)]
pub struct App {
    pub o3s: Vec<O3>,
    pub next_id: u64,
    pub selected: usize,
    pub mode: Mode,
}

/// The kind a wizard's entry gets: a topic, or feedback with the chosen polarity
/// (positive when none was chosen).
pub open spec fn wizard_kind(w: EntryWizard) -> ItemKind {
    if w.is_topic {
        ItemKind::Topic { output: None }
    } else {
        ItemKind::Feedback {
            polarity: match w.polarity {
                Some(p) => p,
                None => Polarity::Positive,
            },
            output: None,
        }
    }
}

/// `o3` has the id, direct and date of `old`.
pub open spec fn same_meeting_but_entries(old: O3, o3: O3) -> bool {
    &&& o3.id == old.id
    &&& o3.direct == old.direct
    &&& o3.date_days == old.date_days
}

/// `new` is `old` with one more entry at the end of meeting `idx`, whose text is `text`
/// and whose kind is `kind`.
pub open spec fn entry_appended(old: Seq<O3>, new: Seq<O3>, idx: int, text: Seq<char>, kind: ItemKind) -> bool {
    &&& new.len() == old.len()
    &&& forall|i: int| 0 <= i < old.len() && i != idx ==> new[i] == old[i]
    &&& same_meeting_but_entries(old[idx], new[idx])
    &&& new[idx].entries@.len() == old[idx].entries@.len() + 1
    &&& new[idx].entries@.take(old[idx].entries@.len() as int) == old[idx].entries@
    &&& new[idx].entries@.last().text@ == text
    &&& new[idx].entries@.last().kind == kind
}

/// `new` is `old` without entry `e` of meeting `idx`.
pub open spec fn entry_removed(old: Seq<O3>, new: Seq<O3>, idx: int, e: int) -> bool {
    &&& new.len() == old.len()
    &&& forall|i: int| 0 <= i < old.len() && i != idx ==> new[i] == old[i]
    &&& same_meeting_but_entries(old[idx], new[idx])
    &&& new[idx].entries@ == old[idx].entries@.remove(e)
}

/// `k` is `old` with its output replaced by one whose text is `output` (none for `None`).
pub open spec fn kind_with_output_text(old: ItemKind, k: ItemKind, output: Option<Seq<char>>) -> bool {
    &&& (match (old, k) {
        (ItemKind::Feedback { polarity: p1, .. }, ItemKind::Feedback { polarity: p2, .. }) => p1 == p2,
        (ItemKind::Topic { .. }, ItemKind::Topic { .. }) => true,
        _ => false,
    })
    &&& match output {
        None => kind_output(k) is None,
        Some(t) => kind_output(k) is Some && kind_output(k).unwrap()@ == t,
    }
}

/// The output that committing `text` records: its trimmed text, or none when that is empty.
pub open spec fn committed_output(text: Seq<char>) -> Option<Seq<char>> {
    if trim_chars(text).len() == 0 {
        None
    } else {
        Some(trim_chars(text))
    }
}

/// `new` is `old` with entry `e` of meeting `idx` given the output `output`.
pub open spec fn output_set(old: Seq<O3>, new: Seq<O3>, idx: int, e: int, output: Option<Seq<char>>) -> bool {
    &&& new.len() == old.len()
    &&& forall|i: int| 0 <= i < old.len() && i != idx ==> new[i] == old[i]
    &&& same_meeting_but_entries(old[idx], new[idx])
    &&& new[idx].entries@.len() == old[idx].entries@.len()
    &&& forall|j: int| 0 <= j < old[idx].entries@.len() && j != e ==> new[idx].entries@[j] == old[idx].entries@[j]
    &&& new[idx].entries@[e].text == old[idx].entries@[e].text
    &&& kind_with_output_text(old[idx].entries@[e].kind, new[idx].entries@[e].kind, output)
}

/// `new` is `old` with a meeting added at the end: id `id`, with `direct`, no date and no
/// entries.
pub open spec fn o3_appended(old: Seq<O3>, new: Seq<O3>, id: u64, direct: Direct) -> bool {
    &&& new.len() == old.len() + 1
    &&& new.take(old.len() as int) == old
    &&& new.last().id == id
    &&& new.last().direct == direct
    &&& new.last().date_days is None
    &&& new.last().entries@.len() == 0
}

/// `new` is `old` with the date of meeting `idx` set to `date`, when there is such a
/// meeting (and `old` otherwise).
pub open spec fn date_set(old: Seq<O3>, new: Seq<O3>, idx: int, date: Option<i64>) -> bool {
    if 0 <= idx < old.len() {
        new == old.update(idx, O3 { date_days: date, ..old[idx] })
    } else {
        new == old
    }
}

impl App {
    /// The manager over a loaded store, showing the list with the first row selected.
    pub fn new(store: Store) -> (app: App)
        ensures
            app.o3s == store.o3s,
            app.next_id == store.next_id,
            app.selected == 0,
            app.mode == Mode::O3List,
    {
        App { o3s: store.o3s, next_id: store.next_id, selected: 0, mode: Mode::O3List }
    }

    /// Adds a meeting with `direct`, no date and no entries, under the next id; returns
    /// its index. The store changes (it is to be saved).
    pub fn create_o3(&mut self, direct: Direct) -> (idx: usize)
        requires
            old(self).next_id < u64::MAX,
        ensures
            idx == old(self).o3s@.len(),
            final(self).o3s@.len() == old(self).o3s@.len() + 1,
            final(self).o3s@.take(idx as int) == old(self).o3s@,
            final(self).o3s@[idx as int].id == old(self).next_id,
            final(self).o3s@[idx as int].direct == direct,
            final(self).o3s@[idx as int].date_days is None,
            final(self).o3s@[idx as int].entries@.len() == 0,
            final(self).next_id == old(self).next_id + 1,
            final(self).selected == old(self).selected,
            final(self).mode == old(self).mode,
    {
        let id = self.next_id;
        self.next_id = self.next_id + 1;
        self.o3s.push(O3 { id, direct, date_days: None, entries: Vec::new() });
        assert(self.o3s@.take(old(self).o3s@.len() as int) =~= old(self).o3s@);
        self.o3s.len() - 1
    }

    /// Removes meeting `o3_idx` if there is one; returns whether the store changed.
    pub fn delete_o3(&mut self, o3_idx: usize) -> (changed: bool)
        ensures
            changed == (o3_idx < old(self).o3s@.len()),
            changed ==> final(self).o3s@ == old(self).o3s@.remove(o3_idx as int),
            !changed ==> final(self).o3s@ == old(self).o3s@,
            final(self).next_id == old(self).next_id,
            final(self).selected == old(self).selected,
            final(self).mode == old(self).mode,
    {
        if o3_idx < self.o3s.len() {
            self.o3s.remove(o3_idx);
            true
        } else {
            false
        }
    }

    /// Sets the date of meeting `o3_idx` if there is one; returns whether the store changed.
    pub fn set_o3_date(&mut self, o3_idx: usize, date_days: Option<i64>) -> (changed: bool)
        ensures
            changed == (o3_idx < old(self).o3s@.len()),
            changed ==> final(self).o3s@ == old(self).o3s@.update(
                o3_idx as int,
                O3 { date_days, ..old(self).o3s@[o3_idx as int] },
            ),
            !changed ==> final(self).o3s@ == old(self).o3s@,
            final(self).next_id == old(self).next_id,
            final(self).selected == old(self).selected,
            final(self).mode == old(self).mode,
    {
        if o3_idx < self.o3s.len() {
            let mut o3 = self.o3s.remove(o3_idx);
            o3.date_days = date_days;
            self.o3s.insert(o3_idx, o3);
            assert(self.o3s@ =~= old(self).o3s@.update(
                o3_idx as int,
                O3 { date_days, ..old(self).o3s@[o3_idx as int] },
            ));
            true
        } else {
            false
        }
    }

    /// Adds the wizard's entry, with its text trimmed, at the end of meeting `o3_idx`;
    /// nothing happens when the trimmed text is empty or there is no such meeting.
    /// Returns whether the store changed.
    pub fn add_entry(&mut self, o3_idx: usize, wizard: &EntryWizard) -> (changed: bool)
        ensures
            changed == (trim_chars(wizard.text@).len() > 0 && o3_idx < old(self).o3s@.len()),
            changed ==> entry_appended(
                old(self).o3s@,
                final(self).o3s@,
                o3_idx as int,
                trim_chars(wizard.text@),
                wizard_kind(*wizard),
            ),
            !changed ==> final(self).o3s@ == old(self).o3s@,
            final(self).next_id == old(self).next_id,
            final(self).selected == old(self).selected,
            final(self).mode == old(self).mode,
    {
        let trimmed = str_trim(wizard.text.as_str());
        if trimmed.is_empty() {
            return false;
        }
        let kind = if wizard.is_topic {
            ItemKind::Topic { output: None }
        } else {
            ItemKind::Feedback {
                polarity: match wizard.polarity {
                    Some(p) => p,
                    None => Polarity::Positive,
                },
                output: None,
            }
        };
        if o3_idx < self.o3s.len() {
            let mut o3 = self.o3s.remove(o3_idx);
            let ghost old_entries = o3.entries@;
            o3.entries.push(Entry { text: trimmed.to_owned(), kind });
            assert(o3.entries@.take(old_entries.len() as int) =~= old_entries);
            self.o3s.insert(o3_idx, o3);
            true
        } else {
            false
        }
    }

    /// Removes entry `entry_idx` of meeting `o3_idx` if both exist; returns whether the
    /// store changed.
    pub fn delete_entry(&mut self, o3_idx: usize, entry_idx: usize) -> (changed: bool)
        ensures
            changed == (o3_idx < old(self).o3s@.len() && entry_idx < old(self).o3s@[o3_idx as int].entries@.len()),
            changed ==> entry_removed(old(self).o3s@, final(self).o3s@, o3_idx as int, entry_idx as int),
            !changed ==> final(self).o3s@ == old(self).o3s@,
            final(self).next_id == old(self).next_id,
            final(self).selected == old(self).selected,
            final(self).mode == old(self).mode,
    {
        if o3_idx < self.o3s.len() {
            if entry_idx < self.o3s[o3_idx].entries.len() {
                let mut o3 = self.o3s.remove(o3_idx);
                o3.entries.remove(entry_idx);
                self.o3s.insert(o3_idx, o3);
                return true;
            }
        }
        false
    }

    /// Records `text`, trimmed, as the output of entry `entry_idx` of meeting `o3_idx`
    /// (no output when the trimmed text is empty), if both exist; returns whether the
    /// store changed.
    pub fn commit_output(&mut self, o3_idx: usize, entry_idx: usize, text: &str) -> (changed: bool)
        ensures
            changed == (o3_idx < old(self).o3s@.len() && entry_idx < old(self).o3s@[o3_idx as int].entries@.len()),
            changed ==> output_set(
                old(self).o3s@,
                final(self).o3s@,
                o3_idx as int,
                entry_idx as int,
                committed_output(text@),
            ),
            !changed ==> final(self).o3s@ == old(self).o3s@,
            final(self).next_id == old(self).next_id,
            final(self).selected == old(self).selected,
            final(self).mode == old(self).mode,
    {
        let trimmed = str_trim(text);
        let output = if trimmed.is_empty() { None } else { Some(trimmed.to_owned()) };
        if o3_idx < self.o3s.len() {
            if entry_idx < self.o3s[o3_idx].entries.len() {
                let mut o3 = self.o3s.remove(o3_idx);
                let mut e = o3.entries.remove(entry_idx);
                e.kind = match e.kind {
                    ItemKind::Topic { .. } => ItemKind::Topic { output },
                    ItemKind::Feedback { polarity, .. } => ItemKind::Feedback { polarity, output },
                };
                o3.entries.insert(entry_idx, e);
                self.o3s.insert(o3_idx, o3);
                return true;
            }
        }
        false
    }
}


/// Moving the selection one row down in a list of `n` rows.
pub open spec fn select_next(selected: usize, n: int) -> usize {
    if n > 0 && selected < n - 1 { (selected + 1) as usize } else { selected }
}

/// Moving the selection one row up.
pub open spec fn select_prev(selected: usize) -> usize {
    if selected > 0 { (selected - 1) as usize } else { selected }
}

/// The selection kept within a list of `n` rows after one was removed.
pub open spec fn clamp_selection(selected: usize, n: int) -> usize {
    if n == 0 { 0 } else if selected >= n { (n - 1) as usize } else { selected }
}

/// The number of entries of meeting `idx`, 0 when there is no such meeting.
pub open spec fn entry_count(o3s: Seq<O3>, idx: int) -> int {
    if 0 <= idx < o3s.len() { o3s[idx].entries@.len() as int } else { 0 }
}

/// The text of an entry's output, empty when it has none.
pub open spec fn output_text(kind: ItemKind) -> Seq<char> {
    match kind_output(kind) {
        Some(s) => s@,
        None => Seq::empty(),
    }
}

/// What a key does on the list of meetings, on day `today`.
pub open spec fn o3_list_step(old: App, key: Key, today: int, new: App, action: Action) -> bool {
    let order = display_order(old.o3s@, today);
    if key == Key::Char('a') {
        new == App { mode: Mode::CreatingO3, ..old } && action == Action::Continue
    } else if key == Key::Char('j') || key == Key::Down {
        new == App { selected: select_next(old.selected, old.o3s@.len() as int), ..old } && action == Action::Continue
    } else if key == Key::Char('k') || key == Key::Up {
        new == App { selected: select_prev(old.selected), ..old } && action == Action::Continue
    } else if key == Key::Enter && old.selected < order.len() {
        &&& new == App {
            selected: 0,
            mode: Mode::O3Detail { o3_idx: order[old.selected as int], prev_list_selected: old.selected },
            ..old
        }
        &&& action == Action::Continue
    } else if key == Key::Char('d') && old.selected < order.len() {
        &&& new.o3s@ == old.o3s@.remove(order[old.selected as int] as int)
        &&& new.next_id == old.next_id
        &&& new.mode == old.mode
        &&& new.selected == clamp_selection(old.selected, old.o3s@.len() - 1)
        &&& action == Action::Save
    } else {
        new == old && action == Action::Continue
    }
}

/// Handles a key on the list of meetings, on day `today`.
pub fn handle_o3_list(app: &mut App, key: Key, today: i64) -> (action: Action)
    ensures
        o3_list_step(*old(app), key, today as int, *final(app), action),
{
    match key {
        Key::Char('a') => {
            app.mode = Mode::CreatingO3;
        },
        Key::Char('j') | Key::Down => {
            let n = app.o3s.len();
            if n > 0 && app.selected < n - 1 {
                app.selected = app.selected + 1;
            }
        },
        Key::Char('k') | Key::Up => {
            if app.selected > 0 {
                app.selected = app.selected - 1;
            }
        },
        Key::Enter => {
            let order = app.sorted_o3_indices_for(today);
            if app.selected < order.len() {
                let idx = order[app.selected];
                let prev = app.selected;
                app.selected = 0;
                app.mode = Mode::O3Detail { o3_idx: idx, prev_list_selected: prev };
            }
        },
        Key::Char('d') => {
            let order = app.sorted_o3_indices_for(today);
            if app.selected < order.len() {
                let idx = order[app.selected];
                app.delete_o3(idx);
                let n = app.o3s.len();
                if n == 0 {
                    app.selected = 0;
                } else if app.selected >= n {
                    app.selected = n - 1;
                }
                return Action::Save;
            }
        },
        _ => {},
    }
    Action::Continue
}

impl App {
    /// The indices of the meetings in display order on day `today`.
    pub fn sorted_o3_indices_for(&self, today: i64) -> (order: Vec<usize>)
        ensures
            order@ == display_order(self.o3s@, today as int),
            is_display_order(self.o3s@, today as int, order@),
    {
        display_order_exec(&self.o3s, today)
    }

    /// The indices of the meetings in display order today, by the system clock.
    pub fn sorted_o3_indices(&self) -> (order: Vec<usize>)
        ensures
            exists|today: int|
                0 <= today <= u64::MAX / 86400 && order@ == display_order(self.o3s@, today),
    {
        let today = today_days();
        self.sorted_o3_indices_for(today)
    }
}


/// What a key does on the screen of meeting `o3_idx`, opened from list row `prev`.
pub open spec fn o3_detail_step(old: App, key: Key, o3_idx: usize, prev: usize, new: App, action: Action) -> bool {
    let n = old.o3s@.len();
    if key == Key::Esc {
        new == App { selected: prev, mode: Mode::O3List, ..old } && action == Action::Continue
    } else if key == Key::Char('a') {
        &&& new.o3s == old.o3s
        &&& new.next_id == old.next_id
        &&& new.selected == old.selected
        &&& new.mode matches Mode::AddingEntry { o3_idx: i, wizard: w } && i == o3_idx && is_fresh_wizard(w)
        &&& action == Action::Continue
    } else if key == Key::Char('t') {
        new == App { mode: Mode::SettingDate { o3_idx }, ..old } && action == Action::Continue
    } else if key == Key::Char('j') || key == Key::Down {
        &&& new == App { selected: select_next(old.selected, entry_count(old.o3s@, o3_idx as int)), ..old }
        &&& action == Action::Continue
    } else if key == Key::Char('k') || key == Key::Up {
        new == App { selected: select_prev(old.selected), ..old } && action == Action::Continue
    } else if key == Key::Char('o') && old.selected < entry_count(old.o3s@, o3_idx as int) {
        let kind = old.o3s@[o3_idx as int].entries@[old.selected as int].kind;
        &&& new.o3s == old.o3s
        &&& new.next_id == old.next_id
        &&& new.selected == old.selected
        &&& new.mode matches Mode::EditingOutput { o3_idx: i, entry_idx: e, text: t, cursor: c }
            && i == o3_idx && e == old.selected && t@ == output_text(kind) && c == bytes_of(t@).len()
        &&& action == Action::Continue
    } else if key == Key::Char('d') {
        let changed = old.selected < entry_count(old.o3s@, o3_idx as int);
        &&& changed ==> entry_removed(old.o3s@, new.o3s@, o3_idx as int, old.selected as int)
        &&& !changed ==> new.o3s@ == old.o3s@
        &&& new.next_id == old.next_id
        &&& new.mode == old.mode
        &&& new.selected == clamp_selection(old.selected, entry_count(new.o3s@, o3_idx as int))
        &&& action == (if changed { Action::Save } else { Action::Continue })
    } else {
        new == old && action == Action::Continue
    }
}

/// The text of an entry's output, to be edited (empty when it has none).
fn output_for_editing(kind: &ItemKind) -> (text: String)
    ensures
        text@ == output_text(*kind),
{
    let output = match kind {
        ItemKind::Topic { output } => output,
        ItemKind::Feedback { output, .. } => output,
    };
    match output {
        Some(s) => s.clone(),
        None => String::new(),
    }
}

/// Handles a key on the screen of meeting `o3_idx`, opened from list row
/// `prev_list_selected`.
pub fn handle_o3_detail(app: &mut App, key: Key, o3_idx: usize, prev_list_selected: usize) -> (action: Action)
    ensures
        o3_detail_step(*old(app), key, o3_idx, prev_list_selected, *final(app), action),
{
    match key {
        Key::Esc => {
            app.selected = prev_list_selected;
            app.mode = Mode::O3List;
        },
        Key::Char('a') => {
            app.mode = Mode::AddingEntry { o3_idx, wizard: EntryWizard::new() };
        },
        Key::Char('t') => {
            app.mode = Mode::SettingDate { o3_idx };
        },
        Key::Char('j') | Key::Down => {
            let n = if o3_idx < app.o3s.len() { app.o3s[o3_idx].entries.len() } else { 0 };
            if n > 0 && app.selected < n - 1 {
                app.selected = app.selected + 1;
            }
        },
        Key::Char('k') | Key::Up => {
            if app.selected > 0 {
                app.selected = app.selected - 1;
            }
        },
        Key::Char('o') => {
            if o3_idx < app.o3s.len() {
                if app.selected < app.o3s[o3_idx].entries.len() {
                    let text = output_for_editing(&app.o3s[o3_idx].entries[app.selected].kind);
                    let cursor = text_len(&text);
                    let entry_idx = app.selected;
                    app.mode = Mode::EditingOutput { o3_idx, entry_idx, text, cursor };
                }
            }
        },
        Key::Char('d') => {
            let sel = app.selected;
            let changed = app.delete_entry(o3_idx, sel);
            let n = if o3_idx < app.o3s.len() { app.o3s[o3_idx].entries.len() } else { 0 };
            if n == 0 {
                app.selected = 0;
            } else if app.selected >= n {
                app.selected = n - 1;
            }
            if changed {
                return Action::Save;
            }
        },
        _ => {},
    }
    Action::Continue
}

/// Whether a key on the screen that creates a meeting creates one, and for whom.
pub open spec fn created_direct(key: Key) -> Option<Direct> {
    if key == Key::Char('1') || key == Key::Char('m') {
        Some(Direct::Mario)
    } else if key == Key::Char('2') || key == Key::Char('n') {
        Some(Direct::Martins)
    } else {
        None
    }
}

/// What a key does on the screen that creates a meeting.
pub open spec fn creating_o3_step(old: App, key: Key, new: App, action: Action) -> bool {
    if key == Key::Esc {
        new == App { mode: Mode::O3List, ..old } && action == Action::Continue
    } else if let Some(direct) = created_direct(key) {
        &&& o3_appended(old.o3s@, new.o3s@, old.next_id, direct)
        &&& new.next_id == old.next_id + 1
        &&& new.selected == 0
        &&& new.mode == Mode::O3Detail { o3_idx: old.o3s@.len() as usize, prev_list_selected: 0 }
        &&& action == Action::Save
    } else {
        new == old && action == Action::Continue
    }
}

/// Handles a key on the screen that creates a meeting.
pub fn handle_creating_o3(app: &mut App, key: Key) -> (action: Action)
    requires
        created_direct(key) is Some ==> old(app).next_id < u64::MAX,
    ensures
        creating_o3_step(*old(app), key, *final(app), action),
{
    match key {
        Key::Esc => {
            app.mode = Mode::O3List;
        },
        Key::Char('1') | Key::Char('m') => {
            let o3_idx = app.create_o3(Direct::Mario);
            app.selected = 0;
            app.mode = Mode::O3Detail { o3_idx, prev_list_selected: app.selected };
            return Action::Save;
        },
        Key::Char('2') | Key::Char('n') => {
            let o3_idx = app.create_o3(Direct::Martins);
            app.selected = 0;
            app.mode = Mode::O3Detail { o3_idx, prev_list_selected: app.selected };
            return Action::Save;
        },
        _ => {},
    }
    Action::Continue
}

/// The date a key picks on the screen that dates a meeting, on day `today`: `None` for a
/// key that picks nothing, `Some(None)` to clear the date, `Some(Some(d))` for day `d`.
pub open spec fn picked_date(key: Key, today: int) -> Option<Option<i64>> {
    match key {
        Key::Char(c) => if c == '0' {
            Some(None)
        } else if '1' <= c <= '8' {
            Some(Some(thursday_options_spec(today)[(c as int) - ('1' as int)]))
        } else {
            None
        },
        _ => None,
    }
}

/// Whether a key is a decimal digit.
pub open spec fn is_digit_key(key: Key) -> bool {
    match key {
        Key::Char(c) => '0' <= c <= '9',
        _ => false,
    }
}

/// What a key does on the screen that dates meeting `o3_idx`, on day `today`.
pub open spec fn setting_date_step(old: App, key: Key, o3_idx: usize, today: int, new: App, action: Action) -> bool {
    let back = Mode::O3Detail { o3_idx, prev_list_selected: old.selected };
    if key == Key::Esc {
        new == App { mode: back, ..old } && action == Action::Continue
    } else if is_digit_key(key) {
        &&& new.next_id == old.next_id
        &&& new.selected == old.selected
        &&& new.mode == back
        &&& match picked_date(key, today) {
            Some(date) => {
                &&& date_set(old.o3s@, new.o3s@, o3_idx as int, date)
                &&& action == (if o3_idx < old.o3s@.len() { Action::Save } else { Action::Continue })
            },
            None => new.o3s == old.o3s && action == Action::Continue,
        }
    } else {
        new == old && action == Action::Continue
    }
}

/// Handles a key on the screen that dates meeting `o3_idx`, on day `today`.
pub fn handle_setting_date(app: &mut App, key: Key, o3_idx: usize, today: i64) -> (action: Action)
    requires
        0 <= today <= u64::MAX / 86400,
    ensures
        setting_date_step(*old(app), key, o3_idx, today as int, *final(app), action),
{
    let prev = app.selected;
    match key {
        Key::Esc => {
            app.mode = Mode::O3Detail { o3_idx, prev_list_selected: prev };
        },
        Key::Char('0') => {
            let changed = app.set_o3_date(o3_idx, None);
            app.mode = Mode::O3Detail { o3_idx, prev_list_selected: prev };
            if changed {
                return Action::Save;
            }
        },
        Key::Char(c) => {
            if '0' <= c && c <= '9' {
                let idx = (c as u32 - '0' as u32) as usize;
                let options = thursday_options_for(today);
                let mut changed = false;
                if idx >= 1 && idx <= options.len() {
                    changed = app.set_o3_date(o3_idx, Some(options[idx - 1]));
                }
                app.mode = Mode::O3Detail { o3_idx, prev_list_selected: prev };
                if changed {
                    return Action::Save;
                }
            }
        },
        _ => {},
    }
    Action::Continue
}


/// Whether a key leaves the wizard (Esc, at any step).
pub open spec fn wizard_cancels(key: Key) -> bool {
    key == Key::Esc
}

/// Whether a wizard at step `step` adds its entry with `key` (Enter while typing the text).
pub open spec fn wizard_commits(step: EntryStep, key: Key) -> bool {
    step == EntryStep::EnterText && key == Key::Enter
}

/// `w2` is the wizard `w` after a key that neither leaves it nor adds its entry.
pub open spec fn wizard_advanced(w: EntryWizard, key: Key, w2: EntryWizard) -> bool {
    match w.step {
        EntryStep::SelectItemType => if key == Key::Char('f') {
            w2 == EntryWizard { is_topic: false, step: EntryStep::SelectPolarity, ..w }
        } else if key == Key::Char('t') {
            w2 == EntryWizard { is_topic: true, step: EntryStep::EnterText, ..w }
        } else {
            w2 == w
        },
        EntryStep::SelectPolarity => if key == Key::Char('+') || key == Key::Char('p') {
            w2 == EntryWizard { polarity: Some(Polarity::Positive), step: EntryStep::EnterText, ..w }
        } else if key == Key::Char('-') || key == Key::Char('n') {
            w2 == EntryWizard { polarity: Some(Polarity::Negative), step: EntryStep::EnterText, ..w }
        } else {
            w2 == w
        },
        EntryStep::EnterText => {
            &&& w2.step == w.step
            &&& w2.is_topic == w.is_topic
            &&& w2.polarity == w.polarity
            &&& bytes_of(w2.text@) == edited_bytes(bytes_of(w.text@), w.cursor as int, key)
            &&& w2.cursor == edited_cursor(bytes_of(w.text@), w.cursor as int, key)
        },
    }
}

/// Whether a key can be handled by the wizard `w` without an edit off a character boundary.
pub open spec fn wizard_key_defined(w: EntryWizard, key: Key) -> bool {
    w.step == EntryStep::EnterText && key != Key::Enter && key != Key::Esc
        ==> edit_is_defined(bytes_of(w.text@), w.cursor as int, key)
}

/// What a key does while an entry is being added to meeting `o3_idx`.
pub open spec fn adding_entry_step(old: App, key: Key, o3_idx: usize, new: App, action: Action) -> bool {
    let back = Mode::O3Detail { o3_idx, prev_list_selected: old.selected };
    match old.mode {
        Mode::AddingEntry { wizard: w, .. } => {
            &&& new.next_id == old.next_id
            &&& new.selected == old.selected
            &&& if wizard_cancels(key) {
                new.o3s == old.o3s && new.mode == back && action == Action::Continue
            } else if wizard_commits(w.step, key) {
                let changed = trim_chars(w.text@).len() > 0 && o3_idx < old.o3s@.len();
                &&& changed ==> entry_appended(old.o3s@, new.o3s@, o3_idx as int, trim_chars(w.text@), wizard_kind(w))
                &&& !changed ==> new.o3s@ == old.o3s@
                &&& new.mode == back
                &&& action == (if changed { Action::Save } else { Action::Continue })
            } else {
                &&& new.o3s == old.o3s
                &&& new.mode matches Mode::AddingEntry { o3_idx: i, wizard: w2 }
                    && i == o3_idx && wizard_advanced(w, key, w2)
                &&& action == Action::Continue
            }
        },
        _ => new == old && action == Action::Continue,
    }
}

/// Handles a key while an entry is being added to meeting `o3_idx`.
pub fn handle_adding_entry(app: &mut App, key: Key, o3_idx: usize) -> (action: Action)
    requires
        old(app).mode matches Mode::AddingEntry { wizard: w, .. } ==> wizard_key_defined(w, key),
    ensures
        adding_entry_step(*old(app), key, o3_idx, *final(app), action),
{
    let mut mode = Mode::O3List;
    std::mem::swap(&mut mode, &mut app.mode);
    let mut w = match mode {
        Mode::AddingEntry { wizard, .. } => wizard,
        other => {
            app.mode = other;
            return Action::Continue;
        },
    };
    let mut commit = false;
    let mut cancel = false;
    match w.step {
        EntryStep::SelectItemType => match key {
            Key::Char('f') => {
                w.is_topic = false;
                w.step = EntryStep::SelectPolarity;
            },
            Key::Char('t') => {
                w.is_topic = true;
                w.step = EntryStep::EnterText;
            },
            Key::Esc => cancel = true,
            _ => {},
        },
        EntryStep::SelectPolarity => match key {
            Key::Char('+') | Key::Char('p') => {
                w.polarity = Some(Polarity::Positive);
                w.step = EntryStep::EnterText;
            },
            Key::Char('-') | Key::Char('n') => {
                w.polarity = Some(Polarity::Negative);
                w.step = EntryStep::EnterText;
            },
            Key::Esc => cancel = true,
            _ => {},
        },
        EntryStep::EnterText => match key {
            Key::Enter => commit = true,
            Key::Esc => cancel = true,
            _ => edit_text(&mut w.text, &mut w.cursor, key),
        },
    }
    let prev = app.selected;
    if cancel {
        app.mode = Mode::O3Detail { o3_idx, prev_list_selected: prev };
        Action::Continue
    } else if commit {
        let changed = app.add_entry(o3_idx, &w);
        app.mode = Mode::O3Detail { o3_idx, prev_list_selected: prev };
        if changed {
            Action::Save
        } else {
            Action::Continue
        }
    } else {
        app.mode = Mode::AddingEntry { o3_idx, wizard: w };
        Action::Continue
    }
}

/// Whether a key can be handled while an output is edited without an edit off a
/// character boundary.
pub open spec fn output_key_defined(text: String, cursor: usize, key: Key) -> bool {
    key != Key::Enter && key != Key::Esc ==> edit_is_defined(bytes_of(text@), cursor as int, key)
}

/// What a key does while the output of entry `entry_idx` of meeting `o3_idx` is edited.
pub open spec fn editing_output_step(old: App, key: Key, o3_idx: usize, entry_idx: usize, new: App, action: Action) -> bool {
    let back = Mode::O3Detail { o3_idx, prev_list_selected: old.selected };
    match old.mode {
        Mode::EditingOutput { text, cursor, .. } => {
            &&& new.next_id == old.next_id
            &&& new.selected == old.selected
            &&& if key == Key::Enter {
                let changed = o3_idx < old.o3s@.len() && entry_idx < old.o3s@[o3_idx as int].entries@.len();
                &&& changed ==> output_set(old.o3s@, new.o3s@, o3_idx as int, entry_idx as int, committed_output(text@))
                &&& !changed ==> new.o3s@ == old.o3s@
                &&& new.mode == back
                &&& action == (if changed { Action::Save } else { Action::Continue })
            } else if key == Key::Esc {
                new.o3s == old.o3s && new.mode == back && action == Action::Continue
            } else {
                &&& new.o3s == old.o3s
                &&& new.mode matches Mode::EditingOutput { o3_idx: i, entry_idx: e, text: t, cursor: c }
                    && i == o3_idx && e == entry_idx
                    && bytes_of(t@) == edited_bytes(bytes_of(text@), cursor as int, key)
                    && c == edited_cursor(bytes_of(text@), cursor as int, key)
                &&& action == Action::Continue
            }
        },
        _ => new == old && action == Action::Continue,
    }
}

/// Handles a key while the output of entry `entry_idx` of meeting `o3_idx` is edited.
pub fn handle_editing_output(app: &mut App, key: Key, o3_idx: usize, entry_idx: usize) -> (action: Action)
    requires
        old(app).mode matches Mode::EditingOutput { text, cursor, .. } ==> output_key_defined(text, cursor, key),
    ensures
        editing_output_step(*old(app), key, o3_idx, entry_idx, *final(app), action),
{
    let mut mode = Mode::O3List;
    std::mem::swap(&mut mode, &mut app.mode);
    let (mut text, mut cursor) = match mode {
        Mode::EditingOutput { text, cursor, .. } => (text, cursor),
        other => {
            app.mode = other;
            return Action::Continue;
        },
    };
    let mut commit = false;
    let mut cancel = false;
    match key {
        Key::Enter => commit = true,
        Key::Esc => cancel = true,
        _ => edit_text(&mut text, &mut cursor, key),
    }
    let prev = app.selected;
    if commit {
        let changed = app.commit_output(o3_idx, entry_idx, text.as_str());
        app.mode = Mode::O3Detail { o3_idx, prev_list_selected: prev };
        if changed {
            Action::Save
        } else {
            Action::Continue
        }
    } else if cancel {
        app.mode = Mode::O3Detail { o3_idx, prev_list_selected: prev };
        Action::Continue
    } else {
        app.mode = Mode::EditingOutput { o3_idx, entry_idx, text, cursor };
        Action::Continue
    }
}


/// Whether the manager can handle `key` in state `app` without an edit off a character
/// boundary or an id past `u64::MAX`.
pub open spec fn key_defined(app: App, key: Key) -> bool {
    match app.mode {
        Mode::CreatingO3 => created_direct(key) is Some ==> app.next_id < u64::MAX,
        Mode::AddingEntry { wizard, .. } => wizard_key_defined(wizard, key),
        Mode::EditingOutput { text, cursor, .. } => output_key_defined(text, cursor, key),
        _ => true,
    }
}

/// What a key does to the manager in state `old` on day `today`: `q` leaves from the list
/// and from a meeting; otherwise the screen shown handles the key.
pub open spec fn key_step(old: App, key: Key, today: int, new: App, action: Action) -> bool {
    match old.mode {
        Mode::O3List => if key == Key::Char('q') {
            new == old && action == Action::Quit
        } else {
            o3_list_step(old, key, today, new, action)
        },
        Mode::O3Detail { o3_idx, prev_list_selected } => if key == Key::Char('q') {
            new == old && action == Action::Quit
        } else {
            o3_detail_step(old, key, o3_idx, prev_list_selected, new, action)
        },
        Mode::CreatingO3 => creating_o3_step(old, key, new, action),
        Mode::SettingDate { o3_idx } => setting_date_step(old, key, o3_idx, today, new, action),
        Mode::AddingEntry { o3_idx, .. } => adding_entry_step(old, key, o3_idx, new, action),
        Mode::EditingOutput { o3_idx, entry_idx, .. } => editing_output_step(old, key, o3_idx, entry_idx, new, action),
    }
}

/// The screen shown, without what it holds.
enum ModeTag {
    O3List,
    O3Detail(usize, usize),
    CreatingO3,
    SettingDate(usize),
    AddingEntry(usize),
    EditingOutput(usize, usize),
}

impl App {
    /// Handles a key pressed on day `today`, and says what is to be done next.
    pub fn handle_key_on(&mut self, key: Key, today: i64) -> (action: Action)
        requires
            key_defined(*old(self), key),
            0 <= today <= u64::MAX / 86400,
        ensures
            key_step(*old(self), key, today as int, *final(self), action),
    {
        let tag = match &self.mode {
            Mode::O3List => ModeTag::O3List,
            Mode::O3Detail { o3_idx, prev_list_selected } => ModeTag::O3Detail(*o3_idx, *prev_list_selected),
            Mode::CreatingO3 => ModeTag::CreatingO3,
            Mode::SettingDate { o3_idx } => ModeTag::SettingDate(*o3_idx),
            Mode::AddingEntry { o3_idx, .. } => ModeTag::AddingEntry(*o3_idx),
            Mode::EditingOutput { o3_idx, entry_idx, .. } => ModeTag::EditingOutput(*o3_idx, *entry_idx),
        };
        match tag {
            ModeTag::O3List => {
                if key == Key::Char('q') {
                    return Action::Quit;
                }
                handle_o3_list(self, key, today)
            },
            ModeTag::O3Detail(o3_idx, prev) => {
                if key == Key::Char('q') {
                    return Action::Quit;
                }
                handle_o3_detail(self, key, o3_idx, prev)
            },
            ModeTag::CreatingO3 => handle_creating_o3(self, key),
            ModeTag::SettingDate(o3_idx) => handle_setting_date(self, key, o3_idx, today),
            ModeTag::AddingEntry(o3_idx) => handle_adding_entry(self, key, o3_idx),
            ModeTag::EditingOutput(o3_idx, entry_idx) => handle_editing_output(self, key, o3_idx, entry_idx),
        }
    }

    /// Handles a key pressed now (the day is read from the system clock), and says what is
    /// to be done next.
    pub fn handle_key(&mut self, key: Key) -> (action: Action)
        requires
            key_defined(*old(self), key),
        ensures
            exists|today: int|
                0 <= today <= u64::MAX / 86400 && key_step(*old(self), key, today, *final(self), action),
    {
        let today = today_days();
        self.handle_key_on(key, today)
    }

    /// Whether `handle_key` may be called with `key` in this state.
    pub fn key_is_safe(&self, key: Key) -> (ok: bool)
        ensures
            ok == key_defined(*self, key),
    {
        match &self.mode {
            Mode::CreatingO3 => {
                match key {
                    Key::Char('1') | Key::Char('m') | Key::Char('2') | Key::Char('n') => self.next_id < u64::MAX,
                    _ => true,
                }
            },
            Mode::AddingEntry { wizard, .. } => {
                match wizard.step {
                    EntryStep::EnterText => match key {
                        Key::Enter | Key::Esc => true,
                        _ => edit_is_safe(&wizard.text, wizard.cursor, key),
                    },
                    _ => true,
                }
            },
            Mode::EditingOutput { text, cursor, .. } => match key {
                Key::Enter | Key::Esc => true,
                _ => edit_is_safe(text, *cursor, key),
            },
            _ => true,
        }
    }
}

} // verus!
