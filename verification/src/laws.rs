use vstd::prelude::*;

use crate::keys::Key;
use crate::manager::{Action, App, EntryStep, EntryWizard, Mode, adding_entry_step, creating_o3_step, editing_output_step, o3_detail_step, o3_list_step, setting_date_step, is_fresh_wizard, wizard_commits, wizard_key_defined, committed_output, created_direct, entry_appended, entry_removed, entry_count, key_step, o3_appended, output_set, wizard_kind};
use crate::model::{Direct, ItemKind, Polarity, kind_output};
use crate::text::{bytes_of, lemma_ascii_editing, lemma_trim_idempotent, trim_chars};
use vstd::utf8::encode_utf8;
use vstd::utf8::is_ascii_chars;
use crate::order::{display_order, lemma_display_order_exists};
use crate::model::O3;

verus! {

/// Nothing the user does is lost: a key that does not ask for a save leaves the stored
/// meetings and the next id as they were.
pub proof fn lemma_unsaved_step_keeps_store(old: App, key: Key, today: int, new: App, action: Action)
    requires
        key_step(old, key, today, new, action),
        action != Action::Save,
    ensures
        new.o3s@ == old.o3s@,
        new.next_id == old.next_id,
{
}

/// The ids of the meetings are pairwise distinct and below the next id to hand out.
pub open spec fn ids_are_fresh(o3s: Seq<O3>, next_id: u64) -> bool {
    &&& forall|i: int| 0 <= i < o3s.len() ==> #[trigger] o3s[i].id < next_id
    &&& forall|i: int, j: int|
        #![trigger o3s[i].id, o3s[j].id]
        0 <= i < o3s.len() && 0 <= j < o3s.len() && i != j ==> o3s[i].id != o3s[j].id
}

proof fn lemma_ids_same(o: Seq<O3>, n: Seq<O3>, next_id: u64)
    requires
        ids_are_fresh(o, next_id),
        n.len() == o.len(),
        forall|i: int| 0 <= i < o.len() ==> #[trigger] n[i].id == o[i].id,
    ensures
        ids_are_fresh(n, next_id),
{
    assert forall|i: int, j: int|
        0 <= i < n.len() && 0 <= j < n.len() && i != j implies #[trigger] n[i].id != #[trigger] n[j].id by {
        assert(n[i].id == o[i].id && n[j].id == o[j].id);
    }
}

proof fn lemma_ids_remove(o: Seq<O3>, r: int, next_id: u64)
    requires
        ids_are_fresh(o, next_id),
        0 <= r < o.len(),
    ensures
        ids_are_fresh(o.remove(r), next_id),
{
    let n = o.remove(r);
    assert forall|i: int| 0 <= i < n.len() implies #[trigger] n[i].id < next_id by {
        if i < r { assert(n[i] == o[i]); } else { assert(n[i] == o[i + 1]); }
    }
    assert forall|i: int, j: int|
        0 <= i < n.len() && 0 <= j < n.len() && i != j implies #[trigger] n[i].id != #[trigger] n[j].id by {
        let oi = if i < r { i } else { i + 1 };
        let oj = if j < r { j } else { j + 1 };
        assert(n[i] == o[oi] && n[j] == o[oj]);
    }
}

proof fn lemma_ids_append(o: Seq<O3>, n: Seq<O3>, next_id: u64, direct: Direct)
    requires
        ids_are_fresh(o, next_id),
        next_id < u64::MAX,
        o3_appended(o, n, next_id, direct),
    ensures
        ids_are_fresh(n, (next_id + 1) as u64),
{
    assert forall|i: int| 0 <= i < n.len() implies #[trigger] n[i].id < next_id + 1 by {
        if i < o.len() { assert(n[i] == n.take(o.len() as int)[i]); }
    }
    assert forall|i: int, j: int|
        0 <= i < n.len() && 0 <= j < n.len() && i != j implies #[trigger] n[i].id != #[trigger] n[j].id by {
        if i < o.len() { assert(n[i] == n.take(o.len() as int)[i]); }
        if j < o.len() { assert(n[j] == n.take(o.len() as int)[j]); }
    }
}

/// Every key keeps the ids of the meetings distinct and below the next id.
pub proof fn lemma_key_step_keeps_ids(old: App, key: Key, today: int, new: App, action: Action)
    requires
        ids_are_fresh(old.o3s@, old.next_id),
        old.o3s@.len() <= usize::MAX,
        key_step(old, key, today, new, action),
    ensures
        ids_are_fresh(new.o3s@, new.next_id),
{
    let o = old.o3s@;
    let n = new.o3s@;
    match old.mode {
        Mode::O3List => {
            if key == Key::Char('d') {
                lemma_display_order_exists(o, today);
                let order = display_order(o, today);
                if old.selected < order.len() {
                    lemma_ids_remove(o, order[old.selected as int] as int, old.next_id);
                }
            }
        },
        Mode::O3Detail { o3_idx, .. } => {
            if key == Key::Char('d') && old.selected < entry_count(o, o3_idx as int) {
                lemma_ids_same(o, n, old.next_id);
            }
        },
        Mode::CreatingO3 => {
            if let Some(direct) = created_direct(key) {
                if key != Key::Esc {
                    lemma_ids_append(o, n, old.next_id, direct);
                }
            }
        },
        Mode::SettingDate { o3_idx } => {
            if 0 <= o3_idx < o.len() {
                lemma_ids_same(o, n, old.next_id);
            }
        },
        Mode::AddingEntry { .. } => {
            lemma_ids_same(o, n, old.next_id);
        },
        Mode::EditingOutput { .. } => {
            lemma_ids_same(o, n, old.next_id);
        },
    }
}


/// A text as entries and outputs hold it: not empty, without surrounding whitespace.
pub open spec fn is_tidy_text(t: Seq<char>) -> bool {
    t.len() > 0 && trim_chars(t) == t
}

/// Every entry of every meeting has a tidy text, and a tidy output when it has one.
pub open spec fn entries_tidy(o3s: Seq<O3>) -> bool {
    forall|i: int, j: int|
        0 <= i < o3s.len() && 0 <= j < o3s[i].entries@.len() ==> {
            &&& is_tidy_text(#[trigger] o3s[i].entries@[j].text@)
            &&& (kind_output(o3s[i].entries@[j].kind) matches Some(o) ==> is_tidy_text(o@))
        }
}

proof fn lemma_tidy_same_entries(o: Seq<O3>, n: Seq<O3>, except: int)
    requires
        entries_tidy(o),
        n.len() == o.len(),
        forall|i: int| 0 <= i < o.len() && i != except ==> n[i] == o[i],
        0 <= except < o.len() ==> n[except].entries == o[except].entries,
    ensures
        entries_tidy(n),
{
    assert forall|i: int, j: int| 0 <= i < n.len() && 0 <= j < n[i].entries@.len() implies {
        &&& is_tidy_text(#[trigger] n[i].entries@[j].text@)
        &&& (kind_output(n[i].entries@[j].kind) matches Some(out) ==> is_tidy_text(out@))
    } by {
        assert(n[i].entries == o[i].entries);
        assert(o[i].entries@[j] == n[i].entries@[j]);
        assert(is_tidy_text(o[i].entries@[j].text@));
    }
}

proof fn lemma_tidy_remove(o: Seq<O3>, r: int)
    requires
        entries_tidy(o),
        0 <= r < o.len(),
    ensures
        entries_tidy(o.remove(r)),
{
    let n = o.remove(r);
    assert forall|i: int, j: int| 0 <= i < n.len() && 0 <= j < n[i].entries@.len() implies {
        &&& is_tidy_text(#[trigger] n[i].entries@[j].text@)
        &&& (kind_output(n[i].entries@[j].kind) matches Some(out) ==> is_tidy_text(out@))
    } by {
        let oi = if i < r { i } else { i + 1 };
        assert(n[i] == o[oi]);
        assert(is_tidy_text(o[oi].entries@[j].text@));
    }
}

proof fn lemma_tidy_entry_removed(o: Seq<O3>, n: Seq<O3>, k: int, e: int)
    requires
        entries_tidy(o),
        0 <= k < o.len(),
        0 <= e < o[k].entries@.len(),
        entry_removed(o, n, k, e),
    ensures
        entries_tidy(n),
{
    assert forall|i: int, j: int| 0 <= i < n.len() && 0 <= j < n[i].entries@.len() implies {
        &&& is_tidy_text(#[trigger] n[i].entries@[j].text@)
        &&& (kind_output(n[i].entries@[j].kind) matches Some(out) ==> is_tidy_text(out@))
    } by {
        if i == k {
            let oj = if j < e { j } else { j + 1 };
            assert(n[i].entries@[j] == o[i].entries@[oj]);
            assert(is_tidy_text(o[i].entries@[oj].text@));
        } else {
            assert(n[i] == o[i]);
            assert(is_tidy_text(o[i].entries@[j].text@));
        }
    }
}

proof fn lemma_tidy_meeting_appended(o: Seq<O3>, n: Seq<O3>, id: u64, direct: Direct)
    requires
        entries_tidy(o),
        o3_appended(o, n, id, direct),
    ensures
        entries_tidy(n),
{
    assert forall|i: int, j: int| 0 <= i < n.len() && 0 <= j < n[i].entries@.len() implies {
        &&& is_tidy_text(#[trigger] n[i].entries@[j].text@)
        &&& (kind_output(n[i].entries@[j].kind) matches Some(out) ==> is_tidy_text(out@))
    } by {
        assert(i < o.len());
        assert(n[i] == n.take(o.len() as int)[i]);
        assert(is_tidy_text(o[i].entries@[j].text@));
    }
}

proof fn lemma_tidy_entry_appended(o: Seq<O3>, n: Seq<O3>, k: int, text: Seq<char>, kind: ItemKind)
    requires
        entries_tidy(o),
        0 <= k < o.len(),
        is_tidy_text(text),
        kind_output(kind) is None,
        entry_appended(o, n, k, text, kind),
    ensures
        entries_tidy(n),
{
    assert forall|i: int, j: int| 0 <= i < n.len() && 0 <= j < n[i].entries@.len() implies {
        &&& is_tidy_text(#[trigger] n[i].entries@[j].text@)
        &&& (kind_output(n[i].entries@[j].kind) matches Some(out) ==> is_tidy_text(out@))
    } by {
        if i == k {
            if j < o[i].entries@.len() {
                assert(n[i].entries@[j] == n[i].entries@.take(o[i].entries@.len() as int)[j]);
                assert(is_tidy_text(o[i].entries@[j].text@));
            }
        } else {
            assert(n[i] == o[i]);
            assert(is_tidy_text(o[i].entries@[j].text@));
        }
    }
}

proof fn lemma_tidy_output_set(o: Seq<O3>, n: Seq<O3>, k: int, e: int, text: Seq<char>)
    requires
        entries_tidy(o),
        0 <= k < o.len(),
        0 <= e < o[k].entries@.len(),
        output_set(o, n, k, e, committed_output(text)),
    ensures
        entries_tidy(n),
{
    lemma_trim_idempotent(text);
    assert forall|i: int, j: int| 0 <= i < n.len() && 0 <= j < n[i].entries@.len() implies {
        &&& is_tidy_text(#[trigger] n[i].entries@[j].text@)
        &&& (kind_output(n[i].entries@[j].kind) matches Some(out) ==> is_tidy_text(out@))
    } by {
        if i == k {
            assert(is_tidy_text(o[i].entries@[j].text@));
            if j != e {
                assert(n[i].entries@[j] == o[i].entries@[j]);
            }
        } else {
            assert(n[i] == o[i]);
            assert(is_tidy_text(o[i].entries@[j].text@));
        }
    }
}

/// Every key keeps entries and outputs tidy: they are stored trimmed and never empty.
pub proof fn lemma_key_step_keeps_entries_tidy(old: App, key: Key, today: int, new: App, action: Action)
    requires
        entries_tidy(old.o3s@),
        old.o3s@.len() <= usize::MAX,
        key_step(old, key, today, new, action),
    ensures
        entries_tidy(new.o3s@),
{
    let o = old.o3s@;
    let n = new.o3s@;
    if n != o {
        match old.mode {
            Mode::O3List => {
                lemma_display_order_exists(o, today);
                let order = display_order(o, today);
                lemma_tidy_remove(o, order[old.selected as int] as int);
            },
            Mode::O3Detail { o3_idx, .. } => {
                lemma_tidy_entry_removed(o, n, o3_idx as int, old.selected as int);
            },
            Mode::CreatingO3 => {
                lemma_tidy_meeting_appended(o, n, old.next_id, created_direct(key).unwrap());
            },
            Mode::SettingDate { o3_idx } => {
                lemma_tidy_same_entries(o, n, o3_idx as int);
            },
            Mode::AddingEntry { o3_idx, wizard } => {
                lemma_trim_idempotent(wizard.text@);
                lemma_tidy_entry_appended(o, n, o3_idx as int, trim_chars(wizard.text@), wizard_kind(wizard));
            },
            Mode::EditingOutput { o3_idx, entry_idx, text, .. } => {
                lemma_tidy_output_set(o, n, o3_idx as int, entry_idx as int, text@);
            },
        }
    }
}


/// On the list, a selection that is on a row (or at 0) stays on a row (or at 0) whatever
/// key is pressed, deletions included.
pub proof fn lemma_list_selection_stays_on_a_row(old: App, key: Key, today: int, new: App, action: Action)
    requires
        old.mode is O3List,
        old.selected < old.o3s@.len() || old.selected == 0,
        old.o3s@.len() <= usize::MAX,
        key_step(old, key, today, new, action),
    ensures
        new.mode is O3List ==> new.selected < new.o3s@.len() || new.selected == 0,
{
    lemma_display_order_exists(old.o3s@, today);
}


/// A wizard's fields agree with its step: nothing is typed before the text step, a
/// polarity is chosen only for feedback, and feedback reaches the text step only with a
/// polarity chosen.
pub open spec fn wizard_consistent(w: EntryWizard) -> bool {
    &&& w.step != EntryStep::EnterText ==> w.text@ == Seq::<char>::empty() && w.cursor == 0 && w.polarity is None
    &&& w.step == EntryStep::SelectPolarity ==> !w.is_topic
    &&& w.step == EntryStep::EnterText && !w.is_topic ==> w.polarity is Some
}

/// The order of the wizard's steps.
pub open spec fn step_rank(step: EntryStep) -> int {
    match step {
        EntryStep::SelectItemType => 0,
        EntryStep::SelectPolarity => 1,
        EntryStep::EnterText => 2,
    }
}

/// A wizard as it starts is consistent.
pub proof fn lemma_fresh_wizard_consistent(w: EntryWizard)
    requires
        is_fresh_wizard(w),
    ensures
        wizard_consistent(w),
{
}

/// The wizard never steps back and stays consistent; so feedback that it adds always
/// carries the polarity that was chosen.
pub proof fn lemma_wizard_moves_forward(old: App, key: Key, o3_idx: usize, new: App, action: Action)
    requires
        old.mode is AddingEntry,
        wizard_consistent(old.mode->AddingEntry_wizard),
        adding_entry_step(old, key, o3_idx, new, action),
    ensures
        new.mode is AddingEntry ==> wizard_consistent(new.mode->AddingEntry_wizard) && step_rank(
            new.mode->AddingEntry_wizard.step,
        ) >= step_rank(old.mode->AddingEntry_wizard.step),
        ({
            let w = old.mode->AddingEntry_wizard;
            wizard_commits(w.step, key) && !w.is_topic ==> w.polarity is Some && wizard_kind(w)
                == ItemKind::Feedback { polarity: w.polarity.unwrap(), output: None }
        }),
{
}

/// Typing ASCII into an ASCII text at a cursor within it never hits a position off a
/// character boundary, and keeps the text ASCII and the cursor within it.
pub proof fn lemma_wizard_ascii_editing(old: App, key: Key, o3_idx: usize, new: App, action: Action)
    requires
        old.mode is AddingEntry,
        old.mode->AddingEntry_wizard.step == EntryStep::EnterText,
        is_ascii_chars(old.mode->AddingEntry_wizard.text@),
        old.mode->AddingEntry_wizard.cursor <= old.mode->AddingEntry_wizard.text@.len(),
        old.mode->AddingEntry_wizard.text@.len() + 4 <= isize::MAX,
        key matches Key::Char(c) ==> c <= '\u{7f}',
        adding_entry_step(old, key, o3_idx, new, action),
    ensures
        wizard_key_defined(old.mode->AddingEntry_wizard, key),
        new.mode is AddingEntry ==> is_ascii_chars(new.mode->AddingEntry_wizard.text@)
            && new.mode->AddingEntry_wizard.cursor <= new.mode->AddingEntry_wizard.text@.len(),
{
    let w = old.mode->AddingEntry_wizard;
    if key != Key::Enter && key != Key::Esc {
        // an editing key: the wizard stays open with the edited text
        let w2 = new.mode->AddingEntry_wizard;
        lemma_ascii_editing(w.text@, w.cursor as int, key, w2.text@);
    }
}

/// The wizard's keys: at the type step 'f' chooses feedback (then the polarity step) and
/// 't' a topic (then the text step); at the polarity step '+' and 'p' choose Positive, '-'
/// and 'n' Negative (then the text step); other keys but Esc leave a choosing step as it
/// is; typing at the text step keeps what was chosen.
pub proof fn lemma_wizard_keys(old: App, key: Key, o3_idx: usize, new: App, action: Action)
    requires
        (old.mode is AddingEntry),
        key != Key::Esc,
        adding_entry_step(old, key, o3_idx, new, action),
    ensures
        ({
            let w = old.mode->AddingEntry_wizard;
            let w2 = new.mode->AddingEntry_wizard;
            &&& w.step == EntryStep::SelectItemType && key == Key::Char('f') ==> {
                &&& (new.mode is AddingEntry)
                &&& w2.step == EntryStep::SelectPolarity
                &&& !w2.is_topic
                &&& w2.polarity == w.polarity
                &&& w2.text == w.text
                &&& w2.cursor == w.cursor
            }
            &&& w.step == EntryStep::SelectItemType && key == Key::Char('t') ==> {
                &&& (new.mode is AddingEntry)
                &&& w2.step == EntryStep::EnterText
                &&& w2.is_topic
                &&& w2.polarity == w.polarity
                &&& w2.text == w.text
                &&& w2.cursor == w.cursor
            }
            &&& w.step == EntryStep::SelectPolarity && (key == Key::Char('+') || key == Key::Char('p')) ==> {
                &&& (new.mode is AddingEntry)
                &&& w2.step == EntryStep::EnterText
                &&& w2.polarity == Some(Polarity::Positive)
                &&& w2.is_topic == w.is_topic
                &&& w2.text == w.text
                &&& w2.cursor == w.cursor
            }
            &&& w.step == EntryStep::SelectPolarity && (key == Key::Char('-') || key == Key::Char('n')) ==> {
                &&& (new.mode is AddingEntry)
                &&& w2.step == EntryStep::EnterText
                &&& w2.polarity == Some(Polarity::Negative)
                &&& w2.is_topic == w.is_topic
                &&& w2.text == w.text
                &&& w2.cursor == w.cursor
            }
            &&& w.step == EntryStep::SelectItemType && key != Key::Char('f') && key != Key::Char('t') ==> {
                &&& (new.mode is AddingEntry)
                &&& w2 == w
            }
            &&& w.step == EntryStep::SelectPolarity && key != Key::Char('+') && key != Key::Char('p')
                && key != Key::Char('-') && key != Key::Char('n') ==> {
                &&& (new.mode is AddingEntry)
                &&& w2 == w
            }
            &&& w.step == EntryStep::EnterText && key != Key::Enter ==> {
                &&& (new.mode is AddingEntry)
                &&& w2.step == EntryStep::EnterText
                &&& w2.is_topic == w.is_topic
                &&& w2.polarity == w.polarity
            }
            &&& key != Key::Enter ==> new.o3s == old.o3s
            &&& new.next_id == old.next_id
            &&& new.selected == old.selected
        }),
{
}

/// Enter at the text step adds the entry to the meeting, when the trimmed text is not
/// empty: the trimmed text, as a topic or as feedback with the chosen polarity, and no
/// output yet.
pub proof fn lemma_enter_adds_entry(old: App, o3_idx: usize, new: App, action: Action)
    requires
        (old.mode is AddingEntry),
        old.mode->AddingEntry_wizard.step == EntryStep::EnterText,
        trim_chars(old.mode->AddingEntry_wizard.text@).len() > 0,
        o3_idx < old.o3s@.len(),
        adding_entry_step(old, Key::Enter, o3_idx, new, action),
    ensures
        ({
            let w = old.mode->AddingEntry_wizard;
            let before = old.o3s@[o3_idx as int].entries@;
            let after = new.o3s@[o3_idx as int].entries@;
            &&& action == Action::Save
            &&& new.mode == (Mode::O3Detail { o3_idx, prev_list_selected: old.selected })
            &&& after.len() == before.len() + 1
            &&& after.take(before.len() as int) == before
            &&& after.last().text@ == trim_chars(w.text@)
            &&& w.is_topic ==> after.last().kind == (ItemKind::Topic { output: None })
            &&& !w.is_topic && w.polarity == Some(Polarity::Positive) ==> after.last().kind
                == (ItemKind::Feedback { polarity: Polarity::Positive, output: None })
            &&& !w.is_topic && w.polarity == Some(Polarity::Negative) ==> after.last().kind
                == (ItemKind::Feedback { polarity: Polarity::Negative, output: None })
        }),
{
}

/// Choosing '+' for feedback and then pressing Enter on a non-empty text adds positive
/// feedback; choosing '-' adds negative feedback.
pub proof fn lemma_chosen_polarity_is_kept(a0: App, key: Key, o3_idx: usize, a1: App, act1: Action, a2: App, act2: Action)
    requires
        (a0.mode is AddingEntry),
        a0.mode->AddingEntry_wizard.step == EntryStep::SelectPolarity,
        !a0.mode->AddingEntry_wizard.is_topic,
        trim_chars(a0.mode->AddingEntry_wizard.text@).len() > 0,
        o3_idx < a0.o3s@.len(),
        key == Key::Char('+') || key == Key::Char('-'),
        adding_entry_step(a0, key, o3_idx, a1, act1),
        adding_entry_step(a1, Key::Enter, o3_idx, a2, act2),
    ensures
        act2 == Action::Save,
        a2.o3s@[o3_idx as int].entries@.len() == a0.o3s@[o3_idx as int].entries@.len() + 1,
        key == Key::Char('+') ==> a2.o3s@[o3_idx as int].entries@.last().kind
            == (ItemKind::Feedback { polarity: Polarity::Positive, output: None }),
        key == Key::Char('-') ==> a2.o3s@[o3_idx as int].entries@.last().kind
            == (ItemKind::Feedback { polarity: Polarity::Negative, output: None }),
{
    lemma_wizard_keys(a0, key, o3_idx, a1, act1);
    lemma_enter_adds_entry(a1, o3_idx, a2, act2);
}

/// On the screen that creates a meeting, '1' and 'm' add one for Mario and '2' and 'n' one
/// for Martins, under the next id, with no date and no entries, and open it; Esc goes back
/// to the list; other keys do nothing.
pub proof fn lemma_creating_keys(old: App, key: Key, new: App, action: Action)
    requires
        creating_o3_step(old, key, new, action),
    ensures
        key == Key::Char('1') || key == Key::Char('m') ==> {
            &&& new.o3s@.len() == old.o3s@.len() + 1
            &&& new.o3s@.take(old.o3s@.len() as int) == old.o3s@
            &&& new.o3s@.last().direct == Direct::Mario
            &&& new.o3s@.last().id == old.next_id
            &&& (new.o3s@.last().date_days is None)
            &&& new.o3s@.last().entries@.len() == 0
            &&& new.next_id == old.next_id + 1
            &&& new.mode == (Mode::O3Detail { o3_idx: old.o3s@.len() as usize, prev_list_selected: 0 })
            &&& action == Action::Save
        },
        key == Key::Char('2') || key == Key::Char('n') ==> {
            &&& new.o3s@.len() == old.o3s@.len() + 1
            &&& new.o3s@.take(old.o3s@.len() as int) == old.o3s@
            &&& new.o3s@.last().direct == Direct::Martins
            &&& new.o3s@.last().id == old.next_id
            &&& (new.o3s@.last().date_days is None)
            &&& new.o3s@.last().entries@.len() == 0
            &&& new.next_id == old.next_id + 1
            &&& new.mode == (Mode::O3Detail { o3_idx: old.o3s@.len() as usize, prev_list_selected: 0 })
            &&& action == Action::Save
        },
        key == Key::Esc ==> new.o3s == old.o3s && new.mode == Mode::O3List && action == Action::Continue,
        key != Key::Esc && key != Key::Char('1') && key != Key::Char('m') && key != Key::Char('2')
            && key != Key::Char('n') ==> new == old && action == Action::Continue,
{
}

/// On the list, 'j' and Down move the selection one row down and 'k' and Up one row up,
/// stopping at the last and at the first row; the meetings and the screen stay.
pub proof fn lemma_list_moves(old: App, key: Key, today: int, new: App, action: Action)
    requires
        o3_list_step(old, key, today, new, action),
        key == Key::Char('j') || key == Key::Down || key == Key::Char('k') || key == Key::Up,
    ensures
        new.o3s == old.o3s,
        new.next_id == old.next_id,
        new.mode == old.mode,
        action == Action::Continue,
        (key == Key::Char('j') || key == Key::Down) && old.selected + 1 < old.o3s@.len()
            ==> new.selected == old.selected + 1,
        (key == Key::Char('j') || key == Key::Down) && old.selected + 1 >= old.o3s@.len()
            ==> new.selected == old.selected,
        (key == Key::Char('k') || key == Key::Up) && old.selected > 0 ==> new.selected == old.selected - 1,
        (key == Key::Char('k') || key == Key::Up) && old.selected == 0 ==> new.selected == 0,
{
    assert(old.o3s@.len() == old.o3s.len());
}

/// On a meeting's screen, 'j' and Down move the selection one entry down and 'k' and Up
/// one entry up, stopping at the last and at the first entry; the meetings and the screen
/// stay.
pub proof fn lemma_detail_moves(old: App, key: Key, o3_idx: usize, prev: usize, new: App, action: Action)
    requires
        o3_detail_step(old, key, o3_idx, prev, new, action),
        o3_idx < old.o3s@.len(),
        key == Key::Char('j') || key == Key::Down || key == Key::Char('k') || key == Key::Up,
    ensures
        new.o3s == old.o3s,
        new.next_id == old.next_id,
        new.mode == old.mode,
        action == Action::Continue,
        (key == Key::Char('j') || key == Key::Down) && old.selected + 1 < old.o3s@[o3_idx as int].entries@.len()
            ==> new.selected == old.selected + 1,
        (key == Key::Char('j') || key == Key::Down) && old.selected + 1 >= old.o3s@[o3_idx as int].entries@.len()
            ==> new.selected == old.selected,
        (key == Key::Char('k') || key == Key::Up) && old.selected > 0 ==> new.selected == old.selected - 1,
        (key == Key::Char('k') || key == Key::Up) && old.selected == 0 ==> new.selected == 0,
{
    assert(old.o3s@[o3_idx as int].entries@.len() == old.o3s@[o3_idx as int].entries.len());
}

/// On the screen that dates a meeting, digit `k` from 1 to 8 gives it the Thursday `k - 3`
/// weeks from the Thursday on or before today (1970-01-01 being a Thursday), and 0 takes
/// its date away.
pub proof fn lemma_date_keys(old: App, c: char, o3_idx: usize, today: int, new: App, action: Action)
    requires
        setting_date_step(old, Key::Char(c), o3_idx, today, new, action),
        o3_idx < old.o3s@.len(),
        '0' <= c <= '8',
        0 <= today <= u64::MAX / 86400,
    ensures
        new.o3s@.len() == old.o3s@.len(),
        new.o3s@[o3_idx as int].id == old.o3s@[o3_idx as int].id,
        new.o3s@[o3_idx as int].entries == old.o3s@[o3_idx as int].entries,
        c == '0' ==> (new.o3s@[o3_idx as int].date_days is None),
        c != '0' ==> new.o3s@[o3_idx as int].date_days == Some(
            (today - today % 7 + ((c as int) - ('1' as int) - 2) * 7) as i64,
        ),
        action == Action::Save,
        new.mode == (Mode::O3Detail { o3_idx, prev_list_selected: old.selected }),
{
}

/// 'q' leaves the program from the list and from a meeting's screen, changing nothing;
/// no other key, and 'q' on no other screen, leaves it.
pub proof fn lemma_only_q_quits(old: App, key: Key, today: int, new: App, action: Action)
    requires
        key_step(old, key, today, new, action),
    ensures
        action == Action::Quit <==> key == Key::Char('q') && (old.mode is O3List || old.mode is O3Detail),
        action == Action::Quit ==> new == old,
{
}

/// Opening the selected meeting from the list and going back with Esc returns to the list
/// with the same row selected and nothing changed.
pub proof fn lemma_open_and_back(a0: App, today: int, a1: App, act1: Action, a2: App, act2: Action)
    requires
        (a0.mode is O3List),
        a0.selected < a0.o3s@.len(),
        a0.o3s@.len() <= usize::MAX,
        key_step(a0, Key::Enter, today, a1, act1),
        key_step(a1, Key::Esc, today, a2, act2),
    ensures
        (a1.mode is O3Detail),
        a1.selected == 0,
        (a2.mode is O3List),
        a2.selected == a0.selected,
        a2.o3s == a0.o3s,
        a2.next_id == a0.next_id,
        act1 == Action::Continue,
        act2 == Action::Continue,
{
    lemma_display_order_exists(a0.o3s@, today);
}

/// Asking for a new meeting ('a') and then cancelling with Esc leaves the manager as it
/// was.
pub proof fn lemma_add_then_cancel(a0: App, today: int, a1: App, act1: Action, a2: App, act2: Action)
    requires
        (a0.mode is O3List),
        key_step(a0, Key::Char('a'), today, a1, act1),
        key_step(a1, Key::Esc, today, a2, act2),
    ensures
        (a1.mode is CreatingO3),
        a2 == a0,
        act1 == Action::Continue,
        act2 == Action::Continue,
{
}

/// Esc leaves the wizard at any step without adding anything, back to the meeting's
/// screen.
pub proof fn lemma_wizard_cancel(old: App, o3_idx: usize, new: App, action: Action)
    requires
        (old.mode is AddingEntry),
        adding_entry_step(old, Key::Esc, o3_idx, new, action),
    ensures
        new.o3s == old.o3s,
        new.next_id == old.next_id,
        new.selected == old.selected,
        new.mode == (Mode::O3Detail { o3_idx, prev_list_selected: old.selected }),
        action == Action::Continue,
{
}

/// Enter while an output is edited records the trimmed text as the entry's output, or
/// takes the output away when the trimmed text is empty; the entry keeps its text and its
/// kind (topic, or feedback with its polarity).
pub proof fn lemma_output_commit(old: App, o3_idx: usize, entry_idx: usize, new: App, action: Action)
    requires
        (old.mode is EditingOutput),
        o3_idx < old.o3s@.len(),
        entry_idx < old.o3s@[o3_idx as int].entries@.len(),
        editing_output_step(old, Key::Enter, o3_idx, entry_idx, new, action),
    ensures
        ({
            let t = old.mode->EditingOutput_text@;
            let e0 = old.o3s@[o3_idx as int].entries@[entry_idx as int];
            let e1 = new.o3s@[o3_idx as int].entries@[entry_idx as int];
            &&& action == Action::Save
            &&& new.o3s@.len() == old.o3s@.len()
            &&& new.o3s@[o3_idx as int].entries@.len() == old.o3s@[o3_idx as int].entries@.len()
            &&& e1.text == e0.text
            &&& (e1.kind is Topic) == (e0.kind is Topic)
            &&& (e0.kind is Feedback) ==> e1.kind->Feedback_polarity == e0.kind->Feedback_polarity
            &&& trim_chars(t).len() == 0 ==> (kind_output(e1.kind) is None)
            &&& trim_chars(t).len() > 0 ==> (kind_output(e1.kind) is Some) && kind_output(e1.kind).unwrap()@
                == trim_chars(t)
        }),
{
}

/// Opening an entry's output for editing and pressing Enter straight away keeps the entry
/// as it was: its text, its kind, and its output (or the lack of one).
pub proof fn lemma_open_output_and_commit(a0: App, today: int, a1: App, act1: Action, a2: App, act2: Action)
    requires
        (a0.mode is O3Detail),
        a0.mode->O3Detail_o3_idx < a0.o3s@.len(),
        a0.selected < a0.o3s@[a0.mode->O3Detail_o3_idx as int].entries@.len(),
        entries_tidy(a0.o3s@),
        key_step(a0, Key::Char('o'), today, a1, act1),
        key_step(a1, Key::Enter, today, a2, act2),
    ensures
        ({
            let i = a0.mode->O3Detail_o3_idx as int;
            let e0 = a0.o3s@[i].entries@[a0.selected as int];
            let e2 = a2.o3s@[i].entries@[a0.selected as int];
            &&& a2.o3s@.len() == a0.o3s@.len()
            &&& a2.o3s@[i].entries@.len() == a0.o3s@[i].entries@.len()
            &&& e2.text == e0.text
            &&& (e2.kind is Topic) == (e0.kind is Topic)
            &&& (e0.kind is Feedback) ==> e2.kind->Feedback_polarity == e0.kind->Feedback_polarity
            &&& (kind_output(e2.kind) is Some) == (kind_output(e0.kind) is Some)
            &&& (kind_output(e0.kind) is Some) ==> kind_output(e2.kind).unwrap()@ == kind_output(e0.kind).unwrap()@
            &&& (a2.mode is O3Detail)
        }),
{
    let i = a0.mode->O3Detail_o3_idx as int;
    let e0 = a0.o3s@[i].entries@[a0.selected as int];
    assert(is_tidy_text(e0.text@));
    if kind_output(e0.kind) is None {
        assert(trim_chars(Seq::<char>::empty()) =~= Seq::<char>::empty());
    }
}

/// 'd' on the list deletes the meeting of the selected row, one meeting fewer; the
/// selection stays on the same row, moves up one when the last row was deleted, and is 0
/// when no meeting is left. With no meeting on the selected row nothing happens.
pub proof fn lemma_list_delete(old: App, today: int, new: App, action: Action)
    requires
        (old.mode is O3List),
        old.o3s@.len() <= usize::MAX,
        key_step(old, Key::Char('d'), today, new, action),
    ensures
        old.selected < old.o3s@.len() ==> {
            &&& action == Action::Save
            &&& new.o3s@.len() == old.o3s@.len() - 1
            &&& new.o3s@ == old.o3s@.remove(display_order(old.o3s@, today)[old.selected as int] as int)
            &&& old.selected + 1 < old.o3s@.len() ==> new.selected == old.selected
            &&& old.selected + 1 == old.o3s@.len() && old.selected > 0 ==> new.selected == old.selected - 1
            &&& old.o3s@.len() == 1 ==> new.selected == 0
            &&& (new.mode is O3List)
        },
        old.selected >= old.o3s@.len() ==> new == old && action == Action::Continue,
{
    lemma_display_order_exists(old.o3s@, today);
}

/// 'd' on a meeting's screen deletes the selected entry; the selection stays on the same
/// row, moves up one when the last entry was deleted, and is 0 when no entry is left. With
/// no entry selected nothing is deleted.
pub proof fn lemma_detail_delete(old: App, today: int, new: App, action: Action)
    requires
        (old.mode is O3Detail),
        old.mode->O3Detail_o3_idx < old.o3s@.len(),
        key_step(old, Key::Char('d'), today, new, action),
    ensures
        ({
            let i = old.mode->O3Detail_o3_idx as int;
            let n = old.o3s@[i].entries@.len();
            &&& old.selected < n ==> {
                &&& action == Action::Save
                &&& new.o3s@.len() == old.o3s@.len()
                &&& new.o3s@[i].entries@ == old.o3s@[i].entries@.remove(old.selected as int)
                &&& old.selected + 1 < n ==> new.selected == old.selected
                &&& old.selected + 1 == n && old.selected > 0 ==> new.selected == old.selected - 1
                &&& n == 1 ==> new.selected == 0
            }
            &&& old.selected >= n ==> new.o3s@ == old.o3s@ && action == Action::Continue
            &&& new.mode == old.mode
        }),
{
}

/// On a meeting's screen 'a' opens the wizard at its first step: choosing between
/// feedback and topic, no polarity, nothing typed.
pub proof fn lemma_add_opens_fresh_wizard(old: App, today: int, new: App, action: Action)
    requires
        (old.mode is O3Detail),
        key_step(old, Key::Char('a'), today, new, action),
    ensures
        (new.mode is AddingEntry),
        new.mode->AddingEntry_o3_idx == old.mode->O3Detail_o3_idx,
        new.mode->AddingEntry_wizard.step == EntryStep::SelectItemType,
        !new.mode->AddingEntry_wizard.is_topic,
        (new.mode->AddingEntry_wizard.polarity is None),
        new.mode->AddingEntry_wizard.text@.len() == 0,
        new.mode->AddingEntry_wizard.cursor == 0,
        new.o3s == old.o3s,
        action == Action::Continue,
{
}

/// Opening an entry's output for editing puts the cursor after its text, so a character
/// typed straight away is added at the end of the output.
pub proof fn lemma_output_typing_appends(a0: App, today: int, a1: App, act1: Action, c: char, a2: App, act2: Action)
    requires
        (a0.mode is O3Detail),
        a0.mode->O3Detail_o3_idx < a0.o3s@.len(),
        a0.selected < a0.o3s@[a0.mode->O3Detail_o3_idx as int].entries@.len(),
        key_step(a0, Key::Char('o'), today, a1, act1),
        key_step(a1, Key::Char(c), today, a2, act2),
    ensures
        ({
            let kind = a0.o3s@[a0.mode->O3Detail_o3_idx as int].entries@[a0.selected as int].kind;
            let before = match kind_output(kind) {
                Some(o) => o@,
                None => Seq::<char>::empty(),
            };
            &&& (a1.mode is EditingOutput)
            &&& a1.mode->EditingOutput_text@ == before
            &&& (a2.mode is EditingOutput)
            &&& bytes_of(a2.mode->EditingOutput_text@) == bytes_of(before) + encode_utf8(seq![c])
            &&& a2.o3s == a0.o3s
        }),
{
    let b = bytes_of(a1.mode->EditingOutput_text@);
    assert(b.take(b.len() as int) =~= b);
    assert(b.skip(b.len() as int) =~= Seq::<u8>::empty());
    assert(b + encode_utf8(seq![c]) + Seq::<u8>::empty() =~= b + encode_utf8(seq![c]));
}

} // verus!
