use vstd::prelude::*;
use vstd::string::*;

use crate::dates::{
    decimal_digits, decimal_string, last_thursday, lemma_thursday_options, o3_label_for, o3_label_spec,
    thursday_options_for, thursday_options_spec,
};
use crate::manager::{App, Mode};
use crate::model::{Direct, Entry, ItemKind, O3, Polarity, direct_name, kind_output};
use crate::order::{display_order, is_display_order};

verus! {

/// `n` spaces.
pub open spec fn spaces(n: nat) -> Seq<char> {
    Seq::new(n, |i: int| ' ')
}

/// `s` followed by spaces up to `width` characters (unchanged when it is that long).
pub open spec fn padded_spec(s: Seq<char>, width: nat) -> Seq<char> {
    if s.len() < width {
        s + spaces((width - s.len()) as nat)
    } else {
        s
    }
}

/// `format!("{:<width$}", s)`: std's formatting pads a string on the right with spaces up
/// to `width` characters and leaves a longer string as it is. A width above `u16::MAX`
/// panics ("Formatting argument out of range"), so it is left out.
#[verifier::external_body]
fn pad_to_width(s: &str, width: usize) -> (padded: String)
    requires
        width <= u16::MAX,
    ensures
        padded@ == padded_spec(s@, width as nat),
{
    format!("{:<width$}", s, width = width)
}

/// A direct's name in the list's name column, 8 characters wide.
pub fn padded_name(direct: Direct) -> (text: String)
    ensures
        text@ == padded_spec(direct_name(direct), 8),
{
    pad_to_width(direct.name(), 8)
}

/// A meeting's date in the list's date column, 28 characters wide, on day `today`.
pub fn padded_list_date(date: Option<i64>, today: i64) -> (text: String)
    requires
        date_is_labelled(date),
    ensures
        text@ == padded_spec(list_date_text_spec(date, today as int), 28),
{
    let text = list_date_text(date, today);
    pad_to_width(text.as_str(), 28)
}

/// The output an entry shows on the row below it, if it has one.
pub fn entry_output(kind: &ItemKind) -> (output: Option<&String>)
    ensures
        match kind_output(*kind) {
            Some(o) => output is Some && *output.unwrap() == o,
            None => output is None,
        },
{
    match kind {
        ItemKind::Topic { output } => output.as_ref(),
        ItemKind::Feedback { output, .. } => output.as_ref(),
    }
}

/// How many entries a meeting has, as the list shows it.
pub open spec fn count_label_spec(n: nat) -> Seq<char> {
    if n == 0 {
        "empty"@
    } else if n == 1 {
        "1 item"@
    } else {
        decimal_digits(n) + " items"@
    }
}

/// How many entries a meeting has, as the list shows it.
pub fn count_label(n: usize) -> (label: String)
    ensures
        label@ == count_label_spec(n as nat),
{
    if n == 0 {
        String::from_str("empty")
    } else if n == 1 {
        String::from_str("1 item")
    } else {
        let mut label = decimal_string(n as u64);
        label.append(" items");
        label
    }
}

/// Whether dates in a label are valid inputs of `days_to_ymd`.
pub open spec fn date_is_labelled(date: Option<i64>) -> bool {
    date matches Some(d) ==> d <= i64::MAX - 719468
}

/// The date of a meeting as a row of the list shows it on day `today`.
pub open spec fn list_date_text_spec(date: Option<i64>, today: int) -> Seq<char> {
    match date {
        Some(d) => o3_label_spec(d as int, today),
        None => "No date set"@,
    }
}

/// The date of a meeting as a row of the list shows it on day `today`.
pub fn list_date_text(date: Option<i64>, today: i64) -> (text: String)
    requires
        date_is_labelled(date),
    ensures
        text@ == list_date_text_spec(date, today as int),
{
    match date {
        Some(d) => o3_label_for(d, today),
        None => String::from_str("No date set"),
    }
}

/// The date of a meeting as its own screen shows it on day `today`.
pub open spec fn detail_date_text_spec(date: Option<i64>, today: int) -> Seq<char> {
    match date {
        Some(d) => o3_label_spec(d as int, today),
        None => "No date  (press 't' to set)"@,
    }
}

/// The title of a meeting's screen: the direct's name and the date.
pub open spec fn detail_title_spec(direct: Direct, date: Option<i64>, today: int) -> Seq<char> {
    " "@ + direct_name(direct) + " ─ "@ + detail_date_text_spec(date, today) + " "@
}

/// The title of a meeting's screen on day `today`.
pub fn detail_title(direct: Direct, date: Option<i64>, today: i64) -> (title: String)
    requires
        date_is_labelled(date),
    ensures
        title@ == detail_title_spec(direct, date, today as int),
{
    let date_text = match date {
        Some(d) => o3_label_for(d, today),
        None => String::from_str("No date  (press 't' to set)"),
    };
    let mut title = String::from_str(" ");
    title.append(direct.name());
    title.append(" ─ ");
    title.append(date_text.as_str());
    title.append(" ");
    title
}

/// Whether a row of the list is shown dimmed: its meeting has no date or is past.
pub open spec fn is_dimmed_spec(date: Option<i64>, today: int) -> bool {
    match date {
        Some(d) => d < today,
        None => true,
    }
}

/// Whether a row of the list is shown dimmed on day `today`.
pub fn is_dimmed(date: Option<i64>, today: i64) -> (dimmed: bool)
    ensures
        dimmed == is_dimmed_spec(date, today as int),
{
    match date {
        Some(d) => d < today,
        None => true,
    }
}

/// The mark before an entry: `[+]` and `[-]` for feedback, `[T]` for a topic.
pub open spec fn entry_prefix_spec(kind: ItemKind) -> Seq<char> {
    match kind {
        ItemKind::Feedback { polarity: Polarity::Positive, .. } => "[+]"@,
        ItemKind::Feedback { polarity: Polarity::Negative, .. } => "[-]"@,
        ItemKind::Topic { .. } => "[T]"@,
    }
}

/// The mark before an entry.
pub fn entry_prefix(kind: &ItemKind) -> (prefix: &'static str)
    ensures
        prefix@ == entry_prefix_spec(*kind),
{
    match kind {
        ItemKind::Feedback { polarity: Polarity::Positive, .. } => "[+]",
        ItemKind::Feedback { polarity: Polarity::Negative, .. } => "[-]",
        ItemKind::Topic { .. } => "[T]",
    }
}

/// The marks before entries: `[+]` for positive feedback, `[-]` for negative feedback,
/// `[T]` for a topic, whatever their output; no two kinds share a mark.
pub proof fn lemma_entry_marks(polarity: Polarity, output: Option<String>)
    ensures
        polarity == Polarity::Positive ==> entry_prefix_spec(ItemKind::Feedback { polarity, output })
            == seq!['[', '+', ']'],
        polarity == Polarity::Negative ==> entry_prefix_spec(ItemKind::Feedback { polarity, output })
            == seq!['[', '-', ']'],
        entry_prefix_spec(ItemKind::Topic { output }) == seq!['[', 'T', ']'],
        entry_prefix_spec(ItemKind::Topic { output }) != entry_prefix_spec(
            ItemKind::Feedback { polarity, output },
        ),
        entry_prefix_spec(ItemKind::Feedback { polarity: Polarity::Positive, output }) != entry_prefix_spec(
            ItemKind::Feedback { polarity: Polarity::Negative, output },
        ),
{
    reveal_strlit("[+]");
    reveal_strlit("[-]");
    reveal_strlit("[T]");
    let p = entry_prefix_spec(ItemKind::Feedback { polarity: Polarity::Positive, output });
    let n = entry_prefix_spec(ItemKind::Feedback { polarity: Polarity::Negative, output });
    let t = entry_prefix_spec(ItemKind::Topic { output });
    assert(p =~= seq!['[', '+', ']']);
    assert(n =~= seq!['[', '-', ']']);
    assert(t =~= seq!['[', 'T', ']']);
    assert(p[1] != n[1] && t[1] != p[1] && t[1] != n[1]);
}

/// How many entries the list says a meeting has: "empty" for none, "1 item" for one, and
/// otherwise the number in decimal followed by " items".
pub proof fn lemma_count_labels(n: nat)
    ensures
        n == 0 ==> count_label_spec(n) == seq!['e', 'm', 'p', 't', 'y'],
        n == 1 ==> count_label_spec(n) == seq!['1', ' ', 'i', 't', 'e', 'm'],
        n >= 2 ==> count_label_spec(n) == decimal_digits(n) + seq![' ', 'i', 't', 'e', 'm', 's'],
{
    reveal_strlit("empty");
    reveal_strlit("1 item");
    reveal_strlit(" items");
    assert("empty"@ =~= seq!['e', 'm', 'p', 't', 'y']);
    assert("1 item"@ =~= seq!['1', ' ', 'i', 't', 'e', 'm']);
    assert(" items"@ =~= seq![' ', 'i', 't', 'e', 'm', 's']);
}

/// One of the date options offered: its number and its label on day `today`.
pub open spec fn date_option_line_spec(number: nat, d: int, today: int) -> Seq<char> {
    "  ["@ + decimal_digits(number) + "]  "@ + o3_label_spec(d, today)
}

/// The line of date option `number` (counted from 1), day `d`, on day `today`.
pub fn date_option_line(number: u64, d: i64, today: i64) -> (line: String)
    requires
        d <= i64::MAX - 719468,
    ensures
        line@ == date_option_line_spec(number as nat, d as int, today as int),
{
    let mut line = String::from_str("  [");
    line.append(decimal_string(number).as_str());
    line.append("]  ");
    line.append(o3_label_for(d, today).as_str());
    line
}

/// The heading of the popup that dates a meeting with `person`.
pub fn date_popup_heading(person: &str) -> (heading: String)
    ensures
        heading@ == "  Set date for "@ + person@ + "'s O3:"@,
{
    let mut heading = String::from_str("  Set date for ");
    heading.append(person);
    heading.append("'s O3:");
    heading
}

/// The title of the popup that dates a meeting with `person`.
pub fn date_popup_title(person: &str) -> (title: String)
    ensures
        title@ == " Set Date – "@ + person@ + " "@,
{
    let mut title = String::from_str(" Set Date – ");
    title.append(person);
    title.append(" ");
    title
}

/// The title of the popup where an entry's text is typed.
pub fn entry_text_title(is_topic: bool) -> (title: &'static str)
    ensures
        title@ == (if is_topic {
            " Topic text (Enter:save  Esc:cancel) "@
        } else {
            " Feedback text (Enter:save  Esc:cancel) "@
        }),
{
    if is_topic {
        " Topic text (Enter:save  Esc:cancel) "
    } else {
        " Feedback text (Enter:save  Esc:cancel) "
    }
}

impl App {
    /// Whether row `list_i` of the list is highlighted: it is the selected row and the
    /// list is the screen shown.
    pub fn list_row_selected(&self, list_i: usize) -> (selected: bool)
        ensures
            selected == (list_i == self.selected && self.mode is O3List),
    {
        list_i == self.selected && match self.mode {
            Mode::O3List => true,
            _ => false,
        }
    }

    /// Whether entry `i` of a meeting's screen is highlighted: it is the selected row and
    /// the meeting's screen is shown.
    pub fn entry_row_selected(&self, i: usize) -> (selected: bool)
        ensures
            selected == (i == self.selected && self.mode is O3Detail),
    {
        i == self.selected && match self.mode {
            Mode::O3Detail { .. } => true,
            _ => false,
        }
    }

    /// The name of the direct of meeting `o3_idx`, `?` when there is no such meeting.
    pub fn person_of(&self, o3_idx: usize) -> (person: &'static str)
        ensures
            person@ == (if o3_idx < self.o3s@.len() { direct_name(self.o3s@[o3_idx as int].direct) } else { "?"@ }),
    {
        if o3_idx < self.o3s.len() {
            self.o3s[o3_idx].direct.name()
        } else {
            "?"
        }
    }
}


/// The lines of the popup that dates a meeting, on day `today`: one per Thursday option,
/// numbered from 1.
pub fn date_option_lines(today: i64) -> (lines: Vec<String>)
    requires
        0 <= today <= u64::MAX / 86400,
    ensures
        lines@.len() == 8,
        forall|i: int|
            0 <= i < 8 ==> #[trigger] lines@[i]@ == date_option_line_spec(
                (i + 1) as nat,
                thursday_options_spec(today as int)[i] as int,
                today as int,
            ),
{
    let options = thursday_options_for(today);
    let mut lines: Vec<String> = Vec::new();
    let mut i: usize = 0;
    while i < options.len()
        invariant
            options@ == thursday_options_spec(today as int),
            0 <= today <= u64::MAX / 86400,
            i <= options@.len(),
            lines@.len() == i,
            forall|k: int|
                0 <= k < i ==> #[trigger] lines@[k]@ == date_option_line_spec(
                    (k + 1) as nat,
                    thursday_options_spec(today as int)[k] as int,
                    today as int,
                ),
        decreases options@.len() - i,
    {
        proof {
            lemma_thursday_options(today as int);
            assert(options@[i as int] == last_thursday(today as int) + (i - 2) * 7);
        }
        lines.push(date_option_line((i + 1) as u64, options[i], today));
        i = i + 1;
    }
    lines
}

/// A row of a meeting's screen: the placeholder of a meeting without entries, an entry
/// (highlighted when selected), or the output shown below an entry.
#[derive(Clone, Copy, Debug, PartialEq, Eq, Structural)]
pub enum DetailRow {
    Empty,
    Entry { entry_idx: usize, selected: bool },
    Output { entry_idx: usize },
}

/// The rows of the first `n` entries: each entry, followed by its output when it has one.
pub open spec fn entry_rows(entries: Seq<Entry>, n: nat, selected: int, highlight: bool) -> Seq<DetailRow>
    decreases n,
{
    if n == 0 {
        Seq::empty()
    } else {
        let k = n - 1;
        let rows = entry_rows(entries, k as nat, selected, highlight).push(
            DetailRow::Entry { entry_idx: k as usize, selected: highlight && k == selected },
        );
        if kind_output(entries[k].kind) is Some {
            rows.push(DetailRow::Output { entry_idx: k as usize })
        } else {
            rows
        }
    }
}

/// The rows of a meeting's screen for meeting `o3_idx`, none when there is no such meeting.
pub open spec fn detail_rows_spec(app: App, o3_idx: int) -> Option<Seq<DetailRow>> {
    if 0 <= o3_idx < app.o3s@.len() {
        let entries = app.o3s@[o3_idx].entries@;
        if entries.len() == 0 {
            Some(seq![DetailRow::Empty])
        } else {
            Some(entry_rows(entries, entries.len(), app.selected as int, app.mode is O3Detail))
        }
    } else {
        None
    }
}

/// A row of the list: the meeting it shows and the texts of its columns.
pub struct ListRow {
    pub o3_idx: usize,
    pub selected: bool,
    pub name: String,
    pub date: String,
    pub count: String,
    pub dimmed: bool,
}

/// `row` is how the list shows meeting `o3_idx` at row `k` on day `today`.
pub open spec fn is_list_row(app: App, today: int, k: int, o3_idx: usize, row: ListRow) -> bool {
    let o3 = app.o3s@[o3_idx as int];
    &&& row.o3_idx == o3_idx
    &&& row.selected == (k == app.selected && app.mode is O3List)
    &&& row.name@ == padded_spec(direct_name(o3.direct), 8)
    &&& row.date@ == padded_spec(list_date_text_spec(o3.date_days, today), 28)
    &&& row.count@ == count_label_spec(o3.entries@.len())
    &&& row.dimmed == is_dimmed_spec(o3.date_days, today)
}

/// Whether every meeting's date can be labelled.
pub open spec fn all_dates_labelled(o3s: Seq<O3>) -> bool {
    forall|i: int| 0 <= i < o3s.len() ==> date_is_labelled(#[trigger] o3s[i].date_days)
}

impl App {
    /// The rows of the screen of meeting `o3_idx`, `None` when there is no such meeting.
    pub fn detail_rows(&self, o3_idx: usize) -> (rows: Option<Vec<DetailRow>>)
        ensures
            match detail_rows_spec(*self, o3_idx as int) {
                Some(r) => rows is Some && rows.unwrap()@ == r,
                None => rows is None,
            },
    {
        if o3_idx >= self.o3s.len() {
            return None;
        }
        let entries = &self.o3s[o3_idx].entries;
        let mut rows: Vec<DetailRow> = Vec::new();
        if entries.len() == 0 {
            rows.push(DetailRow::Empty);
            assert(rows@ =~= seq![DetailRow::Empty]);
            return Some(rows);
        }
        let highlight = match self.mode {
            Mode::O3Detail { .. } => true,
            _ => false,
        };
        let mut i: usize = 0;
        while i < entries.len()
            invariant
                i <= entries@.len(),
                highlight == self.mode is O3Detail,
                rows@ == entry_rows(entries@, i as nat, self.selected as int, highlight),
            decreases entries@.len() - i,
        {
            rows.push(DetailRow::Entry { entry_idx: i, selected: highlight && i == self.selected });
            if entry_output(&entries[i].kind).is_some() {
                rows.push(DetailRow::Output { entry_idx: i });
            }
            i = i + 1;
        }
        Some(rows)
    }

    /// The rows of the list on day `today`, in display order.
    pub fn list_rows_for(&self, today: i64) -> (rows: Vec<ListRow>)
        requires
            all_dates_labelled(self.o3s@),
        ensures
            rows@.len() == self.o3s@.len(),
            forall|k: int|
                0 <= k < rows@.len() ==> is_list_row(
                    *self,
                    today as int,
                    k,
                    display_order(self.o3s@, today as int)[k],
                    #[trigger] rows@[k],
                ),
    {
        let order = self.sorted_o3_indices_for(today);
        let mut rows: Vec<ListRow> = Vec::new();
        let mut k: usize = 0;
        while k < order.len()
            invariant
                order@ == display_order(self.o3s@, today as int),
                is_display_order(self.o3s@, today as int, order@),
                all_dates_labelled(self.o3s@),
                k <= order@.len(),
                rows@.len() == k,
                forall|j: int|
                    0 <= j < k ==> is_list_row(*self, today as int, j, order@[j], #[trigger] rows@[j]),
            decreases order@.len() - k,
        {
            let idx = order[k];
            let o3 = &self.o3s[idx];
            assert(date_is_labelled(self.o3s@[idx as int].date_days));
            let row = ListRow {
                o3_idx: idx,
                selected: self.list_row_selected(k),
                name: padded_name(o3.direct),
                date: padded_list_date(o3.date_days, today),
                count: count_label(o3.entries.len()),
                dimmed: is_dimmed(o3.date_days, today),
            };
            rows.push(row);
            k = k + 1;
        }
        rows
    }
}

} // verus!
