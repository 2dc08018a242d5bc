use vstd::prelude::*;

verus! {

/// The direct report a one-on-one meeting (an "O3") is held with.
#[derive(Clone, Copy, Debug, PartialEq, Eq, Structural)]
pub enum Direct {
    Mario,
    Martins,
}

/// The display name of a direct report.
pub open spec fn direct_name(d: Direct) -> Seq<char> {
    match d {
        Direct::Mario => "Mario"@,
        Direct::Martins => "Martins"@,
    }
}

impl Direct {
    /// The display name of this direct report.
    pub fn name(&self) -> (name: &'static str)
        ensures
            name@ == direct_name(*self),
    {
        match self {
            Direct::Mario => "Mario",
            Direct::Martins => "Martins",
        }
    }
}

/// Whether a piece of feedback is praise or criticism.
#[derive(Clone, Copy, Debug, PartialEq, Eq, Structural)]
pub enum Polarity {
    Positive,
    Negative,
}

/// What an entry of a meeting is: feedback with a polarity, or a topic to discuss. Both
/// may carry an output (what came of it).
#[derive(Debug)]
pub enum ItemKind {
    Feedback { polarity: Polarity, output: Option<String> },
    Topic { output: Option<String> },
}

/// The output recorded for an entry of this kind, if any.
pub open spec fn kind_output(kind: ItemKind) -> Option<String> {
    match kind {
        ItemKind::Feedback { output, .. } => output,
        ItemKind::Topic { output } => output,
    }
}

/// The kind with its output replaced.
pub open spec fn kind_with_output(kind: ItemKind, output: Option<String>) -> ItemKind {
    match kind {
        ItemKind::Feedback { polarity, .. } => ItemKind::Feedback { polarity, output },
        ItemKind::Topic { .. } => ItemKind::Topic { output },
    }
}

/// One item of a meeting's agenda.
#[derive(Debug)]
pub struct Entry {
    pub text: String,
    pub kind: ItemKind,
}

/// One O3 meeting: belongs to a direct, has an optional date (days since 1970-01-01),
/// and owns its entries.
#[derive(Debug)]
pub struct O3 {
    pub id: u64,
    pub direct: Direct,
    pub date_days: Option<i64>,
    pub entries: Vec<Entry>,
}

/// Everything that is kept between runs: the meetings and the next id to hand out.
#[derive(Debug)]
pub struct Store {
    pub o3s: Vec<O3>,
    pub next_id: u64,
}

impl Default for Store {
    fn default() -> (store: Store)
        ensures
            store.o3s@.len() == 0,
            store.next_id == 0,
    {
        Store { o3s: Vec::new(), next_id: 0 }
    }
}

} // verus!
