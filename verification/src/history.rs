//! The history log: its mathematical model and the operations on it.
//!
//! A log is modelled as a sequence of texts, oldest first. The executable
//! [`ClipboardHistory`] holds the same entries as owned strings and is viewed
//! as that sequence.

use vstd::prelude::*;

verus! {

/// One observed clipboard text.
pub type Text = Seq<char>;

/// A history log as a sequence of texts, oldest first.
pub type Log = Seq<Text>;

/// No entry of `log` equals the entry just before it.
pub open spec fn adjacent_distinct(log: Log) -> bool {
    forall|i: int| 0 < i < log.len() ==> log[i - 1] != #[trigger] log[i]
}

/// `value` differs from what `log` recorded last, or `log` has recorded nothing yet.
pub open spec fn is_new(log: Log, value: Text) -> bool {
    log.len() == 0 || log.last() != value
}

/// The log after `value` has been observed: `value` is appended when it is
/// new, and the log is left as it is otherwise.
pub open spec fn observe(log: Log, value: Text) -> Log {
    if is_new(log, value) {
        log.push(value)
    } else {
        log
    }
}

/// The log after each of `values` has been observed in turn.
pub open spec fn observe_all(log: Log, values: Seq<Text>) -> Log
    decreases values.len(),
{
    if values.len() == 0 {
        log
    } else {
        observe_all(observe(log, values.first()), values.drop_first())
    }
}

/// The values among `values` that were new when their turn came: what a
/// subscriber is told while `values` are observed in turn, starting at `log`.
pub open spec fn announced(log: Log, values: Seq<Text>) -> Seq<Text>
    decreases values.len(),
{
    if values.len() == 0 {
        Seq::empty()
    } else if is_new(log, values.first()) {
        seq![values.first()] + announced(log.push(values.first()), values.drop_first())
    } else {
        announced(log, values.drop_first())
    }
}

/// The `n` most recent entries of `log`, most recent first, or all of them
/// where `log` holds fewer.
pub open spec fn tail(log: Log, n: nat) -> Seq<Text> {
    Seq::new(
        if n <= log.len() {
            n
        } else {
            log.len()
        },
        |i: int| log[log.len() - 1 - i],
    )
}

/// Why the persisted document could not be read or written.
#[derive(Debug, Clone, Copy, PartialEq, Eq, Structural)]
pub enum StorageError {
    /// The document could not be opened, read or written.
    Unavailable,
    /// The document was read, and does not hold a history.
    Malformed,
}

/// What a load yields: the stored log, and the empty log where loading failed.
pub open spec fn loaded_log(loaded: Result<ClipboardHistory, StorageError>) -> Log {
    match loaded {
        Ok(history) => history@,
        Err(_) => Seq::empty(),
    }
}

/// An ordered log of clipboard texts, oldest first.
#[derive(Debug, PartialEq, Eq)]
pub struct ClipboardHistory {
    pub items: Vec<String>,
}

impl View for ClipboardHistory {
    type V = Log;

    open spec fn view(&self) -> Log {
        self.items.deep_view()
    }
}

impl ClipboardHistory {
    /// The empty log.
    pub fn new() -> (history: ClipboardHistory)
        ensures
            history@ == Seq::<Text>::empty(),
            adjacent_distinct(history@),
    {
        let history = ClipboardHistory { items: Vec::new() };
        history
    }

    /// Turns the outcome of a load into a log. A failed load is absorbed: it
    /// yields the empty log, whatever the failure was.
    pub fn from_loaded(loaded: Result<ClipboardHistory, StorageError>) -> (history:
        ClipboardHistory)
        ensures
            history@ == loaded_log(loaded),
            loaded is Err ==> history@ == Seq::<Text>::empty(),
    {
        match loaded {
            Ok(history) => history,
            Err(_) => ClipboardHistory::new(),
        }
    }

    /// The most recent entry, if there is one.
    pub fn last(&self) -> (entry: Option<&String>)
        ensures
            self@.len() == 0 ==> entry is None,
            self@.len() > 0 ==> entry is Some && entry->0@ == self@.last(),
    {
        let n: usize = self.items.len();
        if n == 0 {
            None
        } else {
            Some(&self.items[n - 1])
        }
    }

    /// Whether `snapshot` would be recorded: the log is empty, or its most
    /// recent entry is another text.
    pub fn differs_from_last(&self, snapshot: &String) -> (changed: bool)
        ensures
            changed == is_new(self@, snapshot@),
    {
        match self.last() {
            None => true,
            Some(last) => !(*last == *snapshot),
        }
    }

    /// Observes `snapshot`: appends it if it differs from the most recent
    /// entry, and leaves the log untouched if it repeats it. Returns whether
    /// it was appended.
    pub fn record(&mut self, snapshot: String) -> (recorded: bool)
        ensures
            recorded == is_new(old(self)@, snapshot@),
            final(self)@ == observe(old(self)@, snapshot@),
            adjacent_distinct(old(self)@) ==> adjacent_distinct(final(self)@),
    {
        if self.differs_from_last(&snapshot) {
            self.items.push(snapshot);
            true
        } else {
            false
        }
    }

    /// The `n` most recent entries, most recent first. Where the log holds
    /// fewer than `n`, all of them. The log is not changed.
    pub fn tail(&self, n: usize) -> (entries: Vec<String>)
        ensures
            entries.deep_view() == tail(self@, n as nat),
    {
        let len: usize = self.items.len();
        let count: usize = if n <= len {
            n
        } else {
            len
        };
        let mut entries: Vec<String> = Vec::new();
        let mut taken: usize = 0;
        while taken < count
            invariant
                len == self.items@.len(),
                count <= len,
                taken <= count,
                entries@.len() == taken,
                forall|i: int| 0 <= i < taken ==> (#[trigger] entries@[i])@ == self@[len - 1 - i],
            decreases count - taken,
        {
            let entry = self.items[len - 1 - taken].clone();
            entries.push(entry);
            taken = taken + 1;
        }
        entries
    }
}

impl Default for ClipboardHistory {
    /// The empty log.
    fn default() -> (history: ClipboardHistory)
        ensures
            history@ == Seq::<Text>::empty(),
    {
        ClipboardHistory::new()
    }
}

/// The `n` most recent entries of what was loaded, most recent first. A
/// failed load counts as the empty log, so this never fails.
pub fn load_last_n_entries(loaded: Result<ClipboardHistory, StorageError>, n: usize) -> (entries:
    Vec<String>)
    ensures
        entries.deep_view() == tail(loaded_log(loaded), n as nat),
        loaded is Err ==> entries@.len() == 0,
{
    let history = ClipboardHistory::from_loaded(loaded);
    let entries = history.tail(n);
    assert(entries@.len() == entries.deep_view().len());
    entries
}

/// Observing values only ever appends: the log afterwards is the log before,
/// followed by exactly the values that were announced.
pub proof fn lemma_observe_all_appends_announced(log: Log, values: Seq<Text>)
    ensures
        observe_all(log, values) == log + announced(log, values),
    decreases values.len(),
{
    if values.len() > 0 {
        let value = values.first();
        let rest = values.drop_first();
        if is_new(log, value) {
            lemma_observe_all_appends_announced(log.push(value), rest);
            assert(log + (seq![value] + announced(log.push(value), rest)) =~= log.push(value)
                + announced(log.push(value), rest));
        } else {
            lemma_observe_all_appends_announced(log, rest);
        }
    }
}

/// Whatever sequence of values is observed, and however often a value is
/// repeated in it, no entry that was appended equals the entry before it.
pub proof fn lemma_appended_entries_differ(log: Log, values: Seq<Text>)
    ensures
        forall|i: int|
            0 < i && log.len() <= i < observe_all(log, values).len() ==> observe_all(
                log,
                values,
            )[i - 1] != #[trigger] observe_all(log, values)[i],
    decreases values.len(),
{
    if values.len() > 0 {
        let value = values.first();
        let rest = values.drop_first();
        let next = observe(log, value);
        lemma_appended_entries_differ(next, rest);
        lemma_observe_all_appends_announced(next, rest);
    }
}

/// A log without adjacent repeats stays so, whatever is observed.
pub proof fn lemma_observe_all_keeps_adjacent_distinct(log: Log, values: Seq<Text>)
    requires
        adjacent_distinct(log),
    ensures
        adjacent_distinct(observe_all(log, values)),
{
    lemma_appended_entries_differ(log, values);
    lemma_observe_all_appends_announced(log, values);
}

/// The tail is the reversed suffix: asking for as many entries as the log
/// holds, or more, gives the whole log backwards, and asking for none gives none.
pub proof fn lemma_tail_is_reversed_suffix(log: Log, n: nat)
    ensures
        n <= log.len() ==> tail(log, n) == log.subrange(log.len() - n, log.len() as int).reverse(),
        n >= log.len() ==> tail(log, n) == log.reverse(),
        tail(log, 0) == Seq::<Text>::empty(),
{
}

} // verus!
