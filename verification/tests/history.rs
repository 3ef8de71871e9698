use clipboard_history::history::{load_last_n_entries, ClipboardHistory, StorageError};

fn history_of(entries: &[&str]) -> ClipboardHistory {
    ClipboardHistory { items: entries.iter().map(|entry| entry.to_string()).collect() }
}

fn strings(entries: &[&str]) -> Vec<String> {
    entries.iter().map(|entry| entry.to_string()).collect()
}

#[test]
fn new_history_is_empty() {
    assert_eq!(ClipboardHistory::new().items, Vec::<String>::new());
}

#[test]
fn default_history_is_empty() {
    assert_eq!(ClipboardHistory::default(), ClipboardHistory::new());
}

#[test]
fn from_loaded_keeps_a_loaded_history() {
    let history = ClipboardHistory::from_loaded(Ok(history_of(&["a", "b"])));
    assert_eq!(history.items, strings(&["a", "b"]));
}

#[test]
fn from_loaded_keeps_adjacent_repeats_of_a_loaded_history() {
    let history = ClipboardHistory::from_loaded(Ok(history_of(&["a", "a"])));
    assert_eq!(history.items, strings(&["a", "a"]));
}

#[test]
fn from_loaded_absorbs_an_unavailable_document() {
    let history = ClipboardHistory::from_loaded(Err(StorageError::Unavailable));
    assert_eq!(history.items, Vec::<String>::new());
}

#[test]
fn from_loaded_absorbs_a_malformed_document() {
    let history = ClipboardHistory::from_loaded(Err(StorageError::Malformed));
    assert_eq!(history.items, Vec::<String>::new());
}

#[test]
fn last_of_empty_history_is_none() {
    assert_eq!(ClipboardHistory::new().last(), None);
}

#[test]
fn last_is_the_most_recent_entry() {
    assert_eq!(history_of(&["a", "b", "c"]).last(), Some(&"c".to_string()));
}

#[test]
fn anything_differs_from_the_last_of_an_empty_history() {
    assert!(ClipboardHistory::new().differs_from_last(&"a".to_string()));
    assert!(ClipboardHistory::new().differs_from_last(&String::new()));
}

#[test]
fn differs_from_last_compares_with_the_most_recent_entry_only() {
    let history = history_of(&["a", "b"]);
    assert!(!history.differs_from_last(&"b".to_string()));
    assert!(history.differs_from_last(&"a".to_string()));
    assert!(history.differs_from_last(&"c".to_string()));
}

#[test]
fn differs_from_last_compares_texts_exactly() {
    let history = history_of(&["text"]);
    assert!(history.differs_from_last(&"Text".to_string()));
    assert!(history.differs_from_last(&"text ".to_string()));
    assert!(history.differs_from_last(&"".to_string()));
    assert!(!history.differs_from_last(&"text".to_string()));
}

#[test]
fn record_appends_to_an_empty_history() {
    let mut history = ClipboardHistory::new();
    assert!(history.record("a".to_string()));
    assert_eq!(history.items, strings(&["a"]));
}

#[test]
fn record_appends_the_empty_text() {
    let mut history = ClipboardHistory::new();
    assert!(history.record(String::new()));
    assert_eq!(history.items, strings(&[""]));
    assert!(!history.record(String::new()));
    assert_eq!(history.items, strings(&[""]));
}

#[test]
fn record_appends_a_new_value() {
    let mut history = history_of(&["a"]);
    assert!(history.record("b".to_string()));
    assert_eq!(history.items, strings(&["a", "b"]));
}

#[test]
fn record_skips_an_adjacent_repeat() {
    let mut history = history_of(&["a", "b"]);
    assert!(!history.record("b".to_string()));
    assert_eq!(history.items, strings(&["a", "b"]));
}

#[test]
fn record_allows_a_repeat_that_is_not_adjacent() {
    let mut history = ClipboardHistory::new();
    assert!(history.record("A".to_string()));
    assert!(history.record("B".to_string()));
    assert!(history.record("A".to_string()));
    assert_eq!(history.items, strings(&["A", "B", "A"]));
}

#[test]
fn record_never_appends_an_adjacent_repeat() {
    let observed = ["x", "x", "x", "y", "x", "x", "", "", "y", "y", "x"];
    let mut history = ClipboardHistory::new();
    for value in observed {
        history.record(value.to_string());
    }
    assert_eq!(history.items, strings(&["x", "y", "x", "", "y", "x"]));
    for i in 1..history.items.len() {
        assert_ne!(history.items[i - 1], history.items[i]);
    }
}

#[test]
fn record_keeps_the_repeats_that_were_loaded() {
    let mut history = history_of(&["a", "a", "b"]);
    assert!(!history.record("b".to_string()));
    assert!(history.record("c".to_string()));
    assert_eq!(history.items, strings(&["a", "a", "b", "c"]));
}

#[test]
fn tail_returns_the_most_recent_entries_first() {
    let mut history = ClipboardHistory::new();
    for value in ["A", "B", "C", "D"] {
        history.record(value.to_string());
    }
    assert_eq!(history.tail(2), strings(&["D", "C"]));
    assert_eq!(history.tail(10), strings(&["D", "C", "B", "A"]));
    assert_eq!(history.tail(0), Vec::<String>::new());
}

#[test]
fn tail_of_exactly_the_length_returns_everything_backwards() {
    let history = history_of(&["A", "B", "C", "D"]);
    assert_eq!(history.tail(4), strings(&["D", "C", "B", "A"]));
    assert_eq!(history.tail(3), strings(&["D", "C", "B"]));
    assert_eq!(history.tail(1), strings(&["D"]));
    assert_eq!(history.tail(usize::MAX), strings(&["D", "C", "B", "A"]));
}

#[test]
fn tail_of_an_empty_history_is_empty() {
    assert_eq!(ClipboardHistory::new().tail(0), Vec::<String>::new());
    assert_eq!(ClipboardHistory::new().tail(3), Vec::<String>::new());
}

#[test]
fn tail_leaves_the_history_as_it_is() {
    let history = history_of(&["A", "B", "C"]);
    let _ = history.tail(2);
    assert_eq!(history, history_of(&["A", "B", "C"]));
}

#[test]
fn load_last_n_entries_of_a_loaded_history() {
    let loaded = Ok(history_of(&["A", "B", "C", "D"]));
    assert_eq!(load_last_n_entries(loaded, 2), strings(&["D", "C"]));
    let loaded = Ok(history_of(&["A", "B", "C", "D"]));
    assert_eq!(load_last_n_entries(loaded, 10), strings(&["D", "C", "B", "A"]));
    let loaded = Ok(history_of(&["A", "B", "C", "D"]));
    assert_eq!(load_last_n_entries(loaded, 0), Vec::<String>::new());
}

#[test]
fn load_last_n_entries_of_a_failed_load_is_empty() {
    assert_eq!(load_last_n_entries(Err(StorageError::Unavailable), 5), Vec::<String>::new());
    assert_eq!(load_last_n_entries(Err(StorageError::Malformed), 5), Vec::<String>::new());
    assert_eq!(load_last_n_entries(Err(StorageError::Malformed), 0), Vec::<String>::new());
}
