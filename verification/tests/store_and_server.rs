use plaintasks::clock::code_actions_now;
use plaintasks::store::DocumentStore;
use plaintasks::transitions::ActionTitle;

fn cv(s: &str) -> Vec<char> {
    s.chars().collect()
}

fn sv(v: &[char]) -> String {
    v.iter().collect()
}

#[test]
fn store_open_then_get() {
    let mut store = DocumentStore::new();
    store.open_document(&cv("file:///a.todo"), &cv("\u{2610} one"));
    let text = store.get_text(&cv("file:///a.todo"));
    assert_eq!(sv(&text.unwrap()), "\u{2610} one");
}

#[test]
fn store_unknown_document_yields_nothing() {
    let store = DocumentStore::new();
    assert!(store.get_text(&cv("file:///missing.todo")).is_none());
}

#[test]
fn store_change_replaces_whole_text() {
    let mut store = DocumentStore::new();
    store.open_document(&cv("file:///a.todo"), &cv("old"));
    store.change_document(&cv("file:///a.todo"), &cv("new text"));
    assert_eq!(sv(&store.get_text(&cv("file:///a.todo")).unwrap()), "new text");
}

#[test]
fn store_change_of_unopened_document_is_ignored() {
    let mut store = DocumentStore::new();
    store.change_document(&cv("file:///b.todo"), &cv("text"));
    assert!(store.get_text(&cv("file:///b.todo")).is_none());
}

#[test]
fn store_close_removes_the_entry() {
    let mut store = DocumentStore::new();
    store.open_document(&cv("file:///a.todo"), &cv("text"));
    store.close_document(&cv("file:///a.todo"));
    assert!(store.get_text(&cv("file:///a.todo")).is_none());
}

#[test]
fn store_reopen_replaces_text() {
    let mut store = DocumentStore::new();
    store.open_document(&cv("file:///a.todo"), &cv("first"));
    store.open_document(&cv("file:///b.todo"), &cv("other"));
    store.open_document(&cv("file:///a.todo"), &cv("second"));
    assert_eq!(sv(&store.get_text(&cv("file:///a.todo")).unwrap()), "second");
    assert_eq!(sv(&store.get_text(&cv("file:///b.todo")).unwrap()), "other");
}

#[test]
fn code_actions_now_stamps_the_clock() {
    let doc = cv("\u{2610} Task");
    let actions = code_actions_now(&doc, 0);
    assert_eq!(actions.len(), 3);
    assert_eq!(actions[0].title, ActionTitle::MarkAsDone);
    let text = sv(&actions[0].new_text);
    assert!(text.starts_with("\u{2714} Task @done("));
    assert!(text.ends_with(')'));
}

#[test]
fn code_actions_now_out_of_range_is_empty() {
    let doc = cv("\u{2610} Task");
    assert!(code_actions_now(&doc, 9).is_empty());
}
