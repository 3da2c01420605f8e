use vhs_86::batch::{count_outcomes, entry_destination, BatchActionType, BatchDialog, BatchSelection};
use vhs_86::{DirEntry, EntryKind};

#[test]
fn test_batch_selection_new() {
    let sel = BatchSelection::new();
    assert!(!sel.active);
    assert_eq!(sel.count(), 0);
}

#[test]
fn test_batch_selection_toggle() {
    let mut sel = BatchSelection::new();
    sel.toggle(0);
    assert!(sel.active);
    assert_eq!(sel.count(), 1);
    assert!(sel.is_selected(0));

    sel.toggle(0);
    assert!(!sel.active);
    assert_eq!(sel.count(), 0);
    assert!(!sel.is_selected(0));
}

#[test]
fn test_batch_selection_multiple() {
    let mut sel = BatchSelection::new();
    sel.toggle(0);
    sel.toggle(2);
    sel.toggle(5);
    assert_eq!(sel.count(), 3);
    assert!(sel.is_selected(0));
    assert!(!sel.is_selected(1));
    assert!(sel.is_selected(2));
}

#[test]
fn test_batch_selection_clear() {
    let mut sel = BatchSelection::new();
    sel.toggle(0);
    sel.toggle(1);
    sel.clear();
    assert!(!sel.active);
    assert_eq!(sel.count(), 0);
}

#[test]
fn test_batch_selection_get_selected_entries() {
    let mut sel = BatchSelection::new();
    let entries = vec![
        DirEntry { name: "a".to_string(), path: "/a".to_string(), kind: EntryKind::File, size: 0, modified: None },
        DirEntry { name: "b".to_string(), path: "/b".to_string(), kind: EntryKind::File, size: 0, modified: None },
    ];
    sel.toggle(0);
    let selected = sel.get_selected_entries(&entries);
    assert_eq!(selected.len(), 1);
    assert_eq!(selected[0].name, "a");
}

#[test]
fn test_batch_dialog_new() {
    let dialog = BatchDialog::new();
    assert!(!dialog.visible);
    assert!(dialog.action.is_none());
}

#[test]
fn test_batch_dialog_open() {
    let mut dialog = BatchDialog::new();
    dialog.open(BatchActionType::Delete);
    assert!(dialog.visible);
    assert_eq!(dialog.action, Some(BatchActionType::Delete));
}

#[test]
fn test_batch_dialog_action_name() {
    let mut dialog = BatchDialog::new();
    dialog.open(BatchActionType::Copy);
    assert_eq!(dialog.action_name(), "Copy to");
}

#[test]
fn test_batch_dialog_input() {
    let mut dialog = BatchDialog::new();
    dialog.push_char('a');
    dialog.push_char('b');
    assert_eq!(dialog.input, "ab");
    dialog.pop_char();
    assert_eq!(dialog.input, "a");
}

#[test]
fn toggling_twice_restores_the_selection() {
    let mut sel = BatchSelection::new();
    sel.toggle(3);
    sel.toggle(7);
    sel.toggle(7);
    assert_eq!(sel.count(), 1);
    assert!(sel.is_selected(3));
    assert!(!sel.is_selected(7));
    assert!(sel.active);
}

#[test]
fn selected_entries_skip_indices_past_the_end() {
    let mut sel = BatchSelection::new();
    let entries = vec![DirEntry {
        name: "only".to_string(),
        path: "/only".to_string(),
        kind: EntryKind::File,
        size: 1,
        modified: None,
    }];
    sel.toggle(0);
    sel.toggle(9);
    let chosen = sel.get_selected_entries(&entries);
    assert_eq!(chosen.len(), 1);
    assert_eq!(chosen[0].path, "/only");
}

#[test]
fn batch_dialog_names_each_action_and_closes_empty() {
    let mut d = BatchDialog::new();
    assert_eq!(d.action_name(), "");
    d.open(BatchActionType::Move);
    assert_eq!(d.action_name(), "Move to");
    d.push_char('x');
    d.close();
    assert!(!d.visible);
    assert!(d.action.is_none());
    assert_eq!(d.input, "");
    d.open(BatchActionType::Delete);
    assert_eq!(d.action_name(), "Delete");
}

#[test]
fn outcomes_are_counted_as_successes_and_failures() {
    assert_eq!(count_outcomes(&vec![true, false, true]), (2, 1));
    assert_eq!(count_outcomes(&vec![]), (0, 0));
}

#[test]
fn destination_joins_the_file_name() {
    assert_eq!(entry_destination("/src/a.txt", "/dest"), Some("/dest/a.txt".to_string()));
    assert_eq!(entry_destination("/", "/dest"), None);
}
