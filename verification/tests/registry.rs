use yumi_wini::win::registry::{WindowInfo, WindowRegistry};

fn info(hwnd: isize, title: &str) -> WindowInfo {
    WindowInfo {
        hwnd,
        title: title.to_string(),
        class: "Notepad".to_string(),
        exe: "notepad.exe".to_string(),
        rect: (0, 0, 800, 600),
    }
}

#[test]
fn registry_files_windows_by_handle() {
    let mut reg = WindowRegistry::new();
    assert!(reg.is_empty());
    reg.insert(info(30, "c"));
    reg.insert(info(10, "a"));
    reg.insert(info(20, "b"));
    assert_eq!(reg.len(), 3);
    assert!(!reg.is_empty());
    assert!(reg.contains(10));
    assert!(!reg.contains(11));
    assert_eq!(reg.get(20).map(|i| i.title.clone()), Some("b".to_string()));
    assert!(reg.get(40).is_none());
    assert_eq!(reg.get(30).map(|i| i.id()), Some(30));
}

#[test]
fn registry_lists_handles_in_increasing_order() {
    let mut reg = WindowRegistry::default();
    reg.insert(info(7, "x"));
    reg.insert(info(-3, "y"));
    reg.insert(info(42, "z"));
    assert_eq!(reg.ids(), vec![-3, 7, 42]);
}

#[test]
fn registry_insert_replaces_snapshot() {
    let mut reg = WindowRegistry::new();
    reg.insert(info(5, "old"));
    reg.insert(info(5, "new"));
    assert_eq!(reg.len(), 1);
    assert_eq!(reg.get(5).map(|i| i.title.clone()), Some("new".to_string()));
}

#[test]
fn registry_remove_hands_back_snapshot() {
    let mut reg = WindowRegistry::new();
    reg.insert(info(1, "one"));
    reg.insert(info(2, "two"));
    let gone = reg.remove(1);
    assert_eq!(gone.map(|i| i.title), Some("one".to_string()));
    assert!(!reg.contains(1));
    assert_eq!(reg.len(), 1);
    assert!(reg.remove(1).is_none());
    assert_eq!(reg.ids(), vec![2]);
}

#[test]
fn registry_adopts_found_windows_in_order() {
    let mut reg = WindowRegistry::new();
    reg.insert(info(9, "kept"));
    let found = vec![info(4, "first"), info(8, "second"), info(4, "again")];
    let count = reg.adopt_existing(found);
    assert_eq!(count, 3);
    assert_eq!(reg.ids(), vec![4, 8, 9]);
    assert_eq!(reg.get(4).map(|i| i.title.clone()), Some("again".to_string()));
    assert_eq!(reg.get(9).map(|i| i.rect), Some((0, 0, 800, 600)));
}
