use nca_core::todos::{todos_path, TodoData, TodoItem};
use std::path::Path;

fn item(id: u64, done: bool) -> TodoItem {
    TodoItem { id, text: format!("task {id}"), done }
}

#[test]
fn empty_todo_data() {
    let data = TodoData::empty();
    assert_eq!(data.count_total(), 0);
    assert_eq!(data.count_done(), 0);
    assert!(!data.all_done());
    assert_eq!(data.next_id, 1);
}

#[test]
fn counts_and_all_done() {
    let mut data = TodoData { items: vec![item(1, true), item(2, false), item(3, true)], next_id: 4 };
    assert_eq!(data.count_total(), 3);
    assert_eq!(data.count_done(), 2);
    assert!(!data.all_done());
    data.items[1].done = true;
    assert_eq!(data.count_done(), 3);
    assert!(data.all_done());
}

#[test]
fn todos_path_layout() {
    assert_eq!(todos_path("/home/u/proj", "abc"), "/home/u/proj/.nca/sessions/abc.todos.json");
    assert_eq!(todos_path("/home/u/proj/", "abc"), "/home/u/proj/.nca/sessions/abc.todos.json");
    assert_eq!(todos_path("", "abc"), ".nca/sessions/abc.todos.json");
    // an absolute session id replaces the directory, as Path::join does
    assert_eq!(todos_path("/w", "/etc/x"), "/etc/x.todos.json");
}

#[test]
fn todos_path_matches_std_path_join() {
    for (root, id) in [("/w", "s1"), ("rel/dir", "s-2"), ("/", "x"), ("a/", "")] {
        let expected = std::path::Path::new(root)
            .join(".nca")
            .join("sessions")
            .join(format!("{id}.todos.json"));
        assert_eq!(todos_path(root, id), expected.to_str().unwrap());
    }
}

#[test]
fn todos_path_parent_and_file_name() {
    for (root, id) in [("/w", "s1"), ("rel/dir", "abc"), ("", "x"), ("/w/", "y")] {
        let p = todos_path(root, id);
        let path = Path::new(&p);
        assert_eq!(path.parent().unwrap(), Path::new(root).join(".nca").join("sessions"));
        assert_eq!(path.file_name().unwrap().to_str().unwrap(), format!("{id}.todos.json"));
    }
    assert_ne!(todos_path("/w", "a"), todos_path("/w", "b"));
}
