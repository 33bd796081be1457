use workbench::todo::Todo;

#[test]
fn new_list_is_empty() {
    let t = Todo::new();
    assert!(t.tasks.is_empty());
    assert_eq!(t.list(), vec!["No tasks yet!".to_string()]);
}

#[test]
fn add_and_list_numbers_tasks() {
    let mut t = Todo::new();
    t.add("buy milk".to_string());
    t.add("call mum".to_string());
    assert_eq!(t.list(), vec!["1: buy milk".to_string(), "2: call mum".to_string()]);
}

#[test]
fn remove_by_number() {
    let mut t = Todo::new();
    t.add("a".to_string());
    t.add("b".to_string());
    t.add("c".to_string());
    assert_eq!(t.remove(2), "Task removed.");
    assert_eq!(t.tasks, vec!["a".to_string(), "c".to_string()]);
    assert_eq!(t.remove(0), "Invalid task number.");
    assert_eq!(t.remove(3), "Invalid task number.");
    assert_eq!(t.tasks, vec!["a".to_string(), "c".to_string()]);
}

#[test]
fn add_then_remove_last_restores_list() {
    let mut t = Todo::new();
    t.add("keep".to_string());
    t.add("drop".to_string());
    assert_eq!(t.remove(2), "Task removed.");
    assert_eq!(t.tasks, vec!["keep".to_string()]);
}
