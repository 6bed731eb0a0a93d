use todo::command::{execute, Command, Outcome};
use todo::error::{CommandError, StoreError};
use todo::list::TaskList;
use todo::task::{greatest_id, next_id, Task};
use todo::text::{decimal_string, is_blank, join_words};

fn words(ws: &[&str]) -> Vec<String> {
    ws.iter().map(|w| w.to_string()).collect()
}

fn add(list: &mut TaskList, ws: &[&str]) -> Result<Outcome, CommandError> {
    execute(list, Command::Add { description: words(ws) })
}

fn listed(list: &mut TaskList) -> Vec<String> {
    match execute(list, Command::List) {
        Ok(o) => {
            assert!(!o.needs_save());
            o.report()
        }
        Err(e) => panic!("list failed: {}", e.message()),
    }
}

fn task(id: usize, description: &str, done: bool) -> Task {
    Task { id, description: description.to_string(), done }
}

fn ids(list: &TaskList) -> Vec<usize> {
    list.tasks().iter().map(|t| t.id).collect()
}

#[test]
fn scenario_from_empty_to_cleared() {
    let mut list = TaskList::new();
    let o = add(&mut list, &["Buy", "milk"]).unwrap();
    assert!(o.needs_save());
    assert_eq!(o.report(), vec!["[+] Added #1: Buy milk".to_string()]);
    assert_eq!(list.len(), 1);
    assert_eq!(list.tasks()[0].id, 1);
    assert_eq!(list.tasks()[0].description, "Buy milk");
    assert!(!list.tasks()[0].done);

    let o = add(&mut list, &["Write spec"]).unwrap();
    assert_eq!(o.report(), vec!["[+] Added #2: Write spec".to_string()]);

    let o = execute(&mut list, Command::Done { id: 1 }).unwrap();
    assert!(o.needs_save());
    assert_eq!(o.report(), vec!["[✓] Marked #1 done.".to_string()]);
    assert_eq!(listed(&mut list), vec!["[x] 1: Buy milk".to_string(), "[ ] 2: Write spec".to_string()]);

    let o = execute(&mut list, Command::Remove { id: 1 }).unwrap();
    assert_eq!(o.report(), vec!["[-] Removed #1.".to_string()]);
    assert_eq!(listed(&mut list), vec!["[ ] 2: Write spec".to_string()]);

    let o = execute(&mut list, Command::Clear).unwrap();
    assert!(o.needs_save());
    assert_eq!(o.report(), vec!["[!] All tasks cleared.".to_string()]);
    assert_eq!(listed(&mut list), vec!["No tasks found.".to_string()]);
}

#[test]
fn list_on_first_run_reports_no_tasks() {
    let mut list = TaskList::from_tasks(Vec::new()).unwrap();
    let o = execute(&mut list, Command::List).unwrap();
    assert!(!o.needs_save());
    assert_eq!(o.report(), vec!["No tasks found.".to_string()]);
    assert!(list.is_empty());
}

#[test]
fn stored_tasks_read_back_unchanged() {
    let stored = vec![task(1, "Buy groceries", false), task(2, "Write README", true)];
    let list = TaskList::from_tasks(stored).unwrap();
    let again: Vec<Task> = list
        .tasks()
        .iter()
        .map(|t| task(t.id, &t.description, t.done))
        .collect();
    let reread = TaskList::from_tasks(again).unwrap();
    assert_eq!(reread.len(), 2);
    assert_eq!(ids(&reread), vec![1, 2]);
    assert_eq!(reread.tasks()[0].description, "Buy groceries");
    assert!(!reread.tasks()[0].done);
    assert_eq!(reread.tasks()[1].description, "Write README");
    assert!(reread.tasks()[1].done);
}

#[test]
fn stored_tasks_with_zero_id_are_refused() {
    let r = TaskList::from_tasks(vec![task(3, "a", false), task(0, "b", false)]);
    assert_eq!(r.err(), Some(StoreError::ZeroId));
    assert_eq!(StoreError::ZeroId.message(), "a task has the identifier 0");
}

#[test]
fn stored_tasks_with_duplicate_ids_are_refused() {
    let r = TaskList::from_tasks(vec![task(4, "a", false), task(5, "b", true), task(4, "c", false)]);
    assert_eq!(r.err(), Some(StoreError::DuplicateId(4)));
    assert_eq!(StoreError::DuplicateId(4).message(), "two tasks have the identifier 4");
}

#[test]
fn ids_increase_across_adds_and_removals() {
    let mut list = TaskList::new();
    for w in ["a", "b", "c"] {
        add(&mut list, &[w]).unwrap();
    }
    execute(&mut list, Command::Remove { id: 2 }).unwrap();
    match add(&mut list, &["d"]).unwrap() {
        Outcome::Added { id, .. } => assert_eq!(id, 4),
        _ => panic!("expected an addition"),
    }
    assert_eq!(ids(&list), vec![1, 3, 4]);
}

#[test]
fn removing_the_greatest_id_lets_it_be_handed_out_again() {
    let mut list = TaskList::new();
    add(&mut list, &["a"]).unwrap();
    add(&mut list, &["b"]).unwrap();
    execute(&mut list, Command::Remove { id: 2 }).unwrap();
    assert_eq!(list.add("c".to_string()), Ok(2));
}

#[test]
fn next_id_follows_greatest_id() {
    assert_eq!(next_id(&[]), 1);
    let tasks = vec![task(7, "a", false), task(3, "b", true), task(9, "c", false)];
    assert_eq!(greatest_id(&tasks), 9);
    assert_eq!(next_id(&tasks), 10);
}

#[test]
fn next_id_after_external_edit() {
    let mut list = TaskList::from_tasks(vec![task(41, "x", false), task(5, "y", false)]).unwrap();
    assert_eq!(list.add("z".to_string()), Ok(42));
    assert_eq!(ids(&list), vec![41, 5, 42]);
}

#[test]
fn done_twice_keeps_task_done() {
    let mut list = TaskList::new();
    add(&mut list, &["a"]).unwrap();
    execute(&mut list, Command::Done { id: 1 }).unwrap();
    let o = execute(&mut list, Command::Done { id: 1 }).unwrap();
    assert_eq!(o.report(), vec!["[✓] Marked #1 done.".to_string()]);
    assert!(list.tasks()[0].done);
    assert_eq!(listed(&mut list), vec!["[x] 1: a".to_string()]);
}

#[test]
fn done_after_remove_is_not_found() {
    let mut list = TaskList::new();
    add(&mut list, &["a"]).unwrap();
    add(&mut list, &["b"]).unwrap();
    execute(&mut list, Command::Remove { id: 1 }).unwrap();
    let r = execute(&mut list, Command::Done { id: 1 });
    assert!(matches!(r, Err(CommandError::NotFound(1))));
    assert_eq!(ids(&list), vec![2]);
}

#[test]
fn remove_missing_is_not_found_and_changes_nothing() {
    let mut list = TaskList::new();
    add(&mut list, &["a"]).unwrap();
    let r = execute(&mut list, Command::Remove { id: 9 });
    assert!(matches!(r, Err(CommandError::NotFound(9))));
    assert_eq!(ids(&list), vec![1]);
    assert_eq!(CommandError::NotFound(9).message(), "Task #9 not found.");
}

#[test]
fn clear_empties_any_collection() {
    let mut list = TaskList::from_tasks(vec![task(2, "a", true), task(8, "b", false)]).unwrap();
    execute(&mut list, Command::Clear).unwrap();
    assert!(list.is_empty());
    assert_eq!(listed(&mut list), vec!["No tasks found.".to_string()]);
}

#[test]
fn blank_description_is_invalid() {
    let mut list = TaskList::new();
    let r = add(&mut list, &[]);
    assert!(matches!(r, Err(CommandError::InvalidInput)));
    let r = add(&mut list, &["  ", "\t"]);
    assert!(matches!(r, Err(CommandError::InvalidInput)));
    assert!(list.is_empty());
    assert_eq!(CommandError::InvalidInput.message(), "The task description is empty.");
}

#[test]
fn ids_exhausted_when_greatest_is_max() {
    let mut list = TaskList::from_tasks(vec![task(usize::MAX, "top", false)]).unwrap();
    let r = add(&mut list, &["more"]);
    assert!(matches!(r, Err(CommandError::IdsExhausted)));
    assert_eq!(list.len(), 1);
    assert_eq!(CommandError::IdsExhausted.message(), "No task identifier is left.");
}

#[test]
fn blank_check_trims_both_ends() {
    assert!(is_blank(""));
    assert!(is_blank("  \t\n "));
    assert!(!is_blank("  a  "));
    assert!(!is_blank("x"));
}

#[test]
fn words_are_joined_with_single_spaces() {
    assert_eq!(join_words(&words(&[])), "");
    assert_eq!(join_words(&words(&["one"])), "one");
    assert_eq!(join_words(&words(&["Buy", "some", "milk"])), "Buy some milk");
    assert_eq!(join_words(&words(&["a", "", "b"])), "a  b");
}

#[test]
fn decimal_notation() {
    assert_eq!(decimal_string(0), "0");
    assert_eq!(decimal_string(7), "7");
    assert_eq!(decimal_string(10), "10");
    assert_eq!(decimal_string(305), "305");
    assert_eq!(decimal_string(usize::MAX), usize::MAX.to_string());
}

#[test]
fn description_keeps_inner_and_outer_spacing() {
    let mut list = TaskList::new();
    let o = add(&mut list, &[" padded "]).unwrap();
    assert_eq!(o.report(), vec!["[+] Added #1:  padded ".to_string()]);
    assert_eq!(list.tasks()[0].description, " padded ");
}

#[test]
fn position_finds_index() {
    let list = TaskList::from_tasks(vec![task(5, "a", false), task(6, "b", false)]).unwrap();
    assert_eq!(list.position(6), Some(1));
    assert_eq!(list.position(1), None);
}
