use obsctl::codec::{NewTask, Priority, TaskFilter, TaskRecord};
use obsctl::tasks::{position_of, TaskError, TaskService};

fn ledger(text: &str) -> TaskService {
    TaskService::new(Some(text.to_string()), "unused")
}

fn task(title: &str) -> NewTask {
    NewTask { title: title.to_string(), due_date: None, recurrence: None, priority: None }
}

#[test]
fn new_takes_the_stored_text() {
    assert_eq!(ledger("# Tasks\n").text(), "# Tasks\n");
    assert_eq!(ledger("").text(), "");
}

#[test]
fn new_seeds_from_the_template() {
    let s = TaskService::new(None, "# Tasks\n\n- [ ] Example task\n");
    assert_eq!(s.text(), "# Tasks\n\n- [ ] Example task\n");
}

#[test]
fn add_appends_a_line_and_returns_the_identifier() {
    let mut s = ledger("# Tasks\n\n");
    assert_eq!(s.add_task(task("A")), 1);
    assert_eq!(s.text(), "# Tasks\n\n- [ ] (1) A\n");
}

#[test]
fn add_to_an_empty_ledger_starts_at_one() {
    let mut s = ledger("");
    assert_eq!(s.add_task(task("A")), 1);
    assert_eq!(s.text(), "- [ ] (1) A\n");
}

#[test]
fn add_puts_a_line_feed_after_an_unfinished_last_line() {
    let mut s = ledger("# Tasks\n- [ ] (4) Old");
    assert_eq!(s.add_task(task("New")), 5);
    assert_eq!(s.text(), "# Tasks\n- [ ] (4) Old\n- [ ] (5) New\n");
}

#[test]
fn add_writes_the_metadata() {
    let mut s = ledger("");
    let t = NewTask {
        title: "Pay rent".to_string(),
        due_date: Some("2024-02-01".to_string()),
        recurrence: Some("monthly".to_string()),
        priority: Some(Priority::Low),
    };
    assert_eq!(s.add_task(t), 1);
    assert_eq!(
        s.text(),
        "- [ ] (1) Pay rent \u{1F4C5} 2024-02-01 \u{1F501} monthly \u{2B07}\u{FE0F}\n"
    );
}

#[test]
fn added_task_is_listed_with_its_values() {
    let mut s = ledger("# Tasks\n\n- [x] (3) Old\n");
    let id = s.add_task(NewTask { priority: Some(Priority::High), ..task("Call the bank") });
    let listed = s.list_tasks(TaskFilter::All);
    let found: Vec<TaskRecord> =
        listed.iter().filter_map(|l| TaskRecord::parse(l)).filter(|r| r.id == id).collect();
    assert_eq!(found.len(), 1);
    assert_eq!(found[0].id, 4);
    assert!(!found[0].done);
    assert_eq!(found[0].title, "Call the bank");
}

#[test]
fn identifiers_count_up_from_one() {
    let mut s = ledger("");
    for n in 1..=25usize {
        assert_eq!(s.add_task(task(&format!("task {}", n))), n);
    }
    let ids: Vec<usize> = s.tasks().iter().map(|e| e.id).collect();
    assert_eq!(ids, (1..=25).collect::<Vec<usize>>());
}

#[test]
fn identifier_follows_the_largest_one() {
    let mut s = ledger("- [ ] (7) A\n- [x] (3) B\n- [ ] (5) C\n");
    assert_eq!(s.last_id(), 7);
    assert_eq!(s.add_task(task("D")), 8);
}

#[test]
fn add_after_purge_does_not_reuse_a_remaining_identifier() {
    let mut s = ledger("- [ ] (1) A\n- [x] (2) B\n- [ ] (3) C\n- [x] (4) D\n");
    s.clean_completed();
    let id = s.add_task(task("E"));
    assert_eq!(id, 4);
    let ids: Vec<usize> = s.tasks().iter().map(|e| e.id).collect();
    assert_eq!(ids, vec![1, 3, 4]);
}

#[test]
fn set_status_marks_the_record() {
    let mut s = ledger("# Tasks\n- [ ] (1) A\n- [ ] (2) B\n");
    assert_eq!(s.set_status(2, true), Ok(()));
    assert_eq!(s.text(), "# Tasks\n- [ ] (1) A\n- [x] (2) B\n");
    assert_eq!(s.set_status(2, false), Ok(()));
    assert_eq!(s.text(), "# Tasks\n- [ ] (1) A\n- [ ] (2) B\n");
}

#[test]
fn set_status_twice_changes_nothing_more() {
    let mut s = ledger("# Tasks\n\n  - [ ] (1) A \u{1F525} \n- [X] (1) twin\nprose\n");
    assert_eq!(s.set_status(1, true), Ok(()));
    let first = s.text().to_string();
    assert_eq!(first, "# Tasks\n\n- [x] (1) A \u{1F525}\n- [x] (1) twin\nprose\n");
    assert_eq!(s.set_status(1, true), Ok(()));
    assert_eq!(s.text(), first);
}

#[test]
fn set_status_fails_on_an_unknown_identifier() {
    let text = "# Tasks\n\n- [ ] (1) A\n- [x] (2) B";
    let mut s = ledger(text);
    assert_eq!(s.set_status(999, true), Err(TaskError::NotFound { id: 999 }));
    assert_eq!(s.text(), text);
}

#[test]
fn mark_done_is_set_status_to_done() {
    let mut s = ledger("- [ ] (1) A\n");
    assert_eq!(s.mark_done(1), Ok(()));
    assert_eq!(s.text(), "- [x] (1) A\n");
    assert_eq!(s.mark_done(2), Err(TaskError::NotFound { id: 2 }));
    assert_eq!(s.text(), "- [x] (1) A\n");
}

#[test]
fn not_found_says_which_task() {
    assert_eq!(TaskError::NotFound { id: 999 }.message(), "task #999 was not found");
}

#[test]
fn other_lines_stay_in_place() {
    let text = "# Tasks\n\n- [ ] (1) A\n\nSome prose.\n- [x] (2) B\n   \n";
    let mut s = ledger(text);
    s.add_task(task("C"));
    assert_eq!(s.text(), "# Tasks\n\n- [ ] (1) A\n\nSome prose.\n- [x] (2) B\n   \n- [ ] (3) C\n");
    assert_eq!(s.set_status(1, true), Ok(()));
    assert_eq!(s.text(), "# Tasks\n\n- [x] (1) A\n\nSome prose.\n- [x] (2) B\n   \n- [ ] (3) C\n");
    s.clean_completed();
    assert_eq!(s.text(), "# Tasks\n\n\nSome prose.\n   \n- [ ] (3) C\n");
}

#[test]
fn list_filters_by_status() {
    let s = ledger("# Tasks\n- [ ] (1) A\n- [x] (2) B\n\n- [ ] (3) C\n");
    assert_eq!(s.list_tasks(TaskFilter::Open), vec!["- [ ] (1) A", "- [ ] (3) C"]);
    assert_eq!(s.list_tasks(TaskFilter::Done), vec!["- [x] (2) B"]);
    assert_eq!(s.list_tasks(TaskFilter::All), vec!["- [ ] (1) A", "- [x] (2) B", "- [ ] (3) C"]);
}

#[test]
fn list_shows_trimmed_lines() {
    let s = ledger("   - [ ] (1) A   \n");
    assert_eq!(s.list_tasks(TaskFilter::All), vec!["- [ ] (1) A"]);
}

#[test]
fn list_of_a_ledger_without_records_is_empty() {
    assert_eq!(ledger("# Tasks\n\n- [ ] Example task\n").list_tasks(TaskFilter::All).len(), 0);
    assert_eq!(ledger("").list_tasks(TaskFilter::All).len(), 0);
}

#[test]
fn purge_removes_the_done_records() {
    let mut s = ledger("- [ ] (1) A\n- [x] (2) B\n- [ ] (3) C\n");
    s.clean_completed();
    assert_eq!(s.text(), "- [ ] (1) A\n- [ ] (3) C\n");
}

#[test]
fn purge_of_an_empty_ledger_is_empty() {
    let mut s = ledger("");
    s.clean_completed();
    assert_eq!(s.text(), "");
    let mut all_done = ledger("- [x] (1) A\n- [X] (2) B");
    all_done.clean_completed();
    assert_eq!(all_done.text(), "");
}

#[test]
fn purge_keeps_carriage_returns_of_other_lines() {
    let mut s = ledger("# Tasks\r\n- [x] (1) A\r\nprose\r\n");
    s.clean_completed();
    assert_eq!(s.text(), "# Tasks\r\nprose\r\n");
}

#[test]
fn find_by_title_ignores_letter_case() {
    let s = ledger("- [ ] (1) Buy milk\n- [x] (2) buy MILK\n- [ ] (3) Other\n");
    let found = s.find_task_by_title("BUY Milk").unwrap();
    assert_eq!(found.id, 1);
    assert_eq!(found.title, "Buy milk");
    assert_eq!(found.raw, "- [ ] (1) Buy milk");
    assert!(!found.done);
    assert_eq!(s.find_task_by_title("other").unwrap().id, 3);
}

#[test]
fn find_by_title_wants_the_whole_title() {
    let s = ledger("- [ ] (1) Buy milk\n");
    assert!(s.find_task_by_title("Buy").is_none());
    assert!(s.find_task_by_title("Buy milk ").is_none());
    assert!(s.find_task_by_title("").is_none());
}

#[test]
fn position_of_finds_the_first_equal_text() {
    let texts = vec!["a".to_string(), "b".to_string(), "a".to_string()];
    assert_eq!(position_of(&texts, &"a".to_string()), Some(0));
    assert_eq!(position_of(&texts, &"b".to_string()), Some(1));
    assert_eq!(position_of(&texts, &"c".to_string()), None);
    assert_eq!(position_of(&vec![], &"a".to_string()), None);
}

#[test]
fn tasks_are_all_records_in_file_order() {
    let s = ledger("# Tasks\n- [ ] (3) C \u{1F525}\nprose\n- [x] (1) A\n");
    let all = s.tasks();
    assert_eq!(all.len(), 2);
    assert_eq!((all[0].id, all[0].done, all[0].title.as_str()), (3, false, "C"));
    assert_eq!(all[0].raw, "- [ ] (3) C \u{1F525}");
    assert_eq!((all[1].id, all[1].done, all[1].title.as_str()), (1, true, "A"));
}

#[test]
fn read_records_are_the_records_of_the_lines() {
    let s = ledger("- [ ] (1) A\nnot a record\n- [x] (2) B");
    let rs = s.read_records();
    assert_eq!(rs.len(), 2);
    assert_eq!(rs[1].raw_text, "- [x] (2) B");
    assert_eq!(ledger("").read_records().len(), 0);
}

#[test]
fn last_id_of_a_ledger_without_records_is_zero() {
    assert_eq!(ledger("# Tasks\n").last_id(), 0);
    assert_eq!(ledger("").last_id(), 0);
}
