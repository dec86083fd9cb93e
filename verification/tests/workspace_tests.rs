use md_kanban::clock::{
    compact_stamp, date_stamp, datetime_stamp, sync_commit_message, DateTimeParts,
};
use md_kanban::repo::parse_branch_list;
use md_kanban::tasks::{default_reserved, is_task_file, new_task, task_file_name};
use md_kanban::codec::SubTask;

fn parts() -> DateTimeParts {
    DateTimeParts { year: 2024, month: 3, day: 7, hour: 9, minute: 5, second: 42 }
}

#[test]
fn timestamp_formats_are_zero_padded() {
    let p = parts();
    assert_eq!(datetime_stamp(&p), "2024-03-07-09:05");
    assert_eq!(date_stamp(&p), "2024-03-07");
    assert_eq!(compact_stamp(&p), "20240307090542");
    assert_eq!(sync_commit_message(&p), "Task sync: 2024-03-07 09:05");
}

#[test]
fn timestamp_formats_wide_fields() {
    let p = DateTimeParts { year: 987, month: 11, day: 25, hour: 23, minute: 59, second: 6 };
    assert_eq!(datetime_stamp(&p), "0987-11-25-23:59");
    assert_eq!(compact_stamp(&p), "09871125235906");
}

#[test]
fn parts_range_check() {
    assert!(parts().in_range());
    let bad = DateTimeParts { year: 12024, ..parts() };
    assert!(!bad.in_range());
    let bad_month = DateTimeParts { month: 0, ..parts() };
    assert!(!bad_month.in_range());
}

#[test]
fn new_task_fills_defaults() {
    let t = new_task(
        String::from("/tasks/t.md"),
        String::from("Do it"),
        None,
        None,
        None,
        None,
        None,
        None,
        &parts(),
    );
    assert_eq!(t.file_path, "/tasks/t.md");
    assert_eq!(t.title, "Do it");
    assert_eq!(t.created, "2024-03-07-09:05");
    assert_eq!(t.updated, "2024-03-07-09:05");
    assert_eq!(t.status, "not started");
    assert_eq!(t.priority, "low");
    assert_eq!(t.due, "2024-03-07");
    assert_eq!(t.assignee, "-");
    assert_eq!(t.sub_tasks.len(), 0);
    assert_eq!(t.memo, "");
}

#[test]
fn new_task_keeps_given_fields() {
    let t = new_task(
        String::from("/tasks/t.md"),
        String::new(),
        Some(String::from("done")),
        Some(String::from("high")),
        Some(String::from("2025-01-01")),
        Some(String::from("bob")),
        Some(vec![SubTask { text: String::from("s"), completed: false }]),
        Some(String::from("note")),
        &parts(),
    );
    assert_eq!(t.title, "-");
    assert_eq!(t.status, "done");
    assert_eq!(t.priority, "high");
    assert_eq!(t.due, "2025-01-01");
    assert_eq!(t.assignee, "bob");
    assert_eq!(t.sub_tasks.len(), 1);
    assert_eq!(t.memo, "note");
}

#[test]
fn file_name_sanitizes_title() {
    let name = task_file_name("My Task!", &parts());
    assert_eq!(name, "My_Task__20240307090542.md");
    let kept = task_file_name("ok-name_1", &parts());
    assert_eq!(kept, "ok-name_1_20240307090542.md");
}

#[test]
fn task_file_filter() {
    let reserved = default_reserved();
    assert!(is_task_file("shopping.md", &reserved));
    assert!(!is_task_file("template.md", &reserved));
    assert!(!is_task_file("task-naming.md", &reserved));
    assert!(!is_task_file("notes.txt", &reserved));
    assert!(!is_task_file("md", &reserved));
}

#[test]
fn branch_list_parses_and_dedups() {
    let out = "* main\n  dev\n  remotes/origin/main\n  remotes/origin/HEAD -> origin/main\n";
    let branches = parse_branch_list(out);
    assert_eq!(branches, vec![String::from("main"), String::from("dev")]);
}

#[test]
fn branch_list_skips_blank_and_head() {
    let out = "\n  remotes/origin/feature\n  HEAD\n";
    let branches = parse_branch_list(out);
    assert_eq!(branches, vec![String::from("feature")]);
}
