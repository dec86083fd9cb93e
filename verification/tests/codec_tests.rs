use md_kanban::codec::{
    document_lines, extract_metadata, parse_markdown, parse_memo, parse_subtasks,
    task_to_markdown, SubTask, Task,
};

fn sample_task() -> Task {
    Task {
        file_path: String::from("/tasks/sample.md"),
        title: String::from("Write the report"),
        created: String::from("2024-03-07-09:05"),
        updated: String::from("2024-03-08-10:15"),
        status: String::from("in progress"),
        priority: String::from("high"),
        due: String::from("2024-03-20"),
        assignee: String::from("alice"),
        sub_tasks: vec![
            SubTask { text: String::from("Collect figures"), completed: true },
            SubTask { text: String::from("Draft summary"), completed: false },
        ],
        memo: String::from("First line of memo.\nSecond line."),
    }
}

#[test]
fn round_trip_preserves_record() {
    let t = sample_task();
    let text = task_to_markdown(&t);
    let back = parse_markdown(&text, "/tasks/sample.md").unwrap();
    assert_eq!(back.file_path, t.file_path);
    assert_eq!(back.title, t.title);
    assert_eq!(back.created, t.created);
    assert_eq!(back.updated, t.updated);
    assert_eq!(back.status, t.status);
    assert_eq!(back.priority, t.priority);
    assert_eq!(back.due, t.due);
    assert_eq!(back.assignee, t.assignee);
    assert_eq!(back.sub_tasks.len(), 2);
    assert_eq!(back.sub_tasks[0].text, "Collect figures");
    assert!(back.sub_tasks[0].completed);
    assert_eq!(back.sub_tasks[1].text, "Draft summary");
    assert!(!back.sub_tasks[1].completed);
    assert_eq!(back.memo, t.memo);
}

#[test]
fn round_trip_empty_subtasks() {
    let mut t = sample_task();
    t.sub_tasks = Vec::new();
    let text = task_to_markdown(&t);
    let back = parse_markdown(&text, "/tasks/sample.md").unwrap();
    assert_eq!(back.sub_tasks.len(), 0);
}

#[test]
fn empty_memo_decodes_as_placeholder() {
    // An empty memo encodes as the "-" placeholder; decoding reads that
    // placeholder back literally, so this one field does not round-trip.
    let mut t = sample_task();
    t.memo = String::new();
    let text = task_to_markdown(&t);
    let back = parse_markdown(&text, "/tasks/sample.md").unwrap();
    assert_eq!(back.memo, "-");
}

#[test]
fn encode_canonical_layout() {
    let t = Task {
        file_path: String::from("x"),
        title: String::from("T"),
        created: String::from("c"),
        updated: String::from("u"),
        status: String::from("s"),
        priority: String::from("p"),
        due: String::from("d"),
        assignee: String::from("a"),
        sub_tasks: Vec::new(),
        memo: String::new(),
    };
    let expected = "# T\n\n## Metadata\n\n- created: c\n- updated: u\n- status: s\n- priority: p\n- due: d\n- assignee: a\n\n## Sub-tasks\n\n- [ ] -\n\n## Memo\n\n-\n";
    assert_eq!(task_to_markdown(&t), expected);
}

#[test]
fn defaults_for_empty_document() {
    let t = parse_markdown("just a line\n", "/p").unwrap();
    assert_eq!(t.title, "-");
    assert_eq!(t.created, "-");
    assert_eq!(t.updated, "-");
    assert_eq!(t.status, "not started");
    assert_eq!(t.priority, "low");
    assert_eq!(t.due, "-");
    assert_eq!(t.assignee, "-");
    assert_eq!(t.sub_tasks.len(), 0);
    assert_eq!(t.memo, "");
    assert_eq!(t.file_path, "/p");
}

#[test]
fn subtask_placeholder_is_filtered() {
    let doc = "# t\n\n## Sub-tasks\n\n- [ ] -\n- [x] Buy milk\n";
    let t = parse_markdown(doc, "/p").unwrap();
    assert_eq!(t.sub_tasks.len(), 1);
    assert_eq!(t.sub_tasks[0].text, "Buy milk");
    assert!(t.sub_tasks[0].completed);
}

#[test]
fn subtasks_stop_at_next_heading() {
    let doc = "# t\n\n## Sub-tasks\n\n- [ ] real one\n\n## Memo\n\n- [x] looks like a checkbox\n";
    let t = parse_markdown(doc, "/p").unwrap();
    assert_eq!(t.sub_tasks.len(), 1);
    assert_eq!(t.sub_tasks[0].text, "real one");
    assert!(!t.sub_tasks[0].completed);
    assert_eq!(t.memo, "- [x] looks like a checkbox");
}

#[test]
fn checkbox_capital_x_counts_completed() {
    let doc = "## Sub-tasks\n- [X] shout\n- [ ] rest\n";
    let t = parse_markdown(doc, "/p").unwrap();
    assert_eq!(t.sub_tasks.len(), 2);
    assert!(t.sub_tasks[0].completed);
    assert!(!t.sub_tasks[1].completed);
}

#[test]
fn title_is_first_level_one_heading() {
    let doc = "intro\n# First\n# Second\n";
    let t = parse_markdown(doc, "/p").unwrap();
    assert_eq!(t.title, "First");
}

#[test]
fn metadata_first_match_wins() {
    let doc = "- status: one\n- status: two\n";
    let t = parse_markdown(doc, "/p").unwrap();
    assert_eq!(t.status, "one");
}

#[test]
fn metadata_trims_and_strips_fullwidth_annotation() {
    let doc = "-   status:   doing\u{ff08}since Monday\n- due: 2024-01-01 (ascii kept)\n";
    let t = parse_markdown(doc, "/p").unwrap();
    assert_eq!(t.status, "doing");
    assert_eq!(t.due, "2024-01-01 (ascii kept)");
}

#[test]
fn metadata_bullet_without_value_defaults() {
    let doc = "- priority:\n";
    let t = parse_markdown(doc, "/p").unwrap();
    assert_eq!(t.priority, "low");
}

#[test]
fn memo_drops_blank_lines_and_joins() {
    let doc = "## Memo\n\nline one\n\nline two\n";
    let t = parse_markdown(doc, "/p").unwrap();
    assert_eq!(t.memo, "line one\nline two");
}

#[test]
fn memo_stops_at_next_heading() {
    let doc = "## Memo\nkeep\n## Sub-tasks\n- [x] not memo\n";
    let t = parse_markdown(doc, "/p").unwrap();
    assert_eq!(t.memo, "keep");
    assert_eq!(t.sub_tasks.len(), 1);
}

#[test]
fn section_marker_matches_by_containment() {
    let doc = "## Sub-tasks (two left)\n- [ ] alpha\n";
    let t = parse_markdown(doc, "/p").unwrap();
    assert_eq!(t.sub_tasks.len(), 1);
    assert_eq!(t.sub_tasks[0].text, "alpha");
}

#[test]
fn extract_metadata_direct() {
    let lines = document_lines("- assignee: bob\nnoise\n");
    let got = extract_metadata(&lines, "assignee");
    assert_eq!(got, Some(String::from("bob")));
    assert_eq!(extract_metadata(&lines, "status"), None);
}

#[test]
fn parse_memo_direct_empty_without_section() {
    let lines = document_lines("# nothing here\n");
    assert_eq!(parse_memo(&lines), "");
}

#[test]
fn parse_subtasks_direct() {
    let lines = document_lines("## Sub-tasks\n- [ ] a\n- [x] b\nplain text\n");
    let sts = parse_subtasks(&lines);
    assert_eq!(sts.len(), 2);
    assert_eq!(sts[0].text, "a");
    assert!(!sts[0].completed);
    assert_eq!(sts[1].text, "b");
    assert!(sts[1].completed);
}

#[test]
fn crlf_documents_decode_like_lf() {
    let doc = "# T\r\n- status: ok\r\n";
    let t = parse_markdown(doc, "/p").unwrap();
    assert_eq!(t.title, "T");
    assert_eq!(t.status, "ok");
}
