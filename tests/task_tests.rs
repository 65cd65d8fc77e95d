use ruidmap::commands::{
    add_task_comment, add_task_subtask, get_all_tags, get_overdue_tasks, is_overdue, add_task_tag, add_task_time, count_tasks, decimal_string,
    get_tasks_by_due_date, get_tasks_by_tag, import_data, project_task_counts, remove_task_tag,
    set_task_due_date, set_task_estimated_time, toggle_task_status, toggle_task_subtask, update_project,
    validate_import_data, ExportData, ImportPayload,
};
use ruidmap::clock::Timestamp;
use ruidmap::task_store::{LegacyRoadmapData, LegacyTask, Storage, StorageError, StoredData};
use ruidmap::tasks::{
    Project, ProjectSettings, ProjectUpdateRequest, RoadmapData, Task, TaskPriority, TaskStatus,
};

fn empty_data() -> RoadmapData {
    RoadmapData {
        tasks: vec![],
        projects: vec![],
        current_project_id: None,
        theme: None,
        version: "1.0.0".to_string(),
    }
}

fn store() -> Storage {
    Storage::new_with_path("roadmap.json".into())
}

#[test]
fn default_data_has_one_current_project() {
    let d = RoadmapData::default();
    assert!(d.tasks.is_empty());
    assert_eq!(d.projects.len(), 1);
    assert_eq!(d.projects[0].id, 1);
    assert_eq!(d.projects[0].name, "Default Project");
    assert_eq!(d.current_project_id, Some(1));
    assert_eq!(d.theme.as_deref(), Some("light"));
    assert_eq!(d.version, "1.0.0");
    let s = ProjectSettings::default();
    assert_eq!(s.default_priority, TaskPriority::Medium);
    assert!(s.show_completed_tasks);
}

#[test]
fn status_and_priority_tokens() {
    assert_eq!(TaskStatus::InProgress.as_str(), "in-progress");
    assert_eq!(TaskStatus::from("done"), TaskStatus::Done);
    assert_eq!(TaskStatus::from("whatever"), TaskStatus::Todo);
    assert_eq!(TaskPriority::from("high"), TaskPriority::High);
    assert_eq!(TaskPriority::from(""), TaskPriority::Low);
    assert_eq!(TaskPriority::Medium.as_str(), "medium");
}

#[test]
fn add_task_numbers_after_the_largest_id() {
    let s = store();
    let mut d = RoadmapData::default();
    let a = s.add_task(&mut d, "a".into(), "".into(), None).unwrap();
    assert_eq!(a.id, 1);
    assert_eq!(a.project_id, 1);
    assert_eq!(a.priority, TaskPriority::Medium);
    assert_eq!(a.status, TaskStatus::Todo);
    d.tasks[0].id = 41;
    let b = s.add_task(&mut d, "b".into(), "".into(), Some(TaskPriority::High)).unwrap();
    assert_eq!(b.id, 42);
    assert_eq!(b.priority, TaskPriority::High);
    assert_eq!(d.tasks.len(), 2);
}

#[test]
fn add_task_refuses_when_ids_run_out() {
    let s = store();
    let mut d = RoadmapData::default();
    s.add_task(&mut d, "a".into(), "".into(), None).unwrap();
    d.tasks[0].id = u32::MAX;
    assert_eq!(s.add_task(&mut d, "b".into(), "".into(), None).unwrap_err(), StorageError::IdsExhausted);
    assert_eq!(d.tasks.len(), 1);
}

#[test]
fn update_and_delete_missing_task() {
    let s = store();
    let mut d = RoadmapData::default();
    assert_eq!(
        s.update_task(&mut d, 5, None, None, Some(TaskStatus::Done), None).unwrap_err(),
        StorageError::TaskNotFound(5)
    );
    assert_eq!(s.delete_task(&mut d, 5).unwrap_err(), StorageError::TaskNotFound(5));
    assert_eq!(s.get_task_by_id(&d, 5).unwrap_err(), StorageError::TaskNotFound(5));
}

#[test]
fn update_task_needs_title_and_description_together() {
    let s = store();
    let mut d = RoadmapData::default();
    s.add_task(&mut d, "a".into(), "b".into(), None).unwrap();
    let t = s.update_task(&mut d, 1, Some("x".into()), None, Some(TaskStatus::Done), None).unwrap();
    assert_eq!(t.title, "a");
    assert_eq!(t.status, TaskStatus::Done);
    let t = s.update_task(&mut d, 1, Some("x".into()), Some("y".into()), None, Some(TaskPriority::Low)).unwrap();
    assert_eq!((t.title.as_str(), t.description.as_str()), ("x", "y"));
    assert_eq!(t.priority, TaskPriority::Low);
    assert_eq!(s.get_task_by_id(&d, 1).unwrap().title, "x");
    s.delete_task(&mut d, 1).unwrap();
    assert!(s.get_tasks(&d).is_empty());
}

#[test]
fn queries_by_status_and_project_keep_order() {
    let s = store();
    let mut d = RoadmapData::default();
    for name in ["a", "b", "c"] {
        s.add_task(&mut d, name.into(), "".into(), None).unwrap();
    }
    s.update_task(&mut d, 2, None, None, Some(TaskStatus::Done), None).unwrap();
    d.tasks[2].project_id = 7;
    let done = s.get_tasks_by_status(&d, TaskStatus::Done);
    assert_eq!(done.iter().map(|t| t.id).collect::<Vec<_>>(), vec![2]);
    let todo = s.get_tasks_by_status(&d, TaskStatus::Todo);
    assert_eq!(todo.iter().map(|t| t.id).collect::<Vec<_>>(), vec![1, 3]);
    let in_one = s.get_tasks_by_project(&d, 1);
    assert_eq!(in_one.iter().map(|t| t.id).collect::<Vec<_>>(), vec![1, 2]);
}

#[test]
fn theme_defaults_to_light() {
    let s = store();
    let mut d = empty_data();
    assert_eq!(s.get_theme(&d), "light");
    s.set_theme(&mut d, "dark".into());
    assert_eq!(s.get_theme(&d), "dark");
}

#[test]
fn projects_inbox_and_done() {
    let s = store();
    let mut d = empty_data();
    let inbox = s.create_project(&mut d, "Inbox".into(), "".into(), None, None).unwrap();
    let done = s.create_project(&mut d, "Done".into(), "finished".into(), Some("#0f0".into()), None).unwrap();
    assert_eq!(inbox.id, 1);
    assert_eq!(done.id, 2);
    assert_eq!(inbox.description, None);
    assert_eq!(done.description.as_deref(), Some("finished"));
    assert_eq!(d.current_project_id, Some(1));
    assert_eq!(s.get_current_project(&d).unwrap().name, "Inbox");
    let p = s.switch_project(&mut d, 2).unwrap();
    assert_eq!(p.name, "Done");
    assert_eq!(d.current_project_id, Some(2));
    assert_eq!(s.switch_project(&mut d, 9).unwrap_err(), StorageError::ProjectNotFound(9));
    assert_eq!(s.get_projects(&d).len(), 2);
}

#[test]
fn deleting_the_only_project_fails() {
    let s = store();
    let mut d = RoadmapData::default();
    s.add_task(&mut d, "a".into(), "".into(), None).unwrap();
    assert_eq!(s.delete_project(&mut d, 1).unwrap_err(), StorageError::LastProject);
    assert_eq!(d.projects.len(), 1);
    assert_eq!(d.tasks.len(), 1);
    assert_eq!(d.tasks[0].project_id, 1);
    assert_eq!(d.current_project_id, Some(1));
}

#[test]
fn deleting_a_project_detaches_its_tasks() {
    let s = store();
    let mut d = RoadmapData::default();
    s.create_project(&mut d, "Other".into(), "".into(), None, None).unwrap();
    s.add_task(&mut d, "a".into(), "".into(), None).unwrap();
    s.add_task(&mut d, "b".into(), "".into(), None).unwrap();
    d.tasks[1].project_id = 2;
    assert_eq!(s.delete_project(&mut d, 3).unwrap_err(), StorageError::ProjectNotFound(3));
    s.delete_project(&mut d, 1).unwrap();
    assert_eq!(d.tasks.len(), 2);
    assert_eq!(d.tasks[0].project_id, 0);
    assert_eq!(d.tasks[1].project_id, 2);
    assert_eq!(d.projects.len(), 1);
    assert_eq!(d.current_project_id, Some(2));
}

#[test]
fn migrating_twice_changes_nothing_the_second_time() {
    let s = store();
    let mut d = empty_data();
    d.version = "0.9.0".into();
    d.current_project_id = Some(3);
    let mut t = Task::new(1, 0, "a".into(), "".into());
    t.project_id = 0;
    d.tasks.push(t);
    assert!(s.migrate_data(&mut d));
    assert_eq!(d.version, "1.0.0");
    // With no project at all, the default project 1 is made and current.
    assert_eq!(d.tasks[0].project_id, 1);
    assert_eq!(d.projects.len(), 1);
    assert_eq!(d.projects[0].id, 1);
    assert_eq!(d.current_project_id, Some(1));
    let before = format!("{:?}", d);
    assert!(!s.migrate_data(&mut d));
    assert_eq!(format!("{:?}", d), before);
}

fn legacy_task(id: u32) -> LegacyTask {
    LegacyTask {
        id,
        title: format!("t{}", id),
        description: String::new(),
        status: TaskStatus::Done,
        priority: TaskPriority::High,
        created_at: "2024-01-01T00:00:00+00:00".into(),
        updated_at: "2024-01-02T00:00:00+00:00".into(),
        due_date: None,
        tags: vec!["x".into()],
        subtasks: vec![],
        comments: vec![],
        time_spent: 5,
        estimated_time: Some(10),
        attachments: vec![],
    }
}

#[test]
fn legacy_data_moves_into_default_project() {
    let s = store();
    let legacy = LegacyRoadmapData { tasks: vec![legacy_task(4), legacy_task(9)], theme: Some("dark".into()), version: None };
    let (d, save) = s.load_data(StoredData::Legacy(legacy)).unwrap();
    assert!(save);
    assert_eq!(d.version, "1.0.0");
    assert_eq!(d.theme.as_deref(), Some("dark"));
    assert_eq!(d.projects.len(), 1);
    assert_eq!(d.current_project_id, Some(1));
    assert_eq!(d.tasks.iter().map(|t| (t.id, t.project_id)).collect::<Vec<_>>(), vec![(4, 1), (9, 1)]);
    assert_eq!(d.tasks[1].title, "t9");
    assert_eq!(d.tasks[1].updated_at, "2024-01-02T00:00:00+00:00");
    // Written back in the current layout, it loads without another write.
    let (_, save) = s.load_data(StoredData::Current(d)).unwrap();
    assert!(!save);
}

#[test]
fn load_of_missing_and_unreadable_files() {
    let s = store();
    let (d, save) = s.load_data(StoredData::Absent).unwrap();
    assert!(save);
    assert_eq!(d.projects.len(), 1);
    assert_eq!(
        s.load_data(StoredData::Unreadable("eof".into())).unwrap_err(),
        StorageError::CorruptData("eof".into())
    );
    assert_eq!(Storage::new().unwrap().get_data_file_path(), "roadmap.json");
}

#[test]
fn tags_are_a_set() {
    let s = store();
    let mut d = RoadmapData::default();
    s.add_task(&mut d, "a".into(), "".into(), None).unwrap();
    add_task_tag(&mut d, 1, "x".into()).unwrap();
    let t = add_task_tag(&mut d, 1, "x".into()).unwrap();
    assert_eq!(t.tags, vec!["x".to_string()]);
    add_task_tag(&mut d, 1, "y".into()).unwrap();
    let t = remove_task_tag(&mut d, 1, "x".into()).unwrap();
    assert_eq!(t.tags, vec!["y".to_string()]);
    let t = remove_task_tag(&mut d, 1, "absent".into()).unwrap();
    assert_eq!(t.tags, vec!["y".to_string()]);
    assert_eq!(get_tasks_by_tag(&d.tasks, &"y".to_string()).len(), 1);
    assert!(get_tasks_by_tag(&d.tasks, &"x".to_string()).is_empty());
    assert_eq!(add_task_tag(&mut d, 8, "z".into()).unwrap_err(), StorageError::TaskNotFound(8));
}

#[test]
fn subtasks_comments_and_time() {
    let s = store();
    let mut d = RoadmapData::default();
    s.add_task(&mut d, "a".into(), "".into(), None).unwrap();
    add_task_subtask(&mut d, 1, "s1".into()).unwrap();
    let t = add_task_subtask(&mut d, 1, "s2".into()).unwrap();
    assert_eq!(t.subtasks.iter().map(|s| s.id).collect::<Vec<_>>(), vec![1, 2]);
    let t = toggle_task_subtask(&mut d, 1, 2).unwrap();
    assert!(!t.subtasks[0].completed);
    assert!(t.subtasks[1].completed);
    let t = add_task_comment(&mut d, 1, "hi".into(), "me".into()).unwrap();
    assert_eq!(t.comments[0].id, 1);
    assert_eq!(t.comments[0].author, "me");
    let t = add_task_time(&mut d, 1, 30).unwrap();
    assert_eq!(t.time_spent, 30);
    assert_eq!(add_task_time(&mut d, 1, u32::MAX).unwrap_err(), StorageError::TimeOverflow);
    let t = set_task_estimated_time(&mut d, 1, Some(90)).unwrap();
    assert_eq!(t.estimated_time, Some(90));
    let t = set_task_due_date(&mut d, 1, Some("2025-01-01".into())).unwrap();
    assert_eq!(t.due_date.as_deref(), Some("2025-01-01"));
    assert_eq!(get_tasks_by_due_date(&d.tasks, &"2025-01-01".to_string()).len(), 1);
    assert!(get_tasks_by_due_date(&d.tasks, &"2025-01-02".to_string()).is_empty());
}

#[test]
fn toggling_status_cycles() {
    let s = store();
    let mut d = RoadmapData::default();
    s.add_task(&mut d, "a".into(), "".into(), None).unwrap();
    assert_eq!(toggle_task_status(&mut d, 1).unwrap().status, TaskStatus::InProgress);
    assert_eq!(toggle_task_status(&mut d, 1).unwrap().status, TaskStatus::Done);
    assert_eq!(toggle_task_status(&mut d, 1).unwrap().status, TaskStatus::Todo);
    assert_eq!(toggle_task_status(&mut d, 2).unwrap_err(), StorageError::TaskNotFound(2));
}

#[test]
fn counts_and_percent() {
    let s = store();
    let mut d = RoadmapData::default();
    for name in ["a", "b", "c"] {
        s.add_task(&mut d, name.into(), "".into(), None).unwrap();
    }
    toggle_task_status(&mut d, 1).unwrap();
    toggle_task_status(&mut d, 1).unwrap();
    toggle_task_status(&mut d, 2).unwrap();
    let c = count_tasks(&d.tasks);
    assert_eq!((c.total, c.todo, c.in_progress, c.done), (3, 1, 1, 1));
    assert_eq!(c.done_percent(), 33);
    let empty = count_tasks(&vec![]);
    assert_eq!(empty.done_percent(), 0);
    let p = project_task_counts(&d, 2);
    assert_eq!(p.total, 0);
}

#[test]
fn project_update_replaces_given_fields() {
    let mut d = RoadmapData::default();
    let req = ProjectUpdateRequest { id: 1, name: Some("Main".into()), description: None, color: Some("red".into()), icon: None, settings: None };
    let p = update_project(&mut d, req).unwrap();
    assert_eq!(p.name, "Main");
    assert_eq!(p.color.as_deref(), Some("red"));
    assert_eq!(p.description, None);
    let req = ProjectUpdateRequest { id: 4, name: None, description: None, color: None, icon: None, settings: None };
    assert_eq!(update_project(&mut d, req).unwrap_err(), StorageError::ProjectNotFound(4));
}

#[test]
fn decimal_text() {
    assert_eq!(decimal_string(0), "0");
    assert_eq!(decimal_string(7), "7");
    assert_eq!(decimal_string(1203), "1203");
}

#[test]
fn merge_import_gives_fresh_ids() {
    let s = store();
    let mut live = RoadmapData::default();
    s.add_task(&mut live, "mine".into(), "".into(), None).unwrap();

    let mut incoming = empty_data();
    s.create_project(&mut incoming, "A".into(), "".into(), None, None).unwrap();
    s.create_project(&mut incoming, "B".into(), "".into(), None, None).unwrap();
    s.add_task(&mut incoming, "in A".into(), "".into(), None).unwrap();
    s.add_task(&mut incoming, "in B".into(), "".into(), None).unwrap();
    incoming.tasks[1].project_id = 2;
    let mut stray = Task::new(3, 77, "stray".into(), "".into());
    stray.project_id = 77;
    incoming.tasks.push(stray);

    let export = ExportData::new(incoming);
    assert_eq!(export.version, "0.2.1");
    let date = export.export_date.clone();
    let res = import_data(&mut live, ImportPayload::Export(export), true).unwrap();
    assert!(res.success);
    assert_eq!((res.imported_tasks, res.imported_projects), (3, 2));
    assert_eq!(res.message, "Successfully merged 3 tasks and 2 projects");
    assert_eq!(res.export_version, "0.2.1");
    assert_eq!(res.export_date, Some(date));
    assert_eq!(live.projects.iter().map(|p| p.id).collect::<Vec<_>>(), vec![1, 2, 3]);
    assert_eq!(live.projects[1].name, "A");
    assert_eq!(
        live.tasks.iter().map(|t| (t.id, t.project_id)).collect::<Vec<_>>(),
        vec![(1, 1), (2, 2), (3, 3), (4, 0)]
    );
}

#[test]
fn replace_import_and_refusals() {
    let s = store();
    let mut live = RoadmapData::default();
    let mut plain = empty_data();
    s.add_task(&mut plain, "x".into(), "".into(), None).unwrap();
    assert_eq!(
        import_data(&mut live, ImportPayload::Plain(plain), true).unwrap_err(),
        StorageError::MergeNotSupported
    );
    assert!(live.tasks.is_empty());
    let mut plain = empty_data();
    s.add_task(&mut plain, "x".into(), "".into(), None).unwrap();
    let res = import_data(&mut live, ImportPayload::Plain(plain), false).unwrap();
    assert_eq!(res.message, "Successfully imported legacy data: 1 tasks and 0 projects");
    assert_eq!(res.export_version, "legacy");
    assert_eq!(live.tasks.len(), 1);
    assert!(live.projects.is_empty());
    let res = import_data(&mut live, ImportPayload::Export(ExportData::new(RoadmapData::default())), false).unwrap();
    assert_eq!(res.message, "Successfully imported 0 tasks and 1 projects");
    assert!(live.tasks.is_empty());
    assert_eq!(import_data(&mut live, ImportPayload::Invalid, false).unwrap_err(), StorageError::InvalidImport);
}

#[test]
fn validation_reports_without_changing() {
    let v = validate_import_data(&ImportPayload::Export(ExportData::new(RoadmapData::default())));
    assert!(v.valid);
    assert_eq!(v.format_type, "export");
    assert_eq!(v.project_count, 1);
    let v = validate_import_data(&ImportPayload::Plain(RoadmapData::default()));
    assert!(v.valid);
    assert_eq!(v.format_type, "legacy");
    assert_eq!(v.version, "1.0.0");
    assert_eq!(v.warnings, vec!["Legacy data format detected. Some features may not be available.".to_string()]);
    let v = validate_import_data(&ImportPayload::Invalid);
    assert!(!v.valid);
    assert_eq!(v.version, "unknown");
    assert_eq!(v.errors, vec!["Invalid JSON format or unrecognized data structure".to_string()]);
}

#[test]
fn project_constructors() {
    let p = Project::new(3, "P".into());
    assert!(p.is_active);
    assert_eq!(p.task_count, 0);
    assert_eq!(p.created_at, p.updated_at);
    let mut p = Project::new_with_details(4, "Q".into(), "".into(), None, Some("*".into()));
    assert_eq!(p.description, None);
    p.toggle_active();
    assert!(!p.is_active);
    p.update_task_count(6);
    assert_eq!(p.task_count, 6);
}

#[test]
fn overdue_tasks_are_open_and_past_due() {
    let now = Timestamp { secs: 1_700_000_000, nanos: 0 };
    let mut past = Task::new(1, 1, "past".into(), "".into());
    past.due_date = Some("2020-01-01T00:00:00Z".into());
    let mut done = Task::new(2, 1, "done".into(), "".into());
    done.due_date = Some("2020-01-01T00:00:00Z".into());
    done.status = TaskStatus::Done;
    let mut future = Task::new(3, 1, "future".into(), "".into());
    future.due_date = Some("2099-01-01T00:00:00+00:00".into());
    let mut offset = Task::new(6, 1, "offset".into(), "".into());
    offset.due_date = Some("2023-11-14T23:13:10+01:00".into());
    let mut garbled = Task::new(4, 1, "garbled".into(), "".into());
    garbled.due_date = Some("soon".into());
    let none = Task::new(5, 1, "none".into(), "".into());
    let tasks = vec![past, done, future, garbled, none, offset];
    let overdue = get_overdue_tasks(&tasks, now);
    assert_eq!(overdue.iter().map(|t| t.id).collect::<Vec<_>>(), vec![1, 6]);
    // 22:13:20 UTC is exactly 1_700_000_000; one second later is not yet due.
    let mut edge = Task::new(7, 1, "edge".into(), "".into());
    edge.due_date = Some("2023-11-14T22:13:21Z".into());
    assert!(get_overdue_tasks(&vec![edge], now).is_empty());
    assert!(is_overdue(TaskStatus::Todo, Some(Timestamp { secs: 5, nanos: 0 }), Timestamp { secs: 5, nanos: 1 }));
    assert!(!is_overdue(TaskStatus::Todo, Some(Timestamp { secs: 5, nanos: 1 }), Timestamp { secs: 5, nanos: 1 }));
}

#[test]
fn all_tags_sorted_and_distinct() {
    let mut a = Task::new(1, 1, "a".into(), "".into());
    a.tags = vec!["work".into(), "home".into()];
    let mut b = Task::new(2, 1, "b".into(), "".into());
    b.tags = vec!["home".into(), "errand".into()];
    let tags = get_all_tags(&vec![a, b]);
    assert_eq!(tags, vec!["errand".to_string(), "home".to_string(), "work".to_string()]);
    assert!(get_all_tags(&vec![]).is_empty());
}

#[test]
fn id_exhaustion_is_reported_and_changes_nothing() {
    let s = store();
    let mut d = RoadmapData::default();
    d.projects[0].id = u32::MAX;
    assert_eq!(s.create_project(&mut d, "x".into(), "".into(), None, None).unwrap_err(), StorageError::IdsExhausted);
    assert_eq!(d.projects.len(), 1);
    s.add_task(&mut d, "a".into(), "".into(), None).unwrap();
    add_task_subtask(&mut d, 1, "s".into()).unwrap();
    d.tasks[0].subtasks[0].id = u32::MAX;
    assert_eq!(add_task_subtask(&mut d, 1, "t".into()).unwrap_err(), StorageError::IdsExhausted);
    add_task_comment(&mut d, 1, "c".into(), "me".into()).unwrap();
    d.tasks[0].comments[0].id = u32::MAX;
    assert_eq!(add_task_comment(&mut d, 1, "d".into(), "me".into()).unwrap_err(), StorageError::IdsExhausted);
    assert_eq!(d.tasks[0].subtasks.len(), 1);
    assert_eq!(d.tasks[0].comments.len(), 1);

    let mut live = RoadmapData::default();
    let incoming = RoadmapData::default();
    let res = import_data(&mut live, ImportPayload::Export(ExportData::new(incoming)), true);
    assert!(res.is_ok());
    assert_eq!(live.projects.iter().map(|p| p.id).collect::<Vec<_>>(), vec![1, 2]);
    live.projects[1].id = u32::MAX;
    let res = import_data(&mut live, ImportPayload::Export(ExportData::new(RoadmapData::default())), true);
    assert_eq!(res.unwrap_err(), StorageError::IdsExhausted);
    assert_eq!(live.projects.len(), 2);
}

#[test]
fn migration_attaches_dangling_tasks_and_resets_current() {
    let s = store();
    let mut d = empty_data();
    d.version = "0.9.0".into();
    d.projects.push(Project::new(4, "P".into()));
    d.projects.push(Project::new(5, "Q".into()));
    d.current_project_id = Some(9);
    d.tasks.push(Task::new(1, 0, "none".into(), "".into()));
    d.tasks.push(Task::new(2, 7, "dangling".into(), "".into()));
    d.tasks.push(Task::new(3, 5, "fine".into(), "".into()));
    assert!(s.migrate_data(&mut d));
    assert_eq!(d.current_project_id, Some(4));
    assert_eq!(d.tasks.iter().map(|t| t.project_id).collect::<Vec<_>>(), vec![4, 4, 5]);
}

#[test]
fn current_version_data_loads_unchanged() {
    let s = store();
    let mut d = RoadmapData::default();
    d.projects.push(Project::new(0, "Zero".into()));
    s.add_task(&mut d, "a".into(), "".into(), None).unwrap();
    let before = format!("{:?}", d);
    let (loaded, save) = s.load_data(StoredData::Current(d)).unwrap();
    assert!(!save);
    assert_eq!(format!("{:?}", loaded), before);
}

#[test]
fn zero_project_ids_are_renumbered_when_migrating() {
    let s = store();
    let mut d = RoadmapData::default();
    d.version = "0.9.0".into();
    d.projects.push(Project::new(0, "Zero".into()));
    d.projects.push(Project::new(7, "Seven".into()));
    let (loaded, save) = s.load_data(StoredData::Current(d)).unwrap();
    assert!(save);
    assert_eq!(loaded.version, "1.0.0");
    assert_eq!(loaded.projects.iter().map(|p| p.id).collect::<Vec<_>>(), vec![1, 8, 7]);
    assert_eq!(loaded.projects[1].name, "Zero");
    let (_, save) = s.load_data(StoredData::Current(loaded)).unwrap();
    assert!(!save);
}

#[test]
fn the_only_project_can_go_when_there_are_no_tasks() {
    let s = store();
    let mut d = RoadmapData::default();
    s.delete_project(&mut d, 1).unwrap();
    assert!(d.projects.is_empty());
    assert_eq!(d.current_project_id, None);
    let mut d = RoadmapData::default();
    assert_eq!(s.delete_project(&mut d, 2).unwrap_err(), StorageError::ProjectNotFound(2));
}

#[test]
fn deleted_project_is_named_by_no_task() {
    let s = store();
    let mut d = RoadmapData::default();
    s.create_project(&mut d, "Other".into(), "".into(), None, None).unwrap();
    s.add_task(&mut d, "a".into(), "".into(), None).unwrap();
    s.delete_project(&mut d, 1).unwrap();
    assert!(d.tasks.iter().all(|t| t.project_id != 1));
}
