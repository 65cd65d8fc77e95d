use ruidmap::roadmap::{Folder, Milestone, Priority, Roadmap, Status};
use ruidmap::roadmap_store::{migrate_old_roadmap, LoadError, OldRoadmap, Storage, StoredRoadmap};

fn milestone(title: &str) -> Milestone {
    Milestone::new(title.to_string(), String::new())
}

fn folder_with_id(name: &str, id: u128) -> Folder {
    let mut f = Folder::new(name.to_string(), String::new());
    f.id = id;
    f
}

#[test]
fn progress_follows_status_alone() {
    let mut m = milestone("a");
    m.priority = Priority::Critical;
    m.update_status(Status::NotStarted);
    assert_eq!(m.progress_percentage(), 0);
    m.update_status(Status::InProgress);
    assert_eq!(m.progress_percentage(), 50);
    m.update_status(Status::Completed);
    assert_eq!(m.progress_percentage(), 100);
    m.update_status(Status::Blocked);
    assert_eq!(m.progress_percentage(), 25);
}

#[test]
fn overall_progress_of_empty_roadmap_is_zero() {
    let r = Roadmap::new("T".to_string(), "D".to_string());
    assert_eq!(r.overall_progress(), 0);
    assert_eq!(r.progress_total(), 0);
}

#[test]
fn overall_progress_is_the_mean() {
    let mut r = Roadmap::new("T".to_string(), "D".to_string());
    let a = milestone("a");
    let b = milestone("b");
    let c = milestone("c");
    let (ida, idc) = (a.id, c.id);
    r.add_milestone(a);
    r.add_milestone(b);
    r.add_milestone(c);
    assert!(r.mark_milestone_completed(ida));
    assert!(r.update_milestone_status(idc, Status::Blocked));
    assert_eq!(r.progress_total(), 125);
    assert_eq!(r.overall_progress(), 41);
    assert_eq!(r.completed_count(), 1);
    assert_eq!(r.blocked_count(), 1);
    assert_eq!(r.pending_count(), 1);
    assert_eq!(r.in_progress_count(), 0);
}

#[test]
fn ship_v1_status_cycle() {
    let mut r = Roadmap::new("T".to_string(), "D".to_string());
    let m = milestone("Ship v1");
    let id = m.id;
    r.add_milestone(m);
    let i = r.find_milestone(id).unwrap();
    assert_eq!(r.milestones[i].status, Status::NotStarted);
    assert_eq!(r.milestones[i].progress_percentage(), 0);
    assert!(r.milestones[i].completed_at.is_none());

    assert!(r.advance_milestone_status(id));
    assert_eq!(r.milestones[i].status, Status::InProgress);
    assert!(r.milestones[i].completed_at.is_none());

    assert!(r.advance_milestone_status(id));
    assert_eq!(r.milestones[i].status, Status::Completed);
    assert!(r.milestones[i].completed_at.is_some());

    assert!(r.advance_milestone_status(id));
    assert_eq!(r.milestones[i].status, Status::Blocked);
    assert!(r.milestones[i].completed_at.is_none());

    assert!(r.advance_milestone_status(id));
    assert_eq!(r.milestones[i].status, Status::NotStarted);
}

#[test]
fn inbox_to_done_scenario() {
    let mut r = Roadmap::new("T".to_string(), "D".to_string());
    r.add_folder(folder_with_id("Inbox", 1));
    r.add_folder(folder_with_id("Done", 2));
    let x = milestone("X");
    let id = x.id;
    r.add_milestone(x);
    assert!(r.assign_milestone_to_folder(id, Some(1)));
    assert!(r.assign_milestone_to_folder(id, Some(2)));
    assert!(r.get_milestones_in_folder(Some(1)).is_empty());
    let in_done = r.get_milestones_in_folder(Some(2));
    assert_eq!(in_done.len(), 1);
    assert_eq!(in_done[0].id, id);
    assert_eq!(in_done[0].title, "X");
}

#[test]
fn reassigning_twice_lists_once() {
    let mut r = Roadmap::new("T".to_string(), "D".to_string());
    r.add_folder(folder_with_id("A", 10));
    r.add_folder(folder_with_id("B", 20));
    let m = milestone("m");
    let id = m.id;
    r.add_milestone(m);
    assert!(r.assign_milestone_to_folder(id, Some(10)));
    assert_eq!(r.folders[0].milestone_ids, vec![id]);
    assert!(r.assign_milestone_to_folder(id, Some(20)));
    assert!(r.assign_milestone_to_folder(id, Some(20)));
    assert!(r.folders[0].milestone_ids.is_empty());
    assert_eq!(r.folders[1].milestone_ids, vec![id]);
    assert_eq!(r.milestones[0].folder_id, Some(20));
}

#[test]
fn reassigning_to_missing_folder_changes_nothing() {
    let mut r = Roadmap::new("T".to_string(), "D".to_string());
    r.add_folder(folder_with_id("A", 10));
    let m = milestone("m");
    let id = m.id;
    r.add_milestone(m);
    assert!(!r.assign_milestone_to_folder(id, Some(99)));
    assert!(!r.assign_milestone_to_folder(id.wrapping_add(1), Some(10)));
    assert_eq!(r.milestones[0].folder_id, None);
    assert!(r.folders[0].milestone_ids.is_empty());
}

#[test]
fn removing_a_folder_detaches_its_milestones() {
    let mut r = Roadmap::new("T".to_string(), "D".to_string());
    r.add_folder(folder_with_id("A", 10));
    let a = milestone("a");
    let b = milestone("b");
    let (ida, idb) = (a.id, b.id);
    r.add_milestone(a);
    r.add_milestone(b);
    assert!(r.assign_milestone_to_folder(ida, Some(10)));
    assert!(r.assign_milestone_to_folder(idb, Some(10)));
    assert!(r.remove_folder(10));
    assert!(!r.remove_folder(10));
    assert!(r.folders.is_empty());
    assert_eq!(r.milestones.len(), 2);
    assert!(r.milestones.iter().all(|m| m.folder_id.is_none()));
    assert_eq!(r.get_unorganized_milestones().len(), 2);
}

#[test]
fn removing_a_milestone_scrubs_folder_lists() {
    let mut r = Roadmap::new("T".to_string(), "D".to_string());
    r.add_folder(folder_with_id("A", 10));
    let a = milestone("a");
    let b = milestone("b");
    let (ida, idb) = (a.id, b.id);
    r.add_milestone(a);
    r.add_milestone(b);
    assert!(r.assign_milestone_to_folder(ida, Some(10)));
    assert!(r.assign_milestone_to_folder(idb, Some(10)));
    assert!(r.remove_milestone(ida));
    assert_eq!(r.milestones.len(), 1);
    assert_eq!(r.milestones[0].id, idb);
    assert_eq!(r.folders[0].milestone_ids, vec![idb]);
    assert!(!r.remove_milestone(ida));
    assert_eq!(r.milestones.len(), 1);
}

#[test]
fn folder_add_milestone_is_idempotent() {
    let mut f = Folder::new("F".to_string(), String::new());
    f.add_milestone(7);
    f.add_milestone(7);
    f.add_milestone(8);
    assert_eq!(f.milestone_ids, vec![7, 8]);
    f.remove_milestone(7);
    assert_eq!(f.milestone_ids, vec![8]);
    assert!(f.expanded);
    f.toggle_expanded();
    assert!(!f.expanded);
}

#[test]
fn priority_and_status_labels() {
    assert_eq!(Priority::Low.as_str(), "Low");
    assert_eq!(Priority::Critical.as_str(), "Critical");
    assert_eq!(Status::NotStarted.as_str(), "Not Started");
    assert_eq!(Status::InProgress.as_str(), "In Progress");
    assert_eq!(Status::Completed.icon(), "\u{2705}");
    assert_eq!(Status::Blocked.icon(), "\u{1f6ab}");
    assert_eq!(Priority::Critical.next(), Priority::Low);
}

#[test]
fn cycling_priority_and_renaming() {
    let mut r = Roadmap::new("T".to_string(), "D".to_string());
    let m = milestone("old");
    let id = m.id;
    r.add_milestone(m);
    assert!(r.cycle_milestone_priority(id));
    assert_eq!(r.milestones[0].priority, Priority::High);
    assert!(r.rename_milestone(id, "new".to_string()));
    assert_eq!(r.milestones[0].title, "new");
    assert!(!r.rename_folder(5, "x".to_string()));
}

#[test]
fn legacy_roadmap_gets_no_folders() {
    let mut m = milestone("M");
    m.folder_id = Some(42);
    let t = m.created_at;
    let old = OldRoadmap {
        title: "T".to_string(),
        description: "D".to_string(),
        milestones: vec![m],
        created_at: t,
        updated_at: t,
    };
    let r = migrate_old_roadmap(old);
    assert_eq!(r.version, "1.0.0");
    assert_eq!(r.title, "T");
    assert_eq!(r.description, "D");
    assert!(r.folders.is_empty());
    assert_eq!(r.milestones.len(), 1);
    assert_eq!(r.milestones[0].folder_id, None);
}

#[test]
fn loading_decides_what_to_write_back() {
    let s = Storage::new("data/roadmap.json".to_string());
    assert_eq!(s.file_path(), "data/roadmap.json");
    assert_eq!(s.backup_path(), "data/roadmap.json.backup");

    let (fresh, save) = s.load_roadmap(StoredRoadmap::Absent).unwrap();
    assert!(save);
    assert_eq!(fresh.title, "My Learning Roadmap");
    assert_eq!(fresh.description, "A journey of continuous learning and growth");
    assert!(fresh.milestones.is_empty());

    let current = Roadmap::new("T".to_string(), "D".to_string());
    let (same, save) = s.load_roadmap(StoredRoadmap::Current(current)).unwrap();
    assert!(!save);
    assert_eq!(same.title, "T");

    let old = OldRoadmap {
        title: "T".to_string(),
        description: "D".to_string(),
        milestones: vec![],
        created_at: fresh.created_at,
        updated_at: fresh.created_at,
    };
    let (migrated, save) = s.load_roadmap(StoredRoadmap::Old(old)).unwrap();
    assert!(save);
    assert!(migrated.folders.is_empty());
    assert_eq!(migrated.version, "1.0.0");
    // A migrated roadmap is current: loading it again asks for no write.
    let (_, save) = s.load_roadmap(StoredRoadmap::Current(migrated)).unwrap();
    assert!(!save);

    let err = s.load_roadmap(StoredRoadmap::Unreadable("bad".to_string())).unwrap_err();
    assert_eq!(err, LoadError::Corrupt("bad".to_string()));
}

#[test]
fn file_after_a_folder_move_loads_and_is_repaired() {
    // Folder A still lists the milestone after it moved to folder B.
    let mut m = milestone("moved");
    m.folder_id = Some(2);
    let id = m.id;
    let mut a = folder_with_id("A", 1);
    a.milestone_ids = vec![id];
    let mut b = folder_with_id("B", 2);
    b.milestone_ids = vec![id];
    let mut done = milestone("done");
    done.status = Status::Completed;
    let mut stray = milestone("stray");
    stray.folder_id = Some(99);
    let mut r = Roadmap::new("T".to_string(), "D".to_string());
    r.milestones = vec![m, done, stray];
    r.folders = vec![a, b];
    assert!(!r.is_consistent());
    let s = Storage::new("x.json".to_string());
    let (fixed, save) = s.load_roadmap(StoredRoadmap::Current(r)).unwrap();
    assert!(save);
    assert!(fixed.is_consistent());
    assert_eq!(fixed.milestones.len(), 3);
    assert!(fixed.folders[0].milestone_ids.is_empty());
    assert_eq!(fixed.folders[1].milestone_ids, vec![id]);
    assert!(fixed.milestones[1].completed_at.is_some());
    assert_eq!(fixed.milestones[2].folder_id, None);
    // Loading the repaired roadmap again writes nothing.
    let (_, save) = s.load_roadmap(StoredRoadmap::Current(fixed)).unwrap();
    assert!(!save);
}

#[test]
fn unversioned_file_gets_the_current_version() {
    let mut r = Roadmap::new("T".to_string(), "D".to_string());
    r.version = String::new();
    let s = Storage::new("x.json".to_string());
    let (m, save) = s.load_roadmap(StoredRoadmap::Current(r)).unwrap();
    assert!(save);
    assert_eq!(m.version, "1.0.0");
    let (_, save) = s.load_roadmap(StoredRoadmap::Current(m)).unwrap();
    assert!(!save);
}

#[test]
fn update_times_never_go_back() {
    let mut m = milestone("m");
    let far = ruidmap::clock::Timestamp { secs: 4_000_000_000, nanos: 5 };
    m.updated_at = far;
    m.update_status(Status::Completed);
    assert_eq!(m.updated_at, far);
    assert_eq!(m.completed_at, Some(far));
    let mut f = Folder::new("F".to_string(), String::new());
    f.updated_at = far;
    f.toggle_expanded();
    assert_eq!(f.updated_at, far);
}
