//! What the task store decides and computes between reading the data file
//! and writing it back: each operation takes the data as loaded and changes
//! it in place; the caller reads and writes the file around it.
use vstd::prelude::*;
use crate::tasks::{
    keys_distinct, lemma_filter_keeps_keys_distinct, project_key, task_key,
    clone_projects, clone_tasks, or_keep, projects_view, tasks_view,
    Attachment, Comment, Project, ProjectView, RoadmapData, RoadmapDataView, Subtask, Task,
    TaskPriority, TaskStatus, TaskView, CURRENT_VERSION,
};

verus! {

/// Why a store operation did not go through.
#[derive(Debug, PartialEq, Eq)]
pub enum StorageError {
    TaskNotFound(u32),
    ProjectNotFound(u32),
    /// The only project left cannot be deleted.
    LastProject,
    /// Every id of that kind is in use.
    IdsExhausted,
    /// The time spent on a task would pass the largest number of minutes.
    TimeOverflow,
    /// The file exists but matches no known layout; the parser's message.
    CorruptData(String),
    /// Merging was asked for data that has no export envelope.
    MergeNotSupported,
    /// The content is neither an export nor data of a known layout.
    InvalidImport,
}

/// A task as files written before projects existed hold it.
#[derive(Debug)]
pub struct LegacyTask {
    pub id: u32,
    pub title: String,
    pub description: String,
    pub status: TaskStatus,
    pub priority: TaskPriority,
    pub created_at: String,
    pub updated_at: String,
    pub due_date: Option<String>,
    pub tags: Vec<String>,
    pub subtasks: Vec<Subtask>,
    pub comments: Vec<Comment>,
    pub time_spent: u32,
    pub estimated_time: Option<u32>,
    pub attachments: Vec<Attachment>,
}

/// The root record of files written before projects existed.
#[derive(Debug)]
pub struct LegacyRoadmapData {
    pub tasks: Vec<LegacyTask>,
    pub theme: Option<String>,
    pub version: Option<String>,
}

/// What was found at the data file's path.
#[derive(Debug)]
pub enum StoredData {
    /// No file there.
    Absent,
    /// The file parses as the current layout.
    Current(RoadmapData),
    /// The file parses only as the layout without projects.
    Legacy(LegacyRoadmapData),
    /// The file parses as neither; the parser's message.
    Unreadable(String),
}

/// The largest task id, or 0 when there are no tasks.
pub open spec fn max_task_id(s: Seq<TaskView>) -> nat
    decreases s.len(),
{
    if s.len() == 0 {
        0
    } else {
        let rest = max_task_id(s.drop_last());
        if s.last().id > rest { s.last().id as nat } else { rest }
    }
}

/// The largest project id, or 0 when there are no projects.
pub open spec fn max_project_id(s: Seq<ProjectView>) -> nat
    decreases s.len(),
{
    if s.len() == 0 {
        0
    } else {
        let rest = max_project_id(s.drop_last());
        if s.last().id > rest { s.last().id as nat } else { rest }
    }
}

pub proof fn lemma_max_task_id_bound(s: Seq<TaskView>)
    ensures
        max_task_id(s) <= u32::MAX,
        forall|i: int| 0 <= i < s.len() ==> (#[trigger] s[i]).id <= max_task_id(s),
    decreases s.len(),
{
    if s.len() > 0 {
        lemma_max_task_id_bound(s.drop_last());
        assert forall|i: int| 0 <= i < s.len() implies (#[trigger] s[i]).id <= max_task_id(s) by {
            if i < s.len() - 1 {
                assert(s.drop_last()[i] == s[i]);
            }
        }
    }
}

pub proof fn lemma_max_project_id_bound(s: Seq<ProjectView>)
    ensures
        max_project_id(s) <= u32::MAX,
        forall|i: int| 0 <= i < s.len() ==> (#[trigger] s[i]).id <= max_project_id(s),
    decreases s.len(),
{
    if s.len() > 0 {
        lemma_max_project_id_bound(s.drop_last());
        assert forall|i: int| 0 <= i < s.len() implies (#[trigger] s[i]).id <= max_project_id(s) by {
            if i < s.len() - 1 {
                assert(s.drop_last()[i] == s[i]);
            }
        }
    }
}

/// Index `i` holds the first task with this id.
pub open spec fn first_task(s: Seq<TaskView>, id: u32, i: int) -> bool {
    0 <= i < s.len() && s[i].id == id && forall|j: int| 0 <= j < i ==> (#[trigger] s[j]).id != id
}

pub open spec fn has_task(s: Seq<TaskView>, id: u32) -> bool {
    exists|i: int| 0 <= i < s.len() && (#[trigger] s[i]).id == id
}

/// Index `i` holds the first project with this id.
pub open spec fn first_project(s: Seq<ProjectView>, id: u32, i: int) -> bool {
    0 <= i < s.len() && s[i].id == id && forall|j: int| 0 <= j < i ==> (#[trigger] s[j]).id != id
}

pub open spec fn has_project(s: Seq<ProjectView>, id: u32) -> bool {
    exists|i: int| 0 <= i < s.len() && (#[trigger] s[i]).id == id
}

/// The index of the first task with this id.
pub fn find_task(data: &RoadmapData, id: u32) -> (r: Option<usize>)
    ensures
        match r {
            Some(i) => first_task(data@.tasks, id, i as int),
            None => !has_task(data@.tasks, id),
        },
{
    let mut i: usize = 0;
    while i < data.tasks.len()
        invariant
            0 <= i <= data.tasks.len(),
            forall|j: int| 0 <= j < i ==> (#[trigger] data@.tasks[j]).id != id,
        decreases data.tasks.len() - i,
    {
        assert(data@.tasks[i as int] == data.tasks@[i as int]@);
        if data.tasks[i].id == id {
            return Some(i);
        }
        i += 1;
    }
    None
}

/// The index of the first project with this id.
pub fn find_project(data: &RoadmapData, id: u32) -> (r: Option<usize>)
    ensures
        match r {
            Some(i) => first_project(data@.projects, id, i as int),
            None => !has_project(data@.projects, id),
        },
{
    let mut i: usize = 0;
    while i < data.projects.len()
        invariant
            0 <= i <= data.projects.len(),
            forall|j: int| 0 <= j < i ==> (#[trigger] data@.projects[j]).id != id,
        decreases data.projects.len() - i,
    {
        assert(data@.projects[i as int] == data.projects@[i as int]@);
        if data.projects[i].id == id {
            return Some(i);
        }
        i += 1;
    }
    None
}

/// One more than the largest task id, unless that would not fit.
pub fn next_task_id(tasks: &Vec<Task>) -> (r: Option<u32>)
    ensures
        max_task_id(tasks_view(tasks@)) < u32::MAX ==> r == Some((max_task_id(tasks_view(tasks@)) + 1) as u32),
        max_task_id(tasks_view(tasks@)) >= u32::MAX ==> r is None,
{
    let ghost s = tasks_view(tasks@);
    let mut best: u32 = 0;
    let mut i: usize = 0;
    while i < tasks.len()
        invariant
            0 <= i <= tasks.len(),
            s == tasks_view(tasks@),
            best == max_task_id(s.take(i as int)),
        decreases tasks.len() - i,
    {
        assert(s.take(i as int + 1).drop_last() =~= s.take(i as int));
        assert(s[i as int] == tasks@[i as int]@);
        if tasks[i].id > best {
            best = tasks[i].id;
        }
        i += 1;
    }
    assert(s.take(s.len() as int) =~= s);
    best.checked_add(1)
}

/// One more than the largest project id, unless that would not fit.
pub fn next_project_id(projects: &Vec<Project>) -> (r: Option<u32>)
    ensures
        max_project_id(projects_view(projects@)) < u32::MAX ==> r == Some(
            (max_project_id(projects_view(projects@)) + 1) as u32,
        ),
        max_project_id(projects_view(projects@)) >= u32::MAX ==> r is None,
{
    let ghost s = projects_view(projects@);
    let mut best: u32 = 0;
    let mut i: usize = 0;
    while i < projects.len()
        invariant
            0 <= i <= projects.len(),
            s == projects_view(projects@),
            best == max_project_id(s.take(i as int)),
        decreases projects.len() - i,
    {
        assert(s.take(i as int + 1).drop_last() =~= s.take(i as int));
        assert(s[i as int] == projects@[i as int]@);
        if projects[i].id > best {
            best = projects[i].id;
        }
        i += 1;
    }
    assert(s.take(s.len() as int) =~= s);
    best.checked_add(1)
}

/// The tasks that pass `task_selected`, in stored order.
pub fn filter_tasks(v: &Vec<Task>, status: Option<TaskStatus>, project_id: Option<u32>) -> (r: Vec<Task>)
    ensures
        tasks_view(r@) == tasks_view(v@).filter(|t: TaskView| task_selected(t, status, project_id)),
{
    let ghost s = tasks_view(v@);
    let ghost pred = |t: TaskView| task_selected(t, status, project_id);
    let mut out: Vec<Task> = Vec::new();
    let mut i: usize = 0;
    while i < v.len()
        invariant
            0 <= i <= v.len(),
            s == tasks_view(v@),
            pred == (|t: TaskView| task_selected(t, status, project_id)),
            tasks_view(out@) == s.take(i as int).filter(pred),
        decreases v.len() - i,
    {
        proof {
            assert(s.take(i as int + 1) =~= s.take(i as int).push(s[i as int]));
            s.take(i as int).lemma_filter_push(s[i as int], pred);
            assert(s[i as int] == v@[i as int]@);
        }
        let keep = match status {
            Some(st) => v[i].status == st,
            None => true,
        } && match project_id {
            Some(p) => v[i].project_id == p,
            None => true,
        };
        if keep {
            let c = v[i].clone();
            let ghost before = out@;
            out.push(c);
            assert(tasks_view(out@) =~= tasks_view(before).push(c@));
        }
        i += 1;
    }
    assert(s.take(s.len() as int) =~= s);
    out
}

/// A task passes when it has the status asked for (if any) and belongs to
/// the project asked for (if any).
pub open spec fn task_selected(t: TaskView, status: Option<TaskStatus>, project_id: Option<u32>) -> bool {
    &&& (status matches Some(s) ==> t.status == s)
    &&& (project_id matches Some(p) ==> t.project_id == p)
}

/// `n` is task `t` after project `pid` was deleted: a member of it is
/// detached (project id 0), any other task is unchanged.
pub open spec fn detached_task(t: TaskView, n: TaskView, pid: u32) -> bool {
    if t.project_id == pid {
        n == TaskView { project_id: 0, updated_at: n.updated_at, ..t }
    } else {
        n == t
    }
}

/// The current project after project `pid` was deleted and `rest` remain.
pub open spec fn current_after_delete(current: Option<u32>, pid: u32, rest: Seq<ProjectView>) -> Option<u32> {
    if current == Some(pid) {
        if rest.len() > 0 { Some(rest[0].id) } else { None }
    } else {
        current
    }
}

/// The current project after migration: project 1 when there was no
/// project; otherwise the current one, reset to the first project when it
/// names none.
pub open spec fn migrated_current(a: RoadmapDataView) -> Option<u32> {
    if a.projects.len() == 0 {
        Some(1u32)
    } else if a.current_project_id matches Some(c) && !has_project(a.projects, c) {
        Some(a.projects[0].id)
    } else {
        a.current_project_id
    }
}

/// Where migration puts a task that has no project or names a missing one:
/// the current project, or the first project when none is current.
pub open spec fn home_project(current: Option<u32>, projects: Seq<ProjectView>) -> u32 {
    match current {
        Some(c) => c,
        None => projects[0].id,
    }
}

/// `b` is what migrating `a` gives. Data at the current version is left as
/// it is. Older data gets a default project 1, made current, when it has no
/// project; a current project that names none is reset to the first project;
/// every task without a project (id 0) or naming a missing one goes to the
/// current project (the first one when none is current); and the version
/// becomes the current one.
pub open spec fn migrated(a: RoadmapDataView, b: RoadmapDataView) -> bool {
    if a.version == CURRENT_VERSION@ {
        b == a
    } else {
        &&& if a.projects.len() == 0 {
            &&& b.projects.len() == 1
            &&& b.projects[0].is_fresh(1, b.projects[0].name, None, None, None)
            &&& b.projects[0].name@ == "Default Project"@
        } else {
            b.projects == a.projects
        }
        &&& b.current_project_id == migrated_current(a)
        &&& b.tasks.len() == a.tasks.len()
        &&& forall|i: int| 0 <= i < a.tasks.len() ==> (#[trigger] b.tasks[i]) == if a.tasks[i].project_id == 0
            || !has_project(b.projects, a.tasks[i].project_id) {
            TaskView { project_id: home_project(b.current_project_id, b.projects), ..a.tasks[i] }
        } else {
            a.tasks[i]
        }
        &&& b.theme == a.theme
        &&& b.version == CURRENT_VERSION@
    }
}

/// After migrating data of an older version every task names an existing
/// project, and the current project, if any, is one of the projects.
pub proof fn lemma_migrated_references(a: RoadmapDataView, b: RoadmapDataView)
    requires
        migrated(a, b),
        a.version != CURRENT_VERSION@,
    ensures
        b.projects.len() > 0,
        forall|i: int| 0 <= i < b.tasks.len() ==> has_project(b.projects, (#[trigger] b.tasks[i]).project_id),
        b.current_valid(),
{
    assert(b.projects.len() > 0);
    if a.projects.len() == 0 {
        assert(b.projects[0].id == 1);
    }
    if let Some(c) = b.current_project_id {
        if a.projects.len() > 0 && a.current_project_id is Some && !has_project(a.projects, a.current_project_id->0) {
            assert(b.projects[0].id == c);
        }
        assert(has_project(b.projects, c));
    }
    let h = home_project(b.current_project_id, b.projects);
    assert(has_project(b.projects, h)) by {
        if b.current_project_id is None {
            assert(b.projects[0].id == h);
        }
    }
    assert forall|i: int| 0 <= i < b.tasks.len() implies has_project(b.projects, (#[trigger] b.tasks[i]).project_id) by {
        let t = a.tasks[i];
        if t.project_id == 0 || !has_project(b.projects, t.project_id) {
            assert(b.tasks[i].project_id == h);
        }
    }
}

/// `b` is `a` with projects stored with id 0 given fresh ids above every
/// id in use (or left at 0 when the ids run out); nothing else differs.
pub open spec fn renumbered(a: RoadmapDataView, b: RoadmapDataView) -> bool {
    &&& b.tasks == a.tasks
    &&& b.current_project_id == a.current_project_id
    &&& b.theme == a.theme
    &&& b.version == a.version
    &&& b.projects.len() == a.projects.len()
    &&& forall|k: int|
        0 <= k < a.projects.len() ==> (#[trigger] b.projects[k]) == (ProjectView { id: b.projects[k].id, ..a.projects[k] })
    &&& forall|k: int| 0 <= k < a.projects.len() && a.projects[k].id != 0 ==> (#[trigger] b.projects[k]).id == a.projects[k].id
    &&& forall|k: int|
        0 <= k < a.projects.len() && a.projects[k].id == 0 ==> (#[trigger] b.projects[k]).id == 0 || b.projects[k].id
            > max_project_id(a.projects)
    &&& max_project_id(a.projects) + a.projects.len() <= u32::MAX ==> b.projects_nonzero()
    &&& a.ids_unique() ==> b.ids_unique()
}

/// Data that loading migrated is at the current version, so loading it
/// again takes it as it is and writes nothing.
pub proof fn lemma_loaded_is_current(d0: RoadmapDataView, m: RoadmapDataView, d: RoadmapDataView)
    requires
        d0.version != CURRENT_VERSION@,
        migrated(d0, m),
        renumbered(m, d),
    ensures
        d.version == CURRENT_VERSION@,
{
}

/// Migration is idempotent: migrating data that was just migrated leaves it
/// as it is, so a second load finds nothing to rewrite.
pub proof fn lemma_migration_idempotent(a: RoadmapDataView, b: RoadmapDataView, c: RoadmapDataView)
    requires
        migrated(a, b),
        migrated(b, c),
    ensures
        c == b,
        b.version == CURRENT_VERSION@,
{
}

/// A task of a file without projects, placed in project 1.
pub open spec fn from_legacy(t: LegacyTask) -> TaskView {
    TaskView {
        id: t.id,
        project_id: 1,
        title: t.title,
        description: t.description,
        status: t.status,
        priority: t.priority,
        created_at: t.created_at,
        updated_at: t.updated_at,
        due_date: t.due_date,
        tags: t.tags@,
        subtasks: t.subtasks@,
        comments: t.comments@,
        time_spent: t.time_spent,
        estimated_time: t.estimated_time,
        attachments: t.attachments@,
    }
}

/// Putting a task with the same id in place of another keeps ids unique.
pub proof fn lemma_replace_task_keeps_ids_unique(d: RoadmapDataView, i: int, t: TaskView)
    requires
        d.ids_unique(),
        0 <= i < d.tasks.len(),
        t.id == d.tasks[i].id,
    ensures
        (RoadmapDataView { tasks: d.tasks.update(i, t), ..d }).ids_unique(),
{
    let n = d.tasks.update(i, t);
    assert forall|a: int, b: int| 0 <= a < b < n.len() implies (task_key())(#[trigger] n[a]) != (task_key())(#[trigger] n[b]) by {
        assert((task_key())(d.tasks[a]) != (task_key())(d.tasks[b]));
    }
}

/// Putting a project with the same id in place of another keeps ids unique.
pub proof fn lemma_replace_project_keeps_ids_unique(d: RoadmapDataView, i: int, p: ProjectView)
    requires
        d.ids_unique(),
        0 <= i < d.projects.len(),
        p.id == d.projects[i].id,
    ensures
        (RoadmapDataView { projects: d.projects.update(i, p), ..d }).ids_unique(),
{
    let n = d.projects.update(i, p);
    assert forall|a: int, b: int| 0 <= a < b < n.len() implies (project_key())(#[trigger] n[a]) != (project_key())(#[trigger] n[b]) by {
        assert((project_key())(d.projects[a]) != (project_key())(d.projects[b]));
    }
}

/// Where the data file lives; nothing else is kept between operations.
#[derive(Debug)]
pub struct Storage {
    data_file_path: String,
}

impl Storage {
    pub closed spec fn path(&self) -> Seq<char> {
        self.data_file_path@
    }

    /// A store for `roadmap.json` in the working directory.
    pub fn new() -> (r: Result<Storage, StorageError>)
        ensures
            r matches Ok(s) && s.path() == "roadmap.json"@,
    {
        Ok(Storage { data_file_path: "roadmap.json".to_owned() })
    }

    pub fn new_with_path(file_path: String) -> (r: Storage)
        ensures
            r.path() == file_path@,
    {
        Storage { data_file_path: file_path }
    }

    pub fn get_data_file_path(&self) -> (r: &str)
        ensures
            r@ == self.path(),
    {
        self.data_file_path.as_str()
    }

    pub fn get_tasks(&self, data: &RoadmapData) -> (r: Vec<Task>)
        ensures
            tasks_view(r@) == data@.tasks,
    {
        clone_tasks(&data.tasks)
    }

    /// Adds a task to the current project (project 1 when none is current),
    /// with an id one more than the largest in use.
    pub fn add_task(
        &self,
        data: &mut RoadmapData,
        title: String,
        description: String,
        priority: Option<TaskPriority>,
    ) -> (r: Result<Task, StorageError>)
        ensures
            old(data)@.ids_unique() ==> final(data)@.ids_unique(),
            r is Err ==> r == Err::<Task, StorageError>(StorageError::IdsExhausted),
            max_task_id(old(data)@.tasks) >= u32::MAX <==> r == Err::<Task, StorageError>(StorageError::IdsExhausted),
            r is Err ==> final(data)@ == old(data)@,
            r matches Ok(t) ==> {
                &&& t.id == max_task_id(old(data)@.tasks) + 1
                &&& t.project_id == or_keep(old(data)@.current_project_id, 1u32)
                &&& t.title == title
                &&& t.description == description
                &&& t.status == TaskStatus::Todo
                &&& t.priority == or_keep(priority, TaskPriority::Medium)
                &&& t.due_date is None
                &&& t.tags@.len() == 0 && t.subtasks@.len() == 0 && t.comments@.len() == 0
                &&& t.attachments@.len() == 0
                &&& t.time_spent == 0 && t.estimated_time is None
                &&& final(data)@ == (RoadmapDataView { tasks: old(data)@.tasks.push(t@), ..old(data)@ })
            },
    {
        let project_id = match data.current_project_id {
            Some(p) => p,
            None => 1,
        };
        let new_id = match next_task_id(&data.tasks) {
            Some(n) => n,
            None => return Err(StorageError::IdsExhausted),
        };
        let mut task = Task::new(new_id, project_id, title, description);
        if let Some(p) = priority {
            task.update_priority(p);
        }
        let out = task.clone();
        let ghost before = data.tasks@;
        data.tasks.push(task);
        assert(tasks_view(data.tasks@) =~= tasks_view(before).push(out@));
        proof {
            lemma_max_task_id_bound(old(data)@.tasks);
            let n = data@.tasks;
            assert(n == old(data)@.tasks.push(out@));
            if old(data)@.ids_unique() {
                assert forall|a: int, b: int| 0 <= a < b < n.len() implies (task_key())(#[trigger] n[a]) != (task_key())(#[trigger] n[b]) by {
                    assert(n[a] == old(data)@.tasks.push(out@)[a]);
                    assert(n[b] == old(data)@.tasks.push(out@)[b]);
                    if b < n.len() - 1 {
                        assert((task_key())(old(data)@.tasks[a]) != (task_key())(old(data)@.tasks[b]));
                    } else {
                        assert(old(data)@.tasks[a].id <= max_task_id(old(data)@.tasks));
                    }
                }
            }
        }
        Ok(out)
    }

    /// Updates the first task with this id: title and description when both
    /// are given, status and priority when given.
    pub fn update_task(
        &self,
        data: &mut RoadmapData,
        id: u32,
        title: Option<String>,
        description: Option<String>,
        status: Option<TaskStatus>,
        priority: Option<TaskPriority>,
    ) -> (r: Result<Task, StorageError>)
        ensures
            old(data)@.ids_unique() ==> final(data)@.ids_unique(),
            r is Err ==> r == Err::<Task, StorageError>(StorageError::TaskNotFound(id)),
            !has_task(old(data)@.tasks, id) <==> r == Err::<Task, StorageError>(StorageError::TaskNotFound(id)),
            r is Err ==> final(data)@ == old(data)@,
            r matches Ok(t) ==> exists|i: int| {
                &&& first_task(old(data)@.tasks, id, i)
                &&& t@ == (TaskView {
                    title: if title is Some && description is Some { title->0 } else { old(data)@.tasks[i].title },
                    description: if title is Some && description is Some {
                        description->0
                    } else {
                        old(data)@.tasks[i].description
                    },
                    status: or_keep(status, old(data)@.tasks[i].status),
                    priority: or_keep(priority, old(data)@.tasks[i].priority),
                    updated_at: t.updated_at,
                    ..old(data)@.tasks[i]
                })
                &&& final(data)@ == (RoadmapDataView { tasks: old(data)@.tasks.update(i, t@), ..old(data)@ })
            },
    {
        let i = match find_task(data, id) {
            Some(i) => i,
            None => return Err(StorageError::TaskNotFound(id)),
        };
        assert(data@.tasks[i as int] == data.tasks@[i as int]@);
        let mut task = data.tasks[i].clone();
        match (title, description) {
            (Some(t), Some(d)) => task.update_content(t, d),
            _ => {},
        }
        if let Some(s) = status {
            task.update_status(s);
        }
        if let Some(p) = priority {
            task.update_priority(p);
        }
        let out = task.clone();
        let ghost before = data.tasks@;
        data.tasks.set(i, task);
        assert(tasks_view(data.tasks@) =~= tasks_view(before).update(i as int, out@));
        proof {
            if old(data)@.ids_unique() {
                lemma_replace_task_keeps_ids_unique(old(data)@, i as int, out@);
            }
        }
        Ok(out)
    }

    /// Deletes every task with this id.
    pub fn delete_task(&self, data: &mut RoadmapData, id: u32) -> (r: Result<(), StorageError>)
        ensures
            old(data)@.ids_unique() ==> final(data)@.ids_unique(),
            r is Err ==> r == Err::<(), StorageError>(StorageError::TaskNotFound(id)),
            !has_task(old(data)@.tasks, id) <==> r == Err::<(), StorageError>(StorageError::TaskNotFound(id)),
            r is Err ==> final(data)@ == old(data)@,
            r is Ok ==> final(data)@ == (RoadmapDataView {
                tasks: old(data)@.tasks.filter(|t: TaskView| t.id != id),
                ..old(data)@
            }),
    {
        if find_task(data, id).is_none() {
            return Err(StorageError::TaskNotFound(id));
        }
        let ghost s = data@.tasks;
        let ghost pred = |t: TaskView| t.id != id;
        let mut kept: Vec<Task> = Vec::new();
        let mut i: usize = 0;
        while i < data.tasks.len()
            invariant
                0 <= i <= data.tasks.len(),
                s == data@.tasks,
                data@ == old(data)@,
                pred == (|t: TaskView| t.id != id),
                tasks_view(kept@) == s.take(i as int).filter(pred),
            decreases data.tasks.len() - i,
        {
            proof {
                assert(s.take(i as int + 1) =~= s.take(i as int).push(s[i as int]));
                s.take(i as int).lemma_filter_push(s[i as int], pred);
                assert(s[i as int] == data.tasks@[i as int]@);
            }
            if data.tasks[i].id != id {
                let c = data.tasks[i].clone();
                let ghost before = kept@;
                kept.push(c);
                assert(tasks_view(kept@) =~= tasks_view(before).push(c@));
            }
            i += 1;
        }
        assert(s.take(s.len() as int) =~= s);
        data.tasks = kept;
        proof {
            if old(data)@.ids_unique() {
                lemma_filter_keeps_keys_distinct(s, pred, task_key());
            }
        }
        Ok(())
    }

    pub fn get_task_by_id(&self, data: &RoadmapData, id: u32) -> (r: Result<Task, StorageError>)
        ensures
            r is Err ==> r == Err::<Task, StorageError>(StorageError::TaskNotFound(id)),
            !has_task(data@.tasks, id) <==> r == Err::<Task, StorageError>(StorageError::TaskNotFound(id)),
            r matches Ok(t) ==> exists|i: int| first_task(data@.tasks, id, i) && t@ == data@.tasks[i],
    {
        match find_task(data, id) {
            Some(i) => {
                assert(data@.tasks[i as int] == data.tasks@[i as int]@);
                Ok(data.tasks[i].clone())
            },
            None => Err(StorageError::TaskNotFound(id)),
        }
    }

    pub fn get_tasks_by_status(&self, data: &RoadmapData, status: TaskStatus) -> (r: Vec<Task>)
        ensures
            tasks_view(r@) == data@.tasks.filter(|t: TaskView| t.status == status),
    {
        let r = filter_tasks(&data.tasks, Some(status), None);
        assert((|t: TaskView| task_selected(t, Some(status), None)) =~= (|t: TaskView| t.status == status));
        r
    }

    pub fn get_tasks_by_project(&self, data: &RoadmapData, project_id: u32) -> (r: Vec<Task>)
        ensures
            tasks_view(r@) == data@.tasks.filter(|t: TaskView| t.project_id == project_id),
    {
        let r = filter_tasks(&data.tasks, None, Some(project_id));
        assert((|t: TaskView| task_selected(t, None, Some(project_id))) =~= (|t: TaskView| t.project_id == project_id));
        r
    }

    /// The stored theme, or `light` when none is stored.
    pub fn get_theme(&self, data: &RoadmapData) -> (r: String)
        ensures
            data.theme matches Some(t) ==> r == t,
            data.theme is None ==> r@ == "light"@,
    {
        match &data.theme {
            Some(t) => t.clone(),
            None => "light".to_owned(),
        }
    }

    pub fn set_theme(&self, data: &mut RoadmapData, theme: String)
        ensures
            final(data)@ == (RoadmapDataView { theme: Some(theme), ..old(data)@ }),
    {
        data.theme = Some(theme);
    }

    /// Creates a project with an id one more than the largest in use; it
    /// becomes current when no project was.
    pub fn create_project(
        &self,
        data: &mut RoadmapData,
        name: String,
        description: String,
        color: Option<String>,
        icon: Option<String>,
    ) -> (r: Result<Project, StorageError>)
        ensures
            old(data)@.projects_nonzero() ==> final(data)@.projects_nonzero(),
            old(data)@.current_valid() ==> final(data)@.current_valid(),
            old(data)@.ids_unique() ==> final(data)@.ids_unique(),
            r is Err ==> r == Err::<Project, StorageError>(StorageError::IdsExhausted),
            max_project_id(old(data)@.projects) >= u32::MAX <==> r == Err::<Project, StorageError>(
                StorageError::IdsExhausted,
            ),
            r is Err ==> final(data)@ == old(data)@,
            r matches Ok(p) ==> {
                &&& p@.is_fresh(
                    (max_project_id(old(data)@.projects) + 1) as u32,
                    name,
                    if description@.len() == 0 { None } else { Some(description) },
                    color,
                    icon,
                )
                &&& final(data)@ == (RoadmapDataView {
                    projects: old(data)@.projects.push(p@),
                    current_project_id: if old(data)@.current_project_id is None {
                        Some(p.id)
                    } else {
                        old(data)@.current_project_id
                    },
                    ..old(data)@
                })
            },
    {
        let new_id = match next_project_id(&data.projects) {
            Some(n) => n,
            None => return Err(StorageError::IdsExhausted),
        };
        let project = Project::new_with_details(new_id, name, description, color, icon);
        let out = project.clone();
        let ghost before = data.projects@;
        data.projects.push(project);
        assert(projects_view(data.projects@) =~= projects_view(before).push(out@));
        proof {
            lemma_max_project_id_bound(old(data)@.projects);
            let n = data@.projects;
            assert(n == old(data)@.projects.push(out@));
            if old(data)@.ids_unique() {
                assert forall|a: int, b: int| 0 <= a < b < n.len() implies (project_key())(#[trigger] n[a]) != (project_key())(#[trigger] n[b]) by {
                    assert(n[a] == old(data)@.projects.push(out@)[a]);
                    assert(n[b] == old(data)@.projects.push(out@)[b]);
                    if b < n.len() - 1 {
                        assert((project_key())(old(data)@.projects[a]) != (project_key())(old(data)@.projects[b]));
                    } else {
                        assert(old(data)@.projects[a].id <= max_project_id(old(data)@.projects));
                    }
                }
            }
        }
        if data.current_project_id.is_none() {
            data.current_project_id = Some(new_id);
        }
        proof {
            let n = data@.projects;
            assert(n[n.len() - 1] == out@);
            if old(data)@.projects_nonzero() {
                assert forall|k: int| 0 <= k < n.len() implies (#[trigger] n[k]).id != 0 by {
                    if k < n.len() - 1 {
                        assert(n[k] == old(data)@.projects[k]);
                    }
                }
            }
            if old(data)@.current_project_id is Some && old(data)@.current_valid() {
                let i = choose|i: int| 0 <= i < old(data)@.projects.len() && (#[trigger] old(data)@.projects[i]).id
                    == old(data)@.current_project_id->0;
                assert(n[i] == old(data)@.projects[i]);
            }
        }
        Ok(out)
    }

    pub fn get_projects(&self, data: &RoadmapData) -> (r: Vec<Project>)
        ensures
            projects_view(r@) == data@.projects,
    {
        clone_projects(&data.projects)
    }

    /// The first project whose id is the current one, if any.
    pub fn get_current_project(&self, data: &RoadmapData) -> (r: Option<Project>)
        ensures
            match data.current_project_id {
                None => r is None,
                Some(c) => match r {
                    None => !has_project(data@.projects, c),
                    Some(p) => exists|i: int| first_project(data@.projects, c, i) && p@ == data@.projects[i],
                },
            },
    {
        match data.current_project_id {
            None => None,
            Some(c) => match find_project(data, c) {
                None => None,
                Some(i) => {
                    assert(data@.projects[i as int] == data.projects@[i as int]@);
                    Some(data.projects[i].clone())
                },
            },
        }
    }

    /// Deletes the projects with this id. Their tasks are kept and detached
    /// (project id 0); the current project moves to the first remaining one
    /// when it was deleted. Refused when it would leave no project while
    /// tasks exist.
    pub fn delete_project(&self, data: &mut RoadmapData, project_id: u32) -> (r: Result<(), StorageError>)
        ensures
            r is Ok && old(data)@.projects_nonzero() ==> forall|i: int| 0 <= i < final(data)@.tasks.len() ==> (#[trigger] final(data)@.tasks[i]).project_id != project_id,
            old(data)@.projects_nonzero() ==> final(data)@.projects_nonzero(),
            old(data)@.current_valid() ==> final(data)@.current_valid(),
            old(data)@.ids_unique() ==> final(data)@.ids_unique(),
            r is Err ==> r == Err::<(), StorageError>(StorageError::LastProject) || r == Err::<(), StorageError>(StorageError::ProjectNotFound(project_id)),
            has_project(old(data)@.projects, project_id) && old(data)@.tasks.len() > 0 && old(
                data,
            )@.projects.filter(|p: ProjectView| p.id != project_id).len() == 0 <==> r == Err::<(), StorageError>(
                StorageError::LastProject,
            ),
            !has_project(old(data)@.projects, project_id) <==> r == Err::<(), StorageError>(
                StorageError::ProjectNotFound(project_id),
            ),
            r is Err ==> final(data)@ == old(data)@,
            r is Ok ==> {
                &&& final(data)@.projects == old(data)@.projects.filter(|p: ProjectView| p.id != project_id)
                &&& final(data)@.tasks.len() == old(data)@.tasks.len()
                &&& forall|i: int|
                    0 <= i < old(data)@.tasks.len() ==> detached_task(
                        old(data)@.tasks[i],
                        #[trigger] final(data)@.tasks[i],
                        project_id,
                    )
                &&& final(data)@.current_project_id == current_after_delete(
                    old(data)@.current_project_id,
                    project_id,
                    final(data)@.projects,
                )
                &&& final(data)@.theme == old(data)@.theme
                &&& final(data)@.version == old(data)@.version
            },
    {
        if find_project(data, project_id).is_none() {
            return Err(StorageError::ProjectNotFound(project_id));
        }
        let ghost ops = data@.projects;
        let ghost ots = data@.tasks;
        let ghost pred = |p: ProjectView| p.id != project_id;
        let mut kept: Vec<Project> = Vec::new();
        let mut i: usize = 0;
        while i < data.projects.len()
            invariant
                0 <= i <= data.projects.len(),
                data@ == old(data)@,
                ops == old(data)@.projects,
                pred == (|p: ProjectView| p.id != project_id),
                projects_view(kept@) == ops.take(i as int).filter(pred),
            decreases data.projects.len() - i,
        {
            proof {
                assert(ops.take(i as int + 1) =~= ops.take(i as int).push(ops[i as int]));
                ops.take(i as int).lemma_filter_push(ops[i as int], pred);
                assert(ops[i as int] == data.projects@[i as int]@);
            }
            if data.projects[i].id != project_id {
                let c = data.projects[i].clone();
                let ghost before = kept@;
                kept.push(c);
                assert(projects_view(kept@) =~= projects_view(before).push(c@));
            }
            i += 1;
        }
        assert(ops.take(ops.len() as int) =~= ops);
        if kept.len() == 0 && data.tasks.len() > 0 {
            return Err(StorageError::LastProject);
        }
        data.projects = kept;
        let mut j: usize = 0;
        while j < data.tasks.len()
            invariant
                0 <= j <= data.tasks.len(),
                data.tasks.len() == ots.len(),
                ots == old(data)@.tasks,
                data@.projects == ops.filter(pred),
                data.current_project_id == old(data).current_project_id,
                data.theme == old(data).theme,
                data.version == old(data).version,
                forall|k: int| 0 <= k < j ==> detached_task(ots[k], #[trigger] data@.tasks[k], project_id),
                forall|k: int| j <= k < ots.len() ==> (#[trigger] data@.tasks[k]) == ots[k],
            decreases ots.len() - j,
        {
            assert(data@.tasks[j as int] == data.tasks@[j as int]@);
            if data.tasks[j].project_id == project_id {
                let mut t = data.tasks[j].clone();
                t.project_id = 0;
                t.updated_at = crate::clock::now_rfc3339();
                let ghost tv = t@;
                let ghost before = data@.tasks;
                data.tasks.set(j, t);
                assert(data@.tasks =~= before.update(j as int, tv));
                assert forall|k: int| 0 <= k < j implies detached_task(ots[k], #[trigger] data@.tasks[k], project_id) by {
                    assert(before[k] == data@.tasks[k]);
                }
            }
            j += 1;
        }
        let ghost after = data@.tasks;
        assert(forall|i: int| 0 <= i < ots.len() ==> detached_task(ots[i], #[trigger] after[i], project_id));
        if data.current_project_id == Some(project_id) {
            if data.projects.len() > 0 {
                assert(data@.projects[0] == data.projects@[0]@);
                data.current_project_id = Some(data.projects[0].id);
            } else {
                data.current_project_id = None;
            }
        }
        assert(data@.tasks == after);
        proof {
            if old(data)@.projects_nonzero() {
                let pi = choose|pi: int| 0 <= pi < ops.len() && (#[trigger] ops[pi]).id == project_id;
                assert(project_id != 0);
                assert forall|k: int| 0 <= k < data@.projects.len() implies (#[trigger] data@.projects[k]).id != 0 by {
                    assert(data@.projects.contains(data@.projects[k]));
                    ops.lemma_filter_contains_rev(pred, data@.projects[k]);
                }
                assert forall|i: int| 0 <= i < data@.tasks.len() implies (#[trigger] data@.tasks[i]).project_id != project_id by {
                    assert(detached_task(ots[i], after[i], project_id));
                }
            }
            if old(data)@.current_valid() && data@.current_project_id is Some {
                let c = data@.current_project_id->0;
                if old(data)@.current_project_id == Some(project_id) {
                    assert(data@.projects[0].id == c);
                } else {
                    let i = choose|i: int| 0 <= i < ops.len() && (#[trigger] ops[i]).id == c;
                    ops.lemma_filter_contains(pred, i);
                    let k = choose|k: int| 0 <= k < data@.projects.len() && data@.projects[k] == ops[i];
                    assert(data@.projects[k].id == c);
                }
            }
            if old(data)@.ids_unique() {
                lemma_filter_keeps_keys_distinct(ops, pred, project_key());
                let n = data@.tasks;
                assert forall|a: int, b: int| 0 <= a < b < n.len() implies (task_key())(#[trigger] n[a]) != (task_key())(#[trigger] n[b]) by {
                    assert(detached_task(ots[a], n[a], project_id));
                    assert(detached_task(ots[b], n[b], project_id));
                    assert((task_key())(ots[a]) != (task_key())(ots[b]));
                }
            }
        }
        Ok(())
    }

    /// Brings data read in the current layout up to the current version.
    /// Returns whether anything changed, that is whether the version was
    /// older.
    pub fn migrate_data(&self, data: &mut RoadmapData) -> (changed: bool)
        ensures
            old(data)@.projects_nonzero() ==> final(data)@.projects_nonzero(),
            old(data)@.current_valid() ==> final(data)@.current_valid(),
            old(data)@.ids_unique() ==> final(data)@.ids_unique(),
            changed == (old(data)@.version != CURRENT_VERSION@),
            migrated(old(data)@, final(data)@),
    {
        let current = CURRENT_VERSION.to_owned();
        if data.version == current {
            return false;
        }
        if data.projects.len() == 0 {
            let project = Project::new(1, "Default Project".to_owned());
            let ghost pv = project@;
            data.projects.push(project);
            assert(data@.projects =~= seq![pv]);
            data.current_project_id = Some(1);
            assert(data@.projects[0].id == 1);
        } else if let Some(c) = data.current_project_id {
            if find_project(data, c).is_none() {
                assert(data@.projects[0] == data.projects@[0]@);
                data.current_project_id = Some(data.projects[0].id);
            }
        }
        assert(data@.current_project_id == migrated_current(old(data)@));
        assert(data@.projects[0] == data.projects@[0]@);
        let home = match data.current_project_id {
            Some(c) => c,
            None => data.projects[0].id,
        };
        let ghost ots = data@.tasks;
        let ghost ps = data@.projects;
        let mut j: usize = 0;
        while j < data.tasks.len()
            invariant
                0 <= j <= data.tasks.len(),
                data.tasks.len() == ots.len(),
                ots == old(data)@.tasks,
                data@.projects == ps,
                ps.len() > 0,
                data.current_project_id == migrated_current(old(data)@),
                home == home_project(data.current_project_id, ps),
                data.theme == old(data).theme,
                data.version == old(data).version,
                forall|k: int| 0 <= k < j ==> (#[trigger] data@.tasks[k]) == if ots[k].project_id == 0
                    || !has_project(ps, ots[k].project_id) {
                    TaskView { project_id: home, ..ots[k] }
                } else {
                    ots[k]
                },
                forall|k: int| j <= k < ots.len() ==> (#[trigger] data@.tasks[k]) == ots[k],
            decreases ots.len() - j,
        {
            assert(data@.tasks[j as int] == data.tasks@[j as int]@);
            let pid = data.tasks[j].project_id;
            if pid == 0 || find_project(data, pid).is_none() {
                let mut t = data.tasks[j].clone();
                t.project_id = home;
                let ghost tv = t@;
                let ghost before = data@.tasks;
                data.tasks.set(j, t);
                assert(data@.tasks =~= before.update(j as int, tv));
                assert forall|k: int| 0 <= k < j implies (#[trigger] data@.tasks[k]) == if ots[k].project_id == 0
                    || !has_project(ps, ots[k].project_id) {
                    TaskView { project_id: home, ..ots[k] }
                } else {
                    ots[k]
                } by {
                    assert(before[k] == data@.tasks[k]);
                }
            } else {
                assert(has_project(ps, pid));
            }
            j += 1;
        }
        let ghost after = data@.tasks;
        assert(forall|i: int| 0 <= i < ots.len() ==> (#[trigger] after[i]) == if ots[i].project_id == 0
            || !has_project(ps, ots[i].project_id) {
            TaskView { project_id: home, ..ots[i] }
        } else {
            ots[i]
        });
        data.version = current;
        assert(data@.tasks == after);
        proof {
            if old(data)@.ids_unique() {
                let n = data@.tasks;
                assert forall|a: int, b: int| 0 <= a < b < n.len() implies (task_key())(#[trigger] n[a]) != (task_key())(#[trigger] n[b]) by {
                    assert((task_key())(ots[a]) != (task_key())(ots[b]));
                }
                if old(data)@.projects.len() == 0 {
                    assert forall|a: int, b: int| 0 <= a < b < ps.len() implies (project_key())(#[trigger] ps[a]) != (project_key())(#[trigger] ps[b]) by {
                    }
                }
            }
            if old(data)@.projects.len() == 0 {
                assert(ps[0].id == 1);
            }
            if let Some(c) = data@.current_project_id {
                if old(data)@.projects.len() > 0 && old(data)@.current_project_id is Some && !has_project(old(data)@.projects, old(data)@.current_project_id->0) {
                    assert(ps[0].id == c);
                } else if old(data)@.projects.len() == 0 {
                    assert(ps[0].id == c);
                }
            }
        }
        true
    }

    /// Turns data of the layout without projects into the current layout:
    /// every task goes to a new default project 1, which is current.
    pub fn migrate_from_legacy(&self, legacy: LegacyRoadmapData) -> (r: RoadmapData)
        ensures
            r@.projects_nonzero(),
            r@.tasks == legacy.tasks@.map_values(|t: LegacyTask| from_legacy(t)),
            r@.projects.len() == 1,
            r@.projects[0].is_fresh(1, r@.projects[0].name, None, None, None),
            r@.projects[0].name@ == "Default Project"@,
            r@.current_project_id == Some(1u32),
            r@.theme == legacy.theme,
            r@.version == CURRENT_VERSION@,
            r@.current_valid(),
    {
        let project = Project::new(1, "Default Project".to_owned());
        let ghost pv = project@;
        let mut projects: Vec<Project> = Vec::new();
        projects.push(project);
        let LegacyRoadmapData { tasks: legacy_tasks, theme, version: _ } = legacy;
        let ghost lt = legacy_tasks@;
        let mut tasks: Vec<Task> = Vec::new();
        let mut rest = legacy_tasks;
        assert(rest@ =~= lt.skip(0));
        while rest.len() > 0
            invariant
                rest@ == lt.skip(tasks.len() as int),
                tasks.len() <= lt.len(),
                tasks_view(tasks@) == lt.take(tasks.len() as int).map_values(|t: LegacyTask| from_legacy(t)),
            decreases rest.len(),
        {
            let ghost k = tasks.len() as int;
            assert(rest@[0] == lt[k]);
            let t = rest.remove(0);
            assert(rest@ =~= lt.skip(k + 1));
            let task = Task {
                id: t.id,
                project_id: 1,
                title: t.title,
                description: t.description,
                status: t.status,
                priority: t.priority,
                created_at: t.created_at,
                updated_at: t.updated_at,
                due_date: t.due_date,
                tags: t.tags,
                subtasks: t.subtasks,
                comments: t.comments,
                time_spent: t.time_spent,
                estimated_time: t.estimated_time,
                attachments: t.attachments,
            };
            let ghost before = tasks@;
            tasks.push(task);
            assert(lt.take(k + 1) =~= lt.take(k).push(lt[k]));
            assert(tasks_view(tasks@) =~= tasks_view(before).push(task@));
            assert(lt.take(k + 1).map_values(|t: LegacyTask| from_legacy(t)) =~= lt.take(k).map_values(
                |t: LegacyTask| from_legacy(t),
            ).push(from_legacy(lt[k])));
        }
        assert(lt.take(lt.len() as int) =~= lt);
        let r = RoadmapData {
            tasks,
            projects,
            current_project_id: Some(1),
            theme,
            version: CURRENT_VERSION.to_owned(),
        };
        assert(r@.projects =~= seq![pv]);
        assert(r@.projects[0].id == 1);
        r
    }

    /// Gives every project stored with id 0 (the mark for "no project") a
    /// fresh id, one past the largest in use and counting up; nothing else
    /// changes. Ids that would pass the largest `u32` are not given out, and
    /// such a project keeps id 0. Returns whether any id changed.
    pub fn renumber_zero_projects(&self, data: &mut RoadmapData) -> (changed: bool)
        ensures
            !changed ==> final(data)@ == old(data)@,
            changed <==> exists|k: int|
                0 <= k < old(data)@.projects.len() && old(data)@.projects[k].id == 0 && (
                #[trigger] final(data)@.projects[k]).id != 0,
            old(data)@.projects_nonzero() ==> !changed,
            renumbered(old(data)@, final(data)@),
    {
        let ghost ops = data@.projects;
        proof {
            lemma_max_project_id_bound(ops);
        }
        let mut next: u32 = match next_project_id(&data.projects) {
            Some(n) => n - 1,
            None => u32::MAX,
        };
        let ghost mx = max_project_id(ops);
        let mut changed = false;
        let mut k: usize = 0;
        while k < data.projects.len()
            invariant
                0 <= k <= data.projects.len(),
                data.projects.len() == ops.len(),
                ops == old(data)@.projects,
                mx == max_project_id(ops),
                mx <= next,
                next <= mx + k,
                data@.tasks == old(data)@.tasks,
                data.current_project_id == old(data).current_project_id,
                data.theme == old(data).theme,
                data.version == old(data).version,
                !changed ==> data@ == old(data)@,
                changed ==> exists|q: int| 0 <= q < k && ops[q].id == 0 && (#[trigger] data@.projects[q]).id != 0,
                old(data)@.projects_nonzero() ==> !changed,
                forall|q: int| 0 <= q < ops.len() ==> (#[trigger] data@.projects[q]) == (ProjectView {
                    id: data@.projects[q].id,
                    ..ops[q]
                }),
                forall|q: int| k <= q < ops.len() ==> (#[trigger] data@.projects[q]).id == ops[q].id,
                forall|q: int| 0 <= q < k && ops[q].id != 0 ==> (#[trigger] data@.projects[q]).id == ops[q].id,
                forall|q: int| 0 <= q < k && ops[q].id == 0 ==> (#[trigger] data@.projects[q]).id == 0 || (mx
                    < data@.projects[q].id <= next),
                mx + k <= u32::MAX ==> forall|q: int| 0 <= q < k ==> (#[trigger] data@.projects[q]).id != 0,
                forall|a: int, b: int|
                    0 <= a < b < k && ops[a].id == 0 && ops[b].id == 0 && data@.projects[b].id != 0 ==> (
                    #[trigger] data@.projects[a]).id < (#[trigger] data@.projects[b]).id,
            decreases ops.len() - k,
        {
            assert(data@.projects[k as int] == data.projects@[k as int]@);
            if data.projects[k].id == 0 && next < u32::MAX {
                next = next + 1;
                let mut p = data.projects[k].clone();
                p.id = next;
                let ghost pv = p@;
                let ghost before = data@.projects;
                data.projects.set(k, p);
                assert(data@.projects =~= before.update(k as int, pv));
                changed = true;
                assert(data@.projects[k as int].id != 0);
                assert forall|q: int| 0 <= q < ops.len() implies (#[trigger] data@.projects[q]) == (ProjectView {
                    id: data@.projects[q].id,
                    ..ops[q]
                }) by {
                    if q != k {
                        assert(before[q] == data@.projects[q]);
                    }
                }
            } else {
                proof {
                    if old(data)@.projects_nonzero() {
                        assert(ops[k as int].id != 0);
                    }
                }
            }
            k += 1;
        }
        proof {
            let n = data@.projects;
            if old(data)@.ids_unique() {
                assert forall|a: int, b: int| 0 <= a < b < n.len() implies (project_key())(#[trigger] n[a])
                    != (project_key())(#[trigger] n[b]) by {
                    if ops[a].id != 0 && ops[b].id != 0 {
                        assert((project_key())(ops[a]) != (project_key())(ops[b]));
                    } else if ops[a].id != 0 {
                        assert(ops[a].id <= mx);
                    } else if ops[b].id != 0 {
                        assert(ops[b].id <= mx);
                    } else {
                        assert(!(n[a].id == 0 && n[b].id == 0)) by {
                            assert((project_key())(ops[a]) != (project_key())(ops[b]));
                        }
                    }
                }
            }
        }
        changed
    }

    /// Decides what loading gives, from what was found at the data file's
    /// path: the data, and whether it must be written back. A missing file
    /// gives fresh default data. Data at the current version is taken as it
    /// is and nothing is written. Data of an older version is migrated, has
    /// projects stored with id 0 renumbered, and is written back. Data
    /// without projects is converted and written back. Anything else is an
    /// error that leaves the file alone.
    pub fn load_data(&self, stored: StoredData) -> (r: Result<(RoadmapData, bool), StorageError>)
        ensures
            match stored {
                StoredData::Absent => r matches Ok((d, save)) && save && d@.is_fresh_default(),
                StoredData::Current(d0) => r matches Ok((d, save)) && if d0@.version == CURRENT_VERSION@ {
                    d@ == d0@ && !save
                } else {
                    save && exists|m: RoadmapDataView| migrated(d0@, m) && renumbered(m, d@)
                },
                StoredData::Legacy(l) => r matches Ok((d, save)) && save && d@.tasks == l.tasks@.map_values(
                    |t: LegacyTask| from_legacy(t),
                ) && d@.projects.len() == 1 && d@.projects[0].id == 1 && d@.current_project_id == Some(1u32)
                    && d@.theme == l.theme && d@.version == CURRENT_VERSION@,
                StoredData::Unreadable(msg) => r == Err::<(RoadmapData, bool), StorageError>(
                    StorageError::CorruptData(msg),
                ),
            },
    {
        match stored {
            StoredData::Absent => Ok((RoadmapData::default(), true)),
            StoredData::Current(d) => {
                let ghost d0 = d@;
                let mut d = d;
                if d.version == CURRENT_VERSION.to_owned() {
                    return Ok((d, false));
                }
                self.migrate_data(&mut d);
                let ghost m = d@;
                self.renumber_zero_projects(&mut d);
                assert(migrated(d0, m) && renumbered(m, d@));
                Ok((d, true))
            },
            StoredData::Legacy(l) => Ok((self.migrate_from_legacy(l), true)),
            StoredData::Unreadable(msg) => Err(StorageError::CorruptData(msg)),
        }
    }

    /// Makes the project with this id current.
    pub fn switch_project(&self, data: &mut RoadmapData, project_id: u32) -> (r: Result<Project, StorageError>)
        ensures
            old(data)@.current_valid() ==> final(data)@.current_valid(),
            r is Err ==> r == Err::<Project, StorageError>(StorageError::ProjectNotFound(project_id)),
            !has_project(old(data)@.projects, project_id) <==> r == Err::<Project, StorageError>(
                StorageError::ProjectNotFound(project_id),
            ),
            r is Err ==> final(data)@ == old(data)@,
            r matches Ok(p) ==> {
                &&& exists|i: int| first_project(old(data)@.projects, project_id, i) && p@ == old(data)@.projects[i]
                &&& final(data)@ == (RoadmapDataView { current_project_id: Some(project_id), ..old(data)@ })
            },
    {
        match find_project(data, project_id) {
            None => Err(StorageError::ProjectNotFound(project_id)),
            Some(i) => {
                assert(data@.projects[i as int] == data.projects@[i as int]@);
                let p = data.projects[i].clone();
                data.current_project_id = Some(project_id);
                Ok(p)
            },
        }
    }
}

} // verus!
