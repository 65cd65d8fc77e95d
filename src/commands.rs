//! The work behind each command that the desktop shell offers, on data that
//! the caller loaded and writes back.
use vstd::prelude::*;
use crate::tasks::{
    next_task_status, or_keep, or_keep_opt, tasks_view, Comment, Project, ProjectUpdateRequest,
    ProjectView, RoadmapData, RoadmapDataView, Subtask, Task, TaskStatus, TaskView,
    max_comment_id, max_subtask_id, without_tag,
};
use crate::task_store::{
    find_project, find_task, first_project, first_task, has_project, has_task, max_project_id, max_task_id,
    next_project_id, next_task_id, StorageError,
};
use crate::clock::{earlier, is_earlier, now_rfc3339, parse_rfc3339, rfc3339_instant, Timestamp};

verus! {

/// Puts `t` at index `i` of the tasks and hands back a copy of it.
fn put_task(data: &mut RoadmapData, i: usize, t: Task) -> (r: Task)
    requires
        i < old(data)@.tasks.len(),
        t.id == old(data)@.tasks[i as int].id,
    ensures
        old(data)@.ids_unique() ==> final(data)@.ids_unique(),
        r@ == t@,
        final(data)@ == (RoadmapDataView { tasks: old(data)@.tasks.update(i as int, t@), ..old(data)@ }),
{
    let out = t.clone();
    let ghost tv = t@;
    let ghost before = data@.tasks;
    data.tasks.set(i, t);
    assert(data@.tasks =~= before.update(i as int, tv));
    proof {
        if old(data)@.ids_unique() {
            crate::task_store::lemma_replace_task_keeps_ids_unique(old(data)@, i as int, tv);
        }
    }
    out
}

/// The first task with `id` is at `i`, and the data afterwards holds `t@`
/// there and is otherwise unchanged.
pub open spec fn task_replaced(old: RoadmapDataView, new: RoadmapDataView, id: u32, i: int, t: TaskView) -> bool {
    &&& first_task(old.tasks, id, i)
    &&& new == (RoadmapDataView { tasks: old.tasks.update(i, t), ..old })
}

/// Moves the first task with this id to the next status of the cycle.
pub fn toggle_task_status(data: &mut RoadmapData, id: u32) -> (r: Result<Task, StorageError>)
    ensures
        old(data)@.ids_unique() ==> final(data)@.ids_unique(),
        r is Err ==> r == Err::<Task, StorageError>(StorageError::TaskNotFound(id)),
        !has_task(old(data)@.tasks, id) <==> r == Err::<Task, StorageError>(StorageError::TaskNotFound(id)),
        r is Err ==> final(data)@ == old(data)@,
        r matches Ok(t) ==> exists|i: int| task_replaced(old(data)@, final(data)@, id, i, t@)
            && t@ == (TaskView {
                status: next_task_status(old(data)@.tasks[i].status),
                updated_at: t.updated_at,
                ..old(data)@.tasks[i]
            }),
{
    let i = match find_task(data, id) {
        Some(i) => i,
        None => return Err(StorageError::TaskNotFound(id)),
    };
    assert(data@.tasks[i as int] == data.tasks@[i as int]@);
    let mut t = data.tasks[i].clone();
    let s = t.status.next();
    t.update_status(s);
    let r = put_task(data, i, t);
    assert(task_replaced(old(data)@, data@, id, i as int, r@));
    Ok(r)
}

pub fn add_task_tag(data: &mut RoadmapData, task_id: u32, tag: String) -> (r: Result<Task, StorageError>)
    ensures
        old(data)@.ids_unique() ==> final(data)@.ids_unique(),
        r is Err ==> r == Err::<Task, StorageError>(StorageError::TaskNotFound(task_id)),
        !has_task(old(data)@.tasks, task_id) <==> r == Err::<Task, StorageError>(StorageError::TaskNotFound(task_id)),
        r is Err ==> final(data)@ == old(data)@,
        r matches Ok(t) ==> exists|i: int| task_replaced(old(data)@, final(data)@, task_id, i, t@)
            && if exists|k: int| 0 <= k < old(data)@.tasks[i].tags.len() && (#[trigger] old(data)@.tasks[i].tags[k])@ == tag@ {
                t@ == old(data)@.tasks[i]
            } else {
                t@ == (TaskView {
                    tags: old(data)@.tasks[i].tags.push(tag),
                    updated_at: t.updated_at,
                    ..old(data)@.tasks[i]
                })
            },
{
    let i = match find_task(data, task_id) {
        Some(i) => i,
        None => return Err(StorageError::TaskNotFound(task_id)),
    };
    assert(data@.tasks[i as int] == data.tasks@[i as int]@);
    let mut t = data.tasks[i].clone();
    t.add_tag(tag);
    let r = put_task(data, i, t);
    assert(task_replaced(old(data)@, data@, task_id, i as int, r@));
    Ok(r)
}

pub fn remove_task_tag(data: &mut RoadmapData, task_id: u32, tag: String) -> (r: Result<Task, StorageError>)
    ensures
        old(data)@.ids_unique() ==> final(data)@.ids_unique(),
        r is Err ==> r == Err::<Task, StorageError>(StorageError::TaskNotFound(task_id)),
        !has_task(old(data)@.tasks, task_id) <==> r == Err::<Task, StorageError>(StorageError::TaskNotFound(task_id)),
        r is Err ==> final(data)@ == old(data)@,
        r matches Ok(t) ==> exists|i: int| task_replaced(old(data)@, final(data)@, task_id, i, t@)
            && if exists|k: int| 0 <= k < old(data)@.tasks[i].tags.len() && (#[trigger] old(data)@.tasks[i].tags[k])@ == tag@ {
                t@ == (TaskView {
                    tags: without_tag(old(data)@.tasks[i].tags, tag@),
                    updated_at: t.updated_at,
                    ..old(data)@.tasks[i]
                })
            } else {
                t@ == old(data)@.tasks[i]
            },
{
    let i = match find_task(data, task_id) {
        Some(i) => i,
        None => return Err(StorageError::TaskNotFound(task_id)),
    };
    assert(data@.tasks[i as int] == data.tasks@[i as int]@);
    let mut t = data.tasks[i].clone();
    t.remove_tag(tag.as_str());
    let r = put_task(data, i, t);
    assert(task_replaced(old(data)@, data@, task_id, i as int, r@));
    Ok(r)
}

pub fn set_task_due_date(data: &mut RoadmapData, task_id: u32, due_date: Option<String>) -> (r: Result<Task, StorageError>)
    ensures
        old(data)@.ids_unique() ==> final(data)@.ids_unique(),
        r is Err ==> r == Err::<Task, StorageError>(StorageError::TaskNotFound(task_id)),
        !has_task(old(data)@.tasks, task_id) <==> r == Err::<Task, StorageError>(StorageError::TaskNotFound(task_id)),
        r is Err ==> final(data)@ == old(data)@,
        r matches Ok(t) ==> exists|i: int| task_replaced(old(data)@, final(data)@, task_id, i, t@)
            && t@ == (TaskView { due_date, updated_at: t.updated_at, ..old(data)@.tasks[i] }),
{
    let i = match find_task(data, task_id) {
        Some(i) => i,
        None => return Err(StorageError::TaskNotFound(task_id)),
    };
    assert(data@.tasks[i as int] == data.tasks@[i as int]@);
    let mut t = data.tasks[i].clone();
    t.set_due_date(due_date);
    let r = put_task(data, i, t);
    assert(task_replaced(old(data)@, data@, task_id, i as int, r@));
    Ok(r)
}

/// Adds a subtask whose id is one more than the largest of the task's
/// subtasks.
pub fn add_task_subtask(data: &mut RoadmapData, task_id: u32, subtask_title: String) -> (r: Result<Task, StorageError>)
    ensures
        old(data)@.ids_unique() ==> final(data)@.ids_unique(),
        r is Err ==> r == Err::<Task, StorageError>(StorageError::TaskNotFound(task_id)) || r == Err::<Task, StorageError>(StorageError::IdsExhausted),
        !has_task(old(data)@.tasks, task_id) <==> r == Err::<Task, StorageError>(StorageError::TaskNotFound(task_id)),
        r == Err::<Task, StorageError>(StorageError::IdsExhausted) <==> exists|i: int|
            first_task(old(data)@.tasks, task_id, i) && max_subtask_id(old(data)@.tasks[i].subtasks) >= u32::MAX,
        r is Err ==> final(data)@ == old(data)@,
        r matches Ok(t) ==> exists|i: int| task_replaced(old(data)@, final(data)@, task_id, i, t@)
            && t@ == (TaskView {
                subtasks: old(data)@.tasks[i].subtasks.push(Subtask {
                    id: (max_subtask_id(old(data)@.tasks[i].subtasks) + 1) as u32,
                    title: subtask_title,
                    completed: false,
                    created_at: t.subtasks@.last().created_at,
                }),
                updated_at: t.updated_at,
                ..old(data)@.tasks[i]
            }),
{
    let i = match find_task(data, task_id) {
        Some(i) => i,
        None => return Err(StorageError::TaskNotFound(task_id)),
    };
    assert(data@.tasks[i as int] == data.tasks@[i as int]@);
    let mut t = data.tasks[i].clone();
    let sid = match t.next_subtask_id() {
        Some(n) => n,
        None => return Err(StorageError::IdsExhausted),
    };
    t.add_subtask(sid, subtask_title);
    let r = put_task(data, i, t);
    assert(task_replaced(old(data)@, data@, task_id, i as int, r@));
    Ok(r)
}

pub fn toggle_task_subtask(data: &mut RoadmapData, task_id: u32, subtask_id: u32) -> (r: Result<Task, StorageError>)
    ensures
        old(data)@.ids_unique() ==> final(data)@.ids_unique(),
        r is Err ==> r == Err::<Task, StorageError>(StorageError::TaskNotFound(task_id)),
        !has_task(old(data)@.tasks, task_id) <==> r == Err::<Task, StorageError>(StorageError::TaskNotFound(task_id)),
        r is Err ==> final(data)@ == old(data)@,
        r matches Ok(t) ==> exists|i: int| {
            &&& task_replaced(old(data)@, final(data)@, task_id, i, t@)
            &&& (forall|j: int| 0 <= j < old(data)@.tasks[i].subtasks.len() ==> (#[trigger] old(data)@.tasks[i].subtasks[j]).id != subtask_id)
                ==> t@ == old(data)@.tasks[i]
            &&& forall|k: int|
                0 <= k < old(data)@.tasks[i].subtasks.len() && (#[trigger] old(data)@.tasks[i].subtasks[k]).id == subtask_id
                    && (forall|j: int| 0 <= j < k ==> (#[trigger] old(data)@.tasks[i].subtasks[j]).id != subtask_id)
                    ==> t@ == (TaskView {
                        subtasks: old(data)@.tasks[i].subtasks.update(
                            k,
                            Subtask { completed: !old(data)@.tasks[i].subtasks[k].completed, ..old(data)@.tasks[i].subtasks[k] },
                        ),
                        updated_at: t.updated_at,
                        ..old(data)@.tasks[i]
                    })
        },
{
    let i = match find_task(data, task_id) {
        Some(i) => i,
        None => return Err(StorageError::TaskNotFound(task_id)),
    };
    assert(data@.tasks[i as int] == data.tasks@[i as int]@);
    let mut t = data.tasks[i].clone();
    t.toggle_subtask(subtask_id);
    let r = put_task(data, i, t);
    assert(task_replaced(old(data)@, data@, task_id, i as int, r@));
    Ok(r)
}

/// Adds a comment whose id is one more than the largest of the task's
/// comments.
pub fn add_task_comment(
    data: &mut RoadmapData,
    task_id: u32,
    comment_text: String,
    author: String,
) -> (r: Result<Task, StorageError>)
    ensures
        old(data)@.ids_unique() ==> final(data)@.ids_unique(),
        r is Err ==> r == Err::<Task, StorageError>(StorageError::TaskNotFound(task_id)) || r == Err::<Task, StorageError>(StorageError::IdsExhausted),
        !has_task(old(data)@.tasks, task_id) <==> r == Err::<Task, StorageError>(StorageError::TaskNotFound(task_id)),
        r == Err::<Task, StorageError>(StorageError::IdsExhausted) <==> exists|i: int|
            first_task(old(data)@.tasks, task_id, i) && max_comment_id(old(data)@.tasks[i].comments) >= u32::MAX,
        r is Err ==> final(data)@ == old(data)@,
        r matches Ok(t) ==> exists|i: int| task_replaced(old(data)@, final(data)@, task_id, i, t@)
            && t@ == (TaskView {
                comments: old(data)@.tasks[i].comments.push(Comment {
                    id: (max_comment_id(old(data)@.tasks[i].comments) + 1) as u32,
                    text: comment_text,
                    author,
                    created_at: t.comments@.last().created_at,
                }),
                updated_at: t.updated_at,
                ..old(data)@.tasks[i]
            }),
{
    let i = match find_task(data, task_id) {
        Some(i) => i,
        None => return Err(StorageError::TaskNotFound(task_id)),
    };
    assert(data@.tasks[i as int] == data.tasks@[i as int]@);
    let mut t = data.tasks[i].clone();
    let cid = match t.next_comment_id() {
        Some(n) => n,
        None => return Err(StorageError::IdsExhausted),
    };
    t.add_comment(cid, comment_text, author);
    let r = put_task(data, i, t);
    assert(task_replaced(old(data)@, data@, task_id, i as int, r@));
    Ok(r)
}

/// Adds minutes to the time spent on the first task with this id.
pub fn add_task_time(data: &mut RoadmapData, task_id: u32, minutes: u32) -> (r: Result<Task, StorageError>)
    ensures
        old(data)@.ids_unique() ==> final(data)@.ids_unique(),
        r is Err ==> r == Err::<Task, StorageError>(StorageError::TaskNotFound(task_id)) || r == Err::<Task, StorageError>(StorageError::TimeOverflow),
        !has_task(old(data)@.tasks, task_id) <==> r == Err::<Task, StorageError>(StorageError::TaskNotFound(task_id)),
        r == Err::<Task, StorageError>(StorageError::TimeOverflow) <==> exists|i: int|
            first_task(old(data)@.tasks, task_id, i) && old(data)@.tasks[i].time_spent + minutes > u32::MAX,
        r is Err ==> final(data)@ == old(data)@,
        r matches Ok(t) ==> exists|i: int| task_replaced(old(data)@, final(data)@, task_id, i, t@)
            && t@ == (TaskView {
                time_spent: (old(data)@.tasks[i].time_spent + minutes) as u32,
                updated_at: t.updated_at,
                ..old(data)@.tasks[i]
            }),
{
    let i = match find_task(data, task_id) {
        Some(i) => i,
        None => return Err(StorageError::TaskNotFound(task_id)),
    };
    assert(data@.tasks[i as int] == data.tasks@[i as int]@);
    let mut t = data.tasks[i].clone();
    if t.time_spent > u32::MAX - minutes {
        return Err(StorageError::TimeOverflow);
    }
    t.add_time(minutes);
    let r = put_task(data, i, t);
    assert(task_replaced(old(data)@, data@, task_id, i as int, r@));
    Ok(r)
}

pub fn set_task_estimated_time(
    data: &mut RoadmapData,
    task_id: u32,
    estimated_minutes: Option<u32>,
) -> (r: Result<Task, StorageError>)
    ensures
        old(data)@.ids_unique() ==> final(data)@.ids_unique(),
        r is Err ==> r == Err::<Task, StorageError>(StorageError::TaskNotFound(task_id)),
        !has_task(old(data)@.tasks, task_id) <==> r == Err::<Task, StorageError>(StorageError::TaskNotFound(task_id)),
        r is Err ==> final(data)@ == old(data)@,
        r matches Ok(t) ==> exists|i: int| task_replaced(old(data)@, final(data)@, task_id, i, t@)
            && t@ == (TaskView { estimated_time: estimated_minutes, updated_at: t.updated_at, ..old(data)@.tasks[i] }),
{
    let i = match find_task(data, task_id) {
        Some(i) => i,
        None => return Err(StorageError::TaskNotFound(task_id)),
    };
    assert(data@.tasks[i as int] == data.tasks@[i as int]@);
    let mut t = data.tasks[i].clone();
    t.set_estimated_time(estimated_minutes);
    let r = put_task(data, i, t);
    assert(task_replaced(old(data)@, data@, task_id, i as int, r@));
    Ok(r)
}

/// Replaces the given fields of the first project with the request's id.
pub fn update_project(data: &mut RoadmapData, request: ProjectUpdateRequest) -> (r: Result<Project, StorageError>)
    ensures
        old(data)@.ids_unique() ==> final(data)@.ids_unique(),
        r is Err ==> r == Err::<Project, StorageError>(StorageError::ProjectNotFound(request.id)),
        !has_project(old(data)@.projects, request.id) <==> r == Err::<Project, StorageError>(
            StorageError::ProjectNotFound(request.id),
        ),
        r is Err ==> final(data)@ == old(data)@,
        r matches Ok(p) ==> exists|i: int| {
            &&& first_project(old(data)@.projects, request.id, i)
            &&& p@ == (ProjectView {
                name: or_keep(request.name, old(data)@.projects[i].name),
                description: or_keep_opt(request.description, old(data)@.projects[i].description),
                color: or_keep_opt(request.color, old(data)@.projects[i].color),
                icon: or_keep_opt(request.icon, old(data)@.projects[i].icon),
                updated_at: p.updated_at,
                ..old(data)@.projects[i]
            })
            &&& final(data)@ == (RoadmapDataView { projects: old(data)@.projects.update(i, p@), ..old(data)@ })
        },
{
    let i = match find_project(data, request.id) {
        Some(i) => i,
        None => return Err(StorageError::ProjectNotFound(request.id)),
    };
    assert(data@.projects[i as int] == data.projects@[i as int]@);
    let mut p = data.projects[i].clone();
    let ProjectUpdateRequest { id: _, name, description, color, icon, settings: _ } = request;
    p.update_info(name, description, color, icon);
    let out = p.clone();
    let ghost pv = p@;
    let ghost before = data@.projects;
    data.projects.set(i, p);
    assert(data@.projects =~= before.update(i as int, pv));
    proof {
        if old(data)@.ids_unique() {
            crate::task_store::lemma_replace_project_keeps_ids_unique(old(data)@, i as int, pv);
        }
    }
    Ok(out)
}


pub open spec fn digit_char(d: nat) -> char {
    if d == 0 { '0' } else if d == 1 { '1' } else if d == 2 { '2' } else if d == 3 { '3' }
    else if d == 4 { '4' } else if d == 5 { '5' } else if d == 6 { '6' } else if d == 7 { '7' }
    else if d == 8 { '8' } else { '9' }
}

/// The decimal digits of `n`, without leading zeros.
pub open spec fn decimal(n: nat) -> Seq<char>
    decreases n,
{
    if n < 10 {
        seq![digit_char(n)]
    } else {
        decimal(n / 10).push(digit_char(n % 10))
    }
}

fn digit_str(d: usize) -> (r: &'static str)
    requires
        d < 10,
    ensures
        r@ == seq![digit_char(d as nat)],
{
    proof {
        reveal_strlit("0");
        reveal_strlit("1");
        reveal_strlit("2");
        reveal_strlit("3");
        reveal_strlit("4");
        reveal_strlit("5");
        reveal_strlit("6");
        reveal_strlit("7");
        reveal_strlit("8");
        reveal_strlit("9");
    }
    let r = if d == 0 { "0" } else if d == 1 { "1" } else if d == 2 { "2" } else if d == 3 { "3" }
    else if d == 4 { "4" } else if d == 5 { "5" } else if d == 6 { "6" } else if d == 7 { "7" }
    else if d == 8 { "8" } else { "9" };
    assert(r@ =~= seq![digit_char(d as nat)]);
    r
}

/// `n` written in decimal.
pub fn decimal_string(n: usize) -> (r: String)
    ensures
        r@ == decimal(n as nat),
    decreases n,
{
    if n < 10 {
        digit_str(n).to_owned()
    } else {
        let mut s = decimal_string(n / 10);
        s.append(digit_str(n % 10));
        s
    }
}

/// The format version that exports are stamped with.
pub const EXPORT_VERSION: &'static str = "0.2.1";

/// Data wrapped for export, with the format version and the time of export.
#[derive(Debug)]
pub struct ExportData {
    pub version: String,
    pub export_date: String,
    pub data: RoadmapData,
}

impl ExportData {
    /// Wraps `data` for export, stamped with the export format version and
    /// the current time.
    pub fn new(data: RoadmapData) -> (r: ExportData)
        ensures
            r.version@ == EXPORT_VERSION@,
            r.data@ == data@,
    {
        ExportData { version: EXPORT_VERSION.to_owned(), export_date: now_rfc3339(), data }
    }
}

/// What an import brought in.
#[derive(Debug)]
pub struct ImportResult {
    pub success: bool,
    pub imported_tasks: usize,
    pub imported_projects: usize,
    pub message: String,
    pub export_version: String,
    pub export_date: Option<String>,
}

/// What a dry run of an import found.
#[derive(Debug)]
pub struct ImportValidation {
    pub valid: bool,
    pub version: String,
    pub export_date: Option<String>,
    pub task_count: usize,
    pub project_count: usize,
    pub format_type: String,
    pub warnings: Vec<String>,
    pub errors: Vec<String>,
}

/// What content offered for import parsed as.
#[derive(Debug)]
pub enum ImportPayload {
    /// An export envelope.
    Export(ExportData),
    /// Bare data of the current layout.
    Plain(RoadmapData),
    /// Neither.
    Invalid,
}

/// `new_pid` is where a task of project `old_pid` goes when the projects `ps`
/// are merged in with ids from `base + 1` on: the new id of the first of them
/// with that id, or 0 (no project) when none has it.
pub open spec fn remapped(ps: Seq<ProjectView>, old_pid: u32, base: nat, new_pid: u32) -> bool {
    ||| exists|i: int| first_project(ps, old_pid, i) && new_pid == base + i + 1
    ||| !has_project(ps, old_pid) && new_pid == 0
}

/// `new` is `old` with `incoming` merged in: every incoming project and task
/// appended in order with a fresh id (one past the largest in use, counting
/// up), each task pointing at its project's new id.
pub open spec fn merged(old: RoadmapDataView, incoming: RoadmapDataView, new: RoadmapDataView) -> bool {
    let bp = max_project_id(old.projects);
    let bt = max_task_id(old.tasks);
    &&& new.projects.len() == old.projects.len() + incoming.projects.len()
    &&& new.projects.take(old.projects.len() as int) == old.projects
    &&& forall|k: int|
        0 <= k < incoming.projects.len() ==> #[trigger] new.projects[old.projects.len() + k] == (ProjectView {
            id: (bp + k + 1) as u32,
            ..incoming.projects[k]
        })
    &&& new.tasks.len() == old.tasks.len() + incoming.tasks.len()
    &&& new.tasks.take(old.tasks.len() as int) == old.tasks
    &&& forall|j: int|
        0 <= j < incoming.tasks.len() ==> {
            let n = #[trigger] new.tasks[old.tasks.len() + j];
            &&& n == (TaskView { id: (bt + j + 1) as u32, project_id: n.project_id, ..incoming.tasks[j] })
            &&& remapped(incoming.projects, incoming.tasks[j].project_id, bp, n.project_id)
        }
    &&& new.current_project_id == old.current_project_id
    &&& new.theme == old.theme
    &&& new.version == old.version
}

/// Appends `incoming`'s projects and tasks to `data` with fresh ids, unless
/// the ids would run past the largest `u32`.
pub fn merge_data(data: &mut RoadmapData, incoming: &RoadmapData) -> (r: Result<(), StorageError>)
    ensures
        (max_project_id(old(data)@.projects) + incoming@.projects.len() > u32::MAX || max_task_id(old(data)@.tasks)
            + incoming@.tasks.len() > u32::MAX) <==> r is Err,
        r is Err ==> r == Err::<(), StorageError>(StorageError::IdsExhausted) && final(data)@ == old(data)@,
        r is Ok ==> merged(old(data)@, incoming@, final(data)@),
        old(data)@.ids_unique() ==> final(data)@.ids_unique(),
        old(data)@.projects_nonzero() ==> final(data)@.projects_nonzero(),
{
    let bp: u32 = match next_project_id(&data.projects) {
        Some(n) => n - 1,
        None => {
            if incoming.projects.len() == 0 {
                u32::MAX
            } else {
                return Err(StorageError::IdsExhausted);
            }
        },
    };
    let bt: u32 = match next_task_id(&data.tasks) {
        Some(n) => n - 1,
        None => {
            if incoming.tasks.len() == 0 {
                u32::MAX
            } else {
                return Err(StorageError::IdsExhausted);
            }
        },
    };
    proof {
        crate::task_store::lemma_max_project_id_bound(data@.projects);
        crate::task_store::lemma_max_task_id_bound(data@.tasks);
    }
    if incoming.projects.len() > (u32::MAX - bp) as usize || incoming.tasks.len() > (u32::MAX - bt) as usize {
        return Err(StorageError::IdsExhausted);
    }
    let ghost od = data@;
    let ghost inc = incoming@;
    let mut k: usize = 0;
    while k < incoming.projects.len()
        invariant
            0 <= k <= incoming.projects.len(),
            inc == incoming@,
            bp == max_project_id(od.projects),
            bp + incoming.projects.len() <= u32::MAX,
            data@.tasks == od.tasks,
            data.current_project_id == od.current_project_id,
            data.theme == od.theme,
            data@.version == od.version,
            data@.projects.len() == od.projects.len() + k,
            data@.projects.take(od.projects.len() as int) == od.projects,
            forall|q: int|
                0 <= q < k ==> #[trigger] data@.projects[od.projects.len() + q] == (ProjectView {
                    id: (bp + q + 1) as u32,
                    ..inc.projects[q]
                }),
        decreases incoming.projects.len() - k,
    {
        assert(inc.projects[k as int] == incoming.projects@[k as int]@);
        let mut p = incoming.projects[k].clone();
        p.id = bp + (k as u32) + 1;
        let ghost pv = p@;
        let ghost before = data@.projects;
        data.projects.push(p);
        assert(data@.projects =~= before.push(pv));
        assert(data@.projects.take(od.projects.len() as int) =~= before.take(od.projects.len() as int));
        assert forall|q: int| 0 <= q < k + 1 implies #[trigger] data@.projects[od.projects.len() + q] == (ProjectView {
            id: (bp + q + 1) as u32,
            ..inc.projects[q]
        }) by {
            if q < k {
                assert(before[od.projects.len() + q] == data@.projects[od.projects.len() + q]);
            }
        }
        k += 1;
    }
    let ghost after_projects = data@.projects;
    let mut j: usize = 0;
    while j < incoming.tasks.len()
        invariant
            0 <= j <= incoming.tasks.len(),
            inc == incoming@,
            bp == max_project_id(od.projects),
            bt == max_task_id(od.tasks),
            bt + incoming.tasks.len() <= u32::MAX,
            bp + incoming.projects.len() <= u32::MAX,
            data@.projects == after_projects,
            data.current_project_id == od.current_project_id,
            data.theme == od.theme,
            data@.version == od.version,
            data@.tasks.len() == od.tasks.len() + j,
            data@.tasks.take(od.tasks.len() as int) == od.tasks,
            forall|q: int|
                0 <= q < j ==> {
                    let n = #[trigger] data@.tasks[od.tasks.len() + q];
                    &&& n == (TaskView { id: (bt + q + 1) as u32, project_id: n.project_id, ..inc.tasks[q] })
                    &&& remapped(inc.projects, inc.tasks[q].project_id, bp as nat, n.project_id)
                },
        decreases incoming.tasks.len() - j,
    {
        assert(inc.tasks[j as int] == incoming.tasks@[j as int]@);
        let mut t = incoming.tasks[j].clone();
        t.id = bt + (j as u32) + 1;
        t.project_id = match find_project(incoming, t.project_id) {
            Some(i) => bp + (i as u32) + 1,
            None => 0,
        };
        let ghost tv = t@;
        let ghost before = data@.tasks;
        data.tasks.push(t);
        assert(data@.tasks =~= before.push(tv));
        assert(data@.tasks.take(od.tasks.len() as int) =~= before.take(od.tasks.len() as int));
        assert forall|q: int| 0 <= q < j + 1 implies {
            let n = #[trigger] data@.tasks[od.tasks.len() + q];
            &&& n == (TaskView { id: (bt + q + 1) as u32, project_id: n.project_id, ..inc.tasks[q] })
            &&& remapped(inc.projects, inc.tasks[q].project_id, bp as nat, n.project_id)
        } by {
            if q < j {
                assert(before[od.tasks.len() + q] == data@.tasks[od.tasks.len() + q]);
            }
        }
        j += 1;
    }
    proof {
        if od.projects_nonzero() {
            let np = data@.projects;
            let lp = od.projects.len() as int;
            assert forall|k: int| 0 <= k < np.len() implies (#[trigger] np[k]).id != 0 by {
                if k < lp {
                    assert(np[k] == np.take(lp)[k]);
                } else {
                    assert(np[lp + (k - lp)] == np[k]);
                }
            }
        }
        if od.ids_unique() {
            let np = data@.projects;
            let nt = data@.tasks;
            let lp = od.projects.len() as int;
            let lt = od.tasks.len() as int;
            assert forall|a: int, b: int| 0 <= a < b < np.len() implies (crate::tasks::project_key())(#[trigger] np[a])
                != (crate::tasks::project_key())(#[trigger] np[b]) by {
                if b < lp {
                    assert(np[a] == np.take(lp)[a] && np[b] == np.take(lp)[b]);
                    assert((crate::tasks::project_key())(od.projects[a]) != (crate::tasks::project_key())(od.projects[b]));
                } else if a < lp {
                    assert(np[a] == np.take(lp)[a]);
                    assert(np[lp + (b - lp)] == np[b]);
                    assert(od.projects[a].id <= bp);
                } else {
                    assert(np[lp + (a - lp)] == np[a]);
                    assert(np[lp + (b - lp)] == np[b]);
                }
            }
            assert forall|a: int, b: int| 0 <= a < b < nt.len() implies (crate::tasks::task_key())(#[trigger] nt[a])
                != (crate::tasks::task_key())(#[trigger] nt[b]) by {
                if b < lt {
                    assert(nt[a] == nt.take(lt)[a] && nt[b] == nt.take(lt)[b]);
                    assert((crate::tasks::task_key())(od.tasks[a]) != (crate::tasks::task_key())(od.tasks[b]));
                } else if a < lt {
                    assert(nt[a] == nt.take(lt)[a]);
                    assert(nt[lt + (b - lt)] == nt[b]);
                    assert(od.tasks[a].id <= bt);
                } else {
                    assert(nt[lt + (a - lt)] == nt[a]);
                    assert(nt[lt + (b - lt)] == nt[b]);
                }
            }
        }
    }
    Ok(())
}

/// Imports content that parsed as `payload`. An export replaces the data,
/// or with `merge_mode` is merged in with fresh ids; bare data replaces the
/// data and cannot be merged; anything else is refused. On error the data
/// is unchanged.
pub fn import_data(data: &mut RoadmapData, payload: ImportPayload, merge_mode: bool) -> (r: Result<ImportResult, StorageError>)
    ensures
        r is Err ==> final(data)@ == old(data)@,
        match payload {
            ImportPayload::Export(e) => if merge_mode {
                &&& (r is Err <==> (max_project_id(old(data)@.projects) + e.data@.projects.len() > u32::MAX
                    || max_task_id(old(data)@.tasks) + e.data@.tasks.len() > u32::MAX))
                &&& r is Err ==> r == Err::<ImportResult, StorageError>(StorageError::IdsExhausted)
                &&& r matches Ok(res) ==> {
                    &&& merged(old(data)@, e.data@, final(data)@)
                    &&& res.success
                    &&& res.imported_tasks == e.data@.tasks.len()
                    &&& res.imported_projects == e.data@.projects.len()
                    &&& res.message@ == "Successfully merged "@ + decimal(res.imported_tasks as nat) + " tasks and "@
                        + decimal(res.imported_projects as nat) + " projects"@
                    &&& res.export_version == e.version
                    &&& res.export_date == Some(e.export_date)
                }
            } else {
                r matches Ok(res) && final(data)@ == e.data@ && res.success
                    && res.imported_tasks == e.data@.tasks.len()
                    && res.imported_projects == e.data@.projects.len()
                    && res.message@ == "Successfully imported "@ + decimal(res.imported_tasks as nat) + " tasks and "@
                        + decimal(res.imported_projects as nat) + " projects"@
                    && res.export_version == e.version
                    && res.export_date == Some(e.export_date)
            },
            ImportPayload::Plain(d) => if merge_mode {
                r == Err::<ImportResult, StorageError>(StorageError::MergeNotSupported)
            } else {
                r matches Ok(res) && final(data)@ == d@ && res.success
                    && res.imported_tasks == d@.tasks.len()
                    && res.imported_projects == d@.projects.len()
                    && res.message@ == "Successfully imported legacy data: "@ + decimal(res.imported_tasks as nat)
                        + " tasks and "@ + decimal(res.imported_projects as nat) + " projects"@
                    && res.export_version@ == "legacy"@
                    && res.export_date is None
            },
            ImportPayload::Invalid => r == Err::<ImportResult, StorageError>(StorageError::InvalidImport),
        },
{
    match payload {
        ImportPayload::Export(e) => {
            let ExportData { version, export_date, data: incoming } = e;
            let tasks = incoming.tasks.len();
            let projects = incoming.projects.len();
            let mut message;
            if merge_mode {
                match merge_data(data, &incoming) {
                    Ok(()) => {},
                    Err(err) => return Err(err),
                }
                message = "Successfully merged ".to_owned();
            } else {
                *data = incoming;
                message = "Successfully imported ".to_owned();
            }
            message.append(decimal_string(tasks).as_str());
            message.append(" tasks and ");
            message.append(decimal_string(projects).as_str());
            message.append(" projects");
            Ok(ImportResult {
                success: true,
                imported_tasks: tasks,
                imported_projects: projects,
                message,
                export_version: version,
                export_date: Some(export_date),
            })
        },
        ImportPayload::Plain(d) => {
            if merge_mode {
                return Err(StorageError::MergeNotSupported);
            }
            let tasks = d.tasks.len();
            let projects = d.projects.len();
            *data = d;
            let mut message = "Successfully imported legacy data: ".to_owned();
            message.append(decimal_string(tasks).as_str());
            message.append(" tasks and ");
            message.append(decimal_string(projects).as_str());
            message.append(" projects");
            Ok(ImportResult {
                success: true,
                imported_tasks: tasks,
                imported_projects: projects,
                message,
                export_version: "legacy".to_owned(),
                export_date: None,
            })
        },
        ImportPayload::Invalid => Err(StorageError::InvalidImport),
    }
}


/// A dry run of an import: what the content holds, and what is wrong with
/// it. Nothing is changed.
pub fn validate_import_data(payload: &ImportPayload) -> (r: ImportValidation)
    ensures
        match payload {
            ImportPayload::Export(e) => r.valid && r.version == e.version && r.export_date == Some(e.export_date)
                && r.task_count == e.data@.tasks.len() && r.project_count == e.data@.projects.len()
                && r.format_type@ == "export"@ && r.warnings@.len() == 0 && r.errors@.len() == 0,
            ImportPayload::Plain(d) => r.valid && r.version == d.version && r.export_date is None
                && r.task_count == d@.tasks.len() && r.project_count == d@.projects.len()
                && r.format_type@ == "legacy"@ && r.errors@.len() == 0
                && (d.version@ == EXPORT_VERSION@ ==> r.warnings@.len() == 0)
                && (d.version@ != EXPORT_VERSION@ ==> r.warnings@.len() == 1
                    && r.warnings@[0]@ == "Legacy data format detected. Some features may not be available."@),
            ImportPayload::Invalid => !r.valid && r.version@ == "unknown"@ && r.export_date is None
                && r.task_count == 0 && r.project_count == 0 && r.format_type@ == "invalid"@
                && r.warnings@.len() == 0 && r.errors@.len() == 1
                && r.errors@[0]@ == "Invalid JSON format or unrecognized data structure"@,
        },
{
    match payload {
        ImportPayload::Export(e) => ImportValidation {
            valid: true,
            version: e.version.clone(),
            export_date: Some(e.export_date.clone()),
            task_count: e.data.tasks.len(),
            project_count: e.data.projects.len(),
            format_type: "export".to_owned(),
            warnings: Vec::new(),
            errors: Vec::new(),
        },
        ImportPayload::Plain(d) => {
            let mut warnings: Vec<String> = Vec::new();
            if !(d.version == EXPORT_VERSION.to_owned()) {
                warnings.push("Legacy data format detected. Some features may not be available.".to_owned());
            }
            ImportValidation {
                valid: true,
                version: d.version.clone(),
                export_date: None,
                task_count: d.tasks.len(),
                project_count: d.projects.len(),
                format_type: "legacy".to_owned(),
                warnings,
                errors: Vec::new(),
            }
        },
        ImportPayload::Invalid => {
            let mut errors: Vec<String> = Vec::new();
            errors.push("Invalid JSON format or unrecognized data structure".to_owned());
            ImportValidation {
                valid: false,
                version: "unknown".to_owned(),
                export_date: None,
                task_count: 0,
                project_count: 0,
                format_type: "invalid".to_owned(),
                warnings: Vec::new(),
                errors,
            }
        },
    }
}

/// How many tasks have status `s`.
pub open spec fn count_task_status(ts: Seq<TaskView>, s: TaskStatus) -> nat
    decreases ts.len(),
{
    if ts.len() == 0 {
        0
    } else {
        count_task_status(ts.drop_last(), s) + if ts.last().status == s { 1nat } else { 0nat }
    }
}

pub proof fn lemma_count_task_status_bound(ts: Seq<TaskView>, s: TaskStatus)
    ensures
        count_task_status(ts, s) <= ts.len(),
    decreases ts.len(),
{
    if ts.len() > 0 {
        lemma_count_task_status_bound(ts.drop_last(), s);
    }
}

/// The number of tasks, and of tasks in each status.
#[derive(Debug, Clone, Copy, PartialEq, Eq, Structural)]
pub struct TaskCounts {
    pub total: usize,
    pub todo: usize,
    pub in_progress: usize,
    pub done: usize,
}

impl TaskCounts {
    /// The share of tasks that are done, in whole percent rounded down; 0
    /// when there are no tasks.
    pub fn done_percent(&self) -> (r: usize)
        requires
            self.done <= self.total,
        ensures
            self.total == 0 ==> r == 0,
            self.total > 0 ==> r == (self.done as nat * 100) / self.total as nat,
    {
        if self.total == 0 {
            0
        } else {
            let d = self.done as u128;
            let t = self.total as u128;
            assert((d as int * 100) / (t as int) <= 100) by (nonlinear_arith)
                requires
                    d <= t,
                    t > 0,
            ;
            ((d * 100) / t) as usize
        }
    }
}

pub fn count_tasks(tasks: &Vec<Task>) -> (r: TaskCounts)
    ensures
        r.total == tasks@.len(),
        r.todo == count_task_status(tasks_view(tasks@), TaskStatus::Todo),
        r.in_progress == count_task_status(tasks_view(tasks@), TaskStatus::InProgress),
        r.done == count_task_status(tasks_view(tasks@), TaskStatus::Done),
        r.todo + r.in_progress + r.done == r.total,
{
    let ghost ts = tasks_view(tasks@);
    let mut todo: usize = 0;
    let mut in_progress: usize = 0;
    let mut done: usize = 0;
    let mut i: usize = 0;
    while i < tasks.len()
        invariant
            0 <= i <= tasks.len(),
            ts == tasks_view(tasks@),
            todo == count_task_status(ts.take(i as int), TaskStatus::Todo),
            in_progress == count_task_status(ts.take(i as int), TaskStatus::InProgress),
            done == count_task_status(ts.take(i as int), TaskStatus::Done),
            todo + in_progress + done == i,
        decreases tasks.len() - i,
    {
        assert(ts.take(i as int + 1).drop_last() =~= ts.take(i as int));
        assert(ts[i as int] == tasks@[i as int]@);
        match tasks[i].status {
            TaskStatus::Todo => todo += 1,
            TaskStatus::InProgress => in_progress += 1,
            TaskStatus::Done => done += 1,
        }
        i += 1;
    }
    assert(ts.take(ts.len() as int) =~= ts);
    TaskCounts { total: tasks.len(), todo, in_progress, done }
}

/// The counts over the tasks of one project.
pub fn project_task_counts(data: &RoadmapData, project_id: u32) -> (r: TaskCounts)
    ensures
        r.total == data@.tasks.filter(|t: TaskView| t.project_id == project_id).len(),
        r.todo == count_task_status(data@.tasks.filter(|t: TaskView| t.project_id == project_id), TaskStatus::Todo),
        r.in_progress == count_task_status(
            data@.tasks.filter(|t: TaskView| t.project_id == project_id),
            TaskStatus::InProgress,
        ),
        r.done == count_task_status(data@.tasks.filter(|t: TaskView| t.project_id == project_id), TaskStatus::Done),
{
    let tasks = crate::task_store::filter_tasks(&data.tasks, None, Some(project_id));
    assert((|t: TaskView| crate::task_store::task_selected(t, None, Some(project_id))) =~= (|t: TaskView|
        t.project_id == project_id));
    count_tasks(&tasks)
}

/// The tasks that carry a tag with this text, in stored order.
pub fn get_tasks_by_tag(tasks: &Vec<Task>, tag: &String) -> (r: Vec<Task>)
    ensures
        tasks_view(r@) == tasks_view(tasks@).filter(
            |t: TaskView| exists|k: int| 0 <= k < t.tags.len() && (#[trigger] t.tags[k])@ == tag@,
        ),
{
    let ghost ts = tasks_view(tasks@);
    let ghost pred = |t: TaskView| exists|k: int| 0 <= k < t.tags.len() && (#[trigger] t.tags[k])@ == tag@;
    let mut out: Vec<Task> = Vec::new();
    let mut i: usize = 0;
    while i < tasks.len()
        invariant
            0 <= i <= tasks.len(),
            ts == tasks_view(tasks@),
            pred == (|t: TaskView| exists|k: int| 0 <= k < t.tags.len() && (#[trigger] t.tags[k])@ == tag@),
            tasks_view(out@) == ts.take(i as int).filter(pred),
        decreases tasks.len() - i,
    {
        proof {
            assert(ts.take(i as int + 1) =~= ts.take(i as int).push(ts[i as int]));
            ts.take(i as int).lemma_filter_push(ts[i as int], pred);
            assert(ts[i as int] == tasks@[i as int]@);
        }
        let found = crate::tasks::index_of_string(&tasks[i].tags, tag);
        proof {
            if let Some(k) = found {
                assert(ts[i as int].tags[k as int]@ == tag@);
            }
        }
        if found.is_some() {
            let c = tasks[i].clone();
            let ghost before = out@;
            out.push(c);
            assert(tasks_view(out@) =~= tasks_view(before).push(c@));
        }
        i += 1;
    }
    assert(ts.take(ts.len() as int) =~= ts);
    out
}

/// The tasks due on exactly this date text, in stored order.
pub fn get_tasks_by_due_date(tasks: &Vec<Task>, due_date: &String) -> (r: Vec<Task>)
    ensures
        tasks_view(r@) == tasks_view(tasks@).filter(|t: TaskView| t.due_date matches Some(d) && d@ == due_date@),
{
    let ghost ts = tasks_view(tasks@);
    let ghost pred = |t: TaskView| t.due_date matches Some(d) && d@ == due_date@;
    let mut out: Vec<Task> = Vec::new();
    let mut i: usize = 0;
    while i < tasks.len()
        invariant
            0 <= i <= tasks.len(),
            ts == tasks_view(tasks@),
            pred == (|t: TaskView| t.due_date matches Some(d) && d@ == due_date@),
            tasks_view(out@) == ts.take(i as int).filter(pred),
        decreases tasks.len() - i,
    {
        proof {
            assert(ts.take(i as int + 1) =~= ts.take(i as int).push(ts[i as int]));
            ts.take(i as int).lemma_filter_push(ts[i as int], pred);
            assert(ts[i as int] == tasks@[i as int]@);
        }
        let hit = match &tasks[i].due_date {
            Some(d) => *d == *due_date,
            None => false,
        };
        if hit {
            let c = tasks[i].clone();
            let ghost before = out@;
            out.push(c);
            assert(tasks_view(out@) =~= tasks_view(before).push(c@));
        }
        i += 1;
    }
    assert(ts.take(ts.len() as int) =~= ts);
    out
}


/// A task is overdue at `now` when it is not done and its due date names an
/// instant before `now`.
pub open spec fn overdue(t: TaskView, now: Timestamp) -> bool {
    &&& t.status != TaskStatus::Done
    &&& (t.due_date matches Some(d) && (rfc3339_instant(d@) matches Some(due) && earlier(due, now)))
}

/// Whether a task with this status, due at `due` (if it has a readable due
/// date), is overdue at `now`.
pub fn is_overdue(status: TaskStatus, due: Option<Timestamp>, now: Timestamp) -> (r: bool)
    ensures
        r == (status != TaskStatus::Done && (due matches Some(d) && earlier(d, now))),
{
    match due {
        Some(d) => status != TaskStatus::Done && is_earlier(d, now),
        None => false,
    }
}

/// The tasks that are overdue at `now`, in stored order.
pub fn get_overdue_tasks(tasks: &Vec<Task>, now: Timestamp) -> (r: Vec<Task>)
    ensures
        tasks_view(r@) == tasks_view(tasks@).filter(|t: TaskView| overdue(t, now)),
{
    let ghost ts = tasks_view(tasks@);
    let ghost pred = |t: TaskView| overdue(t, now);
    let mut out: Vec<Task> = Vec::new();
    let mut i: usize = 0;
    while i < tasks.len()
        invariant
            0 <= i <= tasks.len(),
            ts == tasks_view(tasks@),
            pred == (|t: TaskView| overdue(t, now)),
            tasks_view(out@) == ts.take(i as int).filter(pred),
        decreases tasks.len() - i,
    {
        proof {
            assert(ts.take(i as int + 1) =~= ts.take(i as int).push(ts[i as int]));
            ts.take(i as int).lemma_filter_push(ts[i as int], pred);
            assert(ts[i as int] == tasks@[i as int]@);
        }
        let due = match &tasks[i].due_date {
            Some(d) => parse_rfc3339(d.as_str()),
            None => None,
        };
        if is_overdue(tasks[i].status, due, now) {
            let c = tasks[i].clone();
            let ghost before = out@;
            out.push(c);
            assert(tasks_view(out@) =~= tasks_view(before).push(c@));
        }
        i += 1;
    }
    assert(ts.take(ts.len() as int) =~= ts);
    out
}

pub open spec fn texts(v: Seq<String>) -> Seq<Seq<char>> {
    v.map_values(|s: String| s@)
}

/// Some task carries a tag with text `x`.
pub open spec fn some_task_tagged(ts: Seq<TaskView>, x: Seq<char>) -> bool {
    exists|i: int, k: int| 0 <= i < ts.len() && 0 <= k < ts[i].tags.len() && (#[trigger] ts[i].tags[k])@ == x
}

/// `a` comes no later than `b` in the order of strings: compared character
/// by character by code point, a prefix first. This is the byte-wise
/// lexicographic order of their UTF-8 encodings, which is how `str` orders.
pub open spec fn text_le(a: Seq<char>, b: Seq<char>) -> bool
    decreases a.len(),
{
    if a.len() == 0 {
        true
    } else if b.len() == 0 {
        false
    } else if a[0] != b[0] {
        (a[0] as u32) < (b[0] as u32)
    } else {
        text_le(a.drop_first(), b.drop_first())
    }
}

pub open spec fn texts_sorted(v: Seq<Seq<char>>) -> bool {
    forall|i: int, j: int| 0 <= i < j < v.len() ==> text_le(#[trigger] v[i], #[trigger] v[j])
}

/// Relies on `slice::sort`: the strings are put in ascending order (the
/// order of `String`, byte-wise lexicographic), which permutes them.
#[verifier::external_body]
fn sort_strings(v: &mut Vec<String>)
    ensures
        texts(final(v)@).to_multiset() == texts(old(v)@).to_multiset(),
        texts_sorted(texts(final(v)@)),
{
    v.sort();
}

/// Every tag text in use, each once, in sorted order.
pub fn get_all_tags(tasks: &Vec<Task>) -> (r: Vec<String>)
    ensures
        forall|x: Seq<char>| texts(r@).contains(x) <==> some_task_tagged(tasks_view(tasks@), x),
        texts(r@).no_duplicates(),
        texts_sorted(texts(r@)),
{
    let ghost ts = tasks_view(tasks@);
    let mut out: Vec<String> = Vec::new();
    let mut i: usize = 0;
    while i < tasks.len()
        invariant
            0 <= i <= tasks.len(),
            ts == tasks_view(tasks@),
            texts(out@).no_duplicates(),
            forall|x: Seq<char>| texts(out@).contains(x) <==> some_task_tagged(ts.take(i as int), x),
        decreases tasks.len() - i,
    {
        assert(ts[i as int] == tasks@[i as int]@);
        let tags = &tasks[i].tags;
        let mut k: usize = 0;
        while k < tags.len()
            invariant
                0 <= i < tasks.len(),
                0 <= k <= tags.len(),
                ts == tasks_view(tasks@),
                *tags == tasks@[i as int].tags,
                ts[i as int].tags == tags@,
                texts(out@).no_duplicates(),
                forall|x: Seq<char>| texts(out@).contains(x) <==> (some_task_tagged(ts.take(i as int), x)
                    || exists|q: int| 0 <= q < k && (#[trigger] tags@[q])@ == x),
            decreases tags.len() - k,
        {
            let ghost before = out@;
            let found = crate::tasks::index_of_string(&out, &tags[k]);
            if found.is_none() {
                out.push(tags[k].clone());
                proof {
                    assert(texts(out@) =~= texts(before).push(tags@[k as int]@));
                    assert(!texts(before).contains(tags@[k as int]@)) by {
                        if texts(before).contains(tags@[k as int]@) {
                            let j = choose|j: int| 0 <= j < texts(before).len() && texts(before)[j] == tags@[k as int]@;
                            assert(before[j]@ == tags@[k as int]@);
                        }
                    }
                    assert forall|a: int, b: int|
                        0 <= a < texts(out@).len() && 0 <= b < texts(out@).len() && a != b implies texts(out@)[a]
                        != texts(out@)[b] by {
                        if a < before.len() && b < before.len() {
                        } else if a < before.len() {
                            assert(texts(before).contains(texts(before)[a]));
                        } else {
                            assert(texts(before).contains(texts(before)[b]));
                        }
                    }
                }
            } else {
                proof {
                    let j = found->0;
                    assert(texts(before)[j as int] == tags@[k as int]@);
                }
            }
            proof {
                assert forall|x: Seq<char>| texts(out@).contains(x) <==> (some_task_tagged(ts.take(i as int), x)
                    || exists|q: int| 0 <= q < k + 1 && (#[trigger] tags@[q])@ == x) by {
                    if texts(out@).contains(x) && !texts(before).contains(x) {
                        let j = choose|j: int| 0 <= j < texts(out@).len() && texts(out@)[j] == x;
                        assert(j == before.len());
                        assert(tags@[k as int]@ == x);
                    }
                    if texts(before).contains(x) {
                        let j = choose|j: int| 0 <= j < texts(before).len() && texts(before)[j] == x;
                        if found is None {
                            assert(texts(out@)[j] == x);
                        }
                    }
                    if tags@[k as int]@ == x {
                        if found is None {
                            assert(texts(out@)[before.len() as int] == x);
                        } else {
                            assert(texts(out@)[found->0 as int] == x);
                        }
                    }
                }
            }
            k += 1;
        }
        proof {
            assert forall|x: Seq<char>| texts(out@).contains(x) <==> some_task_tagged(ts.take(i as int + 1), x) by {
                let tp = ts.take(i as int + 1);
                if some_task_tagged(tp, x) {
                    let (a, b) = choose|a: int, b: int| 0 <= a < tp.len() && 0 <= b < tp[a].tags.len() && (#[trigger] tp[a].tags[b])@ == x;
                    if a < i {
                        assert(ts.take(i as int)[a].tags[b]@ == x);
                    } else {
                        assert(tags@[b]@ == x);
                    }
                }
                if some_task_tagged(ts.take(i as int), x) {
                    let (a, b) = choose|a: int, b: int| 0 <= a < ts.take(i as int).len() && 0 <= b < ts.take(i as int)[a].tags.len() && (#[trigger] ts.take(i as int)[a].tags[b])@ == x;
                    assert(tp[a].tags[b]@ == x);
                }
                if exists|q: int| 0 <= q < tags.len() && (#[trigger] tags@[q])@ == x {
                    let q = choose|q: int| 0 <= q < tags.len() && (#[trigger] tags@[q])@ == x;
                    assert(tp[i as int].tags[q]@ == x);
                }
            }
        }
        i += 1;
    }
    assert(ts.take(ts.len() as int) =~= ts);
    let ghost unsorted = texts(out@);
    sort_strings(&mut out);
    proof {
        unsorted.lemma_multiset_has_no_duplicates();
        unsorted.to_multiset_ensures();
        texts(out@).to_multiset_ensures();
        texts(out@).lemma_multiset_has_no_duplicates_conv();
        assert forall|x: Seq<char>| texts(out@).contains(x) <==> some_task_tagged(ts, x) by {
            assert(texts(out@).to_multiset().count(x) == unsorted.to_multiset().count(x));
            assert(unsorted.contains(x) <==> some_task_tagged(ts.take(ts.len() as int), x));
        }
    }
    out
}

} // verus!
