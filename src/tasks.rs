//! Tasks grouped into projects, and the data file's root record.
use vstd::prelude::*;
use crate::clock::now_rfc3339;

verus! {

#[derive(Clone, Copy, Debug, PartialEq, Eq, Structural)]
pub enum TaskStatus {
    Todo,
    InProgress,
    Done,
}

#[derive(Clone, Copy, Debug, PartialEq, Eq, Structural)]
pub enum TaskPriority {
    Low,
    Medium,
    High,
}

/// The text token of a status, as stored.
pub open spec fn status_token(s: TaskStatus) -> Seq<char> {
    match s {
        TaskStatus::Todo => "todo"@,
        TaskStatus::InProgress => "in-progress"@,
        TaskStatus::Done => "done"@,
    }
}

pub open spec fn priority_token(p: TaskPriority) -> Seq<char> {
    match p {
        TaskPriority::Low => "low"@,
        TaskPriority::Medium => "medium"@,
        TaskPriority::High => "high"@,
    }
}

/// Reads a status token; anything unknown reads as `Todo`.
pub open spec fn status_of_token(s: Seq<char>) -> TaskStatus {
    if s == "in-progress"@ {
        TaskStatus::InProgress
    } else if s == "done"@ {
        TaskStatus::Done
    } else {
        TaskStatus::Todo
    }
}

/// Reads a priority token; anything unknown reads as `Low`.
pub open spec fn priority_of_token(s: Seq<char>) -> TaskPriority {
    if s == "medium"@ {
        TaskPriority::Medium
    } else if s == "high"@ {
        TaskPriority::High
    } else {
        TaskPriority::Low
    }
}

/// The status a task toggles to: todo, in progress, done, and round again.
pub open spec fn next_task_status(s: TaskStatus) -> TaskStatus {
    match s {
        TaskStatus::Todo => TaskStatus::InProgress,
        TaskStatus::InProgress => TaskStatus::Done,
        TaskStatus::Done => TaskStatus::Todo,
    }
}

impl TaskStatus {
    pub fn as_str(&self) -> (r: &'static str)
        ensures
            r@ == status_token(*self),
    {
        match self {
            TaskStatus::Todo => "todo",
            TaskStatus::InProgress => "in-progress",
            TaskStatus::Done => "done",
        }
    }

    pub fn from(s: &str) -> (r: TaskStatus)
        ensures
            r == status_of_token(s@),
    {
        let owned = s.to_owned();
        if owned == "in-progress".to_owned() {
            TaskStatus::InProgress
        } else if owned == "done".to_owned() {
            TaskStatus::Done
        } else {
            TaskStatus::Todo
        }
    }

    pub fn next(&self) -> (r: TaskStatus)
        ensures
            r == next_task_status(*self),
    {
        match self {
            TaskStatus::Todo => TaskStatus::InProgress,
            TaskStatus::InProgress => TaskStatus::Done,
            TaskStatus::Done => TaskStatus::Todo,
        }
    }
}

impl TaskPriority {
    pub fn as_str(&self) -> (r: &'static str)
        ensures
            r@ == priority_token(*self),
    {
        match self {
            TaskPriority::Low => "low",
            TaskPriority::Medium => "medium",
            TaskPriority::High => "high",
        }
    }

    pub fn from(s: &str) -> (r: TaskPriority)
        ensures
            r == priority_of_token(s@),
    {
        let owned = s.to_owned();
        if owned == "medium".to_owned() {
            TaskPriority::Medium
        } else if owned == "high".to_owned() {
            TaskPriority::High
        } else {
            TaskPriority::Low
        }
    }
}

#[derive(Debug)]
pub struct Subtask {
    pub id: u32,
    pub title: String,
    pub completed: bool,
    pub created_at: String,
}

impl Clone for Subtask {
    fn clone(&self) -> (r: Self)
        ensures
            r == *self,
    {
        Subtask {
            id: self.id,
            title: self.title.clone(),
            completed: self.completed,
            created_at: self.created_at.clone(),
        }
    }
}

#[derive(Debug)]
pub struct Comment {
    pub id: u32,
    pub text: String,
    pub author: String,
    pub created_at: String,
}

impl Clone for Comment {
    fn clone(&self) -> (r: Self)
        ensures
            r == *self,
    {
        Comment {
            id: self.id,
            text: self.text.clone(),
            author: self.author.clone(),
            created_at: self.created_at.clone(),
        }
    }
}

#[derive(Debug)]
pub struct Attachment {
    pub id: u32,
    pub filename: String,
    pub file_path: String,
    pub file_size: u64,
    pub mime_type: String,
    pub created_at: String,
}

impl Clone for Attachment {
    fn clone(&self) -> (r: Self)
        ensures
            r == *self,
    {
        Attachment {
            id: self.id,
            filename: self.filename.clone(),
            file_path: self.file_path.clone(),
            file_size: self.file_size,
            mime_type: self.mime_type.clone(),
            created_at: self.created_at.clone(),
        }
    }
}

pub fn clone_opt_string(s: &Option<String>) -> (r: Option<String>)
    ensures
        r == *s,
{
    match s {
        Some(x) => Some(x.clone()),
        None => None,
    }
}

pub fn clone_strings(v: &Vec<String>) -> (r: Vec<String>)
    ensures
        r@ == v@,
{
    let r = v.clone();
    assert forall|i| 0 <= i < r.len() implies r@[i] == v@[i] by {
        assert(cloned::<String>(v[i], r[i]));
    }
    assert(r@ =~= v@);
    r
}

pub fn clone_subtasks(v: &Vec<Subtask>) -> (r: Vec<Subtask>)
    ensures
        r@ == v@,
{
    let r = v.clone();
    assert forall|i| 0 <= i < r.len() implies r@[i] == v@[i] by {
        assert(cloned::<Subtask>(v[i], r[i]));
    }
    assert(r@ =~= v@);
    r
}

pub fn clone_comments(v: &Vec<Comment>) -> (r: Vec<Comment>)
    ensures
        r@ == v@,
{
    let r = v.clone();
    assert forall|i| 0 <= i < r.len() implies r@[i] == v@[i] by {
        assert(cloned::<Comment>(v[i], r[i]));
    }
    assert(r@ =~= v@);
    r
}

pub fn clone_attachments(v: &Vec<Attachment>) -> (r: Vec<Attachment>)
    ensures
        r@ == v@,
{
    let r = v.clone();
    assert forall|i| 0 <= i < r.len() implies r@[i] == v@[i] by {
        assert(cloned::<Attachment>(v[i], r[i]));
    }
    assert(r@ =~= v@);
    r
}

#[derive(Debug)]
pub struct Task {
    pub id: u32,
    pub project_id: u32,
    pub title: String,
    pub description: String,
    pub status: TaskStatus,
    pub priority: TaskPriority,
    pub created_at: String,
    pub updated_at: String,
    pub due_date: Option<String>,
    pub tags: Vec<String>,
    pub subtasks: Vec<Subtask>,
    pub comments: Vec<Comment>,
    pub time_spent: u32,
    pub estimated_time: Option<u32>,
    pub attachments: Vec<Attachment>,
}

pub struct TaskView {
    pub id: u32,
    pub project_id: u32,
    pub title: String,
    pub description: String,
    pub status: TaskStatus,
    pub priority: TaskPriority,
    pub created_at: String,
    pub updated_at: String,
    pub due_date: Option<String>,
    pub tags: Seq<String>,
    pub subtasks: Seq<Subtask>,
    pub comments: Seq<Comment>,
    pub time_spent: u32,
    pub estimated_time: Option<u32>,
    pub attachments: Seq<Attachment>,
}

impl View for Task {
    type V = TaskView;

    open spec fn view(&self) -> TaskView {
        TaskView {
            id: self.id,
            project_id: self.project_id,
            title: self.title,
            description: self.description,
            status: self.status,
            priority: self.priority,
            created_at: self.created_at,
            updated_at: self.updated_at,
            due_date: self.due_date,
            tags: self.tags@,
            subtasks: self.subtasks@,
            comments: self.comments@,
            time_spent: self.time_spent,
            estimated_time: self.estimated_time,
            attachments: self.attachments@,
        }
    }
}

impl Clone for Task {
    fn clone(&self) -> (r: Self)
        ensures
            r@ == self@,
    {
        Task {
            id: self.id,
            project_id: self.project_id,
            title: self.title.clone(),
            description: self.description.clone(),
            status: self.status,
            priority: self.priority,
            created_at: self.created_at.clone(),
            updated_at: self.updated_at.clone(),
            due_date: clone_opt_string(&self.due_date),
            tags: clone_strings(&self.tags),
            subtasks: clone_subtasks(&self.subtasks),
            comments: clone_comments(&self.comments),
            time_spent: self.time_spent,
            estimated_time: self.estimated_time,
            attachments: clone_attachments(&self.attachments),
        }
    }
}

/// The position of the first string equal to `x`, if any.
pub fn index_of_string(v: &Vec<String>, x: &String) -> (r: Option<usize>)
    ensures
        match r {
            Some(i) => i < v@.len() && v@[i as int]@ == x@,
            None => forall|j: int| 0 <= j < v@.len() ==> (#[trigger] v@[j])@ != x@,
        },
{
    let mut i: usize = 0;
    while i < v.len()
        invariant
            0 <= i <= v.len(),
            forall|j: int| 0 <= j < i ==> (#[trigger] v@[j])@ != x@,
        decreases v.len() - i,
    {
        if v[i] == *x {
            return Some(i);
        }
        i += 1;
    }
    None
}

/// `tags` without the entries whose text is `tag`, order kept.
pub open spec fn without_tag(tags: Seq<String>, tag: Seq<char>) -> Seq<String> {
    tags.filter(|t: String| t@ != tag)
}

/// The largest id among the subtasks, or 0 when there are none.
pub open spec fn max_subtask_id(s: Seq<Subtask>) -> nat
    decreases s.len(),
{
    if s.len() == 0 {
        0
    } else {
        let rest = max_subtask_id(s.drop_last());
        if s.last().id > rest { s.last().id as nat } else { rest }
    }
}

/// The largest id among the comments, or 0 when there are none.
pub open spec fn max_comment_id(s: Seq<Comment>) -> nat
    decreases s.len(),
{
    if s.len() == 0 {
        0
    } else {
        let rest = max_comment_id(s.drop_last());
        if s.last().id > rest { s.last().id as nat } else { rest }
    }
}

impl Task {
    pub fn new(id: u32, project_id: u32, title: String, description: String) -> (r: Task)
        ensures
            r.id == id,
            r.project_id == project_id,
            r.title == title,
            r.description == description,
            r.status == TaskStatus::Todo,
            r.priority == TaskPriority::Medium,
            r.created_at == r.updated_at,
            r.due_date is None,
            r.tags@.len() == 0,
            r.subtasks@.len() == 0,
            r.comments@.len() == 0,
            r.time_spent == 0,
            r.estimated_time is None,
            r.attachments@.len() == 0,
    {
        let t = now_rfc3339();
        Task {
            id,
            project_id,
            title,
            description,
            status: TaskStatus::Todo,
            priority: TaskPriority::Medium,
            created_at: t.clone(),
            updated_at: t,
            due_date: None,
            tags: Vec::new(),
            subtasks: Vec::new(),
            comments: Vec::new(),
            time_spent: 0,
            estimated_time: None,
            attachments: Vec::new(),
        }
    }

    pub fn update_status(&mut self, status: TaskStatus)
        ensures
            final(self)@ == (TaskView { status, updated_at: final(self).updated_at, ..old(self)@ }),
    {
        self.status = status;
        self.updated_at = now_rfc3339();
    }

    pub fn update_priority(&mut self, priority: TaskPriority)
        ensures
            final(self)@ == (TaskView { priority, updated_at: final(self).updated_at, ..old(self)@ }),
    {
        self.priority = priority;
        self.updated_at = now_rfc3339();
    }

    pub fn update_content(&mut self, title: String, description: String)
        ensures
            final(self)@ == (TaskView { title, description, updated_at: final(self).updated_at, ..old(self)@ }),
    {
        self.title = title;
        self.description = description;
        self.updated_at = now_rfc3339();
    }

    pub fn set_due_date(&mut self, due_date: Option<String>)
        ensures
            final(self)@ == (TaskView { due_date, updated_at: final(self).updated_at, ..old(self)@ }),
    {
        self.due_date = due_date;
        self.updated_at = now_rfc3339();
    }

    /// Adds a tag unless one with the same text is there already; in that
    /// case nothing changes, the update time included.
    pub fn add_tag(&mut self, tag: String)
        ensures
            (exists|i: int| 0 <= i < old(self).tags@.len() && (#[trigger] old(self).tags@[i])@ == tag@)
                ==> final(self)@ == old(self)@,
            !(exists|i: int| 0 <= i < old(self).tags@.len() && (#[trigger] old(self).tags@[i])@ == tag@)
                ==> final(self)@ == (TaskView {
                    tags: old(self).tags@.push(tag),
                    updated_at: final(self).updated_at,
                    ..old(self)@
                }),
    {
        match index_of_string(&self.tags, &tag) {
            Some(_) => {},
            None => {
                self.tags.push(tag);
                self.updated_at = now_rfc3339();
            },
        }
    }

    /// Removes every tag with this text. When there is none, nothing
    /// changes, the update time included.
    pub fn remove_tag(&mut self, tag: &str)
        ensures
            !(exists|i: int| 0 <= i < old(self).tags@.len() && (#[trigger] old(self).tags@[i])@ == tag@)
                ==> final(self)@ == old(self)@,
            (exists|i: int| 0 <= i < old(self).tags@.len() && (#[trigger] old(self).tags@[i])@ == tag@)
                ==> final(self)@ == (TaskView {
                    tags: without_tag(old(self).tags@, tag@),
                    updated_at: final(self).updated_at,
                    ..old(self)@
                }),
    {
        let target = tag.to_owned();
        assert(target@ == tag@);
        if index_of_string(&self.tags, &target).is_none() {
            return;
        }
        let ghost ot = self.tags@;
        let mut kept: Vec<String> = Vec::new();
        let mut i: usize = 0;
        while i < self.tags.len()
            invariant
                0 <= i <= self.tags.len(),
                self.tags@ == ot,
                target@ == tag@,
                kept@ == without_tag(ot.take(i as int), tag@),
            decreases self.tags.len() - i,
        {
            proof {
                assert(ot.take(i as int + 1) =~= ot.take(i as int).push(ot[i as int]));
                ot.take(i as int).lemma_filter_push(ot[i as int], |t: String| t@ != tag@);
            }
            let same = self.tags[i] == target;
            assert(same == (ot[i as int]@ == tag@));
            if !same {
                let c = self.tags[i].clone();
                kept.push(c);
                assert(kept@ =~= without_tag(ot.take(i as int), tag@).push(ot[i as int]));
            }
            i += 1;
        }
        assert(ot.take(ot.len() as int) =~= ot);
        self.tags = kept;
        self.updated_at = now_rfc3339();
    }

    pub fn add_subtask(&mut self, id: u32, title: String)
        ensures
            final(self)@ == (TaskView {
                subtasks: old(self).subtasks@.push(Subtask {
                    id,
                    title,
                    completed: false,
                    created_at: final(self).subtasks@.last().created_at,
                }),
                updated_at: final(self).updated_at,
                ..old(self)@
            }),
    {
        let subtask = Subtask { id, title, completed: false, created_at: now_rfc3339() };
        self.subtasks.push(subtask);
        self.updated_at = now_rfc3339();
    }

    /// Flips the completion of the first subtask with this id; with no such
    /// subtask nothing changes.
    pub fn toggle_subtask(&mut self, subtask_id: u32)
        ensures
            final(self)@ == (TaskView {
                subtasks: final(self).subtasks@,
                updated_at: final(self).updated_at,
                ..old(self)@
            }),
            (forall|j: int| 0 <= j < old(self).subtasks@.len() ==> (#[trigger] old(self).subtasks@[j]).id != subtask_id)
                ==> final(self)@ == old(self)@,
            forall|i: int|
                0 <= i < old(self).subtasks@.len() && (#[trigger] old(self).subtasks@[i]).id == subtask_id
                    && (forall|j: int| 0 <= j < i ==> (#[trigger] old(self).subtasks@[j]).id != subtask_id)
                    ==> final(self)@ == (TaskView {
                        subtasks: old(self).subtasks@.update(
                            i,
                            Subtask { completed: !old(self).subtasks@[i].completed, ..old(self).subtasks@[i] },
                        ),
                        updated_at: final(self).updated_at,
                        ..old(self)@
                    }),
    {
        let mut i: usize = 0;
        while i < self.subtasks.len()
            invariant
                0 <= i <= self.subtasks.len(),
                *self == *old(self),
                forall|j: int| 0 <= j < i ==> (#[trigger] self.subtasks@[j]).id != subtask_id,
            decreases self.subtasks.len() - i,
        {
            if self.subtasks[i].id == subtask_id {
                let mut s = self.subtasks[i].clone();
                s.completed = !s.completed;
                self.subtasks.set(i, s);
                self.updated_at = now_rfc3339();
                return;
            }
            i += 1;
        }
    }

    pub fn add_comment(&mut self, id: u32, text: String, author: String)
        ensures
            final(self)@ == (TaskView {
                comments: old(self).comments@.push(Comment {
                    id,
                    text,
                    author,
                    created_at: final(self).comments@.last().created_at,
                }),
                updated_at: final(self).updated_at,
                ..old(self)@
            }),
    {
        let comment = Comment { id, text, author, created_at: now_rfc3339() };
        self.comments.push(comment);
        self.updated_at = now_rfc3339();
    }

    pub fn add_time(&mut self, minutes: u32)
        requires
            old(self).time_spent + minutes <= u32::MAX,
        ensures
            final(self)@ == (TaskView {
                time_spent: (old(self).time_spent + minutes) as u32,
                updated_at: final(self).updated_at,
                ..old(self)@
            }),
    {
        self.time_spent = self.time_spent + minutes;
        self.updated_at = now_rfc3339();
    }

    pub fn set_estimated_time(&mut self, minutes: Option<u32>)
        ensures
            final(self)@ == (TaskView { estimated_time: minutes, updated_at: final(self).updated_at, ..old(self)@ }),
    {
        self.estimated_time = minutes;
        self.updated_at = now_rfc3339();
    }

    /// The id for a new subtask: one more than the largest in use.
    pub fn next_subtask_id(&self) -> (r: Option<u32>)
        ensures
            max_subtask_id(self.subtasks@) + 1 <= u32::MAX ==> r == Some((max_subtask_id(self.subtasks@) + 1) as u32),
            max_subtask_id(self.subtasks@) + 1 > u32::MAX ==> r is None,
    {
        let ghost s = self.subtasks@;
        let mut best: u32 = 0;
        let mut i: usize = 0;
        while i < self.subtasks.len()
            invariant
                0 <= i <= self.subtasks.len(),
                s == self.subtasks@,
                best == max_subtask_id(s.take(i as int)),
            decreases self.subtasks.len() - i,
        {
            assert(s.take(i as int + 1).drop_last() =~= s.take(i as int));
            if self.subtasks[i].id > best {
                best = self.subtasks[i].id;
            }
            i += 1;
        }
        assert(s.take(s.len() as int) =~= s);
        best.checked_add(1)
    }

    /// The id for a new comment: one more than the largest in use.
    pub fn next_comment_id(&self) -> (r: Option<u32>)
        ensures
            max_comment_id(self.comments@) + 1 <= u32::MAX ==> r == Some((max_comment_id(self.comments@) + 1) as u32),
            max_comment_id(self.comments@) + 1 > u32::MAX ==> r is None,
    {
        let ghost s = self.comments@;
        let mut best: u32 = 0;
        let mut i: usize = 0;
        while i < self.comments.len()
            invariant
                0 <= i <= self.comments.len(),
                s == self.comments@,
                best == max_comment_id(s.take(i as int)),
            decreases self.comments.len() - i,
        {
            assert(s.take(i as int + 1).drop_last() =~= s.take(i as int));
            if self.comments[i].id > best {
                best = self.comments[i].id;
            }
            i += 1;
        }
        assert(s.take(s.len() as int) =~= s);
        best.checked_add(1)
    }
}


#[derive(Debug)]
pub struct TaskTemplate {
    pub title_prefix: Option<String>,
    pub default_description: Option<String>,
    pub default_tags: Vec<String>,
    pub default_estimated_time: Option<u32>,
}

pub struct TaskTemplateView {
    pub title_prefix: Option<String>,
    pub default_description: Option<String>,
    pub default_tags: Seq<String>,
    pub default_estimated_time: Option<u32>,
}

impl View for TaskTemplate {
    type V = TaskTemplateView;

    open spec fn view(&self) -> TaskTemplateView {
        TaskTemplateView {
            title_prefix: self.title_prefix,
            default_description: self.default_description,
            default_tags: self.default_tags@,
            default_estimated_time: self.default_estimated_time,
        }
    }
}

impl Clone for TaskTemplate {
    fn clone(&self) -> (r: Self)
        ensures
            r@ == self@,
    {
        TaskTemplate {
            title_prefix: clone_opt_string(&self.title_prefix),
            default_description: clone_opt_string(&self.default_description),
            default_tags: clone_strings(&self.default_tags),
            default_estimated_time: self.default_estimated_time,
        }
    }
}

#[derive(Debug)]
pub struct ProjectSettings {
    pub task_template: Option<TaskTemplate>,
    pub default_priority: TaskPriority,
    pub auto_archive_done: bool,
    pub show_completed_tasks: bool,
    pub default_tags: Vec<String>,
}

pub struct ProjectSettingsView {
    pub task_template: Option<TaskTemplateView>,
    pub default_priority: TaskPriority,
    pub auto_archive_done: bool,
    pub show_completed_tasks: bool,
    pub default_tags: Seq<String>,
}

impl View for ProjectSettings {
    type V = ProjectSettingsView;

    open spec fn view(&self) -> ProjectSettingsView {
        ProjectSettingsView {
            task_template: match self.task_template {
                Some(t) => Some(t@),
                None => None,
            },
            default_priority: self.default_priority,
            auto_archive_done: self.auto_archive_done,
            show_completed_tasks: self.show_completed_tasks,
            default_tags: self.default_tags@,
        }
    }
}

impl Clone for ProjectSettings {
    fn clone(&self) -> (r: Self)
        ensures
            r@ == self@,
    {
        let task_template = match &self.task_template {
            Some(t) => Some(t.clone()),
            None => None,
        };
        ProjectSettings {
            task_template,
            default_priority: self.default_priority,
            auto_archive_done: self.auto_archive_done,
            show_completed_tasks: self.show_completed_tasks,
            default_tags: clone_strings(&self.default_tags),
        }
    }
}

/// The settings a new project starts with.
pub open spec fn default_settings() -> ProjectSettingsView {
    ProjectSettingsView {
        task_template: None,
        default_priority: TaskPriority::Medium,
        auto_archive_done: false,
        show_completed_tasks: true,
        default_tags: Seq::empty(),
    }
}

impl Default for ProjectSettings {
    fn default() -> (r: Self)
        ensures
            r@ == default_settings(),
    {
        let r = ProjectSettings {
            task_template: None,
            default_priority: TaskPriority::Medium,
            auto_archive_done: false,
            show_completed_tasks: true,
            default_tags: Vec::new(),
        };
        assert(r@.default_tags =~= Seq::<String>::empty());
        r
    }
}

#[derive(Debug)]
pub struct Project {
    pub id: u32,
    pub name: String,
    pub description: Option<String>,
    pub color: Option<String>,
    pub icon: Option<String>,
    pub created_at: String,
    pub updated_at: String,
    pub is_active: bool,
    pub task_count: u32,
    pub settings: ProjectSettings,
}

pub struct ProjectView {
    pub id: u32,
    pub name: String,
    pub description: Option<String>,
    pub color: Option<String>,
    pub icon: Option<String>,
    pub created_at: String,
    pub updated_at: String,
    pub is_active: bool,
    pub task_count: u32,
    pub settings: ProjectSettingsView,
}

impl View for Project {
    type V = ProjectView;

    open spec fn view(&self) -> ProjectView {
        ProjectView {
            id: self.id,
            name: self.name,
            description: self.description,
            color: self.color,
            icon: self.icon,
            created_at: self.created_at,
            updated_at: self.updated_at,
            is_active: self.is_active,
            task_count: self.task_count,
            settings: self.settings@,
        }
    }
}

impl Clone for Project {
    fn clone(&self) -> (r: Self)
        ensures
            r@ == self@,
    {
        Project {
            id: self.id,
            name: self.name.clone(),
            description: clone_opt_string(&self.description),
            color: clone_opt_string(&self.color),
            icon: clone_opt_string(&self.icon),
            created_at: self.created_at.clone(),
            updated_at: self.updated_at.clone(),
            is_active: self.is_active,
            task_count: self.task_count,
            settings: self.settings.clone(),
        }
    }
}

/// `new` keeps `old` where `new` is absent.
pub open spec fn or_keep<T>(new: Option<T>, old: T) -> T {
    match new {
        Some(v) => v,
        None => old,
    }
}

/// `new` replaces `old` where `new` is given.
pub open spec fn or_keep_opt<T>(new: Option<T>, old: Option<T>) -> Option<T> {
    match new {
        Some(v) => Some(v),
        None => old,
    }
}

impl ProjectView {
    /// A freshly made project with this id, name, description, color and icon.
    pub open spec fn is_fresh(self, id: u32, name: String, description: Option<String>, color: Option<String>, icon: Option<String>) -> bool {
        &&& self.id == id
        &&& self.name == name
        &&& self.description == description
        &&& self.color == color
        &&& self.icon == icon
        &&& self.created_at == self.updated_at
        &&& self.is_active
        &&& self.task_count == 0
        &&& self.settings == default_settings()
    }
}

impl Project {
    pub fn new(id: u32, name: String) -> (r: Project)
        ensures
            r@.is_fresh(id, name, None, None, None),
    {
        let t = now_rfc3339();
        Project {
            id,
            name,
            description: None,
            color: None,
            icon: None,
            created_at: t.clone(),
            updated_at: t,
            is_active: true,
            task_count: 0,
            settings: ProjectSettings::default(),
        }
    }

    /// A new project; an empty description is stored as none.
    pub fn new_with_details(
        id: u32,
        name: String,
        description: String,
        color: Option<String>,
        icon: Option<String>,
    ) -> (r: Project)
        ensures
            r@.is_fresh(
                id,
                name,
                if description@.len() == 0 { None } else { Some(description) },
                color,
                icon,
            ),
    {
        let t = now_rfc3339();
        let description = if description.as_str().is_empty() {
            None
        } else {
            Some(description)
        };
        Project {
            id,
            name,
            description,
            color,
            icon,
            created_at: t.clone(),
            updated_at: t,
            is_active: true,
            task_count: 0,
            settings: ProjectSettings::default(),
        }
    }

    /// Replaces each field that is given; the others stay.
    pub fn update_info(
        &mut self,
        name: Option<String>,
        description: Option<String>,
        color: Option<String>,
        icon: Option<String>,
    )
        ensures
            final(self)@ == (ProjectView {
                name: or_keep(name, old(self).name),
                description: or_keep_opt(description, old(self).description),
                color: or_keep_opt(color, old(self).color),
                icon: or_keep_opt(icon, old(self).icon),
                updated_at: final(self).updated_at,
                ..old(self)@
            }),
    {
        if let Some(name) = name {
            self.name = name;
        }
        if let Some(description) = description {
            self.description = Some(description);
        }
        if let Some(color) = color {
            self.color = Some(color);
        }
        if let Some(icon) = icon {
            self.icon = Some(icon);
        }
        self.updated_at = now_rfc3339();
    }

    pub fn update_task_count(&mut self, count: u32)
        ensures
            final(self)@ == (ProjectView { task_count: count, updated_at: final(self).updated_at, ..old(self)@ }),
    {
        self.task_count = count;
        self.updated_at = now_rfc3339();
    }

    pub fn toggle_active(&mut self)
        ensures
            final(self)@ == (ProjectView {
                is_active: !old(self).is_active,
                updated_at: final(self).updated_at,
                ..old(self)@
            }),
    {
        self.is_active = !self.is_active;
        self.updated_at = now_rfc3339();
    }
}

/// The schema version that this library writes.
pub const CURRENT_VERSION: &'static str = "1.0.0";

/// The root record of the data file.
#[derive(Debug)]
pub struct RoadmapData {
    pub tasks: Vec<Task>,
    pub projects: Vec<Project>,
    pub current_project_id: Option<u32>,
    pub theme: Option<String>,
    pub version: String,
}

pub struct RoadmapDataView {
    pub tasks: Seq<TaskView>,
    pub projects: Seq<ProjectView>,
    pub current_project_id: Option<u32>,
    pub theme: Option<String>,
    pub version: Seq<char>,
}

pub open spec fn tasks_view(v: Seq<Task>) -> Seq<TaskView> {
    v.map_values(|t: Task| t@)
}

pub open spec fn projects_view(v: Seq<Project>) -> Seq<ProjectView> {
    v.map_values(|p: Project| p@)
}

impl View for RoadmapData {
    type V = RoadmapDataView;

    open spec fn view(&self) -> RoadmapDataView {
        RoadmapDataView {
            tasks: tasks_view(self.tasks@),
            projects: projects_view(self.projects@),
            current_project_id: self.current_project_id,
            theme: self.theme,
            version: self.version@,
        }
    }
}

pub fn clone_tasks(v: &Vec<Task>) -> (r: Vec<Task>)
    ensures
        tasks_view(r@) == tasks_view(v@),
{
    let mut out: Vec<Task> = Vec::new();
    let mut i: usize = 0;
    while i < v.len()
        invariant
            0 <= i <= v.len(),
            tasks_view(out@) =~= tasks_view(v@).take(i as int),
        decreases v.len() - i,
    {
        let c = v[i].clone();
        let ghost before = out@;
        out.push(c);
        assert(tasks_view(out@) =~= tasks_view(before).push(c@));
        i += 1;
    }
    assert(tasks_view(v@).take(v.len() as int) =~= tasks_view(v@));
    out
}

pub fn clone_projects(v: &Vec<Project>) -> (r: Vec<Project>)
    ensures
        projects_view(r@) == projects_view(v@),
{
    let mut out: Vec<Project> = Vec::new();
    let mut i: usize = 0;
    while i < v.len()
        invariant
            0 <= i <= v.len(),
            projects_view(out@) =~= projects_view(v@).take(i as int),
        decreases v.len() - i,
    {
        let c = v[i].clone();
        let ghost before = out@;
        out.push(c);
        assert(projects_view(out@) =~= projects_view(before).push(c@));
        i += 1;
    }
    assert(projects_view(v@).take(v.len() as int) =~= projects_view(v@));
    out
}

impl Clone for RoadmapData {
    fn clone(&self) -> (r: Self)
        ensures
            r@ == self@,
    {
        RoadmapData {
            tasks: clone_tasks(&self.tasks),
            projects: clone_projects(&self.projects),
            current_project_id: self.current_project_id,
            theme: clone_opt_string(&self.theme),
            version: self.version.clone(),
        }
    }
}

/// No two entries of `s` have the same key.
pub open spec fn keys_distinct<A, K>(s: Seq<A>, key: spec_fn(A) -> K) -> bool {
    forall|i: int, j: int| 0 <= i < j < s.len() ==> key(#[trigger] s[i]) != key(#[trigger] s[j])
}

/// Keeping some entries of a sequence whose keys are distinct leaves the
/// keys distinct.
pub proof fn lemma_filter_keeps_keys_distinct<A, K>(s: Seq<A>, keep: spec_fn(A) -> bool, key: spec_fn(A) -> K)
    requires
        keys_distinct(s, key),
    ensures
        keys_distinct(s.filter(keep), key),
    decreases s.len(),
{
    reveal(Seq::filter);
    if s.len() > 0 {
        let d = s.drop_last();
        assert(keys_distinct(d, key)) by {
            assert forall|i: int, j: int| 0 <= i < j < d.len() implies key(#[trigger] d[i]) != key(#[trigger] d[j]) by {
                assert(d[i] == s[i] && d[j] == s[j]);
            }
        }
        lemma_filter_keeps_keys_distinct(d, keep, key);
        let f = d.filter(keep);
        if keep(s.last()) {
            assert forall|i: int, j: int| 0 <= i < j < f.len() + 1 implies key(#[trigger] f.push(s.last())[i])
                != key(#[trigger] f.push(s.last())[j]) by {
                if j == f.len() {
                    assert(f.contains(f[i]));
                    d.lemma_filter_contains_rev(keep, f[i]);
                    let k = choose|k: int| 0 <= k < d.len() && d[k] == f[i];
                    assert(s[k] == d[k]);
                    assert(s[s.len() - 1] == s.last());
                } else {
                    assert(f.push(s.last())[i] == f[i] && f.push(s.last())[j] == f[j]);
                }
            }
        }
    }
}

/// Giving entries new values with the same keys leaves the keys distinct.
pub proof fn lemma_same_keys_distinct<A, K>(s: Seq<A>, t: Seq<A>, key: spec_fn(A) -> K)
    requires
        keys_distinct(s, key),
        t.len() == s.len(),
        forall|i: int| 0 <= i < s.len() ==> key(#[trigger] t[i]) == key(s[i]),
    ensures
        keys_distinct(t, key),
{
    assert forall|i: int, j: int| 0 <= i < j < t.len() implies key(#[trigger] t[i]) != key(#[trigger] t[j]) by {
        assert(key(s[i]) != key(s[j]));
    }
}

pub open spec fn task_key() -> spec_fn(TaskView) -> u32 {
    |t: TaskView| t.id
}

pub open spec fn project_key() -> spec_fn(ProjectView) -> u32 {
    |p: ProjectView| p.id
}

impl RoadmapDataView {
    /// No two tasks share an id, and no two projects do.
    pub open spec fn ids_unique(self) -> bool {
        &&& keys_distinct(self.tasks, task_key())
        &&& keys_distinct(self.projects, project_key())
    }

    /// No project has id 0, the mark of a task that belongs to no project.
    pub open spec fn projects_nonzero(self) -> bool {
        forall|i: int| 0 <= i < self.projects.len() ==> (#[trigger] self.projects[i]).id != 0
    }

    /// The current project, if any, is one of the projects.
    pub open spec fn current_valid(self) -> bool {
        self.current_project_id matches Some(c) ==> exists|i: int| 0 <= i < self.projects.len() && (#[trigger] self.projects[i]).id == c
    }

    /// Data as a fresh file holds it: no tasks, one default project with id 1
    /// that is current, the light theme and the current version.
    pub open spec fn is_fresh_default(self) -> bool {
        &&& self.tasks.len() == 0
        &&& self.projects.len() == 1
        &&& self.projects[0].is_fresh(1, self.projects[0].name, None, None, None)
        &&& self.projects[0].name@ == "Default Project"@
        &&& self.current_project_id == Some(1u32)
        &&& self.theme matches Some(t) && t@ == "light"@
        &&& self.version == CURRENT_VERSION@
    }
}

impl Default for RoadmapData {
    fn default() -> (r: Self)
        ensures
            r@.is_fresh_default(),
            r@.ids_unique(),
            r@.current_valid(),
            r@.projects_nonzero(),
    {
        let project = Project::new(1, "Default Project".to_owned());
        let mut projects: Vec<Project> = Vec::new();
        projects.push(project);
        let r = RoadmapData {
            tasks: Vec::new(),
            projects,
            current_project_id: Some(1),
            theme: Some("light".to_owned()),
            version: CURRENT_VERSION.to_owned(),
        };
        assert(r@.tasks =~= Seq::<TaskView>::empty());
        assert(r@.projects[0] == project@);
        assert(r@.projects[0].id == 1);
        r
    }
}

#[derive(Debug)]
pub struct TaskCreateRequest {
    pub title: String,
    pub description: String,
    pub project_id: Option<u32>,
    pub priority: Option<TaskPriority>,
    pub due_date: Option<String>,
    pub tags: Option<Vec<String>>,
    pub estimated_time: Option<u32>,
}

#[derive(Debug)]
pub struct TaskUpdateRequest {
    pub id: u32,
    pub title: Option<String>,
    pub description: Option<String>,
    pub status: Option<TaskStatus>,
    pub priority: Option<TaskPriority>,
    pub due_date: Option<Option<String>>,
    pub tags: Option<Vec<String>>,
    pub estimated_time: Option<Option<u32>>,
}

#[derive(Debug)]
pub struct ProjectCreateRequest {
    pub name: String,
    pub description: Option<String>,
    pub color: Option<String>,
    pub icon: Option<String>,
}

#[derive(Debug)]
pub struct ProjectUpdateRequest {
    pub id: u32,
    pub name: Option<String>,
    pub description: Option<String>,
    pub color: Option<String>,
    pub icon: Option<String>,
    pub settings: Option<ProjectSettings>,
}

} // verus!
