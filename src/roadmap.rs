//! Milestones grouped into folders, and the roadmap that holds them.
use vstd::prelude::*;
use crate::clock::{earlier, now, now_not_before, random_id, Timestamp};
use crate::tasks::{clone_strings, keys_distinct, lemma_filter_keeps_keys_distinct, lemma_same_keys_distinct};
use crate::id_list::{
    contains_id, lemma_push_contains, lemma_push_no_dup, lemma_without, lemma_without_absent, remove_id, without,
};

verus! {

#[derive(Clone, Copy, Debug, PartialEq, Eq, Structural)]
pub enum Priority {
    Low,
    Medium,
    High,
    Critical,
}

#[derive(Clone, Copy, Debug, PartialEq, Eq, Structural)]
pub enum Status {
    NotStarted,
    InProgress,
    Completed,
    Blocked,
}

pub open spec fn priority_label(p: Priority) -> Seq<char> {
    match p {
        Priority::Low => "Low"@,
        Priority::Medium => "Medium"@,
        Priority::High => "High"@,
        Priority::Critical => "Critical"@,
    }
}

pub open spec fn status_label(s: Status) -> Seq<char> {
    match s {
        Status::NotStarted => "Not Started"@,
        Status::InProgress => "In Progress"@,
        Status::Completed => "Completed"@,
        Status::Blocked => "Blocked"@,
    }
}

pub open spec fn status_icon(s: Status) -> Seq<char> {
    match s {
        Status::NotStarted => "\u{2b55}"@,
        Status::InProgress => "\u{1f504}"@,
        Status::Completed => "\u{2705}"@,
        Status::Blocked => "\u{1f6ab}"@,
    }
}

/// The order in which a milestone's status advances, one step at a time:
/// not started, in progress, completed, blocked, and round again.
pub open spec fn next_status(s: Status) -> Status {
    match s {
        Status::NotStarted => Status::InProgress,
        Status::InProgress => Status::Completed,
        Status::Completed => Status::Blocked,
        Status::Blocked => Status::NotStarted,
    }
}

pub open spec fn next_priority(p: Priority) -> Priority {
    match p {
        Priority::Low => Priority::Medium,
        Priority::Medium => Priority::High,
        Priority::High => Priority::Critical,
        Priority::Critical => Priority::Low,
    }
}

/// How far along a milestone is, in percent, by its status alone.
pub open spec fn status_progress(s: Status) -> nat {
    match s {
        Status::NotStarted => 0,
        Status::InProgress => 50,
        Status::Completed => 100,
        Status::Blocked => 25,
    }
}

impl Priority {
    pub fn as_str(&self) -> (r: &'static str)
        ensures
            r@ == priority_label(*self),
    {
        match self {
            Priority::Low => "Low",
            Priority::Medium => "Medium",
            Priority::High => "High",
            Priority::Critical => "Critical",
        }
    }

    /// The priority one step up, wrapping from critical back to low.
    pub fn next(&self) -> (r: Priority)
        ensures
            r == next_priority(*self),
    {
        match self {
            Priority::Low => Priority::Medium,
            Priority::Medium => Priority::High,
            Priority::High => Priority::Critical,
            Priority::Critical => Priority::Low,
        }
    }
}

impl Status {
    pub fn as_str(&self) -> (r: &'static str)
        ensures
            r@ == status_label(*self),
    {
        match self {
            Status::NotStarted => "Not Started",
            Status::InProgress => "In Progress",
            Status::Completed => "Completed",
            Status::Blocked => "Blocked",
        }
    }

    pub fn icon(&self) -> (r: &'static str)
        ensures
            r@ == status_icon(*self),
    {
        match self {
            Status::NotStarted => "\u{2b55}",
            Status::InProgress => "\u{1f504}",
            Status::Completed => "\u{2705}",
            Status::Blocked => "\u{1f6ab}",
        }
    }

    /// The status that follows this one in the cycle.
    pub fn next(&self) -> (r: Status)
        ensures
            r == next_status(*self),
    {
        match self {
            Status::NotStarted => Status::InProgress,
            Status::InProgress => Status::Completed,
            Status::Completed => Status::Blocked,
            Status::Blocked => Status::NotStarted,
        }
    }

    pub fn is_completed(&self) -> (r: bool)
        ensures
            r == (*self == Status::Completed),
    {
        match self {
            Status::Completed => true,
            _ => false,
        }
    }
}


/// A group of milestones. `milestone_ids` lists its members, each once.
#[derive(Debug)]
pub struct Folder {
    pub id: u128,
    pub name: String,
    pub description: String,
    pub expanded: bool,
    pub milestone_ids: Vec<u128>,
    pub created_at: Timestamp,
    pub updated_at: Timestamp,
}

pub struct FolderView {
    pub id: u128,
    pub name: String,
    pub description: String,
    pub expanded: bool,
    pub milestone_ids: Seq<u128>,
    pub created_at: Timestamp,
    pub updated_at: Timestamp,
}

impl View for Folder {
    type V = FolderView;

    open spec fn view(&self) -> FolderView {
        FolderView {
            id: self.id,
            name: self.name,
            description: self.description,
            expanded: self.expanded,
            milestone_ids: self.milestone_ids@,
            created_at: self.created_at,
            updated_at: self.updated_at,
        }
    }
}

impl Clone for Folder {
    fn clone(&self) -> (r: Self)
        ensures
            r@ == self@,
    {
        Folder {
            id: self.id,
            name: self.name.clone(),
            description: self.description.clone(),
            expanded: self.expanded,
            milestone_ids: self.milestone_ids.clone(),
            created_at: self.created_at,
            updated_at: self.updated_at,
        }
    }
}

impl Folder {
    pub fn new(name: String, description: String) -> (r: Folder)
        ensures
            r.name == name,
            r.description == description,
            r.expanded,
            r.milestone_ids@.len() == 0,
            r.created_at == r.updated_at,
    {
        let t = now();
        Folder {
            id: random_id(),
            name,
            description,
            expanded: true,
            milestone_ids: Vec::new(),
            created_at: t,
            updated_at: t,
        }
    }

    /// Adds a member; a milestone already listed is not listed twice.
    pub fn add_milestone(&mut self, milestone_id: u128)
        ensures
            !earlier(final(self).updated_at, old(self).updated_at),
            old(self).milestone_ids@.contains(milestone_id) ==> final(self)@ == old(self)@,
            !old(self).milestone_ids@.contains(milestone_id) ==> final(self)@ == (FolderView {
                milestone_ids: old(self).milestone_ids@.push(milestone_id),
                updated_at: final(self).updated_at,
                ..old(self)@
            }),
    {
        if !contains_id(&self.milestone_ids, milestone_id) {
            self.milestone_ids.push(milestone_id);
            self.updated_at = now_not_before(self.updated_at);
        }
    }

    pub fn remove_milestone(&mut self, milestone_id: u128)
        ensures
            !earlier(final(self).updated_at, old(self).updated_at),
            final(self)@ == (FolderView {
                milestone_ids: without(old(self).milestone_ids@, milestone_id),
                updated_at: final(self).updated_at,
                ..old(self)@
            }),
    {
        self.milestone_ids = remove_id(&self.milestone_ids, milestone_id);
        self.updated_at = now_not_before(self.updated_at);
    }

    pub fn toggle_expanded(&mut self)
        ensures
            !earlier(final(self).updated_at, old(self).updated_at),
            final(self)@ == (FolderView {
                expanded: !old(self).expanded,
                updated_at: final(self).updated_at,
                ..old(self)@
            }),
    {
        self.expanded = !self.expanded;
        self.updated_at = now_not_before(self.updated_at);
    }
}

/// A unit of work on the roadmap. `completed_at` is set exactly while the
/// status is `Completed`.
#[derive(Debug)]
pub struct Milestone {
    pub id: u128,
    pub title: String,
    pub description: String,
    pub priority: Priority,
    pub status: Status,
    pub estimated_hours: Option<u32>,
    pub actual_hours: Option<u32>,
    pub resources: Vec<String>,
    pub tags: Vec<String>,
    pub folder_id: Option<u128>,
    pub created_at: Timestamp,
    pub updated_at: Timestamp,
    pub due_date: Option<Timestamp>,
    pub completed_at: Option<Timestamp>,
}

pub struct MilestoneView {
    pub id: u128,
    pub title: String,
    pub description: String,
    pub priority: Priority,
    pub status: Status,
    pub estimated_hours: Option<u32>,
    pub actual_hours: Option<u32>,
    pub resources: Seq<String>,
    pub tags: Seq<String>,
    pub folder_id: Option<u128>,
    pub created_at: Timestamp,
    pub updated_at: Timestamp,
    pub due_date: Option<Timestamp>,
    pub completed_at: Option<Timestamp>,
}

impl View for Milestone {
    type V = MilestoneView;

    open spec fn view(&self) -> MilestoneView {
        MilestoneView {
            id: self.id,
            title: self.title,
            description: self.description,
            priority: self.priority,
            status: self.status,
            estimated_hours: self.estimated_hours,
            actual_hours: self.actual_hours,
            resources: self.resources@,
            tags: self.tags@,
            folder_id: self.folder_id,
            created_at: self.created_at,
            updated_at: self.updated_at,
            due_date: self.due_date,
            completed_at: self.completed_at,
        }
    }
}

impl Clone for Milestone {
    fn clone(&self) -> (r: Self)
        ensures
            r@ == self@,
    {
        Milestone {
            id: self.id,
            title: self.title.clone(),
            description: self.description.clone(),
            priority: self.priority,
            status: self.status,
            estimated_hours: self.estimated_hours,
            actual_hours: self.actual_hours,
            resources: clone_strings(&self.resources),
            tags: clone_strings(&self.tags),
            folder_id: self.folder_id,
            created_at: self.created_at,
            updated_at: self.updated_at,
            due_date: self.due_date,
            completed_at: self.completed_at,
        }
    }
}

impl MilestoneView {
    /// The completion time is recorded exactly while the status is completed.
    pub open spec fn completion_consistent(self) -> bool {
        self.completed_at is Some <==> self.status == Status::Completed
    }

    /// This milestone with the status `s`, with the completion time and the
    /// update time as `c` and `u` give them.
    pub open spec fn with_status(self, s: Status, c: Option<Timestamp>, u: Timestamp) -> MilestoneView {
        MilestoneView { status: s, completed_at: c, updated_at: u, ..self }
    }
}

impl Milestone {
    pub fn new(title: String, description: String) -> (r: Milestone)
        ensures
            r.title == title,
            r.description == description,
            r.priority == Priority::Medium,
            r.status == Status::NotStarted,
            r.estimated_hours is None,
            r.actual_hours is None,
            r.resources@.len() == 0,
            r.tags@.len() == 0,
            r.folder_id is None,
            r.created_at == r.updated_at,
            r.due_date is None,
            r.completed_at is None,
    {
        let t = now();
        Milestone {
            id: random_id(),
            title,
            description,
            priority: Priority::Medium,
            status: Status::NotStarted,
            estimated_hours: None,
            actual_hours: None,
            resources: Vec::new(),
            tags: Vec::new(),
            folder_id: None,
            created_at: t,
            updated_at: t,
            due_date: None,
            completed_at: None,
        }
    }

    /// How far along the milestone is, in percent; it depends on the status
    /// alone.
    pub fn progress_percentage(&self) -> (r: u64)
        ensures
            r == status_progress(self.status),
    {
        match self.status {
            Status::NotStarted => 0,
            Status::InProgress => 50,
            Status::Completed => 100,
            Status::Blocked => 25,
        }
    }

    pub fn mark_completed(&mut self)
        ensures
            !earlier(final(self).updated_at, old(self).updated_at),
            final(self)@ == old(self)@.with_status(
                Status::Completed,
                final(self).completed_at,
                final(self).updated_at,
            ),
            final(self).completed_at is Some,
    {
        self.status = Status::Completed;
        let t = now_not_before(self.updated_at);
        self.completed_at = Some(t);
        self.updated_at = t;
    }

    pub fn update_status(&mut self, status: Status)
        ensures
            !earlier(final(self).updated_at, old(self).updated_at),
            final(self)@ == old(self)@.with_status(
                status,
                final(self).completed_at,
                final(self).updated_at,
            ),
            final(self)@.completion_consistent(),
    {
        self.status = status;
        let t = now_not_before(self.updated_at);
        self.updated_at = t;
        if status.is_completed() {
            self.completed_at = Some(t);
        } else {
            self.completed_at = None;
        }
    }

    /// Moves the status one step along the cycle.
    pub fn advance_status(&mut self)
        ensures
            !earlier(final(self).updated_at, old(self).updated_at),
            final(self)@ == old(self)@.with_status(
                next_status(old(self).status),
                final(self).completed_at,
                final(self).updated_at,
            ),
            final(self)@.completion_consistent(),
    {
        let s = self.status.next();
        self.update_status(s);
    }

    pub fn cycle_priority(&mut self)
        ensures
            !earlier(final(self).updated_at, old(self).updated_at),
            final(self)@ == (MilestoneView {
                priority: next_priority(old(self).priority),
                updated_at: final(self).updated_at,
                ..old(self)@
            }),
    {
        self.priority = self.priority.next();
        self.updated_at = now_not_before(self.updated_at);
    }

    pub fn assign_to_folder(&mut self, folder_id: Option<u128>)
        ensures
            !earlier(final(self).updated_at, old(self).updated_at),
            final(self)@ == (MilestoneView {
                folder_id,
                updated_at: final(self).updated_at,
                ..old(self)@
            }),
    {
        self.folder_id = folder_id;
        self.updated_at = now_not_before(self.updated_at);
    }
}


/// Some milestone with id `mid` names folder `fid` as its folder.
pub open spec fn has_member(ms: Seq<MilestoneView>, mid: u128, fid: u128) -> bool {
    exists|i: int| 0 <= i < ms.len() && (#[trigger] ms[i]).id == mid && ms[i].folder_id == Some(fid)
}

/// Some folder with id `fid` lists milestone `mid`.
pub open spec fn folder_lists(fs: Seq<FolderView>, fid: u128, mid: u128) -> bool {
    exists|f: int| 0 <= f < fs.len() && (#[trigger] fs[f]).id == fid && fs[f].milestone_ids.contains(mid)
}

/// Folder membership lists and the milestones' folder references agree, in
/// both directions, and no list names a milestone twice.
pub open spec fn links_agree(ms: Seq<MilestoneView>, fs: Seq<FolderView>) -> bool {
    &&& forall|f: int| 0 <= f < fs.len() ==> (#[trigger] fs[f]).milestone_ids.no_duplicates()
    &&& forall|f: int, k: int|
        0 <= f < fs.len() && 0 <= k < fs[f].milestone_ids.len() ==> has_member(
            ms,
            #[trigger] fs[f].milestone_ids[k],
            fs[f].id,
        )
    &&& forall|i: int|
        0 <= i < ms.len() && (#[trigger] ms[i]).folder_id is Some ==> folder_lists(
            fs,
            ms[i].folder_id->0,
            ms[i].id,
        )
}

pub open spec fn milestones_view(v: Seq<Milestone>) -> Seq<MilestoneView> {
    v.map_values(|m: Milestone| m@)
}

pub open spec fn folders_view(v: Seq<Folder>) -> Seq<FolderView> {
    v.map_values(|f: Folder| f@)
}

/// The milestones whose folder reference is `fid`, in stored order.
pub open spec fn in_folder(ms: Seq<MilestoneView>, fid: Option<u128>) -> Seq<MilestoneView> {
    ms.filter(|m: MilestoneView| m.folder_id == fid)
}

/// How many milestones have status `s`.
pub open spec fn count_status(ms: Seq<MilestoneView>, s: Status) -> nat
    decreases ms.len(),
{
    if ms.len() == 0 {
        0
    } else {
        count_status(ms.drop_last(), s) + if ms.last().status == s { 1nat } else { 0nat }
    }
}

/// The progress percentages of all milestones, added up.
pub open spec fn progress_sum(ms: Seq<MilestoneView>) -> nat
    decreases ms.len(),
{
    if ms.len() == 0 {
        0
    } else {
        progress_sum(ms.drop_last()) + status_progress(ms.last().status)
    }
}

/// The mean progress in whole percent, rounded down; 0 when there are no
/// milestones.
pub open spec fn mean_progress(ms: Seq<MilestoneView>) -> nat {
    if ms.len() == 0 {
        0
    } else {
        progress_sum(ms) / ms.len()
    }
}

pub proof fn lemma_progress_sum_bound(ms: Seq<MilestoneView>)
    ensures
        progress_sum(ms) <= 100 * ms.len(),
    decreases ms.len(),
{
    if ms.len() > 0 {
        lemma_progress_sum_bound(ms.drop_last());
    }
}

pub proof fn lemma_count_bound(ms: Seq<MilestoneView>, s: Status)
    ensures
        count_status(ms, s) <= ms.len(),
    decreases ms.len(),
{
    if ms.len() > 0 {
        lemma_count_bound(ms.drop_last(), s);
    }
}

/// Where a folder's list stands after milestone `mid` was moved to `target`:
/// the target folder lists it once, every other folder not at all.
pub open spec fn refiled_ids(f: FolderView, mid: u128, target: Option<u128>) -> Seq<u128> {
    if target == Some(f.id) {
        if f.milestone_ids.contains(mid) {
            f.milestone_ids
        } else {
            f.milestone_ids.push(mid)
        }
    } else {
        without(f.milestone_ids, mid)
    }
}

/// Moving a milestone to a folder leaves the target folder listing it exactly
/// once and every other folder not listing it; moving it there a second time
/// changes no list.
pub proof fn lemma_refile_idempotent(f: FolderView, mid: u128, target: Option<u128>)
    requires
        f.milestone_ids.no_duplicates(),
    ensures
        target == Some(f.id) ==> refiled_ids(f, mid, target).contains(mid),
        target != Some(f.id) ==> !refiled_ids(f, mid, target).contains(mid),
        refiled_ids(f, mid, target).no_duplicates(),
        refiled_ids(FolderView { milestone_ids: refiled_ids(f, mid, target), ..f }, mid, target)
            == refiled_ids(f, mid, target),
{
    let once = refiled_ids(f, mid, target);
    lemma_without(f.milestone_ids, mid);
    lemma_push_contains(f.milestone_ids, mid, mid);
    if target == Some(f.id) {
        if !f.milestone_ids.contains(mid) {
            lemma_push_no_dup(f.milestone_ids, mid);
        }
    } else {
        lemma_without_absent(once, mid);
    }
}

/// `n` is milestone `m` after it was taken out of folder `fid`, if it was in it.
pub open spec fn detached_from(m: MilestoneView, n: MilestoneView, fid: u128) -> bool {
    if m.folder_id == Some(fid) {
        n == MilestoneView { folder_id: None, updated_at: n.updated_at, ..m } && !earlier(n.updated_at, m.updated_at)
    } else {
        n == m
    }
}

/// `n` is milestone `m` after milestone `mid` was moved to `target`.
pub open spec fn moved_to(m: MilestoneView, n: MilestoneView, mid: u128, target: Option<u128>) -> bool {
    if m.id == mid {
        n == MilestoneView { folder_id: target, updated_at: n.updated_at, ..m } && !earlier(n.updated_at, m.updated_at)
    } else {
        n == m
    }
}

pub proof fn lemma_links_keep(ms: Seq<MilestoneView>, ms2: Seq<MilestoneView>, fs: Seq<FolderView>)
    requires
        links_agree(ms, fs),
        ms2.len() == ms.len(),
        forall|i: int| 0 <= i < ms.len() ==> (#[trigger] ms2[i]).id == ms[i].id && ms2[i].folder_id == ms[i].folder_id,
    ensures
        links_agree(ms2, fs),
{
    assert forall|f: int, k: int|
        0 <= f < fs.len() && 0 <= k < fs[f].milestone_ids.len() implies has_member(
        ms2,
        #[trigger] fs[f].milestone_ids[k],
        fs[f].id,
    ) by {
        let i = choose|i: int|
            0 <= i < ms.len() && (#[trigger] ms[i]).id == fs[f].milestone_ids[k] && ms[i].folder_id == Some(fs[f].id);
        assert(ms2[i].id == ms[i].id);
    }
    assert forall|i: int|
        0 <= i < ms2.len() && (#[trigger] ms2[i]).folder_id is Some implies folder_lists(
        fs,
        ms2[i].folder_id->0,
        ms2[i].id,
    ) by {
        assert(ms[i].folder_id is Some);
    }
}

/// `new` is `old` after milestone `mid` was moved to `target`: each
/// milestone with that id takes the new reference, and each folder's list is
/// refiled; names, titles and creation times stay.
pub open spec fn reassigned(old: RoadmapView, new: RoadmapView, mid: u128, target: Option<u128>) -> bool {
    &&& new.milestones.len() == old.milestones.len()
    &&& forall|i: int| 0 <= i < old.milestones.len() ==> moved_to(old.milestones[i], #[trigger] new.milestones[i], mid, target)
    &&& new.folders.len() == old.folders.len()
    &&& forall|f: int|
        0 <= f < old.folders.len() ==> (#[trigger] new.folders[f]) == (FolderView {
            milestone_ids: refiled_ids(old.folders[f], mid, target),
            updated_at: new.folders[f].updated_at,
            ..old.folders[f]
        }) && !earlier(new.folders[f].updated_at, old.folders[f].updated_at)
    &&& new.title == old.title
    &&& new.description == old.description
    &&& new.created_at == old.created_at
}

/// Reassigning a milestone leaves the target folder listing it exactly once
/// and no other folder listing it; reassigning it to the same target again
/// leaves every folder list as it was after the first time.
pub proof fn lemma_reassign_twice(
    r0: RoadmapView,
    r1: RoadmapView,
    r2: RoadmapView,
    mid: u128,
    target: Option<u128>,
)
    requires
        r0.wf(),
        reassigned(r0, r1, mid, target),
        reassigned(r1, r2, mid, target),
    ensures
        forall|f: int| 0 <= f < r1.folders.len() ==> (#[trigger] r1.folders[f]).milestone_ids.no_duplicates(),
        forall|f: int|
            0 <= f < r1.folders.len() && target == Some(r1.folders[f].id) ==> (#[trigger] r1.folders[f]).milestone_ids.contains(mid),
        forall|f: int|
            0 <= f < r1.folders.len() && target != Some(r1.folders[f].id) ==> !(#[trigger] r1.folders[f]).milestone_ids.contains(mid),
        forall|f: int| 0 <= f < r2.folders.len() ==> (#[trigger] r2.folders[f]).milestone_ids == r1.folders[f].milestone_ids,
{
    assert forall|f: int| 0 <= f < r1.folders.len() implies {
        &&& (#[trigger] r1.folders[f]).milestone_ids.no_duplicates()
        &&& target == Some(r1.folders[f].id) ==> r1.folders[f].milestone_ids.contains(mid)
        &&& target != Some(r1.folders[f].id) ==> !r1.folders[f].milestone_ids.contains(mid)
        &&& r2.folders[f].milestone_ids == r1.folders[f].milestone_ids
    } by {
        lemma_refile_idempotent(r0.folders[f], mid, target);
        assert(r1.folders[f] == (FolderView {
            milestone_ids: refiled_ids(r0.folders[f], mid, target),
            updated_at: r1.folders[f].updated_at,
            ..r0.folders[f]
        }));
        assert(refiled_ids(r1.folders[f], mid, target) == refiled_ids(
            FolderView { milestone_ids: refiled_ids(r0.folders[f], mid, target), ..r0.folders[f] },
            mid,
            target,
        ));
    }
}

/// The whole roadmap: its milestones and its folders.
#[derive(Debug)]
pub struct Roadmap {
    pub title: String,
    pub description: String,
    pub milestones: Vec<Milestone>,
    pub folders: Vec<Folder>,
    pub created_at: Timestamp,
    pub updated_at: Timestamp,
    /// The schema version the roadmap was stored with.
    pub version: String,
}

pub struct RoadmapView {
    pub title: String,
    pub description: String,
    pub milestones: Seq<MilestoneView>,
    pub folders: Seq<FolderView>,
    pub created_at: Timestamp,
    pub updated_at: Timestamp,
    pub version: Seq<char>,
}

impl View for Roadmap {
    type V = RoadmapView;

    open spec fn view(&self) -> RoadmapView {
        RoadmapView {
            title: self.title,
            description: self.description,
            milestones: milestones_view(self.milestones@),
            folders: folders_view(self.folders@),
            created_at: self.created_at,
            updated_at: self.updated_at,
            version: self.version@,
        }
    }
}

/// The schema version that this library writes for a roadmap.
pub const ROADMAP_VERSION: &'static str = "1.0.0";

pub open spec fn milestone_key() -> spec_fn(MilestoneView) -> u128 {
    |m: MilestoneView| m.id
}

pub open spec fn folder_key() -> spec_fn(FolderView) -> u128 {
    |f: FolderView| f.id
}

impl RoadmapView {
    /// No two milestones share an id, and no two folders do. Ids are drawn
    /// at random, so this is kept apart from `wf`: every operation keeps it,
    /// and adding keeps it when the new id is not in use.
    pub open spec fn ids_unique(self) -> bool {
        &&& keys_distinct(self.milestones, milestone_key())
        &&& keys_distinct(self.folders, folder_key())
    }

    pub open spec fn wf(self) -> bool {
        &&& forall|i: int|
            0 <= i < self.milestones.len() ==> (#[trigger] self.milestones[i]).completion_consistent()
        &&& links_agree(self.milestones, self.folders)
    }
}

pub fn clone_milestones(v: &Vec<Milestone>) -> (r: Vec<Milestone>)
    ensures
        milestones_view(r@) == milestones_view(v@),
{
    let mut out: Vec<Milestone> = Vec::new();
    let mut i: usize = 0;
    while i < v.len()
        invariant
            0 <= i <= v.len(),
            milestones_view(out@) =~= milestones_view(v@).take(i as int),
        decreases v.len() - i,
    {
        let c = v[i].clone();
        let ghost before = out@;
        out.push(c);
        assert(milestones_view(out@) =~= milestones_view(before).push(c@));
        i += 1;
    }
    assert(milestones_view(v@).take(v.len() as int) =~= milestones_view(v@));
    out
}

pub fn clone_folders(v: &Vec<Folder>) -> (r: Vec<Folder>)
    ensures
        folders_view(r@) == folders_view(v@),
{
    let mut out: Vec<Folder> = Vec::new();
    let mut i: usize = 0;
    while i < v.len()
        invariant
            0 <= i <= v.len(),
            folders_view(out@) =~= folders_view(v@).take(i as int),
        decreases v.len() - i,
    {
        let c = v[i].clone();
        let ghost before = out@;
        out.push(c);
        assert(folders_view(out@) =~= folders_view(before).push(c@));
        i += 1;
    }
    assert(folders_view(v@).take(v.len() as int) =~= folders_view(v@));
    out
}

/// The ids of the milestones whose folder is `fid`, each once, in the order
/// they first appear.
pub open spec fn members(ms: Seq<MilestoneView>, fid: u128) -> Seq<u128>
    decreases ms.len(),
{
    if ms.len() == 0 {
        Seq::empty()
    } else {
        let r = members(ms.drop_last(), fid);
        if ms.last().folder_id == Some(fid) && !r.contains(ms.last().id) {
            r.push(ms.last().id)
        } else {
            r
        }
    }
}

pub proof fn lemma_members(ms: Seq<MilestoneView>, fid: u128)
    ensures
        members(ms, fid).no_duplicates(),
        forall|x: u128| #[trigger] members(ms, fid).contains(x) <==> has_member(ms, x, fid),
    decreases ms.len(),
{
    if ms.len() > 0 {
        let d = ms.drop_last();
        let r = members(d, fid);
        lemma_members(d, fid);
        assert forall|x: u128| #[trigger] members(ms, fid).contains(x) <==> has_member(ms, x, fid) by {
            lemma_push_contains(r, ms.last().id, x);
            if has_member(ms, x, fid) {
                let i = choose|i: int| 0 <= i < ms.len() && (#[trigger] ms[i]).id == x && ms[i].folder_id == Some(fid);
                if i < d.len() {
                    assert(d[i] == ms[i]);
                    assert(has_member(d, x, fid));
                }
            }
            if has_member(d, x, fid) {
                let i = choose|i: int| 0 <= i < d.len() && (#[trigger] d[i]).id == x && d[i].folder_id == Some(fid);
                assert(ms[i] == d[i]);
            }
            if ms.last().folder_id == Some(fid) && x == ms.last().id {
                assert(ms[ms.len() - 1] == ms.last());
            }
        }
        if ms.last().folder_id == Some(fid) && !r.contains(ms.last().id) {
            lemma_push_no_dup(r, ms.last().id);
        }
    }
}

/// Some folder has id `fid`.
pub open spec fn has_folder(fs: Seq<FolderView>, fid: u128) -> bool {
    exists|f: int| 0 <= f < fs.len() && (#[trigger] fs[f]).id == fid
}

/// Milestone `m` made to fit folders `fs`: a reference to a missing folder
/// is dropped, and the completion time is cleared unless the status is
/// completed, or taken from the update time when it is completed and has
/// none.
pub open spec fn repaired_milestone(m: MilestoneView, fs: Seq<FolderView>) -> MilestoneView {
    MilestoneView {
        folder_id: match m.folder_id {
            Some(g) => if has_folder(fs, g) { Some(g) } else { None },
            None => None,
        },
        completed_at: if m.status == Status::Completed {
            if m.completed_at is Some { m.completed_at } else { Some(m.updated_at) }
        } else {
            None
        },
        ..m
    }
}

/// The roadmap with its milestones repaired and every folder's list rebuilt
/// from the milestones that name it.
pub open spec fn repaired(r: RoadmapView) -> RoadmapView {
    let ms = r.milestones.map_values(|m: MilestoneView| repaired_milestone(m, r.folders));
    RoadmapView {
        milestones: ms,
        folders: r.folders.map_values(|f: FolderView| FolderView { milestone_ids: members(ms, f.id), ..f }),
        ..r
    }
}

/// A repaired roadmap is well formed.
pub proof fn lemma_repaired_wf(r: RoadmapView)
    ensures
        repaired(r).wf(),
{
    let n = repaired(r);
    let ms = n.milestones;
    let fs = n.folders;
    assert forall|i: int| 0 <= i < ms.len() implies (#[trigger] ms[i]).completion_consistent() by {
        assert(ms[i] == repaired_milestone(r.milestones[i], r.folders));
    }
    assert forall|f: int| 0 <= f < fs.len() implies (#[trigger] fs[f]).milestone_ids.no_duplicates() by {
        lemma_members(ms, r.folders[f].id);
    }
    assert forall|f: int, k: int|
        0 <= f < fs.len() && 0 <= k < fs[f].milestone_ids.len() implies has_member(
        ms,
        #[trigger] fs[f].milestone_ids[k],
        fs[f].id,
    ) by {
        lemma_members(ms, r.folders[f].id);
        assert(fs[f].milestone_ids.contains(fs[f].milestone_ids[k]));
    }
    assert forall|i: int|
        0 <= i < ms.len() && (#[trigger] ms[i]).folder_id is Some implies folder_lists(
        fs,
        ms[i].folder_id->0,
        ms[i].id,
    ) by {
        let g = ms[i].folder_id->0;
        assert(ms[i] == repaired_milestone(r.milestones[i], r.folders));
        assert(has_folder(r.folders, g));
        let f = choose|f: int| 0 <= f < r.folders.len() && (#[trigger] r.folders[f]).id == g;
        lemma_members(ms, g);
        assert(has_member(ms, ms[i].id, g));
        assert(fs[f].id == g);
    }
}

/// The ids of the milestones whose folder is `fid`, each once.
fn members_of(ms: &Vec<Milestone>, fid: u128) -> (r: Vec<u128>)
    ensures
        r@ == members(milestones_view(ms@), fid),
{
    let ghost v = milestones_view(ms@);
    let mut out: Vec<u128> = Vec::new();
    let mut i: usize = 0;
    while i < ms.len()
        invariant
            0 <= i <= ms.len(),
            v == milestones_view(ms@),
            out@ == members(v.take(i as int), fid),
        decreases ms.len() - i,
    {
        assert(v.take(i as int + 1).drop_last() =~= v.take(i as int));
        assert(v[i as int] == ms@[i as int]@);
        if ms[i].folder_id == Some(fid) && !contains_id(&out, ms[i].id) {
            out.push(ms[i].id);
        }
        i += 1;
    }
    assert(v.take(v.len() as int) =~= v);
    out
}

fn has_member_in(ms: &Vec<Milestone>, mid: u128, fid: u128) -> (r: bool)
    ensures
        r == has_member(milestones_view(ms@), mid, fid),
{
    let ghost v = milestones_view(ms@);
    let mut i: usize = 0;
    while i < ms.len()
        invariant
            0 <= i <= ms.len(),
            v == milestones_view(ms@),
            forall|j: int| 0 <= j < i ==> !((#[trigger] v[j]).id == mid && v[j].folder_id == Some(fid)),
        decreases ms.len() - i,
    {
        assert(v[i as int] == ms@[i as int]@);
        if ms[i].id == mid && ms[i].folder_id == Some(fid) {
            return true;
        }
        i += 1;
    }
    false
}

fn folder_lists_in(fs: &Vec<Folder>, fid: u128, mid: u128) -> (r: bool)
    ensures
        r == folder_lists(folders_view(fs@), fid, mid),
{
    let ghost v = folders_view(fs@);
    let mut i: usize = 0;
    while i < fs.len()
        invariant
            0 <= i <= fs.len(),
            v == folders_view(fs@),
            forall|j: int| 0 <= j < i ==> !((#[trigger] v[j]).id == fid && v[j].milestone_ids.contains(mid)),
        decreases fs.len() - i,
    {
        assert(v[i as int] == fs@[i as int]@);
        if fs[i].id == fid && contains_id(&fs[i].milestone_ids, mid) {
            return true;
        }
        i += 1;
    }
    false
}

fn ids_distinct(v: &Vec<u128>) -> (r: bool)
    ensures
        r == v@.no_duplicates(),
{
    let mut a: usize = 0;
    while a < v.len()
        invariant
            0 <= a <= v.len(),
            forall|x: int, y: int| 0 <= x < a && x < y < v@.len() ==> v@[x] != v@[y],
        decreases v.len() - a,
    {
        let mut b: usize = a + 1;
        while b < v.len()
            invariant
                a < v.len(),
                a + 1 <= b <= v.len(),
                forall|x: int, y: int| 0 <= x < a && x < y < v@.len() ==> v@[x] != v@[y],
                forall|y: int| a < y < b ==> v@[a as int] != v@[y],
            decreases v.len() - b,
        {
            if v[a] == v[b] {
                return false;
            }
            b += 1;
        }
        a += 1;
    }
    assert forall|x: int, y: int| 0 <= x < v@.len() && 0 <= y < v@.len() && x != y implies v@[x] != v@[y] by {
        if y < x {
            assert(v@[y] != v@[x]);
        }
    }
    true
}

impl Clone for Roadmap {
    fn clone(&self) -> (r: Self)
        ensures
            r@ == self@,
    {
        Roadmap {
            title: self.title.clone(),
            description: self.description.clone(),
            milestones: clone_milestones(&self.milestones),
            folders: clone_folders(&self.folders),
            created_at: self.created_at,
            updated_at: self.updated_at,
            version: self.version.clone(),
        }
    }
}

impl Roadmap {
    pub fn new(title: String, description: String) -> (r: Roadmap)
        ensures
            r.title == title,
            r.description == description,
            r@.milestones.len() == 0,
            r@.folders.len() == 0,
            r.created_at == r.updated_at,
            r.version@ == ROADMAP_VERSION@,
            r@.wf(),
    {
        let t = now();
        Roadmap {
            title,
            description,
            milestones: Vec::new(),
            folders: Vec::new(),
            created_at: t,
            updated_at: t,
            version: ROADMAP_VERSION.to_owned(),
        }
    }

    /// Appends a milestone. It starts outside every folder: folder membership
    /// is only ever given by `assign_milestone_to_folder`.
    pub fn add_milestone(&mut self, milestone: Milestone)
        requires
            old(self)@.wf(),
            milestone.folder_id is None,
            milestone@.completion_consistent(),
        ensures
            old(self)@.ids_unique() && (forall|i: int| 0 <= i < old(self)@.milestones.len() ==> (#[trigger] old(self)@.milestones[i]).id != milestone.id) ==> final(self)@.ids_unique(),
            !earlier(final(self).updated_at, old(self).updated_at),
            final(self)@ == (RoadmapView {
                milestones: old(self)@.milestones.push(milestone@),
                updated_at: final(self).updated_at,
                ..old(self)@
            }),
            final(self)@.wf(),
    {
        let ghost m = milestone@;
        self.milestones.push(milestone);
        self.updated_at = now_not_before(self.updated_at);
        proof {
            let ms = self@.milestones;
            let fs = self@.folders;
            assert(ms =~= old(self)@.milestones.push(m));
            assert forall|f: int, k: int|
                0 <= f < fs.len() && 0 <= k < fs[f].milestone_ids.len() implies has_member(
                ms,
                #[trigger] fs[f].milestone_ids[k],
                fs[f].id,
            ) by {
                let i = choose|i: int|
                    0 <= i < old(self)@.milestones.len() && (#[trigger] old(self)@.milestones[i]).id
                        == fs[f].milestone_ids[k] && old(self)@.milestones[i].folder_id == Some(fs[f].id);
                assert(ms[i] == old(self)@.milestones[i]);
            }
        }
        proof {
            let ms = self@.milestones;
            let om = old(self)@.milestones;
            assert(ms =~= om.push(m));
            if old(self)@.ids_unique() && (forall|i: int| 0 <= i < om.len() ==> (#[trigger] om[i]).id != m.id) {
                assert forall|x: int, y: int| 0 <= x < y < ms.len() implies (milestone_key())(#[trigger] ms[x])
                    != (milestone_key())(#[trigger] ms[y]) by {
                    assert(ms[x] == om.push(m)[x] && ms[y] == om.push(m)[y]);
                    if y < om.len() {
                        assert((milestone_key())(om[x]) != (milestone_key())(om[y]));
                    }
                }
            }
        }
    }

    /// Deletes every milestone with this id and takes the id out of every
    /// folder's list. Returns whether a milestone had that id; when none had,
    /// nothing changes but the timestamps.
    pub fn remove_milestone(&mut self, id: u128) -> (r: bool)
        requires
            old(self)@.wf(),
        ensures
            old(self)@.ids_unique() ==> final(self)@.ids_unique(),
            !earlier(final(self).updated_at, old(self).updated_at),
            r == exists|i: int| 0 <= i < old(self)@.milestones.len() && (#[trigger] old(self)@.milestones[i]).id == id,
            final(self)@.milestones == old(self)@.milestones.filter(|m: MilestoneView| m.id != id),
            final(self)@.folders.len() == old(self)@.folders.len(),
            forall|f: int|
                0 <= f < old(self)@.folders.len() ==> (#[trigger] final(self)@.folders[f]) == (
                FolderView {
                    milestone_ids: without(old(self)@.folders[f].milestone_ids, id),
                    updated_at: final(self)@.folders[f].updated_at,
                    ..old(self)@.folders[f]
                }) && !earlier(final(self)@.folders[f].updated_at, old(self)@.folders[f].updated_at),
            final(self).title == old(self).title,
            final(self).description == old(self).description,
            final(self).created_at == old(self).created_at,
            final(self)@.wf(),
    {
        let ghost ofs = old(self)@.folders;
        let ghost oms = old(self)@.milestones;
        let present = self.find_milestone(id).is_some();
        let mut i: usize = 0;
        while i < self.folders.len()
            invariant
                0 <= i <= self.folders.len(),
                self.folders.len() == ofs.len(),
                self.title == old(self).title,
                self.description == old(self).description,
                self.created_at == old(self).created_at,
                self.updated_at == old(self).updated_at,
                self.version == old(self).version,
                milestones_view(self.milestones@) == oms,
                forall|f: int|
                    0 <= f < i ==> (#[trigger] folders_view(self.folders@)[f]) == (FolderView {
                        milestone_ids: without(ofs[f].milestone_ids, id),
                        updated_at: folders_view(self.folders@)[f].updated_at,
                        ..ofs[f]
                    }) && !earlier(folders_view(self.folders@)[f].updated_at, ofs[f].updated_at),
                forall|f: int| i <= f < ofs.len() ==> (#[trigger] folders_view(self.folders@)[f]) == ofs[f],
            decreases ofs.len() - i,
        {
            assert(folders_view(self.folders@)[i as int] == self.folders@[i as int]@);
            let mut folder = self.folders[i].clone();
            folder.remove_milestone(id);
            let ghost fv = folder@;
            let ghost before = folders_view(self.folders@);
            self.folders.set(i, folder);
            assert(folders_view(self.folders@) =~= before.update(i as int, fv));
            assert forall|f: int| 0 <= f < i + 1 implies (#[trigger] folders_view(self.folders@)[f]) == (FolderView {
                milestone_ids: without(ofs[f].milestone_ids, id),
                updated_at: folders_view(self.folders@)[f].updated_at,
                ..ofs[f]
            }) && !earlier(folders_view(self.folders@)[f].updated_at, ofs[f].updated_at) by {
                if f < i {
                    assert(before[f] == folders_view(self.folders@)[f]);
                }
            }
            i += 1;
        }
        let ghost after_folders = folders_view(self.folders@);
        let mut kept: Vec<Milestone> = Vec::new();
        let mut j: usize = 0;
        while j < self.milestones.len()
            invariant
                0 <= j <= self.milestones.len(),
                milestones_view(self.milestones@) == oms,
                folders_view(self.folders@) == after_folders,
                self.title == old(self).title,
                self.description == old(self).description,
                self.created_at == old(self).created_at,
                self.updated_at == old(self).updated_at,
                self.version == old(self).version,
                milestones_view(kept@) == oms.take(j as int).filter(|m: MilestoneView| m.id != id),
            decreases self.milestones.len() - j,
        {
            proof {
                assert(oms.take(j as int + 1) =~= oms.take(j as int).push(oms[j as int]));
                oms.take(j as int).lemma_filter_push(oms[j as int], |m: MilestoneView| m.id != id);
            }
            if self.milestones[j].id != id {
                let c = self.milestones[j].clone();
                let ghost before = kept@;
                kept.push(c);
                assert(milestones_view(kept@) =~= milestones_view(before).push(c@));
            }
            j += 1;
        }
        assert(oms.take(oms.len() as int) =~= oms);
        self.milestones = kept;
        self.updated_at = now_not_before(self.updated_at);
        proof {
            let ms = self@.milestones;
            let fs = self@.folders;
            let pred = |m: MilestoneView| m.id != id;
            assert(ms == oms.filter(pred));
            assert forall|i: int| 0 <= i < ms.len() implies (#[trigger] ms[i]).completion_consistent() by {
                oms.lemma_filter_contains_rev(pred, ms[i]);
                assert(ms.contains(ms[i]));
            }
            assert forall|f: int| 0 <= f < fs.len() implies (#[trigger] fs[f]).milestone_ids.no_duplicates() by {
                lemma_without(ofs[f].milestone_ids, id);
            }
            assert forall|f: int, k: int|
                0 <= f < fs.len() && 0 <= k < fs[f].milestone_ids.len() implies has_member(
                ms,
                #[trigger] fs[f].milestone_ids[k],
                fs[f].id,
            ) by {
                let x = fs[f].milestone_ids[k];
                lemma_without(ofs[f].milestone_ids, id);
                assert(fs[f].milestone_ids.contains(x));
                let k0 = choose|k0: int| 0 <= k0 < ofs[f].milestone_ids.len() && ofs[f].milestone_ids[k0] == x;
                assert(has_member(oms, ofs[f].milestone_ids[k0], ofs[f].id));
                let i0 = choose|i0: int|
                    0 <= i0 < oms.len() && (#[trigger] oms[i0]).id == x && oms[i0].folder_id == Some(ofs[f].id);
                oms.lemma_filter_contains(pred, i0);
                let i1 = choose|i1: int| 0 <= i1 < ms.len() && ms[i1] == oms[i0];
                assert(ms[i1].id == x);
            }
            assert forall|i: int|
                0 <= i < ms.len() && (#[trigger] ms[i]).folder_id is Some implies folder_lists(
                fs,
                ms[i].folder_id->0,
                ms[i].id,
            ) by {
                oms.lemma_filter_pred(pred, i);
                assert(ms.contains(ms[i]));
                oms.lemma_filter_contains_rev(pred, ms[i]);
                let i0 = choose|i0: int| 0 <= i0 < oms.len() && oms[i0] == ms[i];
                assert(oms[i0].folder_id is Some);
                let f = choose|f: int|
                    0 <= f < ofs.len() && (#[trigger] ofs[f]).id == oms[i0].folder_id->0
                        && ofs[f].milestone_ids.contains(oms[i0].id);
                lemma_without(ofs[f].milestone_ids, id);
                assert(fs[f].milestone_ids.contains(ms[i].id));
            }
        }
        proof {
            if old(self)@.ids_unique() {
                lemma_filter_keeps_keys_distinct(oms, |m: MilestoneView| m.id != id, milestone_key());
                assert(self@.milestones == oms.filter(|m: MilestoneView| m.id != id));
                assert forall|f: int| 0 <= f < ofs.len() implies (folder_key())(#[trigger] self@.folders[f]) == (folder_key())(ofs[f]) by {
                    assert(self@.folders[f].id == ofs[f].id);
                }
                lemma_same_keys_distinct(ofs, self@.folders, folder_key());
            }
        }
        present
    }

    /// Deletes every folder with this id. Its members are kept and detached:
    /// their folder reference becomes `None`. Returns whether a folder had
    /// that id.
    pub fn remove_folder(&mut self, id: u128) -> (r: bool)
        requires
            old(self)@.wf(),
        ensures
            old(self)@.ids_unique() ==> final(self)@.ids_unique(),
            !earlier(final(self).updated_at, old(self).updated_at),
            r == exists|f: int| 0 <= f < old(self)@.folders.len() && (#[trigger] old(self)@.folders[f]).id == id,
            final(self)@.folders == old(self)@.folders.filter(|f: FolderView| f.id != id),
            final(self)@.milestones.len() == old(self)@.milestones.len(),
            forall|i: int|
                0 <= i < old(self)@.milestones.len() ==> detached_from(
                    old(self)@.milestones[i],
                    #[trigger] final(self)@.milestones[i],
                    id,
                ),
            final(self).title == old(self).title,
            final(self).description == old(self).description,
            final(self).created_at == old(self).created_at,
            final(self)@.wf(),
    {
        let ghost ofs = old(self)@.folders;
        let ghost oms = old(self)@.milestones;
        let present = self.find_folder(id).is_some();
        let mut i: usize = 0;
        while i < self.milestones.len()
            invariant
                0 <= i <= self.milestones.len(),
                self.milestones.len() == oms.len(),
                folders_view(self.folders@) == ofs,
                self.title == old(self).title,
                self.description == old(self).description,
                self.created_at == old(self).created_at,
                self.updated_at == old(self).updated_at,
                self.version == old(self).version,
                forall|k: int| 0 <= k < i ==> detached_from(oms[k], #[trigger] milestones_view(self.milestones@)[k], id),
                forall|k: int| i <= k < oms.len() ==> (#[trigger] milestones_view(self.milestones@)[k]) == oms[k],
            decreases oms.len() - i,
        {
            assert(milestones_view(self.milestones@)[i as int] == self.milestones@[i as int]@);
            if self.milestones[i].folder_id == Some(id) {
                let mut m = self.milestones[i].clone();
                m.assign_to_folder(None);
                let ghost mv = m@;
                let ghost before = milestones_view(self.milestones@);
                self.milestones.set(i, m);
                assert(milestones_view(self.milestones@) =~= before.update(i as int, mv));
                assert forall|k: int| 0 <= k < i implies detached_from(oms[k], #[trigger] milestones_view(self.milestones@)[k], id) by {
                    if 0 <= k < i {
                        assert(before[k] == milestones_view(self.milestones@)[k]);
                    }
                }
            }
            i += 1;
        }
        let ghost after_ms = milestones_view(self.milestones@);
        let mut kept: Vec<Folder> = Vec::new();
        let mut j: usize = 0;
        while j < self.folders.len()
            invariant
                0 <= j <= self.folders.len(),
                folders_view(self.folders@) == ofs,
                milestones_view(self.milestones@) == after_ms,
                self.title == old(self).title,
                self.description == old(self).description,
                self.created_at == old(self).created_at,
                self.updated_at == old(self).updated_at,
                self.version == old(self).version,
                folders_view(kept@) == ofs.take(j as int).filter(|f: FolderView| f.id != id),
            decreases self.folders.len() - j,
        {
            proof {
                assert(ofs.take(j as int + 1) =~= ofs.take(j as int).push(ofs[j as int]));
                ofs.take(j as int).lemma_filter_push(ofs[j as int], |f: FolderView| f.id != id);
            }
            if self.folders[j].id != id {
                let c = self.folders[j].clone();
                let ghost before = kept@;
                kept.push(c);
                assert(folders_view(kept@) =~= folders_view(before).push(c@));
            }
            j += 1;
        }
        assert(ofs.take(ofs.len() as int) =~= ofs);
        self.folders = kept;
        self.updated_at = now_not_before(self.updated_at);
        proof {
            let ms = self@.milestones;
            let fs = self@.folders;
            let pred = |f: FolderView| f.id != id;
            assert forall|i: int| 0 <= i < ms.len() implies (#[trigger] ms[i]).completion_consistent() by {
                assert(detached_from(oms[i], ms[i], id));
            }
            assert forall|f: int| 0 <= f < fs.len() implies (#[trigger] fs[f]).milestone_ids.no_duplicates() by {
                ofs.lemma_filter_pred(pred, f);
                assert(fs.contains(fs[f]));
                ofs.lemma_filter_contains_rev(pred, fs[f]);
            }
            assert forall|f: int, k: int|
                0 <= f < fs.len() && 0 <= k < fs[f].milestone_ids.len() implies has_member(
                ms,
                #[trigger] fs[f].milestone_ids[k],
                fs[f].id,
            ) by {
                ofs.lemma_filter_pred(pred, f);
                assert(fs.contains(fs[f]));
                ofs.lemma_filter_contains_rev(pred, fs[f]);
                let f0 = choose|f0: int| 0 <= f0 < ofs.len() && ofs[f0] == fs[f];
                assert(has_member(oms, ofs[f0].milestone_ids[k], ofs[f0].id));
                let i0 = choose|i0: int|
                    0 <= i0 < oms.len() && (#[trigger] oms[i0]).id == fs[f].milestone_ids[k] && oms[i0].folder_id == Some(fs[f].id);
                assert(detached_from(oms[i0], ms[i0], id));
            }
            assert forall|i: int|
                0 <= i < ms.len() && (#[trigger] ms[i]).folder_id is Some implies folder_lists(
                fs,
                ms[i].folder_id->0,
                ms[i].id,
            ) by {
                assert(detached_from(oms[i], ms[i], id));
                let f = choose|f: int|
                    0 <= f < ofs.len() && (#[trigger] ofs[f]).id == oms[i].folder_id->0
                        && ofs[f].milestone_ids.contains(oms[i].id);
                ofs.lemma_filter_contains(pred, f);
                let f1 = choose|f1: int| 0 <= f1 < fs.len() && fs[f1] == ofs[f];
                assert(fs[f1].id == ms[i].folder_id->0);
            }
        }
        proof {
            if old(self)@.ids_unique() {
                lemma_filter_keeps_keys_distinct(ofs, |f: FolderView| f.id != id, folder_key());
                assert(self@.folders == ofs.filter(|f: FolderView| f.id != id));
                assert forall|i: int| 0 <= i < oms.len() implies (milestone_key())(#[trigger] self@.milestones[i]) == (milestone_key())(oms[i]) by {
                    assert(detached_from(oms[i], self@.milestones[i], id));
                }
                lemma_same_keys_distinct(oms, self@.milestones, milestone_key());
            }
        }
        present
    }

    /// The index of the first milestone with this id.
    pub fn find_milestone(&self, id: u128) -> (r: Option<usize>)
        ensures
            match r {
                Some(i) => i < self@.milestones.len() && self@.milestones[i as int].id == id
                    && forall|j: int| 0 <= j < i ==> (#[trigger] self@.milestones[j]).id != id,
                None => forall|j: int| 0 <= j < self@.milestones.len() ==> (#[trigger] self@.milestones[j]).id != id,
            },
    {
        let mut i: usize = 0;
        while i < self.milestones.len()
            invariant
                0 <= i <= self.milestones.len(),
                forall|j: int| 0 <= j < i ==> (#[trigger] self@.milestones[j]).id != id,
            decreases self.milestones.len() - i,
        {
            assert(self@.milestones[i as int] == self.milestones@[i as int]@);
            if self.milestones[i].id == id {
                return Some(i);
            }
            i += 1;
        }
        None
    }

    /// The index of the first folder with this id.
    pub fn find_folder(&self, id: u128) -> (r: Option<usize>)
        ensures
            match r {
                Some(i) => i < self@.folders.len() && self@.folders[i as int].id == id
                    && forall|j: int| 0 <= j < i ==> (#[trigger] self@.folders[j]).id != id,
                None => forall|j: int| 0 <= j < self@.folders.len() ==> (#[trigger] self@.folders[j]).id != id,
            },
    {
        let mut i: usize = 0;
        while i < self.folders.len()
            invariant
                0 <= i <= self.folders.len(),
                forall|j: int| 0 <= j < i ==> (#[trigger] self@.folders[j]).id != id,
            decreases self.folders.len() - i,
        {
            assert(self@.folders[i as int] == self.folders@[i as int]@);
            if self.folders[i].id == id {
                return Some(i);
            }
            i += 1;
        }
        None
    }

    /// Moves milestone `milestone_id` to folder `folder_id` (or out of every
    /// folder, for `None`). Each milestone with that id takes the new
    /// reference; the target folder lists it once and no other folder lists
    /// it. Returns `false`, changing nothing, when the milestone or the
    /// target folder does not exist.
    pub fn assign_milestone_to_folder(&mut self, milestone_id: u128, folder_id: Option<u128>) -> (r: bool)
        requires
            old(self)@.wf(),
        ensures
            old(self)@.ids_unique() ==> final(self)@.ids_unique(),
            !earlier(final(self).updated_at, old(self).updated_at),
            r == ((exists|i: int| 0 <= i < old(self)@.milestones.len() && (#[trigger] old(self)@.milestones[i]).id == milestone_id)
                && (folder_id is None || exists|f: int| 0 <= f < old(self)@.folders.len() && (#[trigger] old(self)@.folders[f]).id == folder_id->0)),
            !r ==> final(self)@ == old(self)@,
            r ==> reassigned(old(self)@, final(self)@, milestone_id, folder_id),
            final(self)@.wf(),
    {
        let ghost ofs = old(self)@.folders;
        let ghost oms = old(self)@.milestones;
        let found = self.find_milestone(milestone_id);
        let i0 = match found {
            None => return false,
            Some(i) => i,
        };
        let mut target_index: usize = 0;
        match folder_id {
            None => {},
            Some(fid) => {
                match self.find_folder(fid) {
                    None => return false,
                    Some(f) => {
                        target_index = f;
                    },
                }
            },
        }
        let mut i: usize = 0;
        while i < self.milestones.len()
            invariant
                0 <= i <= self.milestones.len(),
                self.milestones.len() == oms.len(),
                folders_view(self.folders@) == ofs,
                self.title == old(self).title,
                self.description == old(self).description,
                self.created_at == old(self).created_at,
                self.updated_at == old(self).updated_at,
                self.version == old(self).version,
                forall|k: int| 0 <= k < i ==> moved_to(oms[k], #[trigger] milestones_view(self.milestones@)[k], milestone_id, folder_id),
                forall|k: int| i <= k < oms.len() ==> (#[trigger] milestones_view(self.milestones@)[k]) == oms[k],
            decreases oms.len() - i,
        {
            assert(milestones_view(self.milestones@)[i as int] == self.milestones@[i as int]@);
            if self.milestones[i].id == milestone_id {
                let mut m = self.milestones[i].clone();
                m.assign_to_folder(folder_id);
                let ghost mv = m@;
                let ghost before = milestones_view(self.milestones@);
                self.milestones.set(i, m);
                assert(milestones_view(self.milestones@) =~= before.update(i as int, mv));
                assert forall|k: int| 0 <= k < i implies moved_to(oms[k], #[trigger] milestones_view(self.milestones@)[k], milestone_id, folder_id) by {
                    if 0 <= k < i {
                        assert(before[k] == milestones_view(self.milestones@)[k]);
                    }
                }
            }
            i += 1;
        }
        let ghost after_ms = milestones_view(self.milestones@);
        let mut j: usize = 0;
        while j < self.folders.len()
            invariant
                0 <= j <= self.folders.len(),
                self.folders.len() == ofs.len(),
                milestones_view(self.milestones@) == after_ms,
                self.title == old(self).title,
                self.description == old(self).description,
                self.created_at == old(self).created_at,
                self.updated_at == old(self).updated_at,
                self.version == old(self).version,
                forall|f: int|
                    0 <= f < j ==> (#[trigger] folders_view(self.folders@)[f]) == (FolderView {
                        milestone_ids: refiled_ids(ofs[f], milestone_id, folder_id),
                        updated_at: folders_view(self.folders@)[f].updated_at,
                        ..ofs[f]
                    }) && !earlier(folders_view(self.folders@)[f].updated_at, ofs[f].updated_at),
                forall|f: int| j <= f < ofs.len() ==> (#[trigger] folders_view(self.folders@)[f]) == ofs[f],
            decreases ofs.len() - j,
        {
            assert(folders_view(self.folders@)[j as int] == self.folders@[j as int]@);
            let mut folder = self.folders[j].clone();
            if folder_id == Some(folder.id) {
                folder.add_milestone(milestone_id);
            } else if contains_id(&folder.milestone_ids, milestone_id) {
                folder.remove_milestone(milestone_id);
            } else {
                proof {
                    lemma_without_absent(folder.milestone_ids@, milestone_id);
                }
            }
            let ghost fv = folder@;
            let ghost before = folders_view(self.folders@);
            self.folders.set(j, folder);
            assert(folders_view(self.folders@) =~= before.update(j as int, fv));
            assert forall|f: int| 0 <= f < j + 1 implies (#[trigger] folders_view(self.folders@)[f]) == (FolderView {
                milestone_ids: refiled_ids(ofs[f], milestone_id, folder_id),
                updated_at: folders_view(self.folders@)[f].updated_at,
                ..ofs[f]
            }) && !earlier(folders_view(self.folders@)[f].updated_at, ofs[f].updated_at) by {
                if f < j {
                    assert(before[f] == folders_view(self.folders@)[f]);
                }
            }
            j += 1;
        }
        self.updated_at = now_not_before(self.updated_at);
        proof {
            let ms = self@.milestones;
            let fs = self@.folders;
            assert(moved_to(oms[i0 as int], ms[i0 as int], milestone_id, folder_id));
            assert forall|i: int| 0 <= i < ms.len() implies (#[trigger] ms[i]).completion_consistent() by {
                assert(moved_to(oms[i], ms[i], milestone_id, folder_id));
            }
            assert forall|f: int| 0 <= f < fs.len() implies (#[trigger] fs[f]).milestone_ids.no_duplicates() by {
                lemma_without(ofs[f].milestone_ids, milestone_id);
                if folder_id == Some(ofs[f].id) && !ofs[f].milestone_ids.contains(milestone_id) {
                    lemma_push_no_dup(ofs[f].milestone_ids, milestone_id);
                }
            }
            assert forall|f: int, k: int|
                0 <= f < fs.len() && 0 <= k < fs[f].milestone_ids.len() implies has_member(
                ms,
                #[trigger] fs[f].milestone_ids[k],
                fs[f].id,
            ) by {
                let x = fs[f].milestone_ids[k];
                let ids = ofs[f].milestone_ids;
                assert(fs[f].milestone_ids.contains(x));
                lemma_without(ids, milestone_id);
                lemma_push_contains(ids, milestone_id, x);
                if x == milestone_id {
                    assert(folder_id == Some(fs[f].id));
                    assert(ms[i0 as int].id == x);
                } else {
                    assert(ids.contains(x));
                    let k0 = choose|k0: int| 0 <= k0 < ids.len() && ids[k0] == x;
                    assert(has_member(oms, ids[k0], ofs[f].id));
                    let j0 = choose|j0: int|
                        0 <= j0 < oms.len() && (#[trigger] oms[j0]).id == x && oms[j0].folder_id == Some(ofs[f].id);
                    assert(moved_to(oms[j0], ms[j0], milestone_id, folder_id));
                }
            }
            assert forall|i: int|
                0 <= i < ms.len() && (#[trigger] ms[i]).folder_id is Some implies folder_lists(
                fs,
                ms[i].folder_id->0,
                ms[i].id,
            ) by {
                assert(moved_to(oms[i], ms[i], milestone_id, folder_id));
                if oms[i].id == milestone_id {
                    let t = target_index as int;
                    lemma_push_contains(ofs[t].milestone_ids, milestone_id, milestone_id);
                    assert(fs[t].milestone_ids.contains(milestone_id));
                } else {
                    let f = choose|f: int|
                        0 <= f < ofs.len() && (#[trigger] ofs[f]).id == oms[i].folder_id->0
                            && ofs[f].milestone_ids.contains(oms[i].id);
                    lemma_without(ofs[f].milestone_ids, milestone_id);
                    lemma_push_contains(ofs[f].milestone_ids, milestone_id, oms[i].id);
                    assert(fs[f].milestone_ids.contains(ms[i].id));
                }
            }
        }
        proof {
            if old(self)@.ids_unique() {
                assert forall|i: int| 0 <= i < oms.len() implies (milestone_key())(#[trigger] self@.milestones[i]) == (milestone_key())(oms[i]) by {
                    assert(moved_to(oms[i], self@.milestones[i], milestone_id, folder_id));
                }
                lemma_same_keys_distinct(oms, self@.milestones, milestone_key());
                assert forall|f: int| 0 <= f < ofs.len() implies (folder_key())(#[trigger] self@.folders[f]) == (folder_key())(ofs[f]) by {
                    assert(self@.folders[f].id == ofs[f].id);
                }
                lemma_same_keys_distinct(ofs, self@.folders, folder_key());
            }
        }
        true
    }

    /// Puts `m` in place of the milestone at `i`, which has the same id and
    /// folder reference.
    fn replace_milestone(&mut self, i: usize, m: Milestone)
        requires
            old(self)@.wf(),
            i < old(self)@.milestones.len(),
            m.id == old(self)@.milestones[i as int].id,
            m.folder_id == old(self)@.milestones[i as int].folder_id,
            m@.completion_consistent(),
        ensures
            old(self)@.ids_unique() ==> final(self)@.ids_unique(),
            !earlier(final(self).updated_at, old(self).updated_at),
            final(self)@ == (RoadmapView {
                milestones: old(self)@.milestones.update(i as int, m@),
                updated_at: final(self).updated_at,
                ..old(self)@
            }),
            final(self)@.wf(),
    {
        let ghost mv = m@;
        self.milestones.set(i, m);
        self.updated_at = now_not_before(self.updated_at);
        proof {
            let ms = self@.milestones;
            assert(ms =~= old(self)@.milestones.update(i as int, mv));
            lemma_links_keep(old(self)@.milestones, ms, self@.folders);
            if old(self)@.ids_unique() {
                assert forall|k: int| 0 <= k < ms.len() implies (milestone_key())(#[trigger] ms[k]) == (milestone_key())(old(self)@.milestones[k]) by {
                }
                lemma_same_keys_distinct(old(self)@.milestones, ms, milestone_key());
            }
        }
    }

    /// Sets the status of the first milestone with this id; the completion
    /// time is set exactly when the new status is `Completed`. Returns
    /// whether such a milestone exists.
    pub fn update_milestone_status(&mut self, id: u128, status: Status) -> (r: bool)
        requires
            old(self)@.wf(),
        ensures
            old(self)@.ids_unique() ==> final(self)@.ids_unique(),
            !earlier(final(self).updated_at, old(self).updated_at),
            final(self)@.wf(),
            r == exists|i: int| 0 <= i < old(self)@.milestones.len() && (#[trigger] old(self)@.milestones[i]).id == id,
            !r ==> final(self)@ == old(self)@,
            r ==> exists|i: int|
                0 <= i < old(self)@.milestones.len() && (#[trigger] old(self)@.milestones[i]).id == id
                    && !earlier(final(self)@.milestones[i].updated_at, old(self)@.milestones[i].updated_at)
                    && final(self)@ == (RoadmapView {
                        milestones: old(self)@.milestones.update(
                            i,
                            old(self)@.milestones[i].with_status(
                                status,
                                final(self)@.milestones[i].completed_at,
                                final(self)@.milestones[i].updated_at,
                            ),
                        ),
                        updated_at: final(self).updated_at,
                        ..old(self)@
                    }),
    {
        match self.find_milestone(id) {
            None => false,
            Some(i) => {
                let mut m = self.milestones[i].clone();
                m.update_status(status);
                self.replace_milestone(i, m);
                assert(self@.milestones[i as int] == m@);
                true
            },
        }
    }

    /// Moves the first milestone with this id one step along the status
    /// cycle. Returns whether such a milestone exists.
    pub fn advance_milestone_status(&mut self, id: u128) -> (r: bool)
        requires
            old(self)@.wf(),
        ensures
            old(self)@.ids_unique() ==> final(self)@.ids_unique(),
            !earlier(final(self).updated_at, old(self).updated_at),
            final(self)@.wf(),
            r == exists|i: int| 0 <= i < old(self)@.milestones.len() && (#[trigger] old(self)@.milestones[i]).id == id,
            !r ==> final(self)@ == old(self)@,
            r ==> exists|i: int|
                0 <= i < old(self)@.milestones.len() && (#[trigger] old(self)@.milestones[i]).id == id
                    && !earlier(final(self)@.milestones[i].updated_at, old(self)@.milestones[i].updated_at)
                    && final(self)@ == (RoadmapView {
                        milestones: old(self)@.milestones.update(
                            i,
                            old(self)@.milestones[i].with_status(
                                next_status(old(self)@.milestones[i].status),
                                final(self)@.milestones[i].completed_at,
                                final(self)@.milestones[i].updated_at,
                            ),
                        ),
                        updated_at: final(self).updated_at,
                        ..old(self)@
                    }),
    {
        match self.find_milestone(id) {
            None => false,
            Some(i) => {
                let mut m = self.milestones[i].clone();
                m.advance_status();
                self.replace_milestone(i, m);
                assert(self@.milestones[i as int] == m@);
                true
            },
        }
    }

    /// Marks the first milestone with this id completed. Returns whether such
    /// a milestone exists.
    pub fn mark_milestone_completed(&mut self, id: u128) -> (r: bool)
        requires
            old(self)@.wf(),
        ensures
            old(self)@.ids_unique() ==> final(self)@.ids_unique(),
            !earlier(final(self).updated_at, old(self).updated_at),
            final(self)@.wf(),
            r == exists|i: int| 0 <= i < old(self)@.milestones.len() && (#[trigger] old(self)@.milestones[i]).id == id,
            !r ==> final(self)@ == old(self)@,
            r ==> exists|i: int|
                0 <= i < old(self)@.milestones.len() && (#[trigger] old(self)@.milestones[i]).id == id
                    && !earlier(final(self)@.milestones[i].updated_at, old(self)@.milestones[i].updated_at)
                    && final(self)@.milestones[i].completed_at is Some
                    && final(self)@ == (RoadmapView {
                        milestones: old(self)@.milestones.update(
                            i,
                            old(self)@.milestones[i].with_status(
                                Status::Completed,
                                final(self)@.milestones[i].completed_at,
                                final(self)@.milestones[i].updated_at,
                            ),
                        ),
                        updated_at: final(self).updated_at,
                        ..old(self)@
                    }),
    {
        match self.find_milestone(id) {
            None => false,
            Some(i) => {
                let mut m = self.milestones[i].clone();
                m.mark_completed();
                self.replace_milestone(i, m);
                assert(self@.milestones[i as int] == m@);
                true
            },
        }
    }

    /// Moves the priority of the first milestone with this id one step up,
    /// wrapping round. Returns whether such a milestone exists.
    pub fn cycle_milestone_priority(&mut self, id: u128) -> (r: bool)
        requires
            old(self)@.wf(),
        ensures
            old(self)@.ids_unique() ==> final(self)@.ids_unique(),
            !earlier(final(self).updated_at, old(self).updated_at),
            final(self)@.wf(),
            r == exists|i: int| 0 <= i < old(self)@.milestones.len() && (#[trigger] old(self)@.milestones[i]).id == id,
            !r ==> final(self)@ == old(self)@,
            r ==> exists|i: int|
                0 <= i < old(self)@.milestones.len() && (#[trigger] old(self)@.milestones[i]).id == id
                    && !earlier(final(self)@.milestones[i].updated_at, old(self)@.milestones[i].updated_at)
                    && final(self)@ == (RoadmapView {
                        milestones: old(self)@.milestones.update(
                            i,
                            MilestoneView {
                                priority: next_priority(old(self)@.milestones[i].priority),
                                updated_at: final(self)@.milestones[i].updated_at,
                                ..old(self)@.milestones[i]
                            },
                        ),
                        updated_at: final(self).updated_at,
                        ..old(self)@
                    }),
    {
        match self.find_milestone(id) {
            None => false,
            Some(i) => {
                let mut m = self.milestones[i].clone();
                m.cycle_priority();
                self.replace_milestone(i, m);
                assert(self@.milestones[i as int] == m@);
                true
            },
        }
    }

    /// Gives the first milestone with this id a new title. Returns whether
    /// such a milestone exists.
    pub fn rename_milestone(&mut self, id: u128, title: String) -> (r: bool)
        requires
            old(self)@.wf(),
        ensures
            old(self)@.ids_unique() ==> final(self)@.ids_unique(),
            !earlier(final(self).updated_at, old(self).updated_at),
            final(self)@.wf(),
            r == exists|i: int| 0 <= i < old(self)@.milestones.len() && (#[trigger] old(self)@.milestones[i]).id == id,
            !r ==> final(self)@ == old(self)@,
            r ==> exists|i: int|
                0 <= i < old(self)@.milestones.len() && (#[trigger] old(self)@.milestones[i]).id == id
                    && !earlier(final(self)@.milestones[i].updated_at, old(self)@.milestones[i].updated_at)
                    && final(self)@ == (RoadmapView {
                        milestones: old(self)@.milestones.update(
                            i,
                            MilestoneView {
                                title,
                                updated_at: final(self)@.milestones[i].updated_at,
                                ..old(self)@.milestones[i]
                            },
                        ),
                        updated_at: final(self).updated_at,
                        ..old(self)@
                    }),
    {
        match self.find_milestone(id) {
            None => false,
            Some(i) => {
                let mut m = self.milestones[i].clone();
                m.title = title;
                m.updated_at = now_not_before(m.updated_at);
                self.replace_milestone(i, m);
                assert(self@.milestones[i as int] == m@);
                true
            },
        }
    }

    /// Gives the first folder with this id a new name. Returns whether such a
    /// folder exists.
    pub fn rename_folder(&mut self, id: u128, name: String) -> (r: bool)
        requires
            old(self)@.wf(),
        ensures
            old(self)@.ids_unique() ==> final(self)@.ids_unique(),
            !earlier(final(self).updated_at, old(self).updated_at),
            final(self)@.wf(),
            r == exists|f: int| 0 <= f < old(self)@.folders.len() && (#[trigger] old(self)@.folders[f]).id == id,
            !r ==> final(self)@ == old(self)@,
            r ==> exists|f: int|
                0 <= f < old(self)@.folders.len() && (#[trigger] old(self)@.folders[f]).id == id
                    && !earlier(final(self)@.folders[f].updated_at, old(self)@.folders[f].updated_at)
                    && final(self)@ == (RoadmapView {
                        folders: old(self)@.folders.update(
                            f,
                            FolderView {
                                name,
                                updated_at: final(self)@.folders[f].updated_at,
                                ..old(self)@.folders[f]
                            },
                        ),
                        updated_at: final(self).updated_at,
                        ..old(self)@
                    }),
    {
        match self.find_folder(id) {
            None => false,
            Some(f) => {
                let mut folder = self.folders[f].clone();
                folder.name = name;
                folder.updated_at = now_not_before(folder.updated_at);
                let ghost fv = folder@;
                self.folders.set(f, folder);
                self.updated_at = now_not_before(self.updated_at);
                proof {
                    let fs = self@.folders;
                    let ofs = old(self)@.folders;
                    let ms = self@.milestones;
                    assert(fs =~= ofs.update(f as int, fv));
                    assert forall|g: int, k: int|
                        0 <= g < fs.len() && 0 <= k < fs[g].milestone_ids.len() implies has_member(
                        ms,
                        #[trigger] fs[g].milestone_ids[k],
                        fs[g].id,
                    ) by {
                        assert(has_member(ms, ofs[g].milestone_ids[k], ofs[g].id));
                    }
                    assert forall|i: int|
                        0 <= i < ms.len() && (#[trigger] ms[i]).folder_id is Some implies folder_lists(
                        fs,
                        ms[i].folder_id->0,
                        ms[i].id,
                    ) by {
                        let g = choose|g: int|
                            0 <= g < ofs.len() && (#[trigger] ofs[g]).id == ms[i].folder_id->0
                                && ofs[g].milestone_ids.contains(ms[i].id);
                        assert(fs[g].id == ofs[g].id);
                    }
                }
                proof {
                    if old(self)@.ids_unique() {
                        let fs = self@.folders;
                        assert forall|k: int| 0 <= k < fs.len() implies (folder_key())(#[trigger] fs[k]) == (folder_key())(old(self)@.folders[k]) by {
                        }
                        lemma_same_keys_distinct(old(self)@.folders, fs, folder_key());
                    }
                }
                true
            },
        }
    }

    /// The milestones whose folder reference is `folder_id`, in stored order.
    pub fn get_milestones_in_folder(&self, folder_id: Option<u128>) -> (r: Vec<Milestone>)
        ensures
            milestones_view(r@) == in_folder(self@.milestones, folder_id),
    {
        let ghost ms = self@.milestones;
        let mut out: Vec<Milestone> = Vec::new();
        let mut i: usize = 0;
        while i < self.milestones.len()
            invariant
                0 <= i <= self.milestones.len(),
                ms == self@.milestones,
                milestones_view(out@) == in_folder(ms.take(i as int), folder_id),
            decreases self.milestones.len() - i,
        {
            proof {
                assert(ms.take(i as int + 1) =~= ms.take(i as int).push(ms[i as int]));
                ms.take(i as int).lemma_filter_push(ms[i as int], |m: MilestoneView| m.folder_id == folder_id);
                assert(ms[i as int] == self.milestones@[i as int]@);
            }
            if self.milestones[i].folder_id == folder_id {
                let c = self.milestones[i].clone();
                let ghost before = out@;
                out.push(c);
                assert(milestones_view(out@) =~= milestones_view(before).push(c@));
            }
            i += 1;
        }
        assert(ms.take(ms.len() as int) =~= ms);
        out
    }

    /// The milestones that are in no folder.
    pub fn get_unorganized_milestones(&self) -> (r: Vec<Milestone>)
        ensures
            milestones_view(r@) == in_folder(self@.milestones, None),
    {
        self.get_milestones_in_folder(None)
    }

    /// How many milestones have status `status`.
    pub fn count_with_status(&self, status: Status) -> (r: usize)
        ensures
            r == count_status(self@.milestones, status),
    {
        let ghost ms = self@.milestones;
        let mut n: usize = 0;
        let mut i: usize = 0;
        while i < self.milestones.len()
            invariant
                0 <= i <= self.milestones.len(),
                ms == self@.milestones,
                n == count_status(ms.take(i as int), status),
            decreases self.milestones.len() - i,
        {
            proof {
                assert(ms.take(i as int + 1).drop_last() =~= ms.take(i as int));
                assert(ms[i as int] == self.milestones@[i as int]@);
                lemma_count_bound(ms.take(i as int), status);
            }
            if self.milestones[i].status == status {
                n += 1;
            }
            i += 1;
        }
        assert(ms.take(ms.len() as int) =~= ms);
        n
    }

    pub fn completed_count(&self) -> (r: usize)
        ensures
            r == count_status(self@.milestones, Status::Completed),
    {
        self.count_with_status(Status::Completed)
    }

    pub fn in_progress_count(&self) -> (r: usize)
        ensures
            r == count_status(self@.milestones, Status::InProgress),
    {
        self.count_with_status(Status::InProgress)
    }

    pub fn pending_count(&self) -> (r: usize)
        ensures
            r == count_status(self@.milestones, Status::NotStarted),
    {
        self.count_with_status(Status::NotStarted)
    }

    pub fn blocked_count(&self) -> (r: usize)
        ensures
            r == count_status(self@.milestones, Status::Blocked),
    {
        self.count_with_status(Status::Blocked)
    }

    /// The progress percentages of all milestones, added up.
    pub fn progress_total(&self) -> (r: u128)
        ensures
            r == progress_sum(self@.milestones),
    {
        let ghost ms = self@.milestones;
        let mut total: u128 = 0;
        let mut i: usize = 0;
        while i < self.milestones.len()
            invariant
                0 <= i <= self.milestones.len(),
                ms == self@.milestones,
                total == progress_sum(ms.take(i as int)),
            decreases self.milestones.len() - i,
        {
            proof {
                assert(ms.take(i as int + 1).drop_last() =~= ms.take(i as int));
                assert(ms[i as int] == self.milestones@[i as int]@);
                lemma_progress_sum_bound(ms.take(i as int));
            }
            total = total + self.milestones[i].progress_percentage() as u128;
            i += 1;
        }
        assert(ms.take(ms.len() as int) =~= ms);
        total
    }

    /// The mean progress over all milestones in whole percent, rounded down;
    /// 0 for a roadmap without milestones.
    pub fn overall_progress(&self) -> (r: u64)
        ensures
            r == mean_progress(self@.milestones),
            self@.milestones.len() == 0 ==> r == 0,
    {
        if self.milestones.len() == 0 {
            return 0;
        }
        let total = self.progress_total();
        proof {
            lemma_progress_sum_bound(self@.milestones);
            assert(total / (self.milestones.len() as u128) <= 100) by (nonlinear_arith)
                requires
                    total <= 100 * self.milestones.len(),
                    self.milestones.len() > 0,
            ;
        }
        (total / (self.milestones.len() as u128)) as u64
    }

    /// Whether the roadmap is well formed: completion times match statuses,
    /// and folder lists and folder references agree. Data read from a file
    /// is checked with this before it is worked on.
    pub fn is_consistent(&self) -> (r: bool)
        ensures
            r == self@.wf(),
    {
        let ghost ms = self@.milestones;
        let ghost fs = self@.folders;
        let mut i: usize = 0;
        while i < self.milestones.len()
            invariant
                0 <= i <= self.milestones.len(),
                ms == self@.milestones,
                forall|j: int| 0 <= j < i ==> (#[trigger] ms[j]).completion_consistent(),
            decreases self.milestones.len() - i,
        {
            assert(ms[i as int] == self.milestones@[i as int]@);
            if self.milestones[i].completed_at.is_some() != self.milestones[i].status.is_completed() {
                return false;
            }
            i += 1;
        }
        let mut f: usize = 0;
        while f < self.folders.len()
            invariant
                0 <= f <= self.folders.len(),
                fs == self@.folders,
                ms == self@.milestones,
                forall|g: int| 0 <= g < f ==> (#[trigger] fs[g]).milestone_ids.no_duplicates(),
                forall|g: int, k: int|
                    0 <= g < f && 0 <= k < fs[g].milestone_ids.len() ==> has_member(
                        ms,
                        #[trigger] fs[g].milestone_ids[k],
                        fs[g].id,
                    ),
            decreases self.folders.len() - f,
        {
            assert(fs[f as int] == self.folders@[f as int]@);
            if !ids_distinct(&self.folders[f].milestone_ids) {
                return false;
            }
            let mut k: usize = 0;
            while k < self.folders[f].milestone_ids.len()
                invariant
                    0 <= f < self.folders.len(),
                    0 <= k <= self.folders[f as int].milestone_ids.len(),
                    fs == self@.folders,
                    ms == self@.milestones,
                    fs[f as int] == self.folders@[f as int]@,
                    forall|q: int| 0 <= q < k ==> has_member(
                        ms,
                        #[trigger] fs[f as int].milestone_ids[q],
                        fs[f as int].id,
                    ),
                decreases self.folders[f as int].milestone_ids.len() - k,
            {
                if !has_member_in(&self.milestones, self.folders[f].milestone_ids[k], self.folders[f].id) {
                    return false;
                }
                k += 1;
            }
            f += 1;
        }
        let mut j: usize = 0;
        while j < self.milestones.len()
            invariant
                0 <= j <= self.milestones.len(),
                fs == self@.folders,
                ms == self@.milestones,
                forall|x: int| 0 <= x < j && (#[trigger] ms[x]).folder_id is Some ==> folder_lists(
                    fs,
                    ms[x].folder_id->0,
                    ms[x].id,
                ),
            decreases self.milestones.len() - j,
        {
            assert(ms[j as int] == self.milestones@[j as int]@);
            if let Some(g) = self.milestones[j].folder_id {
                if !folder_lists_in(&self.folders, g, self.milestones[j].id) {
                    return false;
                }
            }
            j += 1;
        }
        true
    }

    /// Makes a roadmap read from a file well formed. A well-formed roadmap is
    /// left as it is; otherwise each milestone is repaired (a reference to
    /// a missing folder dropped, the completion time matched to the status)
    /// and every folder's list is rebuilt from the milestones that name it.
    /// Returns whether anything changed.
    pub fn repair_links(&mut self) -> (changed: bool)
        ensures
            old(self)@.ids_unique() ==> final(self)@.ids_unique(),
            changed == !old(self)@.wf(),
            !changed ==> final(self)@ == old(self)@,
            changed ==> final(self)@ == repaired(old(self)@),
            final(self)@.wf(),
    {
        if self.is_consistent() {
            return false;
        }
        let ghost o = self@;
        let ghost target = repaired(o);
        let mut i: usize = 0;
        while i < self.milestones.len()
            invariant
                0 <= i <= self.milestones.len(),
                self.milestones.len() == o.milestones.len(),
                folders_view(self.folders@) == o.folders,
                self.title == o.title,
                self.description == o.description,
                self.created_at == o.created_at,
                self.updated_at == o.updated_at,
                self.version@ == o.version,
                target == repaired(o),
                forall|k: int| 0 <= k < i ==> (#[trigger] milestones_view(self.milestones@)[k]) == target.milestones[k],
                forall|k: int| i <= k < o.milestones.len() ==> (#[trigger] milestones_view(self.milestones@)[k]) == o.milestones[k],
            decreases o.milestones.len() - i,
        {
            assert(milestones_view(self.milestones@)[i as int] == self.milestones@[i as int]@);
            let mut m = self.milestones[i].clone();
            assert(self@.folders == o.folders);
            if let Some(g) = m.folder_id {
                match self.find_folder(g) {
                    None => {
                        m.folder_id = None;
                    },
                    Some(j) => {
                        assert(o.folders[j as int].id == g);
                        assert(has_folder(o.folders, g));
                    },
                }
            }
            if m.status.is_completed() {
                if m.completed_at.is_none() {
                    m.completed_at = Some(m.updated_at);
                }
            } else {
                m.completed_at = None;
            }
            let ghost mv = m@;
            assert(mv == repaired_milestone(o.milestones[i as int], o.folders));
            let ghost before = milestones_view(self.milestones@);
            self.milestones.set(i, m);
            assert(milestones_view(self.milestones@) =~= before.update(i as int, mv));
            assert forall|k: int| 0 <= k < i + 1 implies (#[trigger] milestones_view(self.milestones@)[k]) == target.milestones[k] by {
                if k < i {
                    assert(before[k] == milestones_view(self.milestones@)[k]);
                }
            }
            i += 1;
        }
        assert(milestones_view(self.milestones@) =~= target.milestones);
        let mut f: usize = 0;
        while f < self.folders.len()
            invariant
                0 <= f <= self.folders.len(),
                self.folders.len() == o.folders.len(),
                milestones_view(self.milestones@) == target.milestones,
                self.title == o.title,
                self.description == o.description,
                self.created_at == o.created_at,
                self.updated_at == o.updated_at,
                self.version@ == o.version,
                target == repaired(o),
                forall|k: int| 0 <= k < f ==> (#[trigger] folders_view(self.folders@)[k]) == target.folders[k],
                forall|k: int| f <= k < o.folders.len() ==> (#[trigger] folders_view(self.folders@)[k]) == o.folders[k],
            decreases o.folders.len() - f,
        {
            assert(folders_view(self.folders@)[f as int] == self.folders@[f as int]@);
            let ids = members_of(&self.milestones, self.folders[f].id);
            let mut folder = self.folders[f].clone();
            folder.milestone_ids = ids;
            let ghost fv = folder@;
            let ghost before = folders_view(self.folders@);
            self.folders.set(f, folder);
            assert(folders_view(self.folders@) =~= before.update(f as int, fv));
            assert forall|k: int| 0 <= k < f + 1 implies (#[trigger] folders_view(self.folders@)[k]) == target.folders[k] by {
                if k < f {
                    assert(before[k] == folders_view(self.folders@)[k]);
                }
            }
            f += 1;
        }
        assert(folders_view(self.folders@) =~= target.folders);
        proof {
            lemma_repaired_wf(o);
        }
        proof {
            if o.ids_unique() {
                assert forall|k: int| 0 <= k < o.milestones.len() implies (milestone_key())(#[trigger] self@.milestones[k]) == (milestone_key())(o.milestones[k]) by {
                    assert(self@.milestones[k] == repaired_milestone(o.milestones[k], o.folders));
                }
                lemma_same_keys_distinct(o.milestones, self@.milestones, milestone_key());
                assert forall|k: int| 0 <= k < o.folders.len() implies (folder_key())(#[trigger] self@.folders[k]) == (folder_key())(o.folders[k]) by {
                }
                lemma_same_keys_distinct(o.folders, self@.folders, folder_key());
            }
        }
        true
    }

    /// Appends a folder, which starts with no members.
    pub fn add_folder(&mut self, folder: Folder)
        requires
            old(self)@.wf(),
            folder.milestone_ids@.len() == 0,
        ensures
            old(self)@.ids_unique() && (forall|f: int| 0 <= f < old(self)@.folders.len() ==> (#[trigger] old(self)@.folders[f]).id != folder.id) ==> final(self)@.ids_unique(),
            !earlier(final(self).updated_at, old(self).updated_at),
            final(self)@ == (RoadmapView {
                folders: old(self)@.folders.push(folder@),
                updated_at: final(self).updated_at,
                ..old(self)@
            }),
            final(self)@.wf(),
    {
        let ghost fv = folder@;
        self.folders.push(folder);
        self.updated_at = now_not_before(self.updated_at);
        proof {
            let ms = self@.milestones;
            let fs = self@.folders;
            let ofs = old(self)@.folders;
            assert(fs =~= ofs.push(fv));
            assert forall|i: int|
                0 <= i < ms.len() && (#[trigger] ms[i]).folder_id is Some implies folder_lists(
                fs,
                ms[i].folder_id->0,
                ms[i].id,
            ) by {
                let f = choose|f: int|
                    0 <= f < ofs.len() && (#[trigger] ofs[f]).id == ms[i].folder_id->0
                        && ofs[f].milestone_ids.contains(ms[i].id);
                assert(fs[f] == ofs[f]);
            }
        }
        proof {
            let fs = self@.folders;
            let of = old(self)@.folders;
            assert(fs =~= of.push(fv));
            if old(self)@.ids_unique() && (forall|f: int| 0 <= f < of.len() ==> (#[trigger] of[f]).id != fv.id) {
                assert forall|x: int, y: int| 0 <= x < y < fs.len() implies (folder_key())(#[trigger] fs[x])
                    != (folder_key())(#[trigger] fs[y]) by {
                    assert(fs[x] == of.push(fv)[x] && fs[y] == of.push(fv)[y]);
                    if y < of.len() {
                        assert((folder_key())(of[x]) != (folder_key())(of[y]));
                    }
                }
            }
        }
    }
}

} // verus!
