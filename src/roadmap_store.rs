//! What loading a roadmap file decides once the file was read and parsed,
//! and where its backup goes.
use vstd::prelude::*;
use crate::clock::Timestamp;
use crate::roadmap::{milestones_view, repaired, Milestone, MilestoneView, Roadmap, RoadmapView, ROADMAP_VERSION};

verus! {

/// A roadmap as files written before folders existed hold it.
#[derive(Debug)]
pub struct OldRoadmap {
    pub title: String,
    pub description: String,
    pub milestones: Vec<Milestone>,
    pub created_at: Timestamp,
    pub updated_at: Timestamp,
}

/// What was found at the roadmap file's path.
#[derive(Debug)]
pub enum StoredRoadmap {
    /// No file there.
    Absent,
    /// The file parses as the current layout.
    Current(Roadmap),
    /// The file parses only as the layout without folders.
    Old(OldRoadmap),
    /// The file parses as neither; the parser's message.
    Unreadable(String),
}

/// Why a roadmap could not be loaded.
#[derive(Debug, PartialEq, Eq)]
pub enum LoadError {
    /// The file matches no known layout; the parser's message.
    Corrupt(String),
}

/// The title and description a roadmap starts with when there is no file.
pub open spec fn default_title() -> Seq<char> {
    "My Learning Roadmap"@
}

pub open spec fn default_description() -> Seq<char> {
    "A journey of continuous learning and growth"@
}

/// An old roadmap in the current layout: no folders, no milestone in one,
/// and the current schema version.
pub open spec fn upgraded(old: OldRoadmap) -> RoadmapView {
    RoadmapView {
        title: old.title,
        description: old.description,
        milestones: milestones_view(old.milestones@).map_values(
            |m: MilestoneView| MilestoneView { folder_id: None, ..m },
        ),
        folders: Seq::empty(),
        created_at: old.created_at,
        updated_at: old.updated_at,
        version: ROADMAP_VERSION@,
    }
}

/// A well-formed roadmap as it is, any other repaired; stamped with the
/// current schema version.
pub open spec fn made_current(r: RoadmapView) -> RoadmapView {
    RoadmapView { version: ROADMAP_VERSION@, ..(if r.wf() { r } else { repaired(r) }) }
}

/// What loading gives is well formed and current, and loading it again
/// gives it back unchanged, so a second load writes nothing.
pub proof fn lemma_load_settles(r: RoadmapView)
    ensures
        made_current(r).wf(),
        made_current(r).version == ROADMAP_VERSION@,
        made_current(made_current(r)) == made_current(r),
{
    crate::roadmap::lemma_repaired_wf(r);
    let c = if r.wf() { r } else { repaired(r) };
    assert(made_current(r).milestones == c.milestones && made_current(r).folders == c.folders);
}

/// Turns a roadmap of the layout without folders into the current layout.
pub fn migrate_old_roadmap(old: OldRoadmap) -> (r: Roadmap)
    ensures
        r@ == upgraded(old),
{
    let ghost target = upgraded(old);
    let OldRoadmap { title, description, milestones, created_at, updated_at } = old;
    let ghost om = milestones_view(milestones@);
    let mut rest = milestones;
    let mut out: Vec<Milestone> = Vec::new();
    assert(milestones_view(rest@) =~= om.skip(0));
    while rest.len() > 0
        invariant
            out.len() + rest.len() == om.len(),
            milestones_view(rest@) == om.skip(out.len() as int),
            milestones_view(out@) == target.milestones.take(out.len() as int),
            target.milestones == om.map_values(|m: MilestoneView| MilestoneView { folder_id: None, ..m }),
        decreases rest.len(),
    {
        let ghost k = out.len() as int;
        assert(milestones_view(rest@)[0] == rest@[0]@);
        let ghost r0 = rest@;
        let mut m = rest.remove(0);
        assert(rest@ =~= r0.subrange(1, r0.len() as int));
        assert forall|j: int| 0 <= j < rest@.len() implies milestones_view(rest@)[j] == om.skip(k + 1)[j] by {
            assert(milestones_view(r0)[j + 1] == r0[j + 1]@);
            assert(milestones_view(r0)[j + 1] == om.skip(k)[j + 1]);
        }
        assert(milestones_view(rest@) =~= om.skip(k + 1));
        m.folder_id = None;
        let ghost before = out@;
        out.push(m);
        assert(milestones_view(out@) =~= milestones_view(before).push(m@));
        assert(target.milestones.take(k + 1) =~= target.milestones.take(k).push(target.milestones[k]));
    }
    assert(target.milestones.take(out.len() as int) =~= target.milestones);
    let r = Roadmap {
        title,
        description,
        milestones: out,
        folders: Vec::new(),
        created_at,
        updated_at,
        version: ROADMAP_VERSION.to_owned(),
    };
    assert(r@.folders =~= Seq::empty());
    r
}

/// Where the roadmap file lives.
#[derive(Debug)]
pub struct Storage {
    file_path: String,
}

impl Storage {
    pub closed spec fn path(&self) -> Seq<char> {
        self.file_path@
    }

    pub fn new(file_path: String) -> (r: Storage)
        ensures
            r.path() == file_path@,
    {
        Storage { file_path }
    }

    pub fn file_path(&self) -> (r: &str)
        ensures
            r@ == self.path(),
    {
        self.file_path.as_str()
    }

    /// The path of the backup copy: the file's path with `.backup` added.
    pub fn backup_path(&self) -> (r: String)
        ensures
            r@ == self.path() + ".backup"@,
    {
        let mut p = self.file_path.clone();
        p.append(".backup");
        p
    }

    /// Decides what loading gives, from what was found at the file's path:
    /// the roadmap, and whether it must be written back. A missing file gives
    /// a new empty roadmap. A current one is taken as it is when well formed
    /// and of the current schema version; otherwise it is repaired, stamped
    /// with the current version and written back. An old one is converted,
    /// repaired if need be, and written back. Anything else is an error that leaves the
    /// file alone. Whatever is loaded is well formed.
    pub fn load_roadmap(&self, stored: StoredRoadmap) -> (r: Result<(Roadmap, bool), LoadError>)
        ensures
            match stored {
                StoredRoadmap::Absent => r matches Ok((m, save)) && save && m.title@ == default_title()
                    && m.version@ == ROADMAP_VERSION@
                    && m.description@ == default_description() && m@.milestones.len() == 0
                    && m@.folders.len() == 0 && m@.wf(),
                StoredRoadmap::Current(m0) => r matches Ok((m, save)) && save == (!m0@.wf() || m0@.version
                    != ROADMAP_VERSION@) && m@ == made_current(m0@) && m@.wf(),
                StoredRoadmap::Old(o) => r matches Ok((m, save)) && save && m@ == made_current(upgraded(o))
                    && m@.wf(),
                StoredRoadmap::Unreadable(msg) => r == Err::<(Roadmap, bool), LoadError>(LoadError::Corrupt(msg)),
            },
    {
        match stored {
            StoredRoadmap::Absent => {
                let m = Roadmap::new(
                    "My Learning Roadmap".to_owned(),
                    "A journey of continuous learning and growth".to_owned(),
                );
                Ok((m, true))
            },
            StoredRoadmap::Current(m) => {
                let mut m = m;
                let changed = m.repair_links();
                let stale = !(m.version == ROADMAP_VERSION.to_owned());
                if stale {
                    m.version = ROADMAP_VERSION.to_owned();
                }
                assert(m@ == made_current(stored->Current_0@));
                Ok((m, changed || stale))
            },
            StoredRoadmap::Old(o) => {
                let mut m = migrate_old_roadmap(o);
                m.repair_links();
                Ok((m, true))
            },
            StoredRoadmap::Unreadable(msg) => Err(LoadError::Corrupt(msg)),
        }
    }
}

} // verus!
