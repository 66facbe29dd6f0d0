//! The project that is open: one folder, known by its path and by the name
//! shown for it.

use vstd::prelude::*;
use crate::settings::{StoreAction, StoreActionModel};

verus! {

/// The project that is open, if any. Path and name are there together or
/// not at all.
#[derive(Clone, Debug, PartialEq, Eq)]
pub struct ProjectState {
    pub path: Option<String>,
    pub name: Option<String>,
}

/// A `ProjectState` with its texts as sequences of characters.
pub struct ProjectModel {
    pub path: Option<Seq<char>>,
    pub name: Option<Seq<char>>,
}

impl View for ProjectState {
    type V = ProjectModel;

    open spec fn view(&self) -> ProjectModel {
        ProjectModel {
            path: match self.path {
                Some(p) => Some(p@),
                None => None,
            },
            name: match self.name {
                Some(n) => Some(n@),
                None => None,
            },
        }
    }
}

impl ProjectModel {
    /// No project is open.
    pub open spec fn empty() -> ProjectModel {
        ProjectModel { path: None, name: None }
    }

    /// Path and name are there together or not at all.
    pub open spec fn wf(self) -> bool {
        self.path is Some <==> self.name is Some
    }

    /// The project for the folder at `path`, whose final segment is
    /// `segment`: it is named by that segment, and by the whole path where
    /// the path has none.
    pub open spec fn opened(path: Seq<char>, segment: Option<Seq<char>>) -> ProjectModel {
        ProjectModel {
            path: Some(path),
            name: Some(
                match segment {
                    Some(s) => s,
                    None => path,
                },
            ),
        }
    }
}

impl ProjectModel {
    /// What restoring the last project gives: the project for the stored
    /// path, whose final segment is `segment`, where a path is stored and
    /// still exists, and nothing otherwise.
    pub open spec fn loaded(
        stored: Option<Seq<char>>,
        exists: bool,
        segment: Option<Seq<char>>,
    ) -> Option<ProjectModel> {
        match stored {
            Some(path) if exists => Some(ProjectModel::opened(path, segment)),
            _ => None,
        }
    }

    /// The state after restoring the last project: what was restored, and
    /// the state as it was where nothing was.
    pub open spec fn after_load(
        self,
        stored: Option<Seq<char>>,
        exists: bool,
        segment: Option<Seq<char>>,
    ) -> ProjectModel {
        match ProjectModel::loaded(stored, exists, segment) {
            Some(project) => project,
            None => self,
        }
    }
}

/// The view of a string that may be absent.
pub open spec fn text_of(s: Option<String>) -> Option<Seq<char>> {
    match s {
        Some(t) => Some(t@),
        None => None,
    }
}

/// The view of a project that may be absent.
pub open spec fn model_of(p: Option<ProjectState>) -> Option<ProjectModel> {
    match p {
        Some(s) => Some(s@),
        None => None,
    }
}

/// Calls `Path::file_name` of the standard library and hands the final
/// component on as a string. Nothing is claimed of it: how a path falls into
/// components is the platform's matter.
#[verifier::external_body]
fn final_segment(path: &str) -> (r: Option<String>) {
    std::path::Path::new(path).file_name().map(|n| n.to_string_lossy().into_owned())
}

impl ProjectState {
    /// The state in which no project is open.
    pub fn empty() -> (r: ProjectState)
        ensures
            r@ == ProjectModel::empty(),
    {
        ProjectState { path: None, name: None }
    }

    /// Whether path and name are there together or not at all.
    pub open spec fn wf(&self) -> bool {
        self@.wf()
    }

    /// The project for the folder at `path`, whose final segment is `segment`.
    pub fn for_folder(path: String, segment: Option<String>) -> (r: ProjectState)
        ensures
            r@ == ProjectModel::opened(path@, text_of(segment)),
            r.wf(),
    {
        let name = match segment {
            Some(s) => s,
            None => path.clone(),
        };
        ProjectState { path: Some(path), name: Some(name) }
    }

    /// A copy of the current state.
    pub fn get_current(&self) -> (r: ProjectState)
        ensures
            r@ == self@,
    {
        let path = match &self.path {
            Some(p) => Some(p.clone()),
            None => None,
        };
        let name = match &self.name {
            Some(n) => Some(n.clone()),
            None => None,
        };
        ProjectState { path, name }
    }

    /// Makes `project` the current state and hands back a copy of it.
    fn install(&mut self, project: ProjectState) -> (r: ProjectState)
        ensures
            final(self)@ == project@,
            r@ == project@,
    {
        let copy = project.get_current();
        *self = project;
        copy
    }

    /// Opens the folder at `path`, whose final segment is `segment`: the
    /// project for that folder becomes the current state, whatever was open
    /// before, and the store is asked to keep the path.
    pub fn open_folder(&mut self, path: String, segment: Option<String>) -> (r: (
        ProjectState,
        StoreAction,
    ))
        ensures
            final(self)@ == ProjectModel::opened(path@, text_of(segment)),
            final(self).wf(),
            r.0@ == final(self)@,
            r.1@ == StoreActionModel::Save(path@),
    {
        let keep = path.clone();
        let project = ProjectState::for_folder(path, segment);
        let copy = self.install(project);
        (copy, StoreAction::Save(keep))
    }

    /// Opens what the folder picker gave. A cancelled picker gives no folder:
    /// then nothing is opened, the state stays, and the store is left alone.
    /// Otherwise the picked folder is opened as `open_folder` does, under the
    /// name that its final path segment gives it.
    pub fn open(&mut self, selected: Option<String>) -> (r: (Option<ProjectState>, StoreAction))
        ensures
            match selected {
                Some(path) => {
                    &&& exists|segment: Option<Seq<char>>|
                        final(self)@ == #[trigger] ProjectModel::opened(path@, segment)
                    &&& final(self).wf()
                    &&& model_of(r.0) == Some(final(self)@)
                    &&& r.1@ == StoreActionModel::Save(path@)
                },
                None => {
                    &&& final(self)@ == old(self)@
                    &&& r.0 is None
                    &&& r.1@ == StoreActionModel::Keep
                },
            },
    {
        match selected {
            Some(path) => {
                let segment = final_segment(path.as_str());
                let ghost seg = text_of(segment);
                let (project, action) = self.open_folder(path, segment);
                proof {
                    assert(self@ == ProjectModel::opened(path@, seg));
                }
                (Some(project), action)
            },
            None => (None, StoreAction::Keep),
        }
    }

    /// Restores the folder at `path`, whose final segment is `segment`, if it
    /// still exists: then the project for it becomes the current state.
    /// Otherwise nothing is restored and the state stays. The store is not
    /// touched either way.
    pub fn restore_folder(&mut self, path: String, segment: Option<String>, exists: bool) -> (r:
        Option<ProjectState>)
        ensures
            model_of(r) == ProjectModel::loaded(Some(path@), exists, text_of(segment)),
            final(self)@ == old(self)@.after_load(Some(path@), exists, text_of(segment)),
            old(self).wf() ==> final(self).wf(),
    {
        if exists {
            let project = ProjectState::for_folder(path, segment);
            Some(self.install(project))
        } else {
            None
        }
    }

    /// Restores the project opened last. `stored` is the path that the store
    /// holds, if it holds one, and `exists` tells whether something still
    /// exists at that path. Where a path is stored and exists, the project
    /// for it becomes the current state, as if it had been opened, but the
    /// store is not asked to keep it again. Otherwise the result is nothing
    /// and the state stays as it was.
    pub fn load_last(&mut self, stored: Option<String>, exists: bool) -> (r: Option<ProjectState>)
        ensures
            exists|segment: Option<Seq<char>>|
                model_of(r) == #[trigger] ProjectModel::loaded(text_of(stored), exists, segment)
                    && final(self)@ == old(self)@.after_load(text_of(stored), exists, segment),
            stored is None || !exists ==> r is None && final(self)@ == old(self)@,
            old(self).wf() ==> final(self).wf(),
    {
        match stored {
            Some(path) => {
                if exists {
                    let segment = final_segment(path.as_str());
                    let ghost seg = text_of(segment);
                    let r = self.restore_folder(path, segment, true);
                    proof {
                        assert(model_of(r) == ProjectModel::loaded(text_of(stored), exists, seg));
                    }
                    r
                } else {
                    proof {
                        assert(model_of(None) == ProjectModel::loaded(text_of(stored), exists, None));
                    }
                    None
                }
            },
            None => {
                proof {
                    assert(model_of(None) == ProjectModel::loaded(text_of(stored), exists, None));
                }
                None
            },
        }
    }

    /// Closes the project: the state becomes empty and the store is asked to
    /// forget the path.
    pub fn close(&mut self) -> (r: StoreAction)
        ensures
            final(self)@ == ProjectModel::empty(),
            final(self).wf(),
            r@ == StoreActionModel::Delete,
    {
        *self = ProjectState::empty();
        StoreAction::Delete
    }
}

/// An opened project is known by the folder's path and named by its final
/// segment; it stays the current state until it is closed. Closing leaves no
/// project open and has the store forget the path that opening had it keep,
/// so that restoring the last project then gives nothing and leaves no
/// project open, whether the folder still exists or not.
pub proof fn lemma_open_then_close(
    path: Seq<char>,
    segment: Option<Seq<char>>,
    stored: Option<Seq<char>>,
    exists: bool,
    other: Option<Seq<char>>,
)
    ensures
        ProjectModel::opened(path, segment).wf(),
        ProjectModel::opened(path, segment).path == Some(path),
        segment matches Some(s) ==> ProjectModel::opened(path, segment).name == Some(s),
        segment is None ==> ProjectModel::opened(path, segment).name == Some(path),
        StoreActionModel::Save(path).applied(stored) == Some(path),
        StoreActionModel::Delete.applied(StoreActionModel::Save(path).applied(stored)) is None,
        ProjectModel::loaded(
            StoreActionModel::Delete.applied(StoreActionModel::Save(path).applied(stored)),
            exists,
            other,
        ) is None,
        ProjectModel::empty().after_load(
            StoreActionModel::Delete.applied(StoreActionModel::Save(path).applied(stored)),
            exists,
            other,
        ) == ProjectModel::empty(),
{
}

/// Where the folder stored as the last project no longer exists, or none is
/// stored, restoring gives nothing and leaves the current state as it was.
pub proof fn lemma_nothing_to_restore(
    current: ProjectModel,
    stored: Option<Seq<char>>,
    exists: bool,
    segment: Option<Seq<char>>,
)
    requires
        stored is None || !exists,
    ensures
        ProjectModel::loaded(stored, exists, segment) is None,
        current.after_load(stored, exists, segment) == current,
{
}

/// A project that was opened is restored, while its folder exists, from what
/// the store was asked to keep: the state is again what opening made it.
pub proof fn lemma_restore_reopens(
    current: ProjectModel,
    path: Seq<char>,
    segment: Option<Seq<char>>,
    stored: Option<Seq<char>>,
)
    ensures
        current.after_load(StoreActionModel::Save(path).applied(stored), true, segment)
            == ProjectModel::opened(path, segment),
{
}

impl Default for ProjectState {
    fn default() -> (r: ProjectState)
        ensures
            r@ == ProjectModel::empty(),
    {
        ProjectState::empty()
    }
}

} // verus!
