//! Opening, replacing and saving projects.

use crate::app_core::emitted;
use crate::app_core::same_path;
use crate::app_core::timeline_snapshot;
use crate::app_core::AppCore;
use crate::app_core::CoreView;
use crate::app_core::TimelineSnapshot;
use crate::app_core::TimelineSnapshotView;
use crate::events::plainly;
use crate::events::viewed;
use crate::events::CoreError;
use crate::events::CoreEvent;
use crate::events::CoreEventView;
use crate::events::CoreFault;
use crate::paths::same_opt_place;
use crate::session::fresh_session;
use crate::session::EditorSession;
use crate::session::SessionView;
use crate::text::opt_text;
use vstd::prelude::*;
use vstd::string::StringExecFns;

verus! {

/// A project that has been read in full and waits to take the place of the current
/// one.
#[derive(Debug)]
pub struct PreparedProjectOpen {
    pub path: String,
    pub editor: EditorSession,
}

/// The core once another project has taken the place of its own, and told.
pub open spec fn replaced(c: CoreView, editor: SessionView, path: Seq<char>) -> CoreView {
    let project_epoch = (c.project_epoch + 1) as u64;
    emitted(
        CoreView { project_epoch, editor, ..c },
        seq![CoreEventView::ProjectOpened { path, project_epoch, version: editor.state.version }],
    )
}

/// The identity of the project that a save is bound to.
#[derive(Debug)]
pub struct SaveTarget {
    pub project_epoch: u64,
    pub project_path: Option<String>,
}

/// What writing a project came to: where it was written, and the identity of the
/// directory it was written to.
#[derive(Debug)]
pub struct SavedProject {
    pub path: String,
    pub root_identity: Option<String>,
}

/// The view of what writing a project came to.
pub open spec fn saved_view(r: Result<SavedProject, CoreError>) -> Result<
    (Seq<char>, Option<Seq<char>>),
    CoreFault,
> {
    match r {
        Ok(x) => Ok((x.path@, opt_text(x.root_identity))),
        Err(e) => Err(e@),
    }
}

/// The complaint against a save before anything is written, if any: one that is bound
/// to a project is turned down for any other, and so is one that was cancelled.
pub open spec fn save_fault(
    c: CoreView,
    bound_to: Option<(u64, Option<Seq<char>>)>,
    can_commit: bool,
) -> Option<CoreFault> {
    if bound_to matches Some(t) && (c.project_epoch != t.0 || !same_opt_place(
        c.editor.project_dir,
        t.1,
    )) {
        Some(CoreFault::StaleProject)
    } else if !can_commit {
        Some(CoreFault::Unsupported("project cover save was cancelled before commit"@))
    } else {
        None
    }
}

/// What a save comes to. The project then lives where it was written.
pub open spec fn project_saved(
    c: CoreView,
    bound_to: Option<(u64, Option<Seq<char>>)>,
    can_commit: bool,
    saved: Result<(Seq<char>, Option<Seq<char>>), CoreFault>,
) -> (Result<Seq<char>, CoreFault>, CoreView) {
    match save_fault(c, bound_to, can_commit) {
        Some(f) => (Err(f), c),
        None => match saved {
            Err(f) => (Err(f), c),
            Ok((path, root_identity)) => (
                Ok(path),
                emitted(
                    CoreView {
                        editor: SessionView { project_dir: Some(path), root_identity, ..c.editor },
                        ..c
                    },
                    seq![CoreEventView::ProjectSaved { path, project_epoch: c.project_epoch }],
                ),
            ),
        },
    }
}

/// What those who follow the identity of the project are told before a save: that it is
/// about to change, where the project is saved to another place.
pub open spec fn told_before_save(path: Option<Seq<char>>) -> Option<bool> {
    match path {
        Some(_) => Some(true),
        None => None,
    }
}

/// What they are told after it, whatever it came to: that the change is over.
pub open spec fn told_after_save(
    path: Option<Seq<char>>,
    saved: Result<Seq<char>, CoreFault>,
) -> Option<bool> {
    match path {
        Some(_) => Some(false),
        None => None,
    }
}

/// Those who follow the identity of the project hear of a change and then of its end
/// exactly where the project is saved to a given place, whether that succeeds or not.
pub proof fn law_announced_save_is_heard_to_its_end(
    path: Option<Seq<char>>,
    saved: Result<Seq<char>, CoreFault>,
)
    ensures
        path is Some ==> told_before_save(path) == Some(true) && told_after_save(path, saved)
            == Some(false),
        path is None ==> told_before_save(path) is None && told_after_save(path, saved) is None,
{
}

/// Decides what those who follow the identity of the project are told before a save.
pub fn announce_before_save(path: &Option<String>) -> (r: Option<bool>)
    ensures
        r == told_before_save(opt_text(*path)),
{
    match path {
        Some(_) => Some(true),
        None => None,
    }
}

/// Decides what those who follow the identity of the project are told after a save.
pub fn announce_after_save(path: &Option<String>, saved: &Result<String, CoreError>) -> (r: Option<
    bool,
>)
    ensures
        r == told_after_save(opt_text(*path), viewed(*saved)),
{
    match path {
        Some(_) => Some(false),
        None => None,
    }
}

/// The identity that a save is bound to, as its view.
pub open spec fn target_view(t: Option<SaveTarget>) -> Option<(u64, Option<Seq<char>>)> {
    match t {
        Some(x) => Some((x.project_epoch, opt_text(x.project_path))),
        None => None,
    }
}

impl PreparedProjectOpen {
    /// Whether the bundle's name still denotes the directory that was read.
    /// `current` is the identity of the directory that it denotes now.
    pub fn is_current_namespace(&self, current: &Option<String>) -> (r: bool)
        ensures
            r == (self.editor@.root_identity is Some && self.editor@.root_identity == opt_text(
                *current,
            )),
    {
        match (&self.editor.root_identity, current) {
            (Some(a), Some(b)) => crate::text::same_text(a.as_str(), b.as_str()),
            _ => false,
        }
    }

    /// The directory of the bundle and its identity.
    pub fn project_asset_authority(&self) -> (r: Option<(String, String)>)
        ensures
            match r {
                Some(x) => self.editor@.project_dir == Some(x.0@) && self.editor@.root_identity
                    == Some(x.1@),
                None => self.editor@.project_dir is None || self.editor@.root_identity is None,
            },
    {
        match (&self.editor.project_dir, &self.editor.root_identity) {
            (Some(path), Some(identity)) => Some((path.clone(), identity.clone())),
            _ => None,
        }
    }
}

impl AppCore {
    fn replace_editor(&mut self, editor: EditorSession, path: &str) -> (r: TimelineSnapshot)
        requires
            old(self)@.project_epoch < u64::MAX,
        ensures
            final(self)@ == replaced(old(self)@, editor@, path@),
            r@ == timeline_snapshot(final(self)@),
    {
        self.editor = editor;
        self.project_epoch = self.project_epoch + 1;
        let project_epoch = self.project_epoch;
        let version = self.editor.state.version;
        self.emit(
            CoreEvent::ProjectOpened { path: String::from_str(path), project_epoch, version },
        );
        self.get_timeline()
    }

    /// Replaces the current project with a fresh one that has not been saved.
    pub fn new_project(&mut self) -> (r: TimelineSnapshot)
        requires
            old(self)@.project_epoch < u64::MAX,
        ensures
            final(self)@ == replaced(old(self)@, fresh_session(), ""@),
            r@ == timeline_snapshot(final(self)@),
    {
        self.replace_editor(EditorSession::new_project(), "")
    }

    /// Makes a project that was read ready to take the place of the current one.
    /// `opened` is what reading the bundle came to.
    pub fn prepare_project_open(path: String, opened: Result<EditorSession, CoreError>) -> (r: Result<
        PreparedProjectOpen,
        CoreError,
    >)
        ensures
            match (r, opened) {
                (Ok(x), Ok(editor)) => x.path == path && x.editor == editor,
                (Err(e), Err(f)) => e == f,
                _ => false,
            },
    {
        match opened {
            Ok(editor) => Ok(PreparedProjectOpen { path, editor }),
            Err(e) => Err(e),
        }
    }

    /// Puts a prepared project in the place of the current one.
    pub fn commit_project_open(&mut self, prepared: PreparedProjectOpen) -> (r: TimelineSnapshot)
        requires
            old(self)@.project_epoch < u64::MAX,
        ensures
            final(self)@ == replaced(old(self)@, prepared.editor@, prepared.path@),
            r@ == timeline_snapshot(final(self)@),
    {
        self.replace_editor(prepared.editor, prepared.path.as_str())
    }

    /// Opens a bundle in the place of the current project. `opened` is what reading
    /// it came to; where that failed, the current project stays.
    pub fn open_project(&mut self, path: String, opened: Result<EditorSession, CoreError>) -> (r: Result<
        TimelineSnapshot,
        CoreError,
    >)
        requires
            old(self)@.project_epoch < u64::MAX,
        ensures
            match opened {
                Ok(editor) => final(self)@ == replaced(old(self)@, editor@, path@) && viewed(r)
                    == Ok::<TimelineSnapshotView, CoreFault>(timeline_snapshot(final(self)@)),
                Err(e) => final(self)@ == old(self)@ && viewed(r) == Err::<
                    TimelineSnapshotView,
                    CoreFault,
                >(e@),
            },
    {
        match AppCore::prepare_project_open(path, opened) {
            Ok(prepared) => Ok(self.commit_project_open(prepared)),
            Err(e) => Err(e),
        }
    }

    /// Decides whether a project may be written: `bound_to` is the project that the
    /// save is meant for, if it is meant for one alone, and `can_commit` the last word
    /// of the caller.
    pub fn check_save(&self, bound_to: &Option<SaveTarget>, can_commit: bool) -> (r: Result<
        (),
        CoreError,
    >)
        ensures
            plainly(r) == (match save_fault(self@, target_view(*bound_to), can_commit) {
                Some(f) => Err::<(), CoreFault>(f),
                None => Ok(()),
            }),
    {
        if let Some(t) = bound_to {
            if self.project_epoch != t.project_epoch || !same_path(
                &self.editor.project_dir,
                match &t.project_path {
                    Some(path) => Some(path.as_str()),
                    None => None,
                },
            ) {
                return Err(CoreError::StaleProject);
            }
        }
        if !can_commit {
            return Err(
                CoreError::Unsupported(
                    String::from_str("project cover save was cancelled before commit"),
                ),
            );
        }
        Ok(())
    }

    fn save_at_identity(
        &mut self,
        bound_to: Option<SaveTarget>,
        can_commit: bool,
        saved: Result<SavedProject, CoreError>,
    ) -> (r: Result<String, CoreError>)
        ensures
            (viewed(r), final(self)@) == project_saved(
                old(self)@,
                target_view(bound_to),
                can_commit,
                saved_view(saved),
            ),
    {
        match self.check_save(&bound_to, can_commit) {
            Ok(()) => {},
            Err(e) => return Err(e),
        }
        match saved {
            Err(e) => Err(e),
            Ok(x) => {
                let project_epoch = self.project_epoch;
                self.editor.project_dir = Some(x.path.clone());
                self.editor.root_identity = x.root_identity;
                self.emit(CoreEvent::ProjectSaved { path: x.path.clone(), project_epoch });
                Ok(x.path)
            },
        }
    }

    /// Records that the project was saved. `saved` is what writing it came to.
    pub fn save_project(&mut self, saved: Result<SavedProject, CoreError>) -> (r: Result<
        String,
        CoreError,
    >)
        ensures
            (viewed(r), final(self)@) == project_saved(old(self)@, None, true, saved_view(saved)),
    {
        self.save_project_with_thumbnail(saved)
    }

    /// Records a save with a cover. `saved` is what writing the project and its cover
    /// came to.
    pub fn save_project_with_thumbnail(&mut self, saved: Result<SavedProject, CoreError>) -> (r:
        Result<String, CoreError>)
        ensures
            (viewed(r), final(self)@) == project_saved(old(self)@, None, true, saved_view(saved)),
    {
        self.save_at_identity(None, true, saved)
    }

    /// Records a save that is bound to one project, with a last word of the caller
    /// before anything is written. `saved` is what writing the project came to.
    pub fn save_project_with_thumbnail_update_for_project_if(
        &mut self,
        expected_project_epoch: u64,
        expected_project_path: Option<String>,
        can_commit: bool,
        saved: Result<SavedProject, CoreError>,
    ) -> (r: Result<String, CoreError>)
        ensures
            (viewed(r), final(self)@) == project_saved(
                old(self)@,
                Some((expected_project_epoch, opt_text(expected_project_path))),
                can_commit,
                saved_view(saved),
            ),
    {
        self.save_at_identity(
            Some(
                SaveTarget {
                    project_epoch: expected_project_epoch,
                    project_path: expected_project_path,
                },
            ),
            can_commit,
            saved,
        )
    }

    /// Records a save that is bound to one project and puts a cover in place or leaves
    /// it out.
    pub fn save_project_with_thumbnail_update_for_project(
        &mut self,
        expected_project_epoch: u64,
        expected_project_path: Option<String>,
        saved: Result<SavedProject, CoreError>,
    ) -> (r: Result<String, CoreError>)
        ensures
            (viewed(r), final(self)@) == project_saved(
                old(self)@,
                Some((expected_project_epoch, opt_text(expected_project_path))),
                true,
                saved_view(saved),
            ),
    {
        self.save_project_with_thumbnail_update_for_project_if(
            expected_project_epoch,
            expected_project_path,
            true,
            saved,
        )
    }

    /// Records a save that is bound to one project.
    pub fn save_project_with_thumbnail_for_project(
        &mut self,
        expected_project_epoch: u64,
        expected_project_path: Option<String>,
        saved: Result<SavedProject, CoreError>,
    ) -> (r: Result<String, CoreError>)
        ensures
            (viewed(r), final(self)@) == project_saved(
                old(self)@,
                Some((expected_project_epoch, opt_text(expected_project_path))),
                true,
                saved_view(saved),
            ),
    {
        self.save_project_with_thumbnail_update_for_project_if(
            expected_project_epoch,
            expected_project_path,
            true,
            saved,
        )
    }
}

/// Epochs tell projects apart: one that takes another's place never has its epoch,
/// even where the versions of the two documents agree.
pub proof fn law_replacement_has_its_own_epoch(c: CoreView, editor: SessionView, path: Seq<char>)
    requires
        c.project_epoch < u64::MAX,
    ensures
        replaced(c, editor, path).project_epoch > c.project_epoch,
        crate::app_core::revision(replaced(c, editor, path)) != crate::app_core::revision(c),
{
}

/// A save that is bound to a project writes nothing for another: core and events
/// stay as they were.
pub proof fn law_stale_save_changes_nothing(
    c: CoreView,
    epoch: u64,
    path: Option<Seq<char>>,
    can_commit: bool,
    saved: Result<(Seq<char>, Option<Seq<char>>), CoreFault>,
)
    requires
        c.project_epoch != epoch || !same_opt_place(c.editor.project_dir, path),
    ensures
        project_saved(c, Some((epoch, path)), can_commit, saved) == (
            Err::<Seq<char>, CoreFault>(CoreFault::StaleProject),
            c,
        ),
{
}

} // verus!
