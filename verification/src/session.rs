//! One open project: its document, where it is stored, and what may be done to it.

use crate::apply::applied;
use crate::apply::apply;
use crate::apply::ids_applied;
use crate::command::EditCommand;
use crate::command::Outside;
use crate::edit::outcome;
use crate::edit::EditError;
use crate::edit::EditResult;
use crate::events::plainly;
use crate::events::CoreError;
use crate::events::CoreFault;
use crate::fresh::fresh_manifest;
use crate::fresh::fresh_timeline;
use crate::ids::CoreIdGen;
use crate::model::MediaManifest;
use crate::model::MediaManifestEntry;
use crate::model::MediaManifestView;
use crate::model::Real;
use crate::model::Timeline;
use crate::state::EditorState;
use crate::state::StateView;
use crate::text::copy_opt;
use crate::text::opt_text;
use vstd::prelude::*;
use vstd::string::StringExecFns;

verus! {

/// What probing a media file found.
#[derive(Debug)]
pub struct ProbedMedia {
    pub duration_secs: Real,
    pub width: Option<i32>,
    pub height: Option<i32>,
    pub fps: Option<Real>,
    pub has_audio: bool,
    pub color: Option<String>,
}

/// An open project.
#[derive(Debug)]
pub struct EditorSession {
    pub state: EditorState,
    /// The directory of the project's bundle, once it has been saved.
    pub project_dir: Option<String>,
    /// The identity of the bundle's directory that the session holds on to.
    pub root_identity: Option<String>,
    /// What keeps the project from being changed by this build.
    pub read_only: Option<String>,
    /// The log of generated media, in its encoded form.
    pub generation_log: String,
}

/// The view of an [`EditorSession`].
#[verifier::ext_equal]
pub struct SessionView {
    pub state: StateView,
    pub project_dir: Option<Seq<char>>,
    pub root_identity: Option<Seq<char>>,
    pub read_only: Option<Seq<char>>,
    pub generation_log: Seq<char>,
}

impl View for EditorSession {
    type V = SessionView;

    open spec fn view(&self) -> SessionView {
        SessionView {
            state: self.state@,
            project_dir: opt_text(self.project_dir),
            root_identity: opt_text(self.root_identity),
            read_only: opt_text(self.read_only),
            generation_log: self.generation_log@,
        }
    }
}

/// A fresh project that has not been saved.
pub open spec fn fresh_session() -> SessionView {
    SessionView {
        state: StateView {
            timeline: fresh_timeline(),
            manifest: fresh_manifest(),
            undo_stack: Seq::empty(),
            redo_stack: Seq::empty(),
            version: 0,
        },
        project_dir: None,
        root_identity: None,
        read_only: None,
        generation_log: Seq::empty(),
    }
}

/// The session with another media library. Nothing of this goes through the
/// history, and the version stays.
pub open spec fn with_media(s: SessionView, manifest: MediaManifestView) -> SessionView {
    SessionView { state: StateView { manifest, ..s.state }, ..s }
}

impl EditorSession {
    /// A fresh project that has not been saved.
    pub fn new_project() -> (r: EditorSession)
        ensures
            r@ == fresh_session(),
    {
        proof {
            reveal_strlit("");
        }
        let r = EditorSession {
            state: EditorState::new(Timeline::new(), MediaManifest::new()),
            project_dir: None,
            root_identity: None,
            read_only: None,
            generation_log: String::from_str(""),
        };
        assert(r@.generation_log =~= Seq::empty());
        r
    }

    /// Refuses where the project must not be changed.
    pub fn ensure_mutable(&self) -> (r: Result<(), CoreError>)
        ensures
            plainly(r) == (match self@.read_only {
                Some(m) => Err(CoreFault::Unsupported(m)),
                None => Ok(()),
            }),
    {
        match &self.read_only {
            Some(m) => Err(CoreError::Unsupported(m.clone())),
            None => Ok(()),
        }
    }

    /// Applies one command to the document.
    pub fn apply(
        &mut self,
        command: EditCommand,
        ids: &mut CoreIdGen,
        outside: Outside,
    ) -> (r: Result<EditResult, EditError>)
        requires
            old(self)@.state.version < u64::MAX,
        ensures
            (outcome(r), final(self)@.state) == applied(
                old(self)@.state,
                command,
                old(ids)@,
                outside,
            ),
            final(self)@ == (SessionView { state: final(self)@.state, ..old(self)@ }),
            final(ids)@ == ids_applied(old(self)@.state, command, old(ids)@),
    {
        apply(&mut self.state, command, ids, outside)
    }

    /// Puts another media library in place, outside the history.
    pub fn restore_media(&mut self, manifest: MediaManifest)
        ensures
            final(self)@ == with_media(old(self)@, manifest@),
    {
        self.state.manifest = manifest;
    }

    /// Adds a medium to the library, outside the history.
    pub fn add_media(&mut self, entry: MediaManifestEntry)
        ensures
            final(self)@ == with_media(
                old(self)@,
                MediaManifestView {
                    entries: old(self)@.state.manifest.entries.push(entry@),
                    ..old(self)@.state.manifest
                },
            ),
            final(self).state.manifest.entries@.len() == old(self).state.manifest.entries@.len()
                + 1,
    {
        let ghost before = self@;
        self.state.manifest.entries.push(entry);
        assert(self@.state.manifest.entries =~= before.state.manifest.entries.push(entry@));
    }

    /// A copy of the session.
    pub fn copy(&self) -> (r: EditorSession)
        ensures
            r@ == self@,
    {
        EditorSession {
            state: self.state.copy(),
            project_dir: copy_opt(&self.project_dir),
            root_identity: copy_opt(&self.root_identity),
            read_only: copy_opt(&self.read_only),
            generation_log: self.generation_log.clone(),
        }
    }

    /// A copy of the directory of the bundle.
    pub fn dir(&self) -> (r: Option<String>)
        ensures
            opt_text(r) == self@.project_dir,
    {
        copy_opt(&self.project_dir)
    }
}

} // verus!
