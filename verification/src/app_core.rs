//! The one authoritative editing session of an application, and what it tells its
//! observers.
//!
//! A request that was made for another project or for an earlier version of the
//! document is turned down before anything changes. Events are queued in the order
//! in which they are to be told, and told once the session is free again.

pub mod batch;
pub mod checkpoint;
pub mod favorites;
pub mod generated;
pub mod generation;
pub mod imports;
pub mod lifecycle;

use crate::app_core::checkpoint::rolled_back;
use crate::apply::applied;
use crate::apply::dispatched;
use crate::apply::ids_applied;
use crate::apply::law_commands_leave_timelines_in_order;
use crate::apply::law_edits_are_faithful;
use crate::apply::law_failed_command_changes_nothing;
use crate::apply::law_malformed_timeline_is_refused;
use crate::apply::redo_spec;
use crate::apply::undo_spec;
use crate::command::EditCommand;
use crate::command::Outside;
use crate::edit::EditResult;
use crate::edit::EditResultView;
use crate::edit::Fault;
use crate::events::event_views;
use crate::events::media_error;
use crate::events::plainly;
use crate::events::push_event;
use crate::events::viewed;
use crate::events::CoreError;
use crate::events::CoreEvent;
use crate::events::CoreEventView;
use crate::events::CoreFault;
use crate::events::DeferredCoreEvents;
use crate::frames::timeline_fault;
use crate::ids::CoreIdGen;
use crate::ids::IdsView;
use crate::model::MediaManifest;
use crate::model::MediaManifestView;
use crate::model::Timeline;
use crate::model::TimelineView;
use crate::paths::is_same_place;
use crate::paths::same_opt_place;
use crate::paths::same_place;
use crate::session::fresh_session;
use crate::session::EditorSession;
use crate::session::SessionView;
use crate::state::StateView;
use crate::text::copy_opt;
use crate::text::opt_text;
use crate::text::same_text;
use crate::transitions::lemma_timeline_sound;
use vstd::prelude::*;
use vstd::string::StringExecFns;

verus! {

/// The handle to the one authoritative editing session.
#[derive(Debug)]
pub struct AppCore {
    /// Counts the projects that have been current.
    pub project_epoch: u64,
    pub editor: EditorSession,
    pub ids: CoreIdGen,
    /// Events to be told, the first first.
    pub outbox: Vec<CoreEvent>,
}

/// The view of an [`AppCore`].
#[verifier::ext_equal]
pub struct CoreView {
    pub project_epoch: u64,
    pub editor: SessionView,
    pub ids: IdsView,
    pub outbox: Seq<CoreEventView>,
}

impl View for AppCore {
    type V = CoreView;

    open spec fn view(&self) -> CoreView {
        CoreView {
            project_epoch: self.project_epoch,
            editor: self.editor@,
            ids: self.ids@,
            outbox: event_views(self.outbox@),
        }
    }
}

/// Identity of the current project session and its document version.
#[derive(Clone, Copy, Debug, PartialEq, Eq, Structural)]
pub struct ProjectRevision {
    /// Which of the projects that have been current.
    pub project_epoch: u64,
    /// The version of its document.
    pub version: u64,
}

/// A read-only copy of the timeline with the version it was taken at.
#[derive(Debug)]
pub struct TimelineSnapshot {
    pub timeline: Timeline,
    pub project_epoch: u64,
    pub version: u64,
    pub project_path: Option<String>,
    /// What keeps the project from being changed by this build.
    pub compatibility: Option<String>,
}

/// The view of a [`TimelineSnapshot`].
#[verifier::ext_equal]
pub struct TimelineSnapshotView {
    pub timeline: TimelineView,
    pub project_epoch: u64,
    pub version: u64,
    pub project_path: Option<Seq<char>>,
    pub compatibility: Option<Seq<char>>,
}

impl View for TimelineSnapshot {
    type V = TimelineSnapshotView;

    open spec fn view(&self) -> TimelineSnapshotView {
        TimelineSnapshotView {
            timeline: self.timeline@,
            project_epoch: self.project_epoch,
            version: self.version,
            project_path: opt_text(self.project_path),
            compatibility: opt_text(self.compatibility),
        }
    }
}

/// What the core shows of its timeline.
pub open spec fn timeline_snapshot(c: CoreView) -> TimelineSnapshotView {
    TimelineSnapshotView {
        timeline: c.editor.state.timeline,
        project_epoch: c.project_epoch,
        version: c.editor.state.version,
        project_path: c.editor.project_dir,
        compatibility: c.editor.read_only,
    }
}

/// A coherent copy of what runtime media operations read.
#[derive(Debug)]
pub struct ProjectRuntimeSnapshot {
    pub timeline: Timeline,
    pub media: MediaManifest,
    pub project_dir: Option<String>,
    pub project_epoch: u64,
    pub version: u64,
}

/// The view of a [`ProjectRuntimeSnapshot`].
#[verifier::ext_equal]
pub struct RuntimeView {
    pub timeline: TimelineView,
    pub media: MediaManifestView,
    pub project_dir: Option<Seq<char>>,
    pub project_epoch: u64,
    pub version: u64,
}

impl View for ProjectRuntimeSnapshot {
    type V = RuntimeView;

    open spec fn view(&self) -> RuntimeView {
        RuntimeView {
            timeline: self.timeline@,
            media: self.media@,
            project_dir: opt_text(self.project_dir),
            project_epoch: self.project_epoch,
            version: self.version,
        }
    }
}

/// What the core shows to runtime media operations.
pub open spec fn runtime(c: CoreView) -> RuntimeView {
    RuntimeView {
        timeline: c.editor.state.timeline,
        media: c.editor.state.manifest,
        project_dir: c.editor.project_dir,
        project_epoch: c.project_epoch,
        version: c.editor.state.version,
    }
}

/// A coherent copy of what a self-contained export reads.
#[derive(Debug)]
pub struct BundleExportSnapshot {
    pub timeline: Timeline,
    pub manifest: MediaManifest,
    pub generation_log: String,
    pub project_path: Option<String>,
    pub project_epoch: u64,
    /// What keeps the project from being changed by this build.
    pub compatibility: Option<String>,
}

/// Retained authority over the bundle that project-local assets are read from.
#[derive(Debug)]
pub struct ProjectAssetAuthority {
    pub project_epoch: u64,
    pub project_path: String,
    pub root_identity: String,
}

/// The view of a [`ProjectAssetAuthority`].
#[verifier::ext_equal]
pub struct AuthorityView {
    pub project_epoch: u64,
    pub project_path: Seq<char>,
    pub root_identity: Seq<char>,
}

impl View for ProjectAssetAuthority {
    type V = AuthorityView;

    open spec fn view(&self) -> AuthorityView {
        AuthorityView {
            project_epoch: self.project_epoch,
            project_path: self.project_path@,
            root_identity: self.root_identity@,
        }
    }
}

/// The authority over the current bundle, if there is one.
pub open spec fn asset_authority(c: CoreView) -> Option<AuthorityView> {
    match (c.editor.project_dir, c.editor.root_identity) {
        (Some(path), Some(identity)) => Some(
            AuthorityView {
                project_epoch: c.project_epoch,
                project_path: path,
                root_identity: identity,
            },
        ),
        _ => None,
    }
}

/// Whether two authorities are over the same bundle of the same project.
pub open spec fn same_authority(a: AuthorityView, b: AuthorityView) -> bool {
    a.project_epoch == b.project_epoch && same_place(a.project_path, b.project_path)
        && a.root_identity == b.root_identity
}

/// The project revision with the transaction on top of the history.
#[derive(Debug)]
pub struct ProjectUndoSnapshot {
    pub revision: ProjectRevision,
    pub project_path: Option<String>,
    pub action_name: String,
    pub transaction_version: u64,
}

/// What an undo on behalf of an assistant came to.
#[derive(Debug)]
pub enum OwnedUndoResult {
    Undone(EditResult),
    NoHistory,
    Conflict { actual_action_name: Option<String>, actual_transaction_version: Option<u64> },
}

/// The view of an [`OwnedUndoResult`].
pub enum OwnedUndoView {
    Undone(EditResultView),
    NoHistory,
    Conflict {
        actual_action_name: Option<Seq<char>>,
        actual_transaction_version: Option<u64>,
    },
}

impl View for OwnedUndoResult {
    type V = OwnedUndoView;

    open spec fn view(&self) -> OwnedUndoView {
        match self {
            OwnedUndoResult::Undone(e) => OwnedUndoView::Undone(e@),
            OwnedUndoResult::NoHistory => OwnedUndoView::NoHistory,
            OwnedUndoResult::Conflict { actual_action_name, actual_transaction_version } => {
                OwnedUndoView::Conflict {
                    actual_action_name: opt_text(*actual_action_name),
                    actual_transaction_version: *actual_transaction_version,
                }
            },
        }
    }
}

/// The revision of a core.
pub open spec fn revision(c: CoreView) -> ProjectRevision {
    ProjectRevision { project_epoch: c.project_epoch, version: c.editor.state.version }
}

/// The core with more events to tell.
pub open spec fn emitted(c: CoreView, events: Seq<CoreEventView>) -> CoreView {
    CoreView { outbox: c.outbox + events, ..c }
}

/// What observers are told of an edit: that the document moved on, then that the
/// media library, which then holds `count` media, changed.
pub open spec fn edit_events(project_epoch: u64, e: EditResultView, count: int) -> Seq<
    CoreEventView,
> {
    (if e.changed {
        seq![CoreEventView::TimelineChanged { project_epoch, version: e.timeline_version }]
    } else {
        Seq::empty()
    }) + (if e.manifest_changed {
        seq![CoreEventView::MediaChanged { project_epoch, count }]
    } else {
        Seq::empty()
    })
}

/// A command applied to the document of a core, with nothing told of it yet.
pub open spec fn edited(c: CoreView, command: EditCommand, o: Outside) -> (
    Result<EditResultView, CoreFault>,
    CoreView,
) {
    let (r, state) = applied(c.editor.state, command, c.ids, o);
    (
        match r {
            Ok(e) => Ok(e),
            Err(f) => Err(CoreFault::Edit(f)),
        },
        CoreView {
            editor: SessionView { state, ..c.editor },
            ids: ids_applied(c.editor.state, command, c.ids),
            ..c
        },
    )
}

/// A command applied to a core, and told.
pub open spec fn told_edit(c: CoreView, command: EditCommand, o: Outside) -> (
    Result<EditResultView, CoreFault>,
    CoreView,
) {
    let (r, next) = edited(c, command, o);
    match r {
        Err(f) => (Err(f), next),
        Ok(e) => (
            Ok(e),
            emitted(
                next,
                edit_events(c.project_epoch, e, next.editor.state.manifest.entries.len() as int),
            ),
        ),
    }
}

/// A step through the history of a core, and told.
pub open spec fn told_step(
    c: CoreView,
    step: (Result<EditResultView, Fault>, StateView),
) -> (Result<EditResultView, CoreFault>, CoreView) {
    match step.0 {
        Err(f) => (Err(CoreFault::Edit(f)), c),
        Ok(e) => (
            Ok(e),
            emitted(
                CoreView { editor: SessionView { state: step.1, ..c.editor }, ..c },
                edit_events(c.project_epoch, e, step.1.manifest.entries.len() as int),
            ),
        ),
    }
}

/// What undoing comes to on any timeline: a malformed one is refused first.
pub open spec fn undo_applied(s: StateView) -> (Result<EditResultView, Fault>, StateView) {
    match timeline_fault(s.timeline, "timeline"@) {
        Some(m) => (Err(Fault::Invalid(m)), s),
        None => undo_spec(s),
    }
}

/// What redoing comes to on any timeline: a malformed one is refused first.
pub open spec fn redo_applied(s: StateView) -> (Result<EditResultView, Fault>, StateView) {
    match timeline_fault(s.timeline, "timeline"@) {
        Some(m) => (Err(Fault::Invalid(m)), s),
        None => redo_spec(s),
    }
}

/// The complaint of a workflow whose project is no longer the current one, if any.
pub open spec fn identity_fault(c: CoreView, epoch: u64, dir: Seq<char>) -> Option<CoreFault> {
    if c.project_epoch == epoch && same_opt_place(c.editor.project_dir, Some(dir)) {
        None
    } else {
        Some(CoreFault::Media("project changed during global library workflow"@))
    }
}

/// What has to be true of the project for a deferred edit.
pub struct EditExpectation<'a> {
    pub revision: ProjectRevision,
    pub project_path: Option<&'a str>,
    pub check_project_path: bool,
}

/// The view of an optional text.
pub open spec fn opt_str(o: Option<&str>) -> Option<Seq<char>> {
    match o {
        Some(s) => Some(s@),
        None => None,
    }
}

/// Whether a core is the one that a deferred edit was derived from.
pub open spec fn as_expected(c: CoreView, expected: EditExpectation) -> bool {
    revision(c) == expected.revision && (expected.check_project_path ==> same_opt_place(
        c.editor.project_dir,
        opt_str(expected.project_path),
    ))
}

/// Whether a stored path is the expected one.
pub fn same_path(a: &Option<String>, b: Option<&str>) -> (r: bool)
    ensures
        r == same_opt_place(opt_text(*a), opt_str(b)),
{
    match (a, b) {
        (Some(x), Some(y)) => is_same_place(x.as_str(), y),
        (None, None) => true,
        _ => false,
    }
}

/// Undoing the edit on top of the history, if it is the expected one of the
/// expected project at the expected version.
pub open spec fn owned_undo(
    c: CoreView,
    expected: ProjectRevision,
    path: Option<Seq<char>>,
    action: Seq<char>,
    transaction: u64,
) -> (Result<OwnedUndoView, CoreFault>, CoreView) {
    let history = c.editor.state.undo_stack;
    if revision(c) != expected || !same_opt_place(c.editor.project_dir, path) {
        (Err(CoreFault::StaleProject), c)
    } else if history.len() == 0 {
        (Ok(OwnedUndoView::NoHistory), c)
    } else if history.last().action_name != action || history.last().transaction_version
        != transaction {
        (
            Ok(
                OwnedUndoView::Conflict {
                    actual_action_name: Some(history.last().action_name),
                    actual_transaction_version: Some(history.last().transaction_version),
                },
            ),
            c,
        )
    } else {
        let (r, next) = told_step(c, undo_applied(c.editor.state));
        (
            match r {
                Ok(e) => Ok(OwnedUndoView::Undone(e)),
                Err(f) => Err(f),
            },
            next,
        )
    }
}

/// What a persisted edit comes to. `saved` is what writing the edited project came
/// to; where it failed, document, history and version are as they were.
pub open spec fn persisted_edit(
    c: CoreView,
    expected: ProjectRevision,
    command: EditCommand,
    o: Outside,
    saved: Result<Seq<char>, CoreFault>,
) -> (Result<EditResultView, CoreFault>, CoreView) {
    if revision(c) != expected {
        (Err(CoreFault::StaleProject), c)
    } else {
        let (r, next) = edited(c, command, o);
        let rolled_back = CoreView { editor: c.editor, ..next };
        match r {
            Err(f) => (Err(f), rolled_back),
            Ok(e) => match saved {
                Err(f) => (Err(f), rolled_back),
                Ok(path) => (
                    Ok(e),
                    emitted(
                        next,
                        edit_events(
                            c.project_epoch,
                            e,
                            next.editor.state.manifest.entries.len() as int,
                        ).push(
                            CoreEventView::ProjectSaved {
                                path,
                                project_epoch: c.project_epoch,
                            },
                        ),
                    ),
                ),
            },
        }
    }
}

impl AppCore {
    /// A core with a fresh project that has not been saved.
    pub fn new() -> (r: AppCore)
        ensures
            r@ == (CoreView {
                project_epoch: 0,
                editor: fresh_session(),
                ids: IdsView { prefix: "id-"@, counter: 0 },
                outbox: Seq::empty(),
            }),
    {
        let r = AppCore {
            project_epoch: 0,
            editor: EditorSession::new_project(),
            ids: CoreIdGen::new("id-"),
            outbox: Vec::new(),
        };
        assert(r@.outbox =~= Seq::empty());
        r
    }

    /// Puts another id generator in place. Ids minted from now on come from it.
    pub fn set_id_gen(&mut self, ids: CoreIdGen)
        ensures
            final(self)@ == (CoreView { ids: ids@, ..old(self)@ }),
    {
        self.ids = ids;
    }

    /// Queues an event for the observers.
    pub fn emit(&mut self, event: CoreEvent)
        ensures
            final(self)@ == emitted(old(self)@, seq![event@]),
    {
        let ghost before = self@.outbox;
        push_event(&mut self.outbox, event);
        assert(self@.outbox =~= before + seq![event@]);
    }

    /// Hands out the events to tell, the first first.
    pub fn take_events(&mut self) -> (r: Vec<CoreEvent>)
        ensures
            event_views(r@) == old(self)@.outbox,
            final(self)@ == (CoreView { outbox: Seq::empty(), ..old(self)@ }),
    {
        let mut out: Vec<CoreEvent> = Vec::new();
        std::mem::swap(&mut out, &mut self.outbox);
        assert(self@.outbox =~= Seq::empty());
        out
    }

    /// Tells what a workflow queued.
    pub fn emit_deferred(&mut self, events: DeferredCoreEvents)
        ensures
            final(self)@ == emitted(old(self)@, events@),
    {
        let ghost before = self.outbox@;
        let ghost queued = events.events@;
        let mut events = events.events;
        self.outbox.append(&mut events);
        assert(event_views(self.outbox@) =~= event_views(before) + event_views(queued));
    }

    /// The timeline with the version it is at.
    pub fn get_timeline(&self) -> (r: TimelineSnapshot)
        ensures
            r@ == timeline_snapshot(self@),
    {
        TimelineSnapshot {
            timeline: self.editor.state.timeline.copy(),
            project_epoch: self.project_epoch,
            version: self.editor.state.version,
            project_path: self.editor.dir(),
            compatibility: copy_opt(&self.editor.read_only),
        }
    }

    /// The identity and document version of the current project session.
    pub fn project_revision(&self) -> (r: ProjectRevision)
        ensures
            r == revision(self@),
    {
        ProjectRevision { project_epoch: self.project_epoch, version: self.editor.state.version }
    }

    /// What runtime media operations read, as of one moment.
    pub fn runtime_snapshot(&self) -> (r: ProjectRuntimeSnapshot)
        ensures
            r@ == runtime(self@),
    {
        ProjectRuntimeSnapshot {
            timeline: self.editor.state.timeline.copy(),
            media: self.editor.state.manifest.copy(),
            project_dir: self.editor.dir(),
            project_epoch: self.project_epoch,
            version: self.editor.state.version,
        }
    }

    /// The authority over the current bundle, if there is one.
    pub fn project_asset_authority(&self) -> (r: Option<ProjectAssetAuthority>)
        ensures
            match r {
                Some(a) => asset_authority(self@) == Some(a@),
                None => asset_authority(self@) is None,
            },
    {
        match (&self.editor.project_dir, &self.editor.root_identity) {
            (Some(path), Some(identity)) => Some(
                ProjectAssetAuthority {
                    project_epoch: self.project_epoch,
                    project_path: path.clone(),
                    root_identity: identity.clone(),
                },
            ),
            _ => None,
        }
    }

    /// Whether the authority is still the one over the current bundle.
    pub fn project_asset_authority_matches(&self, expected: &ProjectAssetAuthority) -> (r: bool)
        ensures
            r == (asset_authority(self@) matches Some(a) && same_authority(a, expected@)),
    {
        match self.project_asset_authority() {
            Some(a) => a.project_epoch == expected.project_epoch && is_same_place(
                a.project_path.as_str(),
                expected.project_path.as_str(),
            ) && same_text(a.root_identity.as_str(), expected.root_identity.as_str()),
            None => false,
        }
    }

    /// Refuses where the project is not the expected one.
    pub fn ensure_project_identity(
        &self,
        expected_project_epoch: u64,
        expected_project_dir: &str,
    ) -> (r: Result<(), CoreError>)
        ensures
            plainly(r) == (match identity_fault(
                self@,
                expected_project_epoch,
                expected_project_dir@,
            ) {
                Some(f) => Err::<(), CoreFault>(f),
                None => Ok(()),
            }),
    {
        if self.project_epoch == expected_project_epoch && same_path(
            &self.editor.project_dir,
            Some(expected_project_dir),
        ) {
            Ok(())
        } else {
            Err(media_error("project changed during global library workflow"))
        }
    }

    /// What runtime media operations read, if the project is the expected one and
    /// may be changed.
    pub fn mutable_runtime_snapshot_for_project(
        &self,
        expected_project_epoch: u64,
        expected_project_dir: &str,
    ) -> (r: Result<ProjectRuntimeSnapshot, CoreError>)
        ensures
            viewed(r) == (match identity_fault(
                self@,
                expected_project_epoch,
                expected_project_dir@,
            ) {
                Some(f) => Err(f),
                None => match self@.editor.read_only {
                    Some(m) => Err(CoreFault::Unsupported(m)),
                    None => Ok(runtime(self@)),
                },
            }),
    {
        match self.ensure_project_identity(expected_project_epoch, expected_project_dir) {
            Ok(()) => {},
            Err(e) => return Err(e),
        }
        match self.editor.ensure_mutable() {
            Ok(()) => {},
            Err(e) => return Err(e),
        }
        Ok(self.runtime_snapshot())
    }

    /// Refuses where the project is not the expected one, or its bundle no longer
    /// the one that was opened. `same_root` is what comparing the two directories
    /// came to.
    pub fn ensure_project_root_identity_for_project(
        &self,
        expected_project_epoch: u64,
        expected_project_dir: &str,
        same_root: Result<bool, CoreError>,
    ) -> (r: Result<(), CoreError>)
        ensures
            plainly(r) == (match identity_fault(
                self@,
                expected_project_epoch,
                expected_project_dir@,
            ) {
                Some(f) => Err(f),
                None => match same_root {
                    Err(e) => Err(e@),
                    Ok(true) => Ok(()),
                    Ok(false) => Err(
                        CoreFault::Media(
                            "project bundle identity no longer matches the open session"@,
                        ),
                    ),
                },
            }),
    {
        match self.ensure_project_identity(expected_project_epoch, expected_project_dir) {
            Ok(()) => {},
            Err(e) => return Err(e),
        }
        match same_root {
            Err(e) => Err(e),
            Ok(same) => if same {
                Ok(())
            } else {
                Err(media_error("project bundle identity no longer matches the open session"))
            },
        }
    }

    /// Everything that a self-contained export reads, as of one moment.
    pub fn bundle_export_snapshot(&self) -> (r: BundleExportSnapshot)
        ensures
            r.timeline@ == self@.editor.state.timeline,
            r.manifest@ == self@.editor.state.manifest,
            r.generation_log@ == self@.editor.generation_log,
            opt_text(r.project_path) == self@.editor.project_dir,
            r.project_epoch == self@.project_epoch,
            opt_text(r.compatibility) == self@.editor.read_only,
    {
        BundleExportSnapshot {
            timeline: self.editor.state.timeline.copy(),
            manifest: self.editor.state.manifest.copy(),
            generation_log: self.editor.generation_log.clone(),
            project_path: self.editor.dir(),
            project_epoch: self.project_epoch,
            compatibility: copy_opt(&self.editor.read_only),
        }
    }

    /// Refuses where the project must not be changed.
    pub fn ensure_project_mutable(&self) -> (r: Result<(), CoreError>)
        ensures
            plainly(r) == (match self@.editor.read_only {
                Some(m) => Err(CoreFault::Unsupported(m)),
                None => Ok(()),
            }),
    {
        self.editor.ensure_mutable()
    }

    /// The current document version.
    pub fn version(&self) -> (r: u64)
        ensures
            r == self@.editor.state.version,
    {
        self.editor.state.version
    }

    /// Whether there is a step back.
    pub fn can_undo(&self) -> (r: bool)
        ensures
            r == (self@.editor.state.undo_stack.len() > 0),
    {
        self.editor.state.can_undo()
    }

    /// Whether there is a step forward.
    pub fn can_redo(&self) -> (r: bool)
        ensures
            r == (self@.editor.state.redo_stack.len() > 0),
    {
        self.editor.state.can_redo()
    }

    /// The label of the edit on top of the history.
    pub fn undo_action_name(&self) -> (r: Option<String>)
        ensures
            opt_text(r) == (if self@.editor.state.undo_stack.len() > 0 {
                Some(self@.editor.state.undo_stack.last().action_name)
            } else {
                None
            }),
    {
        self.editor.state.undo_action_name()
    }

    /// The version that the edit on top of the history produced.
    pub fn undo_transaction_version(&self) -> (r: Option<u64>)
        ensures
            r == (if self@.editor.state.undo_stack.len() > 0 {
                Some(self@.editor.state.undo_stack.last().transaction_version)
            } else {
                None
            }),
    {
        self.editor.state.undo_transaction_version()
    }

    /// The project revision with the transaction on top of the history, if any.
    pub fn project_undo_snapshot(&self) -> (r: Option<ProjectUndoSnapshot>)
        ensures
            match r {
                None => self@.editor.state.undo_stack.len() == 0,
                Some(x) => {
                    let history = self@.editor.state.undo_stack;
                    &&& history.len() > 0
                    &&& x.revision == revision(self@)
                    &&& opt_text(x.project_path) == self@.editor.project_dir
                    &&& x.action_name@ == history.last().action_name
                    &&& x.transaction_version == history.last().transaction_version
                },
            },
    {
        match (self.undo_action_name(), self.undo_transaction_version()) {
            (Some(action_name), Some(transaction_version)) => Some(
                ProjectUndoSnapshot {
                    revision: self.project_revision(),
                    project_path: self.editor.dir(),
                    action_name,
                    transaction_version,
                },
            ),
            _ => None,
        }
    }

    /// The media library.
    pub fn media(&self) -> (r: MediaManifest)
        ensures
            r@ == self@.editor.state.manifest,
    {
        self.editor.state.manifest.copy()
    }

    /// The log of generated media.
    pub fn generation_log(&self) -> (r: String)
        ensures
            r@ == self@.editor.generation_log,
    {
        self.editor.generation_log.clone()
    }

    /// The directory of the project's bundle, once it has been saved.
    pub fn project_dir(&self) -> (r: Option<String>)
        ensures
            opt_text(r) == self@.editor.project_dir,
    {
        self.editor.dir()
    }

    pub fn edit(&mut self, command: EditCommand, outside: Outside) -> (r: Result<EditResult, CoreError>)
        requires
            old(self)@.editor.state.version < u64::MAX,
        ensures
            (viewed(r), final(self)@) == edited(old(self)@, command, outside),
    {
        match self.editor.apply(command, &mut self.ids, outside) {
            Ok(e) => Ok(e),
            Err(e) => Err(CoreError::Edit(e)),
        }
    }

    pub fn tell_edit(&mut self, e: &EditResult)
        ensures
            final(self)@ == emitted(
                old(self)@,
                edit_events(
                    old(self)@.project_epoch,
                    e@,
                    old(self)@.editor.state.manifest.entries.len() as int,
                ),
            ),
    {
        let ghost before = self@.outbox;
        let project_epoch = self.project_epoch;
        if e.changed {
            self.emit(CoreEvent::TimelineChanged { project_epoch, version: e.timeline_version });
        }
        if e.manifest_changed {
            let count = self.editor.state.manifest.entries.len();
            self.emit(CoreEvent::MediaChanged { project_epoch, count });
        }
        assert(self@.outbox =~= before + edit_events(
            project_epoch,
            e@,
            self@.editor.state.manifest.entries.len() as int,
        ));
    }

    fn apply_with_revision(
        &mut self,
        command: EditCommand,
        expected: Option<EditExpectation<'_>>,
        outside: Outside,
    ) -> (r: Result<EditResult, CoreError>)
        requires
            old(self)@.editor.state.version < u64::MAX,
        ensures
            (viewed(r), final(self)@) == (if expected matches Some(x) && !as_expected(
                old(self)@,
                x,
            ) {
                (Err(CoreFault::StaleProject), old(self)@)
            } else {
                told_edit(old(self)@, command, outside)
            }),
    {
        if let Some(x) = &expected {
            if self.project_epoch != x.revision.project_epoch || self.editor.state.version
                != x.revision.version || (x.check_project_path && !same_path(
                &self.editor.project_dir,
                x.project_path,
            )) {
                return Err(CoreError::StaleProject);
            }
        }
        match self.edit(command, outside) {
            Ok(e) => {
                self.tell_edit(&e);
                Ok(e)
            },
            Err(e) => Err(e),
        }
    }

    /// Applies one command and tells what changed: first the document, then the
    /// media library. A command that changes nothing, or is rejected, is not told.
    pub fn apply(&mut self, command: EditCommand, outside: Outside) -> (r: Result<
        EditResult,
        CoreError,
    >)
        requires
            old(self)@.editor.state.version < u64::MAX,
        ensures
            (viewed(r), final(self)@) == told_edit(old(self)@, command, outside),
    {
        self.apply_with_revision(command, None, outside)
    }

    /// Applies a deferred edit only if project and version are still those that it
    /// was derived from.
    pub fn apply_at_revision(
        &mut self,
        expected: ProjectRevision,
        command: EditCommand,
        outside: Outside,
    ) -> (r: Result<EditResult, CoreError>)
        requires
            old(self)@.editor.state.version < u64::MAX,
        ensures
            (viewed(r), final(self)@) == (if revision(old(self)@) != expected {
                (Err(CoreFault::StaleProject), old(self)@)
            } else {
                told_edit(old(self)@, command, outside)
            }),
    {
        self.apply_with_revision(
            command,
            Some(
                EditExpectation {
                    revision: expected,
                    project_path: None,
                    check_project_path: false,
                },
            ),
            outside,
        )
    }

    /// Applies a deferred edit only if project, bundle path and version are still
    /// those that it was derived from.
    pub fn apply_at_project_revision(
        &mut self,
        expected: ProjectRevision,
        expected_project_path: Option<&str>,
        command: EditCommand,
        outside: Outside,
    ) -> (r: Result<EditResult, CoreError>)
        requires
            old(self)@.editor.state.version < u64::MAX,
        ensures
            (viewed(r), final(self)@) == (if revision(old(self)@) != expected
                || !same_opt_place(old(self)@.editor.project_dir, opt_str(expected_project_path)) {
                (Err(CoreFault::StaleProject), old(self)@)
            } else {
                told_edit(old(self)@, command, outside)
            }),
    {
        self.apply_with_revision(
            command,
            Some(
                EditExpectation {
                    revision: expected,
                    project_path: expected_project_path,
                    check_project_path: true,
                },
            ),
            outside,
        )
    }

    /// Applies a deferred edit and writes the project as one step. `saved` is what
    /// writing the edited project came to.
    pub fn apply_at_revision_persisted(
        &mut self,
        expected: ProjectRevision,
        command: EditCommand,
        outside: Outside,
        saved: Result<String, CoreError>,
    ) -> (r: Result<EditResult, CoreError>)
        requires
            old(self)@.editor.state.version < u64::MAX,
        ensures
            (viewed(r), final(self)@) == persisted_edit(
                old(self)@,
                expected,
                command,
                outside,
                viewed(saved),
            ),
    {
        let ghost c = self@;
        if self.project_epoch != expected.project_epoch || self.editor.state.version
            != expected.version {
            return Err(CoreError::StaleProject);
        }
        let before = self.editor.state.copy();
        let e = match self.edit(command, outside) {
            Ok(e) => e,
            Err(error) => {
                self.editor.state = before;
                return Err(error);
            },
        };
        let path = match saved {
            Ok(path) => path,
            Err(error) => {
                self.editor.state = before;
                return Err(error);
            },
        };
        self.tell_edit(&e);
        let project_epoch = self.project_epoch;
        self.emit(CoreEvent::ProjectSaved { path, project_epoch });
        let ghost next = persisted_edit(c, expected, command, outside, viewed(saved)).1;
        assert(self@.outbox =~= next.outbox);
        Ok(e)
    }

    /// Undoes the edit on top of the history only if it is the expected one of the
    /// expected project at the expected version. Equal labels are not enough: the
    /// version that the edit produced tells two of them apart.
    pub fn undo_if_owned(
        &mut self,
        expected: ProjectRevision,
        expected_project_path: Option<&str>,
        expected_action_name: &str,
        expected_transaction_version: u64,
    ) -> (r: Result<OwnedUndoResult, CoreError>)
        requires
            old(self)@.editor.state.version < u64::MAX,
        ensures
            (viewed(r), final(self)@) == owned_undo(
                old(self)@,
                expected,
                opt_str(expected_project_path),
                expected_action_name@,
                expected_transaction_version,
            ),
    {
        if self.project_epoch != expected.project_epoch || self.editor.state.version
            != expected.version || !same_path(&self.editor.project_dir, expected_project_path) {
            return Err(CoreError::StaleProject);
        }
        let actual_action_name = self.undo_action_name();
        let actual_transaction_version = self.undo_transaction_version();
        match (actual_action_name, actual_transaction_version) {
            (Some(name), Some(version)) => {
                if !same_text(name.as_str(), expected_action_name) || version
                    != expected_transaction_version {
                    return Ok(
                        OwnedUndoResult::Conflict {
                            actual_action_name: Some(name),
                            actual_transaction_version: Some(version),
                        },
                    );
                }
            },
            _ => {
                return Ok(OwnedUndoResult::NoHistory);
            },
        }
        match self.undo() {
            Ok(e) => Ok(OwnedUndoResult::Undone(e)),
            Err(e) => Err(e),
        }
    }

    /// Undoes the last edit.
    pub fn undo(&mut self) -> (r: Result<EditResult, CoreError>)
        requires
            old(self)@.editor.state.version < u64::MAX,
        ensures
            (viewed(r), final(self)@) == told_step(old(self)@, undo_applied(old(self)@.editor.state)),
    {
        proof {
            reveal(dispatched);
        }
        self.apply(EditCommand::Undo, Outside::silent(None))
    }

    /// Redoes the last undone edit.
    pub fn redo(&mut self) -> (r: Result<EditResult, CoreError>)
        requires
            old(self)@.editor.state.version < u64::MAX,
        ensures
            (viewed(r), final(self)@) == told_step(old(self)@, redo_applied(old(self)@.editor.state)),
    {
        proof {
            reveal(dispatched);
        }
        self.apply(EditCommand::Redo, Outside::silent(None))
    }
}

/// A command that fails is not told, and one that changes nothing is not told
/// either.
pub proof fn law_only_changes_are_told(c: CoreView, command: EditCommand, o: Outside)
    requires
        c.editor.state.version < u64::MAX,
    ensures
        ({
            let (r, next) = told_edit(c, command, o);
            &&& r is Err ==> next == CoreView { ids: next.ids, ..c }
            &&& r matches Ok(e) ==> (!e.changed && !e.manifest_changed) ==> next.outbox == c.outbox
        }),
{
    if told_edit(c, command, o).0 is Err {
        law_failed_command_changes_nothing(c.editor.state, command, c.ids, o);
    }
    assert(c.outbox + (Seq::<CoreEventView>::empty() + Seq::<CoreEventView>::empty())
        =~= c.outbox);
}

/// A change is told first of all with the version that the document then has.
pub proof fn law_change_is_told_at_its_version(c: CoreView, command: EditCommand, o: Outside)
    requires
        c.editor.state.version < u64::MAX,
        !(command is Undo),
        !(command is Redo),
        !(command is SaveVoiceModel),
        !(command is RevokeVoiceModel),
        told_edit(c, command, o).0 matches Ok(e) && e.changed,
    ensures
        ({
            let next = told_edit(c, command, o).1;
            &&& next.editor.state.version == c.editor.state.version + 1
            &&& next.outbox.len() > c.outbox.len()
            &&& next.outbox[c.outbox.len() as int] == (CoreEventView::TimelineChanged {
                project_epoch: c.project_epoch,
                version: next.editor.state.version,
            })
        }),
{
    law_edits_are_faithful(c.editor.state, command, c.ids, o);
}

/// A persisted edit that fails, or cannot be written, leaves document, history and
/// version as they were, and is not told.
pub proof fn law_failed_persisted_edit_leaves_nothing(
    c: CoreView,
    expected: ProjectRevision,
    command: EditCommand,
    o: Outside,
    saved: Result<Seq<char>, CoreFault>,
)
    requires
        persisted_edit(c, expected, command, o, saved).0 is Err,
    ensures
        ({
            let next = persisted_edit(c, expected, command, o, saved).1;
            next == CoreView { ids: next.ids, ..c }
        }),
{
}

/// An undo on behalf of an assistant undoes the assistant's own edit or nothing: of
/// another project, at another version or with another edit on top, all stays as it
/// was.
pub proof fn law_owned_undo_takes_back_its_own_edit_only(
    c: CoreView,
    expected: ProjectRevision,
    path: Option<Seq<char>>,
    action: Seq<char>,
    transaction: u64,
)
    ensures
        ({
            let history = c.editor.state.undo_stack;
            let (r, next) = owned_undo(c, expected, path, action, transaction);
            next != c ==> revision(c) == expected && same_opt_place(c.editor.project_dir, path)
                && history.len()
                > 0 && history.last().action_name == action
                && history.last().transaction_version == transaction && r is Ok
        }),
{
}

/// An assistant that asks for its edit to be undone by what was reported of it, before
/// anything else changed, gets it undone: the document is the one before the edit.
pub proof fn law_owned_undo_takes_back_a_reported_edit(
    c: CoreView,
    command: EditCommand,
    o: Outside,
    path: Option<Seq<char>>,
)
    requires
        c.editor.state.version < u64::MAX,
        !(command is Undo),
        !(command is Redo),
        !(command is SaveVoiceModel),
        !(command is RevokeVoiceModel),
        same_opt_place(c.editor.project_dir, path),
        told_edit(c, command, o).0 matches Ok(e) && e.changed,
    ensures
        ({
            let (r, edited) = told_edit(c, command, o);
            let e = r->Ok_0;
            let (taken_back, next) = owned_undo(
                edited,
                revision(edited),
                path,
                e.action_name,
                e.timeline_version,
            );
            &&& taken_back matches Ok(OwnedUndoView::Undone(_))
            &&& next.editor.state.timeline == c.editor.state.timeline
            &&& next.editor.state.manifest == c.editor.state.manifest
            &&& next.editor.state.undo_stack == c.editor.state.undo_stack
        }),
{
    let s = c.editor.state;
    law_edits_are_faithful(s, command, c.ids, o);
    law_commands_leave_timelines_in_order(s, command, c.ids, o);
    if timeline_fault(s.timeline, "timeline"@) is Some {
        law_malformed_timeline_is_refused(s, command, c.ids, o);
    }
    lemma_timeline_sound(s.timeline, "timeline"@);
    lemma_timeline_sound(s.timeline, "undo timeline"@);
}

} // verus!
