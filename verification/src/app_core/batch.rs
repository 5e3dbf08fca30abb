//! Importing a prepared plan of folders and files as one step.
//!
//! Directories have been walked and files probed before a plan gets here. All of it
//! stands, or nothing does.

use crate::app_core::emitted;
use crate::app_core::identity_fault;
use crate::app_core::imports::minted;
use crate::app_core::imports::numbered;
use crate::app_core::imports::with_entry;
use crate::app_core::imports::with_library;
use crate::app_core::AppCore;
use crate::app_core::CoreView;
use crate::apply::dispatched;
use crate::command::EditCommand;
use crate::command::Outside;
use crate::commands::library::create_folder_spec;
use crate::commands::library::move_to_folder_spec;
use crate::edit::EditResult;
use crate::edit::EditResultView;
use crate::edit::Fault;
use crate::events::plainly;
use crate::events::viewed;
use crate::events::CoreError;
use crate::events::CoreEvent;
use crate::events::CoreEventView;
use crate::events::CoreFault;
use crate::frames::timeline_fault;
use crate::ids::IdsView;
use crate::model::MediaManifestEntry;
use crate::model::MediaManifestEntryView;
use crate::paths::same_opt_place;
use crate::session::SessionView;
use crate::state::ids_spent;
use crate::state::undone;
use crate::state::StateView;
use crate::text::cat2;
use crate::text::copy_opt;
use crate::text::nat_text;
use crate::text::opt_text;
use crate::text::texts;
use crate::text::u64_to_text;
use std::collections::BTreeMap;
use vstd::prelude::*;
use vstd::string::StringExecFns;

verus! {

/// A folder in a plan: one that the plan makes, by its key, or one that is there.
#[derive(Debug)]
pub enum PreparedMediaFolderRef {
    Planned(u64),
    Existing(String),
}

/// The view of a [`PreparedMediaFolderRef`].
pub enum FolderRefView {
    Planned(u64),
    Existing(Seq<char>),
}

impl View for PreparedMediaFolderRef {
    type V = FolderRefView;

    open spec fn view(&self) -> FolderRefView {
        match self {
            PreparedMediaFolderRef::Planned(key) => FolderRefView::Planned(*key),
            PreparedMediaFolderRef::Existing(id) => FolderRefView::Existing(id@),
        }
    }
}

/// The view of an optional folder.
pub open spec fn folder_ref_view(f: Option<PreparedMediaFolderRef>) -> Option<FolderRefView> {
    match f {
        Some(x) => Some(x@),
        None => None,
    }
}

/// One step of a plan. A `candidate` is what a file makes, without an id of its own.
#[derive(Debug)]
pub enum PreparedMediaImportOp {
    CreateFolder { key: u64, name: String, parent: Option<PreparedMediaFolderRef> },
    ImportFile {
        path: String,
        candidate: Result<MediaManifestEntry, CoreError>,
        folder: Option<PreparedMediaFolderRef>,
    },
    ImportDerivedStem { path: String, candidate: Result<MediaManifestEntry, CoreError> },
}

/// The view of a [`PreparedMediaImportOp`].
pub enum ImportOpView {
    CreateFolder { key: u64, name: Seq<char>, parent: Option<FolderRefView> },
    Import {
        path: Seq<char>,
        candidate: Result<MediaManifestEntryView, CoreFault>,
        folder: Option<FolderRefView>,
    },
}

impl View for PreparedMediaImportOp {
    type V = ImportOpView;

    open spec fn view(&self) -> ImportOpView {
        match self {
            PreparedMediaImportOp::CreateFolder { key, name, parent } => {
                ImportOpView::CreateFolder {
                    key: *key,
                    name: name@,
                    parent: folder_ref_view(*parent),
                }
            },
            PreparedMediaImportOp::ImportFile { path, candidate, folder } => {
                ImportOpView::Import {
                    path: path@,
                    candidate: viewed(*candidate),
                    folder: folder_ref_view(*folder),
                }
            },
            PreparedMediaImportOp::ImportDerivedStem { path, candidate } => {
                ImportOpView::Import { path: path@, candidate: viewed(*candidate), folder: None }
            },
        }
    }
}

/// The views of a plan.
pub open spec fn op_views(v: Seq<PreparedMediaImportOp>) -> Seq<ImportOpView> {
    v.map_values(|x: PreparedMediaImportOp| x@)
}

/// A file that a batch brought in.
#[derive(Debug)]
pub struct CommittedMediaImport {
    pub path: String,
    pub entry: MediaManifestEntry,
}

/// The view of a [`CommittedMediaImport`].
#[verifier::ext_equal]
pub struct CommittedView {
    pub path: Seq<char>,
    pub entry: MediaManifestEntryView,
}

impl View for CommittedMediaImport {
    type V = CommittedView;

    open spec fn view(&self) -> CommittedView {
        CommittedView { path: self.path@, entry: self.entry@ }
    }
}

/// The views of a list of [`CommittedMediaImport`].
pub open spec fn committed_views(v: Seq<CommittedMediaImport>) -> Seq<CommittedView> {
    v.map_values(|x: CommittedMediaImport| x@)
}

/// How far a batch has come: the core, the folders made so far by their keys, and
/// the files brought in.
#[verifier::ext_equal]
pub struct BatchView {
    pub core: CoreView,
    pub folders: Map<u64, Seq<char>>,
    pub imports: Seq<CommittedView>,
}

/// The id of a folder in a plan.
pub open spec fn resolved(folders: Map<u64, Seq<char>>, folder: Option<FolderRefView>) -> Result<
    Option<Seq<char>>,
    CoreFault,
> {
    match folder {
        None => Ok(None),
        Some(FolderRefView::Existing(id)) => Ok(Some(id)),
        Some(FolderRefView::Planned(key)) => if folders.contains_key(key) {
            Ok(Some(folders[key]))
        } else {
            Err(CoreFault::Media("prepared folder key not found: "@ + nat_text(key as nat)))
        },
    }
}

/// Making a folder on any timeline: a malformed one is refused first.
pub open spec fn folder_made(
    s: StateView,
    name: Seq<char>,
    parent: Option<Seq<char>>,
    ids: IdsView,
    registry_fault: Option<Seq<char>>,
) -> (Result<EditResultView, Fault>, StateView) {
    match timeline_fault(s.timeline, "timeline"@) {
        Some(m) => (Err(Fault::Invalid(m)), s),
        None => create_folder_spec(s, name, parent, ids, registry_fault),
    }
}

/// Moving a medium into a folder on any timeline: a malformed one is refused first.
pub open spec fn filed(
    s: StateView,
    id: Seq<char>,
    folder: Seq<char>,
    registry_fault: Option<Seq<char>>,
) -> (Result<EditResultView, Fault>, StateView) {
    match timeline_fault(s.timeline, "timeline"@) {
        Some(m) => (Err(Fault::Invalid(m)), s),
        None => move_to_folder_spec(s, seq![id], Some(folder), registry_fault),
    }
}

/// The core with another document state.
pub open spec fn with_state(c: CoreView, state: StateView) -> CoreView {
    CoreView { editor: SessionView { state, ..c.editor }, ..c }
}

/// One step of a plan: how far the batch then is, and why it stops there, if it does.
pub open spec fn stepped(b: BatchView, op: ImportOpView, registry_fault: Option<Seq<char>>) -> (
    Option<CoreFault>,
    BatchView,
) {
    let c = b.core;
    match op {
        ImportOpView::CreateFolder { key, name, parent } => if b.folders.contains_key(key) {
            (
                Some(
                    CoreFault::Media("duplicate prepared folder key: "@ + nat_text(key as nat)),
                ),
                b,
            )
        } else {
            match resolved(b.folders, parent) {
                Err(f) => (Some(f), b),
                Ok(parent_id) => {
                    let (r, state) = folder_made(
                        c.editor.state,
                        name,
                        parent_id,
                        c.ids,
                        registry_fault,
                    );
                    let next = CoreView {
                        ids: if name.len() == 0 {
                            c.ids
                        } else {
                            ids_spent(c.editor.state, c.ids, 1)
                        },
                        ..with_state(c, state)
                    };
                    match r {
                        Err(f) => (Some(CoreFault::Edit(f)), BatchView { core: next, ..b }),
                        Ok(e) => (
                            None,
                            BatchView {
                                core: next,
                                folders: b.folders.insert(key, e.affected_clip_ids[0]),
                                ..b
                            },
                        ),
                    }
                },
            }
        },
        ImportOpView::Import { path, candidate, folder } => match resolved(b.folders, folder) {
            Err(f) => (Some(f), b),
            Ok(folder_id) => match candidate {
                Err(f) => (Some(f), BatchView { core: minted(c), ..b }),
                Ok(file) => {
                    let entry = numbered(c, file);
                    let added = with_library(
                        minted(c),
                        with_entry(c.editor.state.manifest, entry),
                    );
                    match folder_id {
                        None => (
                            None,
                            BatchView {
                                core: added,
                                imports: b.imports.push(CommittedView { path, entry }),
                                ..b
                            },
                        ),
                        Some(f) => {
                            let (r, state) = filed(
                                added.editor.state,
                                entry.id,
                                f,
                                registry_fault,
                            );
                            let next = with_state(added, state);
                            match r {
                                Err(fault) => (
                                    Some(CoreFault::Edit(fault)),
                                    BatchView { core: next, ..b },
                                ),
                                Ok(_) => (
                                    None,
                                    BatchView {
                                        core: next,
                                        imports: b.imports.push(
                                            CommittedView {
                                                path,
                                                entry: MediaManifestEntryView {
                                                    folder_id: Some(f),
                                                    ..entry
                                                },
                                            },
                                        ),
                                        ..b
                                    },
                                ),
                            }
                        },
                    }
                },
            },
        },
    }
}

/// The first `n` steps of a plan.
pub open spec fn stepped_to(
    start: BatchView,
    plan: Seq<ImportOpView>,
    registry_fault: Option<Seq<char>>,
    n: int,
) -> (Option<CoreFault>, BatchView)
    decreases n,
{
    if n <= 0 {
        (None, start)
    } else {
        let (fault, b) = stepped_to(start, plan, registry_fault, n - 1);
        if fault is Some {
            (fault, b)
        } else {
            stepped(b, plan[n - 1], registry_fault)
        }
    }
}

/// A batch before its first step.
pub open spec fn batch_start(c: CoreView) -> BatchView {
    BatchView { core: c, folders: Map::empty(), imports: Seq::empty() }
}

/// Importing a plan for one project. The whole plan stands once it has been written;
/// where a step or the write fails, document, history, version and media library are
/// as they were. What is told: that the document moved on, if it did, that the media
/// library changed, and that it was written.
pub open spec fn batch_imported(
    c: CoreView,
    epoch: u64,
    dir: Seq<char>,
    plan: Seq<ImportOpView>,
    registry_fault: Option<Seq<char>>,
    precondition: Result<(), CoreFault>,
    written: Result<Seq<char>, CoreFault>,
) -> (Result<Seq<CommittedView>, CoreFault>, CoreView) {
    match identity_fault(c, epoch, dir) {
        Some(f) => (Err(f), c),
        None => match c.editor.read_only {
            Some(m) => (Err(CoreFault::Unsupported(m)), c),
            None => match precondition {
                Err(f) => (Err(f), c),
                Ok(_) => {
                    let (fault, b) = stepped_to(
                        batch_start(c),
                        plan,
                        registry_fault,
                        plan.len() as int,
                    );
                    let undone = CoreView { ids: b.core.ids, ..c };
                    match (fault, written) {
                        (Some(f), _) => (Err(f), undone),
                        (_, Err(f)) => (Err(f), undone),
                        (None, Ok(path)) => (
                            Ok(b.imports),
                            emitted(b.core, batch_events(c, b.core, path)),
                        ),
                    }
                },
            },
        },
    }
}

/// What is told of a batch.
pub open spec fn batch_events(before: CoreView, after: CoreView, path: Seq<char>) -> Seq<
    CoreEventView,
> {
    (if after.editor.state.version != before.editor.state.version {
        seq![
            CoreEventView::TimelineChanged {
                project_epoch: after.project_epoch,
                version: after.editor.state.version,
            },
        ]
    } else {
        Seq::empty()
    }) + seq![
        CoreEventView::MediaChanged {
            project_epoch: after.project_epoch,
            count: after.editor.state.manifest.entries.len() as int,
        },
        CoreEventView::ProjectSaved { path, project_epoch: after.project_epoch },
    ]
}

/// The view of what a batch brought in.
pub open spec fn imports_view(r: Result<Vec<CommittedMediaImport>, CoreError>) -> Result<
    Seq<CommittedView>,
    CoreFault,
> {
    match r {
        Ok(v) => Ok(committed_views(v@)),
        Err(e) => Err(e@),
    }
}

/// The folders made so far, as text.
pub open spec fn folder_texts(m: Map<u64, String>) -> Map<u64, Seq<char>> {
    m.map_values(|s: String| s@)
}

fn resolve_prepared_folder(
    planned: &BTreeMap<u64, String>,
    folder: Option<PreparedMediaFolderRef>,
) -> (r: Result<Option<String>, CoreError>)
    ensures
        (match r {
            Ok(id) => Ok(opt_text(id)),
            Err(e) => Err(e@),
        }) == resolved(folder_texts(planned@), folder_ref_view(folder)),
{
    match folder {
        None => Ok(None),
        Some(PreparedMediaFolderRef::Existing(id)) => Ok(Some(id)),
        Some(PreparedMediaFolderRef::Planned(key)) => match planned.get(&key) {
            Some(id) => Ok(Some(id.clone())),
            None => {
                let number = u64_to_text(key);
                Err(CoreError::Media(cat2("prepared folder key not found: ", number.as_str())))
            },
        },
    }
}

impl AppCore {
    fn make_folder(&mut self, name: String, parent: Option<String>, registry_fault: &Option<String>) -> (r: Result<
        EditResult,
        CoreError,
    >)
        requires
            old(self)@.editor.state.version < u64::MAX,
        ensures
            ({
                let c = old(self)@;
                let (done, state) = folder_made(
                    c.editor.state,
                    name@,
                    opt_text(parent),
                    c.ids,
                    opt_text(*registry_fault),
                );
                &&& viewed(r) == (match done {
                    Ok(e) => Ok(e),
                    Err(f) => Err(CoreFault::Edit(f)),
                })
                &&& final(self)@ == (CoreView {
                    ids: if name@.len() == 0 {
                        c.ids
                    } else {
                        ids_spent(c.editor.state, c.ids, 1)
                    },
                    ..with_state(c, state)
                })
                &&& state.version <= c.editor.state.version + 1
            }),
    {
        proof {
            reveal(dispatched);
        }
        self.edit(
            EditCommand::CreateFolder { name, parent_folder_id: parent },
            Outside::silent(copy_opt(registry_fault)),
        )
    }

    fn file_media(&mut self, id: &str, folder: &str, registry_fault: &Option<String>) -> (r: Result<
        EditResult,
        CoreError,
    >)
        requires
            old(self)@.editor.state.version < u64::MAX,
        ensures
            ({
                let c = old(self)@;
                let (done, state) = filed(
                    c.editor.state,
                    id@,
                    folder@,
                    opt_text(*registry_fault),
                );
                &&& viewed(r) == (match done {
                    Ok(e) => Ok(e),
                    Err(f) => Err(CoreFault::Edit(f)),
                })
                &&& final(self)@ == with_state(c, state)
                &&& state.version <= c.editor.state.version + 1
            }),
    {
        proof {
            reveal(dispatched);
        }
        let asset_ids: Vec<String> = vec![String::from_str(id)];
        assert(texts(asset_ids@) =~= seq![id@]);
        self.edit(
            EditCommand::MoveToFolder { asset_ids, folder_id: Some(String::from_str(folder)) },
            Outside::silent(copy_opt(registry_fault)),
        )
    }

    fn step_folder(
        &mut self,
        key: u64,
        name: String,
        parent: Option<PreparedMediaFolderRef>,
        folders: &mut BTreeMap<u64, String>,
        registry_fault: &Option<String>,
        Ghost(imports): Ghost<Seq<CommittedView>>,
    ) -> (r: Result<(), CoreError>)
        requires
            old(self)@.editor.state.version < u64::MAX,
        ensures
            ({
                let b = BatchView {
                    core: old(self)@,
                    folders: folder_texts(old(folders)@),
                    imports,
                };
                let op = ImportOpView::CreateFolder {
                    key,
                    name: name@,
                    parent: folder_ref_view(parent),
                };
                let (fault, next) = stepped(b, op, opt_text(*registry_fault));
                &&& final(self)@ == next.core
                &&& next.imports == imports
                &&& match r {
                    Ok(_) => fault is None && folder_texts(final(folders)@) == next.folders,
                    Err(e) => fault == Some(e@),
                }
            }),
            final(self)@.editor.state.version <= old(self)@.editor.state.version + 1,
    {
        let ghost made = folders@;
        if folders.contains_key(&key) {
            let number = u64_to_text(key);
            return Err(
                CoreError::Media(cat2("duplicate prepared folder key: ", number.as_str())),
            );
        }
        let parent_id = match resolve_prepared_folder(folders, parent) {
            Ok(id) => id,
            Err(e) => return Err(e),
        };
        let e = match self.make_folder(name, parent_id, registry_fault) {
            Ok(e) => e,
            Err(e) => return Err(e),
        };
        assert(e@.affected_clip_ids.len() == 1);
        assert(e.affected_clip_ids@.len() == e@.affected_clip_ids.len());
        let id = e.affected_clip_ids[0].clone();
        assert(id@ == e@.affected_clip_ids[0]);
        folders.insert(key, id);
        assert(folder_texts(folders@) =~= folder_texts(made).insert(key, id@));
        Ok(())
    }

    fn step_import(
        &mut self,
        path: String,
        candidate: Result<MediaManifestEntry, CoreError>,
        folder: Option<PreparedMediaFolderRef>,
        folders: &BTreeMap<u64, String>,
        imports: &mut Vec<CommittedMediaImport>,
        registry_fault: &Option<String>,
    ) -> (r: Result<(), CoreError>)
        requires
            old(self)@.editor.state.version < u64::MAX,
        ensures
            ({
                let b = BatchView {
                    core: old(self)@,
                    folders: folder_texts(folders@),
                    imports: committed_views(old(imports)@),
                };
                let op = ImportOpView::Import {
                    path: path@,
                    candidate: viewed(candidate),
                    folder: folder_ref_view(folder),
                };
                let (fault, next) = stepped(b, op, opt_text(*registry_fault));
                &&& final(self)@ == next.core
                &&& next.folders == b.folders
                &&& match r {
                    Ok(_) => fault is None && committed_views(final(imports)@) == next.imports,
                    Err(e) => fault == Some(e@),
                }
            }),
            final(self)@.editor.state.version <= old(self)@.editor.state.version + 1,
    {
        let ghost before = imports@;
        let folder_id = match resolve_prepared_folder(folders, folder) {
            Ok(id) => id,
            Err(e) => return Err(e),
        };
        let mut entry = match self.prepare_media_file_entry(candidate) {
            Ok(e) => e,
            Err(e) => return Err(e),
        };
        self.editor.add_media(entry.copy());
        if let Some(f) = folder_id {
            match self.file_media(entry.id.as_str(), f.as_str(), registry_fault) {
                Ok(_) => {},
                Err(e) => return Err(e),
            }
            entry.folder_id = Some(f);
        }
        let done = CommittedMediaImport { path, entry };
        imports.push(done);
        assert(committed_views(imports@) =~= committed_views(before).push(done@));
        Ok(())
    }

    fn run_plan(
        &mut self,
        plan: Vec<PreparedMediaImportOp>,
        registry_fault: &Option<String>,
    ) -> (r: Result<Vec<CommittedMediaImport>, CoreError>)
        requires
            old(self)@.editor.state.version + plan@.len() <= u64::MAX,
        ensures
            ({
                let (fault, b) = stepped_to(
                    batch_start(old(self)@),
                    op_views(plan@),
                    opt_text(*registry_fault),
                    plan@.len() as int,
                );
                &&& final(self)@ == b.core
                &&& match r {
                    Ok(v) => fault is None && committed_views(v@) == b.imports,
                    Err(e) => fault == Some(e@),
                }
            }),
    {
        let ghost start = batch_start(self@);
        let ghost whole = op_views(plan@);
        let ghost given = plan@;
        let ghost rf = opt_text(*registry_fault);
        let mut folders: BTreeMap<u64, String> = BTreeMap::new();
        let mut imports: Vec<CommittedMediaImport> = Vec::new();
        assert(folder_texts(folders@) =~= Map::empty());
        assert(committed_views(imports@) =~= Seq::empty());
        let ghost mut i: int = 0;
        let mut rest = reversed(plan);
        while rest.len() > 0
            invariant
                0 <= i,
                i + rest@.len() == given.len(),
                given == plan@,
                whole == op_views(given),
                forall|k: int|
                    0 <= k < rest@.len() ==> #[trigger] rest@[k] == given[given.len() - 1 - k],
                start == batch_start(old(self)@),
                rf == opt_text(*registry_fault),
                old(self)@.editor.state.version + given.len() <= u64::MAX,
                self@.editor.state.version <= old(self)@.editor.state.version + i,
                stepped_to(start, whole, rf, i) == (
                    None::<CoreFault>,
                    BatchView {
                        core: self@,
                        folders: folder_texts(folders@),
                        imports: committed_views(imports@),
                    },
                ),
            decreases rest@.len(),
        {
            let op = rest.pop();
            if let Some(op) = op {
                assert(op == given[i]);
                assert(whole[i] == op@);
                let done = match op {
                    PreparedMediaImportOp::CreateFolder { key, name, parent } => self.step_folder(
                        key,
                        name,
                        parent,
                        &mut folders,
                        registry_fault,
                        Ghost(committed_views(imports@)),
                    ),
                    PreparedMediaImportOp::ImportFile { path, candidate, folder } => {
                        self.step_import(
                            path,
                            candidate,
                            folder,
                            &folders,
                            &mut imports,
                            registry_fault,
                        )
                    },
                    PreparedMediaImportOp::ImportDerivedStem { path, candidate } => {
                        self.step_import(
                            path,
                            candidate,
                            None,
                            &folders,
                            &mut imports,
                            registry_fault,
                        )
                    },
                };
                match done {
                    Ok(()) => {},
                    Err(e) => {
                        proof {
                            lemma_stopped(start, whole, rf, i + 1, whole.len() as int);
                        }
                        return Err(e);
                    },
                }
                proof {
                    i = i + 1;
                }
            }
        }
        Ok(imports)
    }

    /// Imports a prepared plan under a condition that is checked before anything
    /// changes. `precondition` is what the condition came to, `written` what writing
    /// the media library came to.
    pub fn import_media_batch_for_project_persisted_checked(
        &mut self,
        expected_project_epoch: u64,
        expected_project_dir: &str,
        plan: Vec<PreparedMediaImportOp>,
        registry_fault: &Option<String>,
        precondition: Result<(), CoreError>,
        written: Result<String, CoreError>,
    ) -> (r: Result<Vec<CommittedMediaImport>, CoreError>)
        requires
            old(self)@.editor.state.version + plan@.len() <= u64::MAX,
        ensures
            (imports_view(r), final(self)@) == batch_imported(
                old(self)@,
                expected_project_epoch,
                expected_project_dir@,
                op_views(plan@),
                opt_text(*registry_fault),
                plainly(precondition),
                viewed(written),
            ),
    {
        let ghost c = self@;
        match self.ensure_project_identity(expected_project_epoch, expected_project_dir) {
            Ok(()) => {},
            Err(e) => return Err(e),
        }
        match self.editor.ensure_mutable() {
            Ok(()) => {},
            Err(e) => return Err(e),
        }
        match precondition {
            Ok(()) => {},
            Err(e) => return Err(e),
        }
        let before = self.editor.state.copy();
        let initial_version = self.editor.state.version;
        proof {
            lemma_plan_keeps(
                batch_start(c),
                op_views(plan@),
                opt_text(*registry_fault),
                plan@.len() as int,
            );
        }
        let imports = match self.run_plan(plan, registry_fault) {
            Ok(imports) => imports,
            Err(e) => {
                self.editor.state = before;
                return Err(e);
            },
        };
        let path = match written {
            Ok(path) => path,
            Err(e) => {
                self.editor.state = before;
                return Err(e);
            },
        };
        let ghost after = self@;
        let project_epoch = self.project_epoch;
        let version = self.editor.state.version;
        let count = self.editor.state.manifest.entries.len();
        if version != initial_version {
            self.emit(CoreEvent::TimelineChanged { project_epoch, version });
        }
        self.emit(CoreEvent::MediaChanged { project_epoch, count });
        self.emit(CoreEvent::ProjectSaved { path, project_epoch });
        assert(self@.outbox =~= after.outbox + batch_events(c, after, path@));
        Ok(imports)
    }

    /// Imports a prepared plan. `written` is what writing the media library came to.
    pub fn import_media_batch_for_project_persisted(
        &mut self,
        expected_project_epoch: u64,
        expected_project_dir: &str,
        plan: Vec<PreparedMediaImportOp>,
        registry_fault: &Option<String>,
        written: Result<String, CoreError>,
    ) -> (r: Result<Vec<CommittedMediaImport>, CoreError>)
        requires
            old(self)@.editor.state.version + plan@.len() <= u64::MAX,
        ensures
            (imports_view(r), final(self)@) == batch_imported(
                old(self)@,
                expected_project_epoch,
                expected_project_dir@,
                op_views(plan@),
                opt_text(*registry_fault),
                Ok(()),
                viewed(written),
            ),
    {
        self.import_media_batch_for_project_persisted_checked(
            expected_project_epoch,
            expected_project_dir,
            plan,
            registry_fault,
            Ok(()),
            written,
        )
    }
}

/// A plan from its last step to its first, to be taken from the end.
fn reversed(plan: Vec<PreparedMediaImportOp>) -> (r: Vec<PreparedMediaImportOp>)
    ensures
        r@ == plan@.reverse(),
{
    let ghost given = plan@;
    let mut plan = plan;
    let mut out: Vec<PreparedMediaImportOp> = Vec::new();
    while plan.len() > 0
        invariant
            out@.len() + plan@.len() == given.len(),
            forall|k: int| 0 <= k < plan@.len() ==> #[trigger] plan@[k] == given[k],
            forall|k: int|
                0 <= k < out@.len() ==> #[trigger] out@[k] == given[given.len() - 1 - k],
        decreases plan@.len(),
    {
        if let Some(op) = plan.pop() {
            out.push(op);
        }
    }
    assert(out@ =~= given.reverse());
    out
}

/// A plan that has stopped stays where it is.
proof fn lemma_stopped(
    start: BatchView,
    plan: Seq<ImportOpView>,
    registry_fault: Option<Seq<char>>,
    i: int,
    n: int,
)
    requires
        0 <= i <= n,
        stepped_to(start, plan, registry_fault, i).0 is Some,
    ensures
        stepped_to(start, plan, registry_fault, n) == stepped_to(start, plan, registry_fault, i),
    decreases n - i,
{
    if i < n {
        lemma_stopped(start, plan, registry_fault, i, n - 1);
    }
}

/// A plan changes the document and the id generator, and nothing else of the core.
proof fn lemma_plan_keeps(
    start: BatchView,
    plan: Seq<ImportOpView>,
    registry_fault: Option<Seq<char>>,
    n: int,
)
    ensures
        ({
            let b = stepped_to(start, plan, registry_fault, n).1;
            &&& b.core.project_epoch == start.core.project_epoch
            &&& b.core.outbox == start.core.outbox
            &&& b.core.editor == (SessionView { state: b.core.editor.state, ..start.core.editor })
        }),
    decreases n,
{
    if n > 0 {
        lemma_plan_keeps(start, plan, registry_fault, n - 1);
    }
}

/// A batch that fails leaves document, history, version and media library as they
/// were, and is not told: only the id generator may have moved.
pub proof fn law_failed_batch_leaves_nothing(
    c: CoreView,
    epoch: u64,
    dir: Seq<char>,
    plan: Seq<ImportOpView>,
    registry_fault: Option<Seq<char>>,
    precondition: Result<(), CoreFault>,
    written: Result<Seq<char>, CoreFault>,
)
    requires
        batch_imported(c, epoch, dir, plan, registry_fault, precondition, written).0 is Err,
    ensures
        ({
            let next = batch_imported(
                c,
                epoch,
                dir,
                plan,
                registry_fault,
                precondition,
                written,
            ).1;
            next == CoreView { ids: next.ids, ..c }
        }),
{
}

/// A batch for a project that has been replaced does nothing to the one in its place.
pub proof fn law_stale_batch_changes_nothing(
    c: CoreView,
    epoch: u64,
    dir: Seq<char>,
    plan: Seq<ImportOpView>,
    registry_fault: Option<Seq<char>>,
    precondition: Result<(), CoreFault>,
    written: Result<Seq<char>, CoreFault>,
)
    requires
        c.project_epoch != epoch || !same_opt_place(c.editor.project_dir, Some(dir)),
    ensures
        batch_imported(c, epoch, dir, plan, registry_fault, precondition, written) == (
            Err::<Seq<CommittedView>, CoreFault>(
                CoreFault::Media("project changed during global library workflow"@),
            ),
            c,
        ),
{
}

} // verus!
