//! Bringing media into the project.
//!
//! The file itself is read and probed elsewhere. What it makes, a `candidate`, comes
//! here without an id of its own; what writing the media library came to comes here
//! too, and where it failed the library is as it was.

use crate::app_core::emitted;
use crate::app_core::favorites::all_marked;
use crate::app_core::favorites::MarkView;
use crate::app_core::identity_fault;
use crate::app_core::same_path;
use crate::app_core::AppCore;
use crate::app_core::CoreView;
use crate::commands::library::find_folder;
use crate::commands::library::folder_index;
use crate::events::core_fault_text;
use crate::events::media_error;
use crate::events::plainly;
use crate::events::viewed;
use crate::events::CoreError;
use crate::events::CoreEvent;
use crate::events::CoreEventView;
use crate::events::CoreFault;
use crate::events::DeferredCoreEvents;
use crate::ids::ids_after;
use crate::ids::nth_id;
use crate::locate::find_media;
use crate::locate::media_index;
use crate::model::MediaManifest;
use crate::model::MediaManifestEntry;
use crate::model::MediaManifestEntryView;
use crate::model::MediaManifestView;
use crate::paths::same_opt_place;
use crate::session::with_media;
use crate::text::cat2;
use crate::text::opt_text;
use vstd::prelude::*;
use vstd::string::StringExecFns;

verus! {

/// The medium that a candidate becomes: it has the next id.
pub open spec fn numbered(c: CoreView, candidate: MediaManifestEntryView) -> MediaManifestEntryView {
    MediaManifestEntryView { id: nth_id(c.ids, 1), ..candidate }
}

/// The core after one id was minted.
pub open spec fn minted(c: CoreView) -> CoreView {
    CoreView { ids: ids_after(c.ids, 1), ..c }
}

/// The core with another media library.
pub open spec fn with_library(c: CoreView, manifest: MediaManifestView) -> CoreView {
    CoreView { editor: with_media(c.editor, manifest), ..c }
}

/// The media library with one more medium.
pub open spec fn with_entry(m: MediaManifestView, e: MediaManifestEntryView) -> MediaManifestView {
    MediaManifestView { entries: m.entries.push(e), ..m }
}

/// The media library with a medium replaced.
pub open spec fn entry_replaced(
    m: MediaManifestView,
    i: int,
    e: MediaManifestEntryView,
) -> MediaManifestView {
    MediaManifestView { entries: m.entries.update(i, e), ..m }
}

/// That the media library changed.
pub open spec fn library_event(c: CoreView) -> CoreEventView {
    CoreEventView::MediaChanged {
        project_epoch: c.project_epoch,
        count: c.editor.state.manifest.entries.len() as int,
    }
}

/// That the media library changed, and that it was written.
pub open spec fn library_events(c: CoreView, path: Seq<char>) -> Seq<CoreEventView> {
    seq![
        library_event(c),
        CoreEventView::ProjectSaved { path, project_epoch: c.project_epoch },
    ]
}

/// Importing a file.
pub open spec fn imported(
    c: CoreView,
    candidate: Result<MediaManifestEntryView, CoreFault>,
) -> (Result<MediaManifestEntryView, CoreFault>, CoreView) {
    match candidate {
        Err(f) => (Err(f), minted(c)),
        Ok(e) => {
            let next = with_library(
                minted(c),
                with_entry(c.editor.state.manifest, numbered(c, e)),
            );
            (Ok(numbered(c, e)), emitted(next, seq![library_event(next)]))
        },
    }
}

/// Importing a file for one project only, under a condition that is checked at the
/// very end.
pub open spec fn imported_for_project(
    c: CoreView,
    epoch: u64,
    dir: Seq<char>,
    candidate: Result<MediaManifestEntryView, CoreFault>,
    postcondition: Result<(), CoreFault>,
) -> (Result<MediaManifestEntryView, CoreFault>, CoreView) {
    if c.project_epoch != epoch || !same_opt_place(c.editor.project_dir, Some(dir)) {
        (Err(CoreFault::Media("project changed while saving media"@)), minted(c))
    } else {
        match (candidate, postcondition) {
            (Ok(_), Err(f)) => (Err(f), minted(c)),
            _ => imported(c, candidate),
        }
    }
}

/// The media library with a file of the global library in it.
pub open spec fn with_library_file(
    c: CoreView,
    candidate: MediaManifestEntryView,
    library_id: Seq<char>,
) -> MediaManifestView {
    all_marked(
        with_entry(c.editor.state.manifest, numbered(c, candidate)),
        MarkView::Global { id: nth_id(c.ids, 1), library_id: Some(library_id) },
    )
}

/// Importing a file of the global library. `saved` is what writing the media library
/// came to.
pub open spec fn library_file_imported(
    c: CoreView,
    epoch: u64,
    dir: Seq<char>,
    candidate: Result<MediaManifestEntryView, CoreFault>,
    library_id: Seq<char>,
    saved: Result<(), CoreFault>,
) -> (Result<MediaManifestEntryView, CoreFault>, CoreView) {
    match identity_fault(c, epoch, dir) {
        Some(f) => (Err(f), minted(c)),
        None => match (candidate, saved) {
            (Err(f), _) => (Err(f), minted(c)),
            (_, Err(f)) => (Err(f), minted(c)),
            (Ok(e), Ok(_)) => (
                Ok(numbered(c, e)),
                with_library(minted(c), with_library_file(c, e, library_id)),
            ),
        },
    }
}

/// The events of an import that writes the media library itself.
pub open spec fn written_events<T>(
    r: Result<T, CoreFault>,
    next: CoreView,
    dir: Seq<char>,
) -> Seq<CoreEventView> {
    if r is Ok {
        library_events(next, dir)
    } else {
        Seq::empty()
    }
}

/// A committed import whose condition failed and could not be rolled back.
#[derive(Debug)]
pub enum ImportCommitWarning {
    PostconditionRollbackFailed { postcondition: String, rollback: String },
}

/// An import that stands, with a warning where its condition failed and could not be
/// rolled back.
#[derive(Debug)]
pub struct CapabilityImportCommit {
    pub entry: MediaManifestEntry,
    pub warning: Option<ImportCommitWarning>,
}

/// The view of a [`CapabilityImportCommit`]: the medium, and the two causes of the
/// warning.
pub struct ImportCommitView {
    pub entry: MediaManifestEntryView,
    pub warning: Option<(Seq<char>, Seq<char>)>,
}

impl View for CapabilityImportCommit {
    type V = ImportCommitView;

    open spec fn view(&self) -> ImportCommitView {
        ImportCommitView {
            entry: self.entry@,
            warning: match self.warning {
                Some(ImportCommitWarning::PostconditionRollbackFailed {
                    postcondition,
                    rollback,
                }) => Some((postcondition@, rollback@)),
                None => None,
            },
        }
    }
}

/// Importing a file of the global library through the caller's own writer. The first
/// write makes the import stand. A condition that fails after it has the library
/// written back; only where that fails too does the import stand, with a warning.
pub open spec fn written_library_file_imported(
    c: CoreView,
    epoch: u64,
    dir: Seq<char>,
    candidate: Result<MediaManifestEntryView, CoreFault>,
    library_id: Seq<char>,
    first_write: Result<(), CoreFault>,
    postcondition: Result<(), CoreFault>,
    rollback: Result<(), CoreFault>,
) -> (Result<ImportCommitView, CoreFault>, CoreView) {
    let (r, next) = library_file_imported(c, epoch, dir, candidate, library_id, first_write);
    match r {
        Err(f) => (Err(f), next),
        Ok(entry) => match (postcondition, rollback) {
            (Ok(_), _) => (Ok(ImportCommitView { entry, warning: None }), next),
            (Err(f), Ok(_)) => (Err(f), minted(c)),
            (Err(f), Err(g)) => (
                Ok(
                    ImportCommitView {
                        entry,
                        warning: Some((core_fault_text(f), core_fault_text(g))),
                    },
                ),
                next,
            ),
        },
    }
}

/// The media library with a retained file in it, and the medium as it is there.
pub open spec fn with_retained(
    c: CoreView,
    candidate: MediaManifestEntryView,
    folder_id: Option<Seq<char>>,
) -> (MediaManifestEntryView, MediaManifestView) {
    let e = numbered(c, candidate);
    let m = with_entry(c.editor.state.manifest, e);
    match folder_id {
        None => (e, m),
        Some(_) => {
            let i = media_index(m.entries, e.id, 0)->0;
            (
                MediaManifestEntryView { folder_id, ..e },
                entry_replaced(m, i, MediaManifestEntryView { folder_id, ..m.entries[i] }),
            )
        },
    }
}

/// Importing a retained file: the condition is checked before the library is
/// written, and the write is the last step that can fail.
pub open spec fn retained_imported(
    c: CoreView,
    epoch: u64,
    dir: Seq<char>,
    candidate: Result<MediaManifestEntryView, CoreFault>,
    folder_id: Option<Seq<char>>,
    postcondition: Result<(), CoreFault>,
    write: Result<(), CoreFault>,
) -> (Result<ImportCommitView, CoreFault>, CoreView) {
    match identity_fault(c, epoch, dir) {
        Some(f) => (Err(f), minted(c)),
        None => match candidate {
            Err(f) => (Err(f), minted(c)),
            Ok(e) => if folder_id is Some && folder_index(
                c.editor.state.manifest.folders,
                folder_id->0,
                0,
            ) is None {
                (Err(CoreFault::Media("folderId not found: "@ + folder_id->0)), minted(c))
            } else {
                match (postcondition, write) {
                    (Err(f), _) => (Err(f), minted(c)),
                    (_, Err(f)) => (Err(f), minted(c)),
                    _ => {
                        let (entry, manifest) = with_retained(c, e, folder_id);
                        (
                            Ok(ImportCommitView { entry, warning: None }),
                            with_library(minted(c), manifest),
                        )
                    },
                }
            },
        },
    }
}

/// The complaint that a medium is not there.
pub open spec fn no_such_media(id: Seq<char>) -> CoreFault {
    CoreFault::Media("Media asset not found: "@ + id)
}

/// Setting or clearing the playback proxy of a medium.
pub open spec fn proxy_set(
    c: CoreView,
    epoch: u64,
    dir: Seq<char>,
    id: Seq<char>,
    proxy: Option<Seq<char>>,
    saved: Result<Seq<char>, CoreFault>,
) -> (Result<MediaManifestEntryView, CoreFault>, CoreView) {
    let m = c.editor.state.manifest;
    match identity_fault(c, epoch, dir) {
        Some(f) => (Err(f), c),
        None => match media_index(m.entries, id, 0) {
            None => (Err(no_such_media(id)), c),
            Some(i) => match saved {
                Err(f) => (Err(f), c),
                Ok(path) => {
                    let e = MediaManifestEntryView { proxy, ..m.entries[i] };
                    let next = with_library(c, entry_replaced(m, i, e));
                    (Ok(e), emitted(next, library_events(next, path)))
                },
            },
        },
    }
}

/// Linking a medium to another file; it keeps its id. In a project that has been
/// saved, the media library is written too.
pub open spec fn relinked_to(
    c: CoreView,
    id: Seq<char>,
    relinked: Result<MediaManifestEntryView, CoreFault>,
    saved: Result<Seq<char>, CoreFault>,
) -> (Result<MediaManifestEntryView, CoreFault>, CoreView) {
    let m = c.editor.state.manifest;
    match media_index(m.entries, id, 0) {
        None => (Err(no_such_media(id)), c),
        Some(i) => match relinked {
            Err(f) => (Err(f), c),
            Ok(x) => {
                let e = MediaManifestEntryView { id, ..x };
                let next = with_library(c, entry_replaced(m, i, e));
                if c.editor.project_dir is None {
                    (Ok(e), emitted(next, seq![library_event(next)]))
                } else {
                    match saved {
                        Err(f) => (Err(f), c),
                        Ok(path) => (Ok(e), emitted(next, library_events(next, path))),
                    }
                }
            },
        },
    }
}

impl AppCore {
    fn tell_library(&mut self)
        ensures
            final(self)@ == emitted(old(self)@, seq![library_event(old(self)@)]),
    {
        let project_epoch = self.project_epoch;
        let count = self.editor.state.manifest.entries.len();
        self.emit(CoreEvent::MediaChanged { project_epoch, count });
    }

    fn tell_written_library(&mut self, path: String)
        ensures
            final(self)@ == emitted(old(self)@, library_events(old(self)@, path@)),
    {
        let ghost c = self@;
        self.tell_library();
        let project_epoch = self.project_epoch;
        self.emit(CoreEvent::ProjectSaved { path, project_epoch });
        assert(self@.outbox =~= c.outbox + library_events(c, path@));
    }

    fn queue_written_library(&self, dir: &str, events: &mut DeferredCoreEvents)
        ensures
            final(events)@ == old(events)@ + library_events(self@, dir@),
    {
        let ghost queued = events@;
        let project_epoch = self.project_epoch;
        let count = self.editor.state.manifest.entries.len();
        events.push(CoreEvent::MediaChanged { project_epoch, count });
        events.push(CoreEvent::ProjectSaved { path: String::from_str(dir), project_epoch });
        assert(events@ =~= queued + library_events(self@, dir@));
    }

    /// Makes a medium of a candidate, without registering it: nothing but the id
    /// generator moves.
    pub fn prepare_media_file_entry(&mut self, candidate: Result<MediaManifestEntry, CoreError>) -> (r: Result<
        MediaManifestEntry,
        CoreError,
    >)
        ensures
            final(self)@ == minted(old(self)@),
            viewed(r) == (match candidate {
                Ok(e) => Ok(numbered(old(self)@, e@)),
                Err(e) => Err(e@),
            }),
    {
        let id = self.ids.next_id();
        match candidate {
            Ok(e) => {
                let mut e = e;
                e.id = id;
                Ok(e)
            },
            Err(e) => Err(e),
        }
    }

    /// Imports a file, and tells.
    pub fn import_media_file(&mut self, candidate: Result<MediaManifestEntry, CoreError>) -> (r: Result<
        MediaManifestEntry,
        CoreError,
    >)
        ensures
            (viewed(r), final(self)@) == imported(old(self)@, viewed(candidate)),
    {
        match self.prepare_media_file_entry(candidate) {
            Ok(e) => {
                self.editor.add_media(e.copy());
                self.tell_library();
                Ok(e)
            },
            Err(e) => Err(e),
        }
    }

    /// Imports a file if the project is still the expected one.
    pub fn import_media_file_for_project(
        &mut self,
        expected_project_epoch: u64,
        expected_project_dir: &str,
        candidate: Result<MediaManifestEntry, CoreError>,
    ) -> (r: Result<MediaManifestEntry, CoreError>)
        ensures
            (viewed(r), final(self)@) == imported_for_project(
                old(self)@,
                expected_project_epoch,
                expected_project_dir@,
                viewed(candidate),
                Ok(()),
            ),
    {
        self.import_media_file_for_project_checked(
            expected_project_epoch,
            expected_project_dir,
            candidate,
            Ok(()),
        )
    }

    /// Imports a file if the project is still the expected one and a condition
    /// holds at the very end. Where it does not, the library is as it was.
    pub fn import_media_file_for_project_checked(
        &mut self,
        expected_project_epoch: u64,
        expected_project_dir: &str,
        candidate: Result<MediaManifestEntry, CoreError>,
        postcondition: Result<(), CoreError>,
    ) -> (r: Result<MediaManifestEntry, CoreError>)
        ensures
            (viewed(r), final(self)@) == imported_for_project(
                old(self)@,
                expected_project_epoch,
                expected_project_dir@,
                viewed(candidate),
                plainly(postcondition),
            ),
    {
        let prepared = self.prepare_media_file_entry(candidate);
        if self.project_epoch != expected_project_epoch || !same_path(
            &self.editor.project_dir,
            Some(expected_project_dir),
        ) {
            return Err(media_error("project changed while saving media"));
        }
        match prepared {
            Err(e) => Err(e),
            Ok(e) => match postcondition {
                Err(f) => Err(f),
                Ok(()) => {
                    self.editor.add_media(e.copy());
                    self.tell_library();
                    Ok(e)
                },
            },
        }
    }

    fn add_library_file(&mut self, e: MediaManifestEntry, library_id: &str)
        ensures
            final(self)@ == with_library(
                old(self)@,
                all_marked(
                    with_entry(old(self)@.editor.state.manifest, e@),
                    MarkView::Global { id: e@.id, library_id: Some(library_id@) },
                ),
            ),
    {
        let id = e.id.clone();
        self.editor.add_media(e);
        crate::app_core::favorites::mark_all(
            &mut self.editor.state.manifest,
            &crate::app_core::favorites::Mark::Global {
                id,
                library_id: Some(String::from_str(library_id)),
            },
        );
    }

    fn import_library_file(
        &mut self,
        expected_project_epoch: u64,
        expected_project_dir: &str,
        candidate: Result<MediaManifestEntry, CoreError>,
        library_id: &str,
        saved: Result<(), CoreError>,
    ) -> (r: Result<MediaManifestEntry, CoreError>)
        ensures
            (viewed(r), final(self)@) == library_file_imported(
                old(self)@,
                expected_project_epoch,
                expected_project_dir@,
                viewed(candidate),
                library_id@,
                plainly(saved),
            ),
    {
        let prepared = self.prepare_media_file_entry(candidate);
        match self.ensure_project_identity(expected_project_epoch, expected_project_dir) {
            Ok(()) => {},
            Err(e) => return Err(e),
        }
        let e = match prepared {
            Ok(e) => e,
            Err(e) => return Err(e),
        };
        match saved {
            Ok(()) => {},
            Err(f) => return Err(f),
        }
        self.add_library_file(e.copy(), library_id);
        Ok(e)
    }

    /// Imports a file of the global library and writes the media library, with the
    /// events queued. `saved` is what that write came to.
    pub fn import_library_media_for_project_deferred(
        &mut self,
        expected_project_epoch: u64,
        expected_project_dir: &str,
        candidate: Result<MediaManifestEntry, CoreError>,
        library_id: &str,
        saved: Result<(), CoreError>,
        events: &mut DeferredCoreEvents,
    ) -> (r: Result<MediaManifestEntry, CoreError>)
        ensures
            ({
                let (done, next) = library_file_imported(
                    old(self)@,
                    expected_project_epoch,
                    expected_project_dir@,
                    viewed(candidate),
                    library_id@,
                    plainly(saved),
                );
                &&& viewed(r) == done
                &&& final(self)@ == next
                &&& final(events)@ == old(events)@ + written_events(
                    done,
                    next,
                    expected_project_dir@,
                )
            }),
    {
        assert(events@ + Seq::<CoreEventView>::empty() =~= events@);
        match self.import_library_file(
            expected_project_epoch,
            expected_project_dir,
            candidate,
            library_id,
            saved,
        ) {
            Ok(e) => {
                self.queue_written_library(expected_project_dir, events);
                Ok(e)
            },
            Err(e) => Err(e),
        }
    }

    /// Imports a file of the global library, writes the media library, and tells.
    pub fn import_library_media_for_project(
        &mut self,
        expected_project_epoch: u64,
        expected_project_dir: &str,
        candidate: Result<MediaManifestEntry, CoreError>,
        library_id: &str,
        saved: Result<(), CoreError>,
    ) -> (r: Result<MediaManifestEntry, CoreError>)
        ensures
            ({
                let (done, next) = library_file_imported(
                    old(self)@,
                    expected_project_epoch,
                    expected_project_dir@,
                    viewed(candidate),
                    library_id@,
                    plainly(saved),
                );
                &&& viewed(r) == done
                &&& final(self)@ == emitted(
                    next,
                    written_events(done, next, expected_project_dir@),
                )
            }),
    {
        assert(self@.outbox + Seq::<CoreEventView>::empty() =~= self@.outbox);
        match self.import_library_file(
            expected_project_epoch,
            expected_project_dir,
            candidate,
            library_id,
            saved,
        ) {
            Ok(e) => {
                self.tell_written_library(String::from_str(expected_project_dir));
                Ok(e)
            },
            Err(e) => Err(e),
        }
    }

    /// Imports a file of the global library through the caller's own writer, with
    /// the events queued. The three results are what the first write, the condition
    /// and writing the former library back came to.
    pub fn import_library_media_for_project_deferred_with_manifest_writer(
        &mut self,
        expected_project_epoch: u64,
        expected_project_dir: &str,
        candidate: Result<MediaManifestEntry, CoreError>,
        library_id: &str,
        first_write: Result<(), CoreError>,
        postcondition: Result<(), CoreError>,
        rollback: Result<(), CoreError>,
        events: &mut DeferredCoreEvents,
    ) -> (r: Result<CapabilityImportCommit, CoreError>)
        ensures
            ({
                let (done, next) = written_library_file_imported(
                    old(self)@,
                    expected_project_epoch,
                    expected_project_dir@,
                    viewed(candidate),
                    library_id@,
                    plainly(first_write),
                    plainly(postcondition),
                    plainly(rollback),
                );
                &&& viewed(r) == done
                &&& final(self)@ == next
                &&& final(events)@ == old(events)@ + written_events(
                    done,
                    next,
                    expected_project_dir@,
                )
            }),
    {
        assert(events@ + Seq::<CoreEventView>::empty() =~= events@);
        let ghost c = self@;
        let before = self.editor.state.manifest.copy();
        let entry = match self.import_library_file(
            expected_project_epoch,
            expected_project_dir,
            candidate,
            library_id,
            first_write,
        ) {
            Ok(e) => e,
            Err(e) => return Err(e),
        };
        let warning = match postcondition {
            Ok(()) => None,
            Err(failed) => match rollback {
                Ok(()) => {
                    self.editor.restore_media(before);
                    assert(self@.editor =~= c.editor);
                    return Err(failed);
                },
                Err(stuck) => Some(
                    ImportCommitWarning::PostconditionRollbackFailed {
                        postcondition: failed.message(),
                        rollback: stuck.message(),
                    },
                ),
            },
        };
        self.queue_written_library(expected_project_dir, events);
        Ok(CapabilityImportCommit { entry, warning })
    }

    fn add_retained(&mut self, e: MediaManifestEntry, folder_id: Option<&str>) -> (r: MediaManifestEntry)
        ensures
            ({
                let m = with_entry(old(self)@.editor.state.manifest, e@);
                match folder_id {
                    None => r@ == e@ && final(self)@ == with_library(old(self)@, m),
                    Some(f) => {
                        let i = media_index(m.entries, e@.id, 0)->0;
                        &&& r@ == (MediaManifestEntryView { folder_id: Some(f@), ..e@ })
                        &&& final(self)@ == with_library(
                            old(self)@,
                            entry_replaced(
                                m,
                                i,
                                MediaManifestEntryView { folder_id: Some(f@), ..m.entries[i] },
                            ),
                        )
                    },
                }
            }),
    {
        let ghost m = with_entry(self@.editor.state.manifest, e@);
        let mut r = e.copy();
        let id = e.id.clone();
        self.editor.add_media(e);
        match folder_id {
            None => {},
            Some(f) => {
                proof {
                    lemma_media_found(m.entries, id@, m.entries.len() - 1, 0);
                }
                match find_media(&self.editor.state.manifest, id.as_str()) {
                    Some(i) => {
                        self.editor.state.manifest.entries[i].folder_id = Some(String::from_str(f));
                        let ghost changed = MediaManifestEntryView {
                            folder_id: Some(f@),
                            ..m.entries[i as int]
                        };
                        assert(self@.editor.state.manifest.entries =~= m.entries.update(
                            i as int,
                            changed,
                        ));
                    },
                    None => {},
                }
                r.folder_id = Some(String::from_str(f));
            },
        }
        r
    }

    /// Imports a retained file through the caller's own writer, with the events
    /// queued. `postcondition` and `write` are what the condition and the write came
    /// to.
    pub fn import_retained_media_for_project_deferred_with_manifest_writer(
        &mut self,
        expected_project_epoch: u64,
        expected_project_dir: &str,
        candidate: Result<MediaManifestEntry, CoreError>,
        folder_id: Option<&str>,
        postcondition: Result<(), CoreError>,
        write: Result<(), CoreError>,
        events: &mut DeferredCoreEvents,
    ) -> (r: Result<CapabilityImportCommit, CoreError>)
        ensures
            ({
                let (done, next) = retained_imported(
                    old(self)@,
                    expected_project_epoch,
                    expected_project_dir@,
                    viewed(candidate),
                    crate::app_core::opt_str(folder_id),
                    plainly(postcondition),
                    plainly(write),
                );
                &&& viewed(r) == done
                &&& final(self)@ == next
                &&& final(events)@ == old(events)@ + written_events(
                    done,
                    next,
                    expected_project_dir@,
                )
            }),
    {
        assert(events@ + Seq::<CoreEventView>::empty() =~= events@);
        let prepared = self.prepare_media_file_entry(candidate);
        match self.ensure_project_identity(expected_project_epoch, expected_project_dir) {
            Ok(()) => {},
            Err(e) => return Err(e),
        }
        let e = match prepared {
            Ok(e) => e,
            Err(e) => return Err(e),
        };
        match folder_id {
            Some(f) => {
                if find_folder(&self.editor.state.manifest, f).is_none() {
                    return Err(CoreError::Media(cat2("folderId not found: ", f)));
                }
            },
            None => {},
        }
        match postcondition {
            Ok(()) => {},
            Err(e) => return Err(e),
        }
        match write {
            Ok(()) => {},
            Err(e) => return Err(e),
        }
        let entry = self.add_retained(e, folder_id);
        self.queue_written_library(expected_project_dir, events);
        Ok(CapabilityImportCommit { entry, warning: None })
    }

    fn replace_entry(&mut self, i: usize, e: MediaManifestEntry)
        requires
            i < old(self).editor.state.manifest.entries@.len(),
        ensures
            final(self)@ == with_library(
                old(self)@,
                entry_replaced(old(self)@.editor.state.manifest, i as int, e@),
            ),
    {
        let ghost m = self@.editor.state.manifest;
        self.editor.state.manifest.entries.set(i, e);
        assert(self@.editor.state.manifest.entries =~= m.entries.update(i as int, e@));
    }

    /// Sets or clears the playback proxy of a medium and writes the media library.
    /// `saved` is what that write came to.
    pub fn set_media_proxy_for_project(
        &mut self,
        expected_project_epoch: u64,
        expected_project_dir: &str,
        asset_id: &str,
        proxy: Option<String>,
        saved: Result<String, CoreError>,
    ) -> (r: Result<MediaManifestEntry, CoreError>)
        ensures
            (viewed(r), final(self)@) == proxy_set(
                old(self)@,
                expected_project_epoch,
                expected_project_dir@,
                asset_id@,
                opt_text(proxy),
                viewed(saved),
            ),
    {
        match self.ensure_project_identity(expected_project_epoch, expected_project_dir) {
            Ok(()) => {},
            Err(e) => return Err(e),
        }
        let i = match find_media(&self.editor.state.manifest, asset_id) {
            Some(i) => i,
            None => return Err(CoreError::Media(cat2("Media asset not found: ", asset_id))),
        };
        let path = match saved {
            Ok(path) => path,
            Err(e) => return Err(e),
        };
        let mut e = self.editor.state.manifest.entries[i].copy();
        e.proxy = proxy;
        self.replace_entry(i, e.copy());
        self.tell_written_library(path);
        Ok(e)
    }

    /// Records that the media library was written, with the event queued. `saved` is
    /// what writing it came to.
    pub fn save_media_manifest_for_project_deferred(
        &mut self,
        expected_project_epoch: u64,
        expected_project_dir: &str,
        saved: Result<String, CoreError>,
        events: &mut DeferredCoreEvents,
    ) -> (r: Result<String, CoreError>)
        ensures
            final(self)@ == old(self)@,
            viewed(r) == (match identity_fault(
                old(self)@,
                expected_project_epoch,
                expected_project_dir@,
            ) {
                Some(f) => Err(f),
                None => viewed(saved),
            }),
            final(events)@ == (match r {
                Ok(path) => old(events)@.push(
                    CoreEventView::ProjectSaved {
                        path: path@,
                        project_epoch: expected_project_epoch,
                    },
                ),
                Err(_) => old(events)@,
            }),
    {
        match self.ensure_project_identity(expected_project_epoch, expected_project_dir) {
            Ok(()) => {},
            Err(e) => return Err(e),
        }
        match saved {
            Err(e) => Err(e),
            Ok(path) => {
                events.push(
                    CoreEvent::ProjectSaved {
                        path: path.clone(),
                        project_epoch: expected_project_epoch,
                    },
                );
                Ok(path)
            },
        }
    }

    /// Records that the media library was written, and tells.
    pub fn save_media_manifest_for_project(
        &mut self,
        expected_project_epoch: u64,
        expected_project_dir: &str,
        saved: Result<String, CoreError>,
    ) -> (r: Result<String, CoreError>)
        ensures
            viewed(r) == (match identity_fault(
                old(self)@,
                expected_project_epoch,
                expected_project_dir@,
            ) {
                Some(f) => Err(f),
                None => viewed(saved),
            }),
            final(self)@ == (match r {
                Ok(path) => emitted(
                    old(self)@,
                    seq![
                        CoreEventView::ProjectSaved {
                            path: path@,
                            project_epoch: expected_project_epoch,
                        },
                    ],
                ),
                Err(_) => old(self)@,
            }),
    {
        let mut events = DeferredCoreEvents::default();
        match self.save_media_manifest_for_project_deferred(
            expected_project_epoch,
            expected_project_dir,
            saved,
            &mut events,
        ) {
            Ok(path) => {
                assert(events@ =~= seq![
                    CoreEventView::ProjectSaved {
                        path: path@,
                        project_epoch: expected_project_epoch,
                    },
                ]);
                self.emit_deferred(events);
                Ok(path)
            },
            Err(e) => Err(e),
        }
    }

    /// Puts a former media library back and writes it; what was queued is dropped.
    /// Where the write fails, the former library stays in place in memory and the
    /// queue stays. `saved` is what the write came to.
    pub fn restore_media_manifest_for_project_deferred(
        &mut self,
        expected_project_epoch: u64,
        expected_project_dir: &str,
        manifest: MediaManifest,
        saved: Result<(), CoreError>,
        events: &mut DeferredCoreEvents,
    ) -> (r: Result<(), CoreError>)
        ensures
            ({
                let stale = identity_fault(
                    old(self)@,
                    expected_project_epoch,
                    expected_project_dir@,
                );
                &&& plainly(r) == (match stale {
                    Some(f) => Err(f),
                    None => plainly(saved),
                })
                &&& final(self)@ == (if stale is Some {
                    old(self)@
                } else {
                    with_library(old(self)@, manifest@)
                })
                &&& final(events)@ == (if r is Ok {
                    Seq::empty()
                } else {
                    old(events)@
                })
            }),
    {
        match self.ensure_project_identity(expected_project_epoch, expected_project_dir) {
            Ok(()) => {},
            Err(e) => return Err(e),
        }
        self.editor.restore_media(manifest);
        match saved {
            Ok(()) => {},
            Err(e) => return Err(e),
        }
        events.clear();
        Ok(())
    }

    /// Puts a former media library back and writes it through the caller's own
    /// writer. Where the write fails, the library is as it was.
    pub fn restore_media_manifest_for_project_deferred_with_manifest_writer(
        &mut self,
        expected_project_epoch: u64,
        expected_project_dir: &str,
        manifest: MediaManifest,
        events: &mut DeferredCoreEvents,
        write: Result<(), CoreError>,
    ) -> (r: Result<(), CoreError>)
        ensures
            plainly(r) == (match identity_fault(
                old(self)@,
                expected_project_epoch,
                expected_project_dir@,
            ) {
                Some(f) => Err(f),
                None => plainly(write),
            }),
            final(self)@ == (if r is Ok {
                with_library(old(self)@, manifest@)
            } else {
                old(self)@
            }),
            final(events)@ == (if r is Ok {
                Seq::empty()
            } else {
                old(events)@
            }),
    {
        match self.ensure_project_identity(expected_project_epoch, expected_project_dir) {
            Ok(()) => {},
            Err(e) => return Err(e),
        }
        match write {
            Ok(()) => {},
            Err(e) => return Err(e),
        }
        self.editor.restore_media(manifest);
        events.clear();
        Ok(())
    }

    /// Links a medium to another file under its old id, so that its clips heal in
    /// place. `relinked` is what the new file made of the medium, `saved` what
    /// writing the media library came to.
    pub fn relink_media_file(
        &mut self,
        asset_id: &str,
        relinked: Result<MediaManifestEntry, CoreError>,
        saved: Result<String, CoreError>,
    ) -> (r: Result<MediaManifestEntry, CoreError>)
        ensures
            (viewed(r), final(self)@) == relinked_to(
                old(self)@,
                asset_id@,
                viewed(relinked),
                viewed(saved),
            ),
    {
        let i = match find_media(&self.editor.state.manifest, asset_id) {
            Some(i) => i,
            None => return Err(CoreError::Media(cat2("Media asset not found: ", asset_id))),
        };
        let mut e = match relinked {
            Ok(e) => e,
            Err(e) => return Err(e),
        };
        e.id = String::from_str(asset_id);
        if self.editor.project_dir.is_none() {
            self.replace_entry(i, e.copy());
            self.tell_library();
            return Ok(e);
        }
        match saved {
            Err(f) => Err(f),
            Ok(path) => {
                self.replace_entry(i, e.copy());
                self.tell_written_library(path);
                Ok(e)
            },
        }
    }
}

/// A medium that is in the list is found.
pub proof fn lemma_media_found(
    entries: Seq<MediaManifestEntryView>,
    id: Seq<char>,
    at: int,
    from: int,
)
    requires
        0 <= from <= at < entries.len(),
        entries[at].id == id,
    ensures
        media_index(entries, id, from) is Some,
    decreases at - from,
{
    if from < at {
        lemma_media_found(entries, id, at, from + 1);
    }
}

/// A failed import leaves the media library, the document and the history as they
/// were, and tells nothing: all that moved is the id generator.
pub proof fn law_failed_import_leaves_nothing(
    c: CoreView,
    epoch: u64,
    dir: Seq<char>,
    candidate: Result<MediaManifestEntryView, CoreFault>,
    postcondition: Result<(), CoreFault>,
)
    requires
        imported_for_project(c, epoch, dir, candidate, postcondition).0 is Err,
    ensures
        imported_for_project(c, epoch, dir, candidate, postcondition).1 == minted(c),
{
}

/// Importing moves neither the document's version nor its history.
pub proof fn law_imports_leave_the_version(
    c: CoreView,
    candidate: Result<MediaManifestEntryView, CoreFault>,
)
    ensures
        ({
            let next = imported(c, candidate).1.editor.state;
            &&& next.version == c.editor.state.version
            &&& next.timeline == c.editor.state.timeline
            &&& next.undo_stack == c.editor.state.undo_stack
            &&& next.redo_stack == c.editor.state.redo_stack
        }),
{
}

/// Work for a project that has been replaced does nothing to the one in its place.
pub proof fn law_stale_library_work_changes_nothing(
    c: CoreView,
    epoch: u64,
    dir: Seq<char>,
    candidate: Result<MediaManifestEntryView, CoreFault>,
    library_id: Seq<char>,
    folder_id: Option<Seq<char>>,
    write: Result<(), CoreFault>,
    postcondition: Result<(), CoreFault>,
    rollback: Result<(), CoreFault>,
    id: Seq<char>,
    proxy: Option<Seq<char>>,
    saved: Result<Seq<char>, CoreFault>,
)
    requires
        c.project_epoch != epoch || !same_opt_place(c.editor.project_dir, Some(dir)),
    ensures
        imported_for_project(c, epoch, dir, candidate, postcondition).1 == minted(c),
        library_file_imported(c, epoch, dir, candidate, library_id, write).1 == minted(c),
        written_library_file_imported(
            c,
            epoch,
            dir,
            candidate,
            library_id,
            write,
            postcondition,
            rollback,
        ).1 == minted(c),
        retained_imported(c, epoch, dir, candidate, folder_id, postcondition, write).1 == minted(
            c,
        ),
        proxy_set(c, epoch, dir, id, proxy, saved).1 == c,
{
}

} // verus!
