//! What happens to a project around its edits: imports, marks, generated media, saving,
//! and what is told of it.

use crate::app_core::CoreView;
use crate::app_core::OwnedUndoView;
use crate::app_core::ProjectRevision;
use crate::app_core::asset_authority;
use crate::app_core::edit_events;
use crate::app_core::favorites::MarkView;
use crate::app_core::favorites::changed_by;
use crate::app_core::favorites::mark_set;
use crate::app_core::generated::GeneratedFile;
use crate::app_core::generated::PlacementView;
use crate::app_core::generated::commit_fault;
use crate::app_core::generated::first_free;
use crate::app_core::generated::generated_clip;
use crate::app_core::generated::generated_committed;
use crate::app_core::generated::generated_media;
use crate::app_core::generated::law_registered_id_is_free;
use crate::app_core::generation::GenerationView;
use crate::app_core::generation::generation_changed;
use crate::app_core::imports::imported;
use crate::app_core::imports::imported_for_project;
use crate::app_core::imports::library_file_imported;
use crate::app_core::imports::proxy_set;
use crate::app_core::imports::relinked_to;
use crate::app_core::imports::retained_imported;
use crate::app_core::imports::written_library_file_imported;
use crate::app_core::lifecycle::project_saved;
use crate::app_core::lifecycle::replaced;
use crate::app_core::owned_undo;
use crate::app_core::persisted_edit;
use crate::app_core::revision;
use crate::app_core::runtime;
use crate::app_core::timeline_snapshot;
use crate::app_core::told_edit;
use crate::command::EditCommand;
use crate::command::Outside;
use crate::commands::library::folder_index;
use crate::edit::EditResultView;
use crate::events::CoreEventView;
use crate::events::CoreFault;
use crate::ids::COUNTER_SPAN;
use crate::ids::IdsView;
use crate::ids::ids_after;
use crate::ids::nth_id;
use crate::laws::document::first_entry;
use crate::laws::document::has_clip;
use crate::laws::document::has_entry;
use crate::laws::document::law_media_are_found_by_id;
use crate::laws::registering::law_registered_media_come_with_their_clip;
use crate::laws::registering::lemma_registered_swap;
use crate::laws::registering::may_register;
use crate::locate::media_entry;
use crate::locate::media_index;
use crate::model::MediaManifestEntryView;
use crate::model::MediaManifestView;
use crate::paths::directly_in;
use crate::paths::same_opt_place;
use crate::paths::same_place;
use crate::session::SessionView;
use crate::text::opt_text;
use vstd::prelude::*;

verus! {

/// What has been told is never taken back: events come behind those before them.
pub open spec fn tells(c: CoreView, next: CoreView, events: Seq<CoreEventView>) -> bool {
    next.outbox.len() == c.outbox.len() + events.len() && (forall|i: int|
        0 <= i < c.outbox.len() ==> #[trigger] next.outbox[i] == c.outbox[i]) && (forall|i: int|
        0 <= i < events.len() ==> next.outbox[c.outbox.len() + i] == #[trigger] events[i])
}

/// Whether only the library differs, and what has been told and the ids.
pub open spec fn library_alone(c: CoreView, next: CoreView) -> bool {
    &&& next.project_epoch == c.project_epoch
    &&& next.editor.project_dir == c.editor.project_dir
    &&& next.editor.root_identity == c.editor.root_identity
    &&& next.editor.read_only == c.editor.read_only
    &&& next.editor.generation_log == c.editor.generation_log
    &&& next.editor.state.timeline == c.editor.state.timeline
    &&& next.editor.state.undo_stack == c.editor.state.undo_stack
    &&& next.editor.state.redo_stack == c.editor.state.redo_stack
    &&& next.editor.state.version == c.editor.state.version
    &&& next.editor.state.manifest.folders == c.editor.state.manifest.folders
}

/// Whether a library is another with one entry more, at the end.
pub open spec fn one_entry_more(
    m: MediaManifestView,
    next: MediaManifestView,
    e: MediaManifestEntryView,
) -> bool {
    next.entries.len() == m.entries.len() + 1 && next.entries.last() == e && forall|i: int|
        0 <= i < m.entries.len() ==> #[trigger] next.entries[i] == m.entries[i]
}

/// Whether the library is another but for one entry.
pub open spec fn one_entry_changed(
    m: MediaManifestView,
    next: MediaManifestView,
    at: int,
    e: MediaManifestEntryView,
) -> bool {
    next.entries.len() == m.entries.len() && next.entries[at] == e && forall|i: int|
        0 <= i < m.entries.len() && i != at ==> #[trigger] next.entries[i] == m.entries[i]
}

/// Whether a project is the one that work was begun on.
pub open spec fn still_open(c: CoreView, epoch: u64, dir: Seq<char>) -> bool {
    c.project_epoch == epoch && c.editor.project_dir is Some && same_place(
        c.editor.project_dir->0,
        dir,
    )
}

/// A file that is imported stands behind the library's own under the next id, and is told
/// of with the new size of the library; one that could not be read changes nothing.
pub proof fn law_imports_stand_behind_the_library(
    c: CoreView,
    candidate: Result<MediaManifestEntryView, CoreFault>,
)
    ensures
        ({
            let (r, next) = imported(c, candidate);
            &&& r is Ok <==> candidate is Ok
            &&& library_alone(c, next)
            &&& candidate matches Err(f) ==> r == Err::<MediaManifestEntryView, CoreFault>(f)
                && next.editor == c.editor && next.outbox == c.outbox
            &&& candidate matches Ok(e) ==> {
                let entry = MediaManifestEntryView { id: nth_id(c.ids, 1), ..e };
                &&& r == Ok::<MediaManifestEntryView, CoreFault>(entry)
                &&& one_entry_more(c.editor.state.manifest, next.editor.state.manifest, entry)
                &&& tells(
                    c,
                    next,
                    seq![
                        CoreEventView::MediaChanged {
                            project_epoch: c.project_epoch,
                            count: c.editor.state.manifest.entries.len() as int + 1,
                        },
                    ],
                )
            }
        }),
{
}

/// A file imported for a project that is no longer open, or that fails what is to hold
/// after it, changes nothing but the ids; otherwise it is imported as any file.
pub proof fn law_imports_are_for_their_project(
    c: CoreView,
    epoch: u64,
    dir: Seq<char>,
    candidate: Result<MediaManifestEntryView, CoreFault>,
    postcondition: Result<(), CoreFault>,
)
    ensures
        ({
            let (r, next) = imported_for_project(c, epoch, dir, candidate, postcondition);
            &&& r is Ok <==> still_open(c, epoch, dir) && candidate is Ok && postcondition is Ok
            &&& r is Err ==> next.editor == c.editor && next.outbox == c.outbox
                && next.project_epoch == c.project_epoch
            &&& r is Ok ==> (r, next) == imported(c, candidate)
        }),
{
}

/// A file imported from the shared library carries the library's id for it in the project.
pub proof fn law_shared_files_carry_their_mark(
    c: CoreView,
    epoch: u64,
    dir: Seq<char>,
    candidate: Result<MediaManifestEntryView, CoreFault>,
    library_id: Seq<char>,
    saved: Result<(), CoreFault>,
)
    requires
        candidate is Ok,
        !has_entry(c.editor.state.manifest, nth_id(c.ids, 1)),
    ensures
        ({
            let (r, next) = library_file_imported(c, epoch, dir, candidate, library_id, saved);
            let entry = MediaManifestEntryView { id: nth_id(c.ids, 1), ..candidate->Ok_0 };
            &&& r is Ok <==> still_open(c, epoch, dir) && saved is Ok
            &&& r is Err ==> next.editor == c.editor && next.outbox == c.outbox
            &&& library_alone(c, next)
            &&& r is Ok ==> r->Ok_0 == entry && one_entry_more(
                c.editor.state.manifest,
                next.editor.state.manifest,
                MediaManifestEntryView { global_favorite_id: Some(library_id), ..entry },
            )
        }),
{
    let (r, next) = library_file_imported(c, epoch, dir, candidate, library_id, saved);
    let m = c.editor.state.manifest;
    if r is Ok {
        assert forall|i: int| 0 <= i < m.entries.len() implies (
        #[trigger] next.editor.state.manifest.entries[i]) == m.entries[i] by {
            assert(m.entries[i].id != nth_id(c.ids, 1));
        }
    }
}

/// A shared file's import stands once written, is taken back where what is to hold after it
/// fails, and stands with a warning of both failures where it cannot be taken back.
pub proof fn law_written_imports_are_taken_back(
    c: CoreView,
    epoch: u64,
    dir: Seq<char>,
    candidate: Result<MediaManifestEntryView, CoreFault>,
    library_id: Seq<char>,
    first_write: Result<(), CoreFault>,
    postcondition: Result<(), CoreFault>,
    rollback: Result<(), CoreFault>,
)
    ensures
        ({
            let (q, kept) = library_file_imported(
                c,
                epoch,
                dir,
                candidate,
                library_id,
                first_write,
            );
            let (r, next) = written_library_file_imported(
                c,
                epoch,
                dir,
                candidate,
                library_id,
                first_write,
                postcondition,
                rollback,
            );
            &&& r is Ok <==> q is Ok && (postcondition is Ok || rollback is Err)
            &&& r is Ok ==> next == kept && r->Ok_0.entry == q->Ok_0
            &&& r is Ok ==> (r->Ok_0.warning is None <==> postcondition is Ok)
            &&& r is Err ==> next.editor == c.editor && next.outbox == c.outbox
            &&& q is Ok && r is Err ==> r->Err_0 == postcondition->Err_0
        }),
{
}

/// A retained file is imported into a folder that is there, or into none.
pub proof fn law_retained_files_go_into_their_folder(
    c: CoreView,
    epoch: u64,
    dir: Seq<char>,
    candidate: Result<MediaManifestEntryView, CoreFault>,
    folder_id: Option<Seq<char>>,
    postcondition: Result<(), CoreFault>,
    write: Result<(), CoreFault>,
)
    requires
        candidate is Ok,
        !has_entry(c.editor.state.manifest, nth_id(c.ids, 1)),
    ensures
        ({
            let (r, next) = retained_imported(
                c,
                epoch,
                dir,
                candidate,
                folder_id,
                postcondition,
                write,
            );
            let e = candidate->Ok_0;
            let entry = MediaManifestEntryView {
                id: nth_id(c.ids, 1),
                folder_id: if folder_id is Some {
                    folder_id
                } else {
                    e.folder_id
                },
                ..e
            };
            &&& r is Err ==> next.editor == c.editor && next.outbox == c.outbox
            &&& r is Ok ==> {
                &&& still_open(c, epoch, dir)
                &&& postcondition is Ok
                &&& write is Ok
                &&& folder_id is Some ==> exists|k: int|
                    0 <= k < c.editor.state.manifest.folders.len() && (
                    #[trigger] c.editor.state.manifest.folders[k]).id == folder_id->0
                &&& r->Ok_0.entry == entry
                &&& r->Ok_0.warning is None
                &&& library_alone(c, next)
                &&& one_entry_more(c.editor.state.manifest, next.editor.state.manifest, entry)
            }
        }),
{
    let m = c.editor.state.manifest;
    let e = MediaManifestEntryView { id: nth_id(c.ids, 1), ..candidate->Ok_0 };
    let with = MediaManifestView { entries: m.entries.push(e), ..m };
    assert(with.entries[m.entries.len() as int] == e);
    assert(first_entry(with, e.id, m.entries.len() as int)) by {
        assert forall|j: int| 0 <= j < m.entries.len() implies (#[trigger] with.entries[j]).id
            != e.id by {
            assert(m.entries[j].id != e.id);
        }
    }
    law_media_are_found_by_id(with, e.id, m.entries.len() as int);
    if folder_id is Some {
        lemma_folder_there(m, folder_id->0, 0);
    }
}

proof fn lemma_folder_there(m: MediaManifestView, id: Seq<char>, from: int)
    requires
        0 <= from,
    ensures
        folder_index(m.folders, id, from) is Some ==> exists|k: int|
            0 <= k < m.folders.len() && (#[trigger] m.folders[k]).id == id,
    decreases m.folders.len() - from,
{
    if from < m.folders.len() && m.folders[from].id != id {
        lemma_folder_there(m, id, from + 1);
    }
}

/// A proxy is set on the first entry with the id, and on nothing else; it is told of and
/// the project saved, or nothing changes.
pub proof fn law_proxies_are_set(
    c: CoreView,
    epoch: u64,
    dir: Seq<char>,
    id: Seq<char>,
    proxy: Option<Seq<char>>,
    saved: Result<Seq<char>, CoreFault>,
    i: int,
)
    ensures
        ({
            let (r, next) = proxy_set(c, epoch, dir, id, proxy, saved);
            let m = c.editor.state.manifest;
            &&& r is Err ==> next == c
            &&& r is Ok <==> still_open(c, epoch, dir) && has_entry(m, id) && saved is Ok
            &&& r is Ok && first_entry(m, id, i) ==> {
                let e = MediaManifestEntryView { proxy, ..m.entries[i] };
                &&& r->Ok_0 == e
                &&& library_alone(c, next)
                &&& next.ids == c.ids
                &&& one_entry_changed(m, next.editor.state.manifest, i, e)
                &&& tells(
                    c,
                    next,
                    seq![
                        CoreEventView::MediaChanged {
                            project_epoch: c.project_epoch,
                            count: m.entries.len() as int,
                        },
                        CoreEventView::ProjectSaved {
                            path: saved->Ok_0,
                            project_epoch: c.project_epoch,
                        },
                    ],
                )
            }
        }),
{
    law_media_are_found_by_id(c.editor.state.manifest, id, i);
}

/// A media entry that is linked to another file keeps its id and its place; a project that
/// has a place is saved, or nothing changes.
pub proof fn law_relinked_media_keep_their_id(
    c: CoreView,
    id: Seq<char>,
    relinked: Result<MediaManifestEntryView, CoreFault>,
    saved: Result<Seq<char>, CoreFault>,
    i: int,
)
    ensures
        ({
            let (r, next) = relinked_to(c, id, relinked, saved);
            let m = c.editor.state.manifest;
            &&& r is Err ==> next == c
            &&& r is Ok <==> has_entry(m, id) && relinked is Ok && (c.editor.project_dir is None
                || saved is Ok)
            &&& r is Ok && first_entry(m, id, i) ==> {
                let e = MediaManifestEntryView { id, ..relinked->Ok_0 };
                let told = CoreEventView::MediaChanged {
                    project_epoch: c.project_epoch,
                    count: m.entries.len() as int,
                };
                &&& r->Ok_0 == e
                &&& library_alone(c, next)
                &&& one_entry_changed(m, next.editor.state.manifest, i, e)
                &&& c.editor.project_dir is None ==> tells(c, next, seq![told])
                &&& c.editor.project_dir is Some ==> tells(
                    c,
                    next,
                    seq![
                        told,
                        CoreEventView::ProjectSaved {
                            path: saved->Ok_0,
                            project_epoch: c.project_epoch,
                        },
                    ],
                )
            }
        }),
{
    law_media_are_found_by_id(c.editor.state.manifest, id, i);
}

/// What a mark makes of an entry: a favourite is marked on the entries named, a shared id on
/// the one named, and forgetting a shared id takes it off wherever it stands. Nothing else
/// of an entry changes.
pub proof fn law_marks_change_what_they_name(
    c: CoreView,
    mark: MarkView,
    refusal: Option<CoreFault>,
    i: int,
)
    requires
        0 <= i < c.editor.state.manifest.entries.len(),
    ensures
        ({
            let (r, next) = mark_set(c, mark, refusal);
            let e = c.editor.state.manifest.entries[i];
            let f = next.editor.state.manifest.entries[i];
            &&& r is Ok <==> refusal is None
            &&& r is Err ==> next == c
            &&& library_alone(c, next)
            &&& next.outbox == c.outbox
            &&& next.ids == c.ids
            &&& next.editor.state.manifest.entries.len() == c.editor.state.manifest.entries.len()
            &&& f == (MediaManifestEntryView {
                favorite: f.favorite,
                global_favorite_id: f.global_favorite_id,
                ..e
            })
            &&& r is Ok ==> match mark {
                MarkView::Favorite { ids, favorite } => {
                    &&& f.favorite == if ids.contains(e.id) {
                        favorite
                    } else {
                        e.favorite
                    }
                    &&& f.global_favorite_id == e.global_favorite_id
                },
                MarkView::Global { id, library_id } => {
                    &&& f.favorite == e.favorite
                    &&& f.global_favorite_id == if e.id == id {
                        library_id
                    } else {
                        e.global_favorite_id
                    }
                },
                MarkView::Forget { library_id } => {
                    &&& f.favorite == e.favorite
                    &&& f.global_favorite_id == if e.global_favorite_id == Some(library_id) {
                        None
                    } else {
                        e.global_favorite_id
                    }
                },
            }
        }),
{
}

/// Whether a mark changes an entry.
pub open spec fn changes(c: CoreView, mark: MarkView, i: int) -> bool {
    mark_set(c, mark, None).1.editor.state.manifest.entries[i]
        != c.editor.state.manifest.entries[i]
}

/// How many entries a mark changes is how many it is said to.
pub proof fn law_marks_are_counted(c: CoreView, mark: MarkView)
    ensures
        ({
            let n = c.editor.state.manifest.entries.len();
            mark_set(c, mark, None).0 == Ok::<int, CoreFault>(
                Seq::new(n, |i: int| i).filter(|i: int| changes(c, mark, i)).len() as int,
            )
        }),
{
    let n = c.editor.state.manifest.entries.len() as int;
    lemma_marks_counted(c, mark, n);
}

proof fn lemma_marks_counted(c: CoreView, mark: MarkView, n: int)
    requires
        0 <= n <= c.editor.state.manifest.entries.len(),
    ensures
        changed_by(c.editor.state.manifest.entries, mark, n) == Seq::new(
            n as nat,
            |i: int| i,
        ).filter(|i: int| changes(c, mark, i)).len(),
    decreases n,
{
    reveal(Seq::filter);
    let all = Seq::new(n as nat, |i: int| i);
    if n > 0 {
        lemma_marks_counted(c, mark, n - 1);
        assert(all.drop_last() =~= Seq::new((n - 1) as nat, |i: int| i));
        assert(all.last() == n - 1);
    }
}

/// A project that takes another's place has the next epoch and is told of with its version.
pub proof fn law_replacements_are_told(c: CoreView, editor: SessionView, path: Seq<char>)
    requires
        c.project_epoch < u64::MAX,
    ensures
        ({
            let next = replaced(c, editor, path);
            &&& next.project_epoch == c.project_epoch + 1
            &&& next.editor == editor
            &&& next.ids == c.ids
            &&& tells(
                c,
                next,
                seq![
                    CoreEventView::ProjectOpened {
                        path,
                        project_epoch: next.project_epoch,
                        version: editor.state.version,
                    },
                ],
            )
        }),
{
}

/// A save goes ahead exactly for the project it was meant for and where it was not called
/// off. Once written, the project stands where it was written; nothing else of it changes.
pub proof fn law_saves_are_for_their_project(
    c: CoreView,
    bound_to: Option<(u64, Option<Seq<char>>)>,
    can_commit: bool,
    saved: Result<(Seq<char>, Option<Seq<char>>), CoreFault>,
)
    ensures
        ({
            let (r, next) = project_saved(c, bound_to, can_commit, saved);
            &&& r is Ok <==> saved is Ok && can_commit && (bound_to is None || (c.project_epoch
                == (bound_to->0).0 && same_opt_place(c.editor.project_dir, (bound_to->0).1)))
            &&& r is Err ==> next == c
            &&& r is Ok ==> {
                &&& r->Ok_0 == (saved->Ok_0).0
                &&& next.editor.project_dir == Some((saved->Ok_0).0)
                &&& next.editor.root_identity == (saved->Ok_0).1
                &&& next.editor.read_only == c.editor.read_only
                &&& next.editor.generation_log == c.editor.generation_log
                &&& next.editor.state == c.editor.state
                &&& next.project_epoch == c.project_epoch
                &&& next.ids == c.ids
                &&& tells(
                    c,
                    next,
                    seq![
                        CoreEventView::ProjectSaved {
                            path: (saved->Ok_0).0,
                            project_epoch: c.project_epoch,
                        },
                    ],
                )
            }
        }),
{
}

/// Generation changes the library and the log as it says and is told of, or changes nothing.
pub proof fn law_generation_changes_library_and_log<T>(
    c: CoreView,
    epoch: u64,
    dir: Seq<char>,
    change: Result<(GenerationView, T), CoreFault>,
    written: Result<Seq<char>, CoreFault>,
)
    ensures
        ({
            let (r, next) = generation_changed(c, epoch, dir, change, written);
            &&& r is Ok <==> still_open(c, epoch, dir) && change is Ok && written is Ok
            &&& r is Err ==> next == c
            &&& r is Ok ==> {
                let g = (change->Ok_0).0;
                &&& r->Ok_0 == (change->Ok_0).1
                &&& next.editor.state.manifest == g.media
                &&& next.editor.generation_log == g.log
                &&& next.editor.state.timeline == c.editor.state.timeline
                &&& next.editor.state.undo_stack == c.editor.state.undo_stack
                &&& next.editor.state.redo_stack == c.editor.state.redo_stack
                &&& next.editor.state.version == c.editor.state.version
                &&& next.editor.project_dir == c.editor.project_dir
                &&& next.editor.root_identity == c.editor.root_identity
                &&& next.editor.read_only == c.editor.read_only
                &&& next.project_epoch == c.project_epoch
                &&& tells(
                    c,
                    next,
                    seq![
                        CoreEventView::MediaChanged {
                            project_epoch: c.project_epoch,
                            count: g.media.entries.len() as int,
                        },
                        CoreEventView::ProjectSaved {
                            path: written->Ok_0,
                            project_epoch: c.project_epoch,
                        },
                    ],
                )
            }
        }),
{
}

proof fn lemma_first_free(ids: IdsView, m: MediaManifestView, k: int)
    ensures
        ({
            let n = first_free(ids, m.entries, k);
            &&& n >= k
            &&& forall|j: int| k <= j < n ==> has_entry(m, #[trigger] nth_id(ids, j))
        }),
    decreases m.entries.len() + 1 - k,
{
    law_media_are_found_by_id(m, nth_id(ids, k), 0);
    assert(media_entry(m, nth_id(ids, k)) is Some <==> media_index(
        m.entries,
        nth_id(ids, k),
        0,
    ) is Some);
    if k <= m.entries.len() && media_index(m.entries, nth_id(ids, k), 0) is Some {
        lemma_first_free(ids, m, k + 1);
    }
}

/// Generated media get the first id that the library does not have.
pub proof fn law_generated_media_get_the_first_free_id(ids: IdsView, m: MediaManifestView)
    requires
        m.entries.len() + 1 <= COUNTER_SPAN,
    ensures
        ({
            let n = first_free(ids, m.entries, 1);
            &&& n >= 1
            &&& !has_entry(m, nth_id(ids, n))
            &&& forall|j: int| 1 <= j < n ==> has_entry(m, #[trigger] nth_id(ids, j))
        }),
{
    lemma_first_free(ids, m, 1);
    let n = first_free(ids, m.entries, 1);
    law_registered_id_is_free(ids, m.entries);
    law_media_are_found_by_id(m, nth_id(ids, n), 0);
    assert(media_entry(m, nth_id(ids, n)) is Some <==> media_index(
        m.entries,
        nth_id(ids, n),
        0,
    ) is Some);
}

/// Generated media are described by what was read of the file; the clip that shows them
/// stands where it is asked for, untrimmed, on the track asked for or the first.
pub proof fn law_generated_files_are_described(
    f: GeneratedFile,
    id: Seq<char>,
    start_frame: i32,
    duration_frames: i32,
    track_index: Option<usize>,
)
    ensures
        ({
            let e = generated_media(f, id);
            &&& e.id == id
            &&& e.name == f.name@
            &&& e.kind == f.kind
            &&& e.source == f.source@
            &&& e.duration == f.probe.duration_secs
            &&& e.source_width == f.probe.width
            &&& e.source_height == f.probe.height
            &&& e.source_fps == f.probe.fps
            &&& e.has_audio == Some(f.probe.has_audio)
            &&& e.generation_input == Some(f.provenance@)
            &&& e.folder_id is None
            &&& !e.favorite
            &&& e.global_favorite_id is None
            &&& e.proxy is None
        }),
        ({
            let c = generated_clip(f, id, start_frame, duration_frames, track_index);
            &&& c.media_ref == id
            &&& c.media_type == f.kind
            &&& c.source_clip_type == f.kind
            &&& track_index matches Some(t) ==> c.track_index == t
            &&& track_index is None ==> c.track_index == 0
            &&& c.start_frame == start_frame
            &&& c.duration_frames == duration_frames
            &&& c.trim_start_frame is None
            &&& c.trim_end_frame is None
            &&& c.has_audio == f.probe.has_audio
            &&& !c.add_linked_audio
            &&& c.transform is None
        }),
{
}

/// A generated file is put in exactly where it is a regular file directly in the media
/// directory of the project that is still open, at the version it was made for, and the
/// project may be written.
pub proof fn law_generated_files_are_checked(
    c: CoreView,
    epoch: u64,
    version: u64,
    dir: Seq<char>,
    path: Seq<char>,
    regular: Result<bool, Seq<char>>,
)
    ensures
        commit_fault(c, epoch, version, dir, path, regular) is None <==> directly_in(
            path,
            dir,
            "media"@,
        ) && regular == Ok::<bool, Seq<char>>(true) && still_open(c, epoch, dir)
            && c.editor.state.version == version && c.editor.read_only is None,
{
}

/// What is read of a project at once belongs together.
pub proof fn law_snapshots_are_of_one_moment(c: CoreView)
    ensures
        ({
            let t = timeline_snapshot(c);
            let r = runtime(c);
            &&& t.timeline == c.editor.state.timeline
            &&& t.version == c.editor.state.version
            &&& t.project_epoch == c.project_epoch
            &&& t.project_path == c.editor.project_dir
            &&& t.compatibility == c.editor.read_only
            &&& r.timeline == t.timeline
            &&& r.media == c.editor.state.manifest
            &&& r.version == t.version
            &&& r.project_epoch == t.project_epoch
            &&& r.project_dir == t.project_path
            &&& revision(c).project_epoch == t.project_epoch
            &&& revision(c).version == t.version
        }),
        asset_authority(c) is Some <==> c.editor.project_dir is Some && c.editor.root_identity
            is Some,
        asset_authority(c) matches Some(a) ==> a.project_epoch == c.project_epoch && Some(
            a.project_path,
        ) == c.editor.project_dir && Some(a.root_identity) == c.editor.root_identity,
{
}

/// An edit is told of as a change of the timeline where anything changed, and as a change
/// of the library, behind it, where that changed.
pub proof fn law_edits_are_told(project_epoch: u64, e: EditResultView, count: int)
    ensures
        ({
            let events = edit_events(project_epoch, e, count);
            let timeline = CoreEventView::TimelineChanged {
                project_epoch,
                version: e.timeline_version,
            };
            let library = CoreEventView::MediaChanged { project_epoch, count };
            &&& e.changed && e.manifest_changed ==> events == seq![timeline, library]
            &&& e.changed && !e.manifest_changed ==> events == seq![timeline]
            &&& !e.changed && e.manifest_changed ==> events == seq![library]
            &&& !e.changed && !e.manifest_changed ==> events.len() == 0
        }),
{
}

/// A persisted edit goes ahead at the revision it expects and stands once saved; it is told
/// of together with the save. Otherwise the project stays as it was.
pub proof fn law_persisted_edits_stand_once_saved(
    c: CoreView,
    expected: ProjectRevision,
    command: EditCommand,
    o: Outside,
    saved: Result<Seq<char>, CoreFault>,
)
    ensures
        ({
            let (q, done) = told_edit(c, command, o);
            let (r, next) = persisted_edit(c, expected, command, o, saved);
            let here = c.project_epoch == expected.project_epoch && c.editor.state.version
                == expected.version;
            &&& r is Ok <==> here && q is Ok && saved is Ok
            &&& r is Err ==> next.editor == c.editor && next.outbox == c.outbox
            &&& !here ==> next == c
            &&& r is Ok ==> {
                &&& r->Ok_0 == q->Ok_0
                &&& next.editor == done.editor
                &&& next.outbox == done.outbox.push(
                    CoreEventView::ProjectSaved {
                        path: saved->Ok_0,
                        project_epoch: c.project_epoch,
                    },
                )
            }
        }),
{
    let (q, done) = told_edit(c, command, o);
    let (r, next) = persisted_edit(c, expected, command, o, saved);
    if r is Ok {
        assert(next.outbox =~= done.outbox.push(
            CoreEventView::ProjectSaved { path: saved->Ok_0, project_epoch: c.project_epoch },
        ));
    }
}

/// Taking back the edit one owns: refused for another revision or place, told apart where
/// there is nothing to take back or another edit stands last, and otherwise a step back.
pub proof fn law_owned_edits_are_taken_back(
    c: CoreView,
    expected: ProjectRevision,
    path: Option<Seq<char>>,
    action: Seq<char>,
    transaction: u64,
)
    ensures
        ({
            let (r, next) = owned_undo(c, expected, path, action, transaction);
            let history = c.editor.state.undo_stack;
            let here = c.project_epoch == expected.project_epoch && c.editor.state.version
                == expected.version && same_opt_place(c.editor.project_dir, path);
            &&& !here ==> r is Err && r->Err_0 is StaleProject && next == c
            &&& here && history.len() == 0 ==> r is Ok && r->Ok_0 is NoHistory && next == c
            &&& here && history.len() > 0 && (history.last().action_name != action
                || history.last().transaction_version != transaction) ==> r is Ok && r->Ok_0
                == (OwnedUndoView::Conflict {
                actual_action_name: Some(history.last().action_name),
                actual_transaction_version: Some(history.last().transaction_version),
            }) && next == c
            &&& here && history.len() > 0 && history.last().action_name == action
                && history.last().transaction_version == transaction ==> {
                &&& r is Err ==> next == c
                &&& r is Ok ==> {
                    &&& r->Ok_0 is Undone
                    &&& next.editor.state.timeline == history.last().timeline
                    &&& next.editor.state.manifest == history.last().manifest
                    &&& next.editor.state.undo_stack.len() == history.len() - 1
                    &&& next.editor.project_dir == c.editor.project_dir
                    &&& next.project_epoch == c.project_epoch
                }
            }
        }),
{
}

/// A generated file comes in under the first free id, with the clip it is put in with or
/// shown by, as one edit under the label asked for; or the project stays as it was.
pub proof fn law_generated_files_come_in_whole(
    c: CoreView,
    epoch: u64,
    version: u64,
    dir: Seq<char>,
    f: GeneratedFile,
    regular: Result<bool, Seq<char>>,
    placement: PlacementView,
    action: Seq<char>,
    o: Outside,
    saved: Result<Seq<char>, CoreFault>,
)
    ensures
        ({
            let (r, next) = generated_committed(
                c,
                epoch,
                version,
                dir,
                f,
                regular,
                placement,
                action,
                o,
                saved,
            );
            let s = c.editor.state;
            let id = nth_id(c.ids, first_free(c.ids, s.manifest.entries, 1));
            &&& r is Err ==> next.editor == c.editor
            &&& next.outbox == c.outbox
            &&& next.project_epoch == c.project_epoch
            &&& r is Ok ==> {
                let media = generated_media(f, id);
                &&& commit_fault(c, epoch, version, dir, f.path@, regular) is None
                &&& saved is Ok
                &&& f.kind is Audio || f.kind is Video
                &&& r->Ok_0.media == media
                &&& r->Ok_0.edit.action_name == action
                &&& may_register(s.manifest, media)
                &&& next.editor.state.manifest.entries == s.manifest.entries.push(media)
                &&& next.editor.state.manifest.folders == s.manifest.folders
                &&& next.editor.state.undo_stack.len() > 0
                    ==> next.editor.state.undo_stack.last().action_name == action
                &&& next.editor.project_dir == c.editor.project_dir
                &&& next.editor.root_identity == c.editor.root_identity
                &&& next.editor.read_only == c.editor.read_only
                &&& next.editor.generation_log == c.editor.generation_log
                &&& placement matches PlacementView::Replace { clip_id, .. } ==> has_clip(
                    s.timeline,
                    clip_id,
                )
            }
        }),
{
    let (r, next) = generated_committed(
        c,
        epoch,
        version,
        dir,
        f,
        regular,
        placement,
        action,
        o,
        saved,
    );
    if r is Ok {
        let s = c.editor.state;
        let k = first_free(c.ids, s.manifest.entries, 1);
        let id = nth_id(c.ids, k);
        let ids = ids_after(c.ids, k);
        let media = generated_media(f, id);
        match placement {
            PlacementView::Add { start_frame, duration_frames, track_index } => {
                law_registered_media_come_with_their_clip(
                    s,
                    media,
                    generated_clip(f, id, start_frame, duration_frames, track_index),
                    track_index is None,
                    ids,
                    o.placed@,
                    opt_text(o.registry_fault),
                );
            },
            PlacementView::Replace { clip_id, clear_masks } => {
                lemma_registered_swap(s, media, clip_id, clear_masks, opt_text(o.registry_fault));
            },
        }
    }
}

} // verus!
