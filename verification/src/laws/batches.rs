//! What a batch of imports makes of a project.

use crate::app_core::CoreView;
use crate::app_core::batch::BatchView;
use crate::app_core::batch::FolderRefView;
use crate::app_core::batch::ImportOpView;
use crate::app_core::batch::batch_events;
use crate::app_core::batch::batch_imported;
use crate::app_core::batch::resolved;
use crate::app_core::batch::stepped;
use crate::app_core::batch::stepped_to;
use crate::events::CoreEventView;
use crate::events::CoreFault;
use crate::ids::nth_id;
use crate::laws::document::has_entry;
use crate::laws::library::law_folders_are_added;
use crate::laws::library::law_media_are_filed;
use crate::laws::project::one_entry_more;
use crate::laws::project::still_open;
use crate::model::MediaManifestEntryView;
use crate::model::MediaManifestView;
use crate::state::StateView;
use vstd::prelude::*;

verus! {

/// The folder that a step of a batch names: one that is there, or one that the batch has
/// made under a key.
pub open spec fn named_folder(
    folders: Map<u64, Seq<char>>,
    folder: Option<FolderRefView>,
    id: Option<Seq<char>>,
) -> bool {
    match folder {
        None => id is None,
        Some(FolderRefView::Existing(f)) => id == Some(f),
        Some(FolderRefView::Planned(key)) => folders.contains_key(key) && id == Some(folders[key]),
    }
}

/// A folder is made under a key that the batch has not used, within the folder named for
/// it, behind the library's own, and stands for its key from there on.
pub proof fn law_batches_make_folders(
    b: BatchView,
    key: u64,
    name: Seq<char>,
    parent: Option<FolderRefView>,
    registry_fault: Option<Seq<char>>,
)
    ensures
        ({
            let (fault, next) = stepped(
                b,
                ImportOpView::CreateFolder { key, name, parent },
                registry_fault,
            );
            let m = b.core.editor.state.manifest;
            let l = next.core.editor.state.manifest;
            &&& next.imports == b.imports
            &&& next.core.outbox == b.core.outbox
            &&& fault is Some ==> next.folders == b.folders && next.core.editor == b.core.editor
            &&& fault is None ==> {
                let f = l.folders.last();
                &&& !b.folders.contains_key(key)
                &&& name.len() > 0
                &&& l.entries == m.entries
                &&& l.folders.len() == m.folders.len() + 1
                &&& forall|i: int| 0 <= i < m.folders.len() ==> #[trigger] l.folders[i]
                    == m.folders[i]
                &&& f.id == nth_id(b.core.ids, 1)
                &&& f.name == name
                &&& named_folder(b.folders, parent, f.parent_folder_id)
                &&& next.folders == b.folders.insert(key, f.id)
            }
        }),
{
    let c = b.core;
    match resolved(b.folders, parent) {
        Ok(parent_id) => {
            law_folders_are_added(c.editor.state, name, parent_id, c.ids, registry_fault);
        },
        Err(_) => {},
    }
}

/// A file is imported under the next id, into the folder named for it, behind the
/// library's own, and is told of under its path.
pub proof fn law_batches_import_files(
    b: BatchView,
    path: Seq<char>,
    candidate: Result<MediaManifestEntryView, CoreFault>,
    folder: Option<FolderRefView>,
    registry_fault: Option<Seq<char>>,
)
    requires
        !has_entry(b.core.editor.state.manifest, nth_id(b.core.ids, 1)),
    ensures
        ({
            let (fault, next) = stepped(
                b,
                ImportOpView::Import { path, candidate, folder },
                registry_fault,
            );
            let m = b.core.editor.state.manifest;
            let l = next.core.editor.state.manifest;
            &&& next.folders == b.folders
            &&& next.core.outbox == b.core.outbox
            &&& candidate is Err ==> fault is Some
            &&& fault is Some ==> next.imports == b.imports
            &&& fault is None ==> {
                let e = next.imports.last().entry;
                &&& candidate is Ok
                &&& next.imports.len() == b.imports.len() + 1
                &&& next.imports.drop_last() == b.imports
                &&& next.imports.last().path == path
                &&& e == (MediaManifestEntryView {
                    id: nth_id(b.core.ids, 1),
                    folder_id: e.folder_id,
                    ..candidate->Ok_0
                })
                &&& folder is None ==> e.folder_id == candidate->Ok_0.folder_id
                &&& folder is Some ==> named_folder(b.folders, folder, e.folder_id)
                &&& l.folders == m.folders
                &&& one_entry_more(m, l, e)
            }
        }),
{
    let (fault, next) = stepped(b, ImportOpView::Import { path, candidate, folder }, registry_fault);
    let c = b.core;
    let m = c.editor.state.manifest;
    if fault is None {
        assert(next.imports.drop_last() =~= b.imports);
        let entry = MediaManifestEntryView { id: nth_id(c.ids, 1), ..candidate->Ok_0 };
        let added = StateView {
            manifest: MediaManifestView { entries: m.entries.push(entry), ..m },
            ..c.editor.state
        };
        if folder is Some {
            let f = resolved(b.folders, folder)->Ok_0->0;
            law_media_are_filed(added, seq![entry.id], Some(f), registry_fault);
            assert(added.manifest.entries[m.entries.len() as int] == entry);
            assert(seq![entry.id][0] == entry.id);
            assert(seq![entry.id].contains(entry.id));
            assert forall|i: int| 0 <= i < m.entries.len() implies (
            #[trigger] next.core.editor.state.manifest.entries[i]) == m.entries[i] by {
                assert(added.manifest.entries[i] == m.entries[i]);
                assert(m.entries[i].id != entry.id);
                assert(!seq![entry.id].contains(m.entries[i].id));
            }
        }
    }
}

/// The steps of a batch are made in order, each on what the one before it made, up to the
/// first that fails.
pub proof fn law_batches_go_step_by_step(
    start: BatchView,
    plan: Seq<ImportOpView>,
    registry_fault: Option<Seq<char>>,
    n: int,
)
    requires
        0 <= n < plan.len(),
    ensures
        ({
            let (before, b) = stepped_to(start, plan, registry_fault, n);
            let (after, next) = stepped_to(start, plan, registry_fault, n + 1);
            &&& stepped_to(start, plan, registry_fault, 0) == (None::<CoreFault>, start)
            &&& before is None ==> (after, next) == stepped(b, plan[n], registry_fault)
            &&& before is Some ==> (after, next) == (before, b)
        }),
{
}

/// A batch comes in whole for the project that is still open and may be written, once it
/// is written; it is told of in order, the timeline first where its version moved. Or the
/// project stays as it was.
pub proof fn law_batches_come_in_whole(
    c: CoreView,
    epoch: u64,
    dir: Seq<char>,
    plan: Seq<ImportOpView>,
    registry_fault: Option<Seq<char>>,
    precondition: Result<(), CoreFault>,
    written: Result<Seq<char>, CoreFault>,
)
    ensures
        ({
            let (r, next) = batch_imported(
                c,
                epoch,
                dir,
                plan,
                registry_fault,
                precondition,
                written,
            );
            let none = BatchView { core: c, folders: Map::empty(), imports: Seq::empty() };
            let (fault, made) = stepped_to(none, plan, registry_fault, plan.len() as int);
            &&& r is Ok <==> still_open(c, epoch, dir) && c.editor.read_only is None && precondition
                is Ok && fault is None && written is Ok
            &&& r is Err ==> next.editor == c.editor && next.outbox == c.outbox
                && next.project_epoch == c.project_epoch
            &&& r is Ok ==> {
                let library = CoreEventView::MediaChanged {
                    project_epoch: made.core.project_epoch,
                    count: made.core.editor.state.manifest.entries.len() as int,
                };
                let saved = CoreEventView::ProjectSaved {
                    path: written->Ok_0,
                    project_epoch: made.core.project_epoch,
                };
                &&& r->Ok_0 == made.imports
                &&& next.editor == made.core.editor
                &&& next.ids == made.core.ids
                &&& made.core.editor.state.version == c.editor.state.version ==> next.outbox
                    == made.core.outbox + seq![library, saved]
                &&& made.core.editor.state.version != c.editor.state.version ==> next.outbox
                    == made.core.outbox + seq![
                    CoreEventView::TimelineChanged {
                        project_epoch: made.core.project_epoch,
                        version: made.core.editor.state.version,
                    },
                    library,
                    saved,
                ]
            }
        }),
{
    let (r, next) = batch_imported(c, epoch, dir, plan, registry_fault, precondition, written);
    let none = BatchView { core: c, folders: Map::empty(), imports: Seq::empty() };
    let (fault, made) = stepped_to(none, plan, registry_fault, plan.len() as int);
    if r is Ok {
        let events = batch_events(c, made.core, written->Ok_0);
        assert(next.outbox == made.core.outbox + events);
        let library = CoreEventView::MediaChanged {
            project_epoch: made.core.project_epoch,
            count: made.core.editor.state.manifest.entries.len() as int,
        };
        let saved = CoreEventView::ProjectSaved {
            path: written->Ok_0,
            project_epoch: made.core.project_epoch,
        };
        if made.core.editor.state.version == c.editor.state.version {
            assert(events =~= seq![library, saved]);
        } else {
            assert(events =~= seq![
                CoreEventView::TimelineChanged {
                    project_epoch: made.core.project_epoch,
                    version: made.core.editor.state.version,
                },
                library,
                saved,
            ]);
        }
    }
}

} // verus!
