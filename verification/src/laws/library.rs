//! What the commands on the media library do to its entries and folders.

use crate::commands::library::create_folder_spec;
use crate::commands::library::folder_index;
use crate::commands::library::folders_renamed;
use crate::commands::library::media_renamed;
use crate::commands::library::missing_folder;
use crate::commands::library::missing_media;
use crate::commands::library::move_to_folder_spec;
use crate::commands::library::rename_folder_spec;
use crate::commands::library::rename_media_spec;
use crate::commands::library::renamed_ids;
use crate::entries::RenameEntryView;
use crate::ids::IdsView;
use crate::ids::nth_id;
use crate::laws::document::law_pruning_changes_transitions_alone;
use crate::laws::document::same_timeline;
use crate::locate::media_index;
use crate::model::MediaFolderView;
use crate::model::MediaManifestEntryView;
use crate::state::StateView;
use vstd::prelude::*;

verus! {

/// Making a folder adds one behind the others, with a new id, the name and the parent
/// that were given, and changes nothing else. A name is needed.
pub proof fn law_folders_are_added(
    s: StateView,
    name: Seq<char>,
    parent: Option<Seq<char>>,
    ids: IdsView,
    registry_fault: Option<Seq<char>>,
)
    ensures
        ({
            let (r, next) = create_folder_spec(s, name, parent, ids, registry_fault);
            &&& r is Err ==> next == s
            &&& r is Ok ==> {
                let n = s.manifest.folders.len() as int;
                &&& name.len() > 0
                &&& next.manifest.entries == s.manifest.entries
                &&& next.manifest.folders.len() == n + 1
                &&& forall|i: int|
                    0 <= i < n ==> #[trigger] next.manifest.folders[i] == s.manifest.folders[i]
                &&& next.manifest.folders[n].id == nth_id(ids, 1)
                &&& next.manifest.folders[n].name == name
                &&& next.manifest.folders[n].parent_folder_id == parent
                &&& same_timeline(s.timeline, next.timeline)
            }
        }),
{
    law_pruning_changes_transitions_alone(s.timeline);
}

/// Filing media puts exactly the named ones into the folder, or out of all folders, and
/// changes nothing else.
pub proof fn law_media_are_filed(
    s: StateView,
    ids: Seq<Seq<char>>,
    folder: Option<Seq<char>>,
    registry_fault: Option<Seq<char>>,
)
    ensures
        ({
            let (r, next) = move_to_folder_spec(s, ids, folder, registry_fault);
            let n = s.manifest.entries.len();
            &&& r is Err ==> next == s
            &&& r is Ok ==> {
                &&& ids.len() > 0
                &&& next.manifest.folders == s.manifest.folders
                &&& next.manifest.entries.len() == n
                &&& forall|i: int|
                    0 <= i < n ==> #[trigger] next.manifest.entries[i] == (
                    MediaManifestEntryView {
                        folder_id: if ids.contains(s.manifest.entries[i].id) {
                            folder
                        } else {
                            s.manifest.entries[i].folder_id
                        },
                        ..s.manifest.entries[i]
                    })
                &&& same_timeline(s.timeline, next.timeline)
            }
        }),
{
    law_pruning_changes_transitions_alone(s.timeline);
}

/// Whether an entry at a position is the first with its id.
pub open spec fn first_of_id(entries: Seq<MediaManifestEntryView>, i: int) -> bool {
    forall|j: int| 0 <= j < i ==> (#[trigger] entries[j]).id != entries[i].id
}

/// Whether a folder at a position is the first with its id.
pub open spec fn first_folder_of_id(folders: Seq<MediaFolderView>, i: int) -> bool {
    forall|j: int| 0 <= j < i ==> (#[trigger] folders[j]).id != folders[i].id
}

/// The position of the last renaming of an id among the first `n`.
pub open spec fn last_name(names: Seq<RenameEntryView>, id: Seq<char>, n: int, k: int) -> bool {
    &&& 0 <= k < n
    &&& names[k].id == id
    &&& forall|l: int| k < l < n ==> (#[trigger] names[l]).id != id
}

proof fn lemma_media_place(entries: Seq<MediaManifestEntryView>, id: Seq<char>, from: int)
    requires
        0 <= from,
    ensures
        match media_index(entries, id, from) {
            Some(i) => from <= i < entries.len() && entries[i].id == id && forall|j: int|
                from <= j < i ==> (#[trigger] entries[j]).id != id,
            None => forall|j: int| from <= j < entries.len() ==> (#[trigger] entries[j]).id != id,
        },
    decreases entries.len() - from,
{
    if from < entries.len() && entries[from].id != id {
        lemma_media_place(entries, id, from + 1);
    }
}

proof fn lemma_folder_place(folders: Seq<MediaFolderView>, id: Seq<char>, from: int)
    requires
        0 <= from,
    ensures
        match folder_index(folders, id, from) {
            Some(i) => from <= i < folders.len() && folders[i].id == id && forall|j: int|
                from <= j < i ==> (#[trigger] folders[j]).id != id,
            None => forall|j: int| from <= j < folders.len() ==> (#[trigger] folders[j]).id != id,
        },
    decreases folders.len() - from,
{
    if from < folders.len() && folders[from].id != id {
        lemma_folder_place(folders, id, from + 1);
    }
}

proof fn lemma_media_renamed(
    entries: Seq<MediaManifestEntryView>,
    names: Seq<RenameEntryView>,
    n: int,
    i: int,
)
    requires
        0 <= n <= names.len(),
        0 <= i < entries.len(),
    ensures
        ({
            let after = media_renamed(entries, names, n);
            &&& after.len() == entries.len()
            &&& forall|j: int|
                0 <= j < entries.len() ==> (#[trigger] after[j]).id == entries[j].id
            &&& after[i] == (MediaManifestEntryView { name: after[i].name, ..entries[i] })
            &&& forall|k: int|
                first_of_id(entries, i) && #[trigger] last_name(names, entries[i].id, n, k)
                    ==> after[i].name == names[k].name
            &&& (!first_of_id(entries, i) || forall|k: int|
                0 <= k < n ==> (#[trigger] names[k]).id != entries[i].id) ==> after[i]
                == entries[i]
        }),
    decreases n,
{
    if n > 0 {
        lemma_media_renamed(entries, names, n - 1, i);
        let before = media_renamed(entries, names, n - 1);
        let id = names[n - 1].id;
        lemma_media_place(before, id, 0);
        assert forall|k: int|
            first_of_id(entries, i) && #[trigger] last_name(
                names,
                entries[i].id,
                n,
                k,
            ) implies media_renamed(entries, names, n)[i].name == names[k].name by {
            if k < n - 1 {
                assert(last_name(names, entries[i].id, n - 1, k));
                assert(names[n - 1].id != entries[i].id);
            } else {
                let p = media_index(before, id, 0);
                assert(before[i].id == id);
                if p is Some && p->0 < i {
                    assert(entries[p->0].id == before[p->0].id);
                }
            }
        }
        if !first_of_id(entries, i) {
            let j = choose|j: int| 0 <= j < i && (#[trigger] entries[j]).id == entries[i].id;
            assert(before[j].id == entries[j].id);
        }
    }
}

proof fn lemma_folders_renamed(
    folders: Seq<MediaFolderView>,
    names: Seq<RenameEntryView>,
    n: int,
    i: int,
)
    requires
        0 <= n <= names.len(),
        0 <= i < folders.len(),
    ensures
        ({
            let after = folders_renamed(folders, names, n);
            &&& after.len() == folders.len()
            &&& forall|j: int|
                0 <= j < folders.len() ==> (#[trigger] after[j]).id == folders[j].id
            &&& after[i] == (MediaFolderView { name: after[i].name, ..folders[i] })
            &&& forall|k: int|
                first_folder_of_id(folders, i) && #[trigger] last_name(
                    names,
                    folders[i].id,
                    n,
                    k,
                ) ==> after[i].name == names[k].name
            &&& (!first_folder_of_id(folders, i) || forall|k: int|
                0 <= k < n ==> (#[trigger] names[k]).id != folders[i].id) ==> after[i]
                == folders[i]
        }),
    decreases n,
{
    if n > 0 {
        lemma_folders_renamed(folders, names, n - 1, i);
        let before = folders_renamed(folders, names, n - 1);
        let id = names[n - 1].id;
        lemma_folder_place(before, id, 0);
        assert forall|k: int|
            first_folder_of_id(folders, i) && #[trigger] last_name(
                names,
                folders[i].id,
                n,
                k,
            ) implies folders_renamed(folders, names, n)[i].name == names[k].name by {
            if k < n - 1 {
                assert(last_name(names, folders[i].id, n - 1, k));
                assert(names[n - 1].id != folders[i].id);
            } else {
                let p = folder_index(before, id, 0);
                assert(before[i].id == id);
                if p is Some && p->0 < i {
                    assert(folders[p->0].id == before[p->0].id);
                }
            }
        }
        if !first_folder_of_id(folders, i) {
            let j = choose|j: int| 0 <= j < i && (#[trigger] folders[j]).id == folders[i].id;
            assert(before[j].id == folders[j].id);
        }
    }
}

proof fn lemma_all_media(entries: Seq<MediaManifestEntryView>, ids: Seq<Seq<char>>, from: int)
    requires
        0 <= from,
        missing_media(entries, ids, from) is None,
    ensures
        forall|k: int|
            from <= k < ids.len() ==> exists|i: int|
                0 <= i < entries.len() && (#[trigger] entries[i]).id == #[trigger] ids[k],
    decreases ids.len() - from,
{
    if from < ids.len() {
        lemma_media_place(entries, ids[from], 0);
        lemma_all_media(entries, ids, from + 1);
        let i = media_index(entries, ids[from], 0)->0;
        assert(entries[i].id == ids[from]);
    }
}

proof fn lemma_all_folders(folders: Seq<MediaFolderView>, ids: Seq<Seq<char>>, from: int)
    requires
        0 <= from,
        missing_folder(folders, ids, from) is None,
    ensures
        forall|k: int|
            from <= k < ids.len() ==> exists|i: int|
                0 <= i < folders.len() && (#[trigger] folders[i]).id == #[trigger] ids[k],
    decreases ids.len() - from,
{
    if from < ids.len() {
        lemma_folder_place(folders, ids[from], 0);
        lemma_all_folders(folders, ids, from + 1);
        let i = folder_index(folders, ids[from], 0)->0;
        assert(folders[i].id == ids[from]);
    }
}

/// Renaming media gives each named entry the name that was last asked for it, and changes
/// nothing else. All named media have to be there.
pub proof fn law_media_are_renamed(
    s: StateView,
    names: Seq<RenameEntryView>,
    registry_fault: Option<Seq<char>>,
    i: int,
)
    requires
        0 <= i < s.manifest.entries.len(),
    ensures
        ({
            let (r, next) = rename_media_spec(s, names, registry_fault);
            let e = s.manifest.entries[i];
            let f = next.manifest.entries[i];
            &&& r is Err ==> next == s
            &&& r is Ok ==> {
                &&& names.len() > 0
                &&& next.manifest.folders == s.manifest.folders
                &&& next.manifest.entries.len() == s.manifest.entries.len()
                &&& f == (MediaManifestEntryView { name: f.name, ..e })
                &&& forall|k: int|
                    first_of_id(s.manifest.entries, i) && #[trigger] last_name(
                        names,
                        e.id,
                        names.len() as int,
                        k,
                    ) ==> f.name == names[k].name
                &&& (!first_of_id(s.manifest.entries, i) || forall|k: int|
                    0 <= k < names.len() ==> (#[trigger] names[k]).id != e.id) ==> f == e
                &&& forall|k: int|
                    0 <= k < names.len() ==> exists|j: int|
                        0 <= j < s.manifest.entries.len() && (
                        #[trigger] s.manifest.entries[j]).id == (#[trigger] names[k]).id
                &&& same_timeline(s.timeline, next.timeline)
            }
        }),
{
    law_pruning_changes_transitions_alone(s.timeline);
    lemma_media_renamed(s.manifest.entries, names, names.len() as int, i);
    let (r, next) = rename_media_spec(s, names, registry_fault);
    if r is Ok {
        lemma_all_media(s.manifest.entries, renamed_ids(names), 0);
        assert forall|k: int| 0 <= k < names.len() implies exists|j: int|
            0 <= j < s.manifest.entries.len() && (#[trigger] s.manifest.entries[j]).id == (
            #[trigger] names[k]).id by {
            assert(renamed_ids(names)[k] == names[k].id);
        }
    }
}

/// Renaming folders gives each named folder the name that was last asked for it, and
/// changes nothing else. All named folders have to be there.
pub proof fn law_folders_are_renamed(
    s: StateView,
    names: Seq<RenameEntryView>,
    registry_fault: Option<Seq<char>>,
    i: int,
)
    requires
        0 <= i < s.manifest.folders.len(),
    ensures
        ({
            let (r, next) = rename_folder_spec(s, names, registry_fault);
            let e = s.manifest.folders[i];
            let f = next.manifest.folders[i];
            &&& r is Err ==> next == s
            &&& r is Ok ==> {
                &&& names.len() > 0
                &&& next.manifest.entries == s.manifest.entries
                &&& next.manifest.folders.len() == s.manifest.folders.len()
                &&& f == (MediaFolderView { name: f.name, ..e })
                &&& forall|k: int|
                    first_folder_of_id(s.manifest.folders, i) && #[trigger] last_name(
                        names,
                        e.id,
                        names.len() as int,
                        k,
                    ) ==> f.name == names[k].name
                &&& (!first_folder_of_id(s.manifest.folders, i) || forall|k: int|
                    0 <= k < names.len() ==> (#[trigger] names[k]).id != e.id) ==> f == e
                &&& forall|k: int|
                    0 <= k < names.len() ==> exists|j: int|
                        0 <= j < s.manifest.folders.len() && (
                        #[trigger] s.manifest.folders[j]).id == (#[trigger] names[k]).id
                &&& same_timeline(s.timeline, next.timeline)
            }
        }),
{
    law_pruning_changes_transitions_alone(s.timeline);
    lemma_folders_renamed(s.manifest.folders, names, names.len() as int, i);
    let (r, next) = rename_folder_spec(s, names, registry_fault);
    if r is Ok {
        lemma_all_folders(s.manifest.folders, renamed_ids(names), 0);
        assert forall|k: int| 0 <= k < names.len() implies exists|j: int|
            0 <= j < s.manifest.folders.len() && (#[trigger] s.manifest.folders[j]).id == (
            #[trigger] names[k]).id by {
            assert(renamed_ids(names)[k] == names[k].id);
        }
    }
}

} // verus!
