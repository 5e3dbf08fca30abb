//! Commands on the media library: folders, names, and taking media out together
//! with the clips that show them.

use crate::edit::invalid;
use crate::edit::outcome;
use crate::edit::EditError;
use crate::edit::EditResult;
use crate::edit::EditResultView;
use crate::edit::Fault;
use crate::entries::rename_entry_views;
use crate::entries::RenameEntry;
use crate::entries::RenameEntryView;
use crate::frames::validate_timeline_frame_arithmetic;
use crate::ids::nth_id;
use crate::ids::CoreIdGen;
use crate::ids::IdsView;
use crate::links::listed;
use crate::locate::find_media;
use crate::locate::media_index;
use crate::model::media_folder_views;
use crate::model::media_manifest_entry_views;
use crate::model::MediaFolder;
use crate::model::MediaFolderView;
use crate::model::MediaManifest;
use crate::model::MediaManifestEntryView;
use crate::model::MediaManifestView;
use crate::state::ids_spent;
use crate::state::transact;
use crate::state::transacted;
use crate::state::EditorState;
use crate::state::StateView;
use crate::state::Work;
use crate::state::WorkView;
use crate::text::cat2;
use crate::text::cat3;
use crate::text::cat5;
use crate::text::copy_opt;
use crate::text::nat_text;
use crate::text::opt_text;
use crate::text::same_text;
use crate::text::texts;
use crate::text::usize_to_text;
use vstd::prelude::*;

verus! {

/// A transaction whose work leaves the timeline alone and touches no clip.
pub open spec fn library_transacted(
    s: StateView,
    action: Seq<char>,
    summary: Seq<char>,
    manifest: MediaManifestView,
    affected: Seq<Seq<char>>,
    registry_fault: Option<Seq<char>>,
) -> (Result<EditResultView, Fault>, StateView) {
    transacted(
        s,
        action,
        summary,
        Ok(WorkView { timeline: s.timeline, manifest, affected }),
        registry_fault,
    )
}

fn transact_library(
    state: &mut EditorState,
    action_name: &str,
    summary: &str,
    manifest: MediaManifest,
    affected: Vec<String>,
    registry_fault: &Option<String>,
) -> (r: Result<EditResult, EditError>)
    requires
        old(state)@.version < u64::MAX,
    ensures
        (outcome(r), final(state)@) == library_transacted(
            old(state)@,
            action_name@,
            summary@,
            manifest@,
            texts(affected@),
            opt_text(*registry_fault),
        ),
{
    let timeline = state.timeline.copy();
    transact(
        state,
        action_name,
        summary,
        Ok(Work { timeline, manifest, affected }),
        registry_fault,
    )
}

/// Making a folder.
pub open spec fn create_folder_spec(
    s: StateView,
    name: Seq<char>,
    parent_folder_id: Option<Seq<char>>,
    ids: IdsView,
    registry_fault: Option<Seq<char>>,
) -> (Result<EditResultView, Fault>, StateView) {
    if name.len() == 0 {
        (Err(Fault::Invalid("folder name is required"@)), s)
    } else {
        let id = nth_id(ids, 1);
        library_transacted(
            s,
            "New Folder"@,
            "Created folder "@ + id,
            MediaManifestView {
                folders: s.manifest.folders.push(MediaFolderView { id, name, parent_folder_id }),
                ..s.manifest
            },
            seq![id],
            registry_fault,
        )
    }
}

/// Creates a media-library folder.
pub fn create_folder(
    state: &mut EditorState,
    name: String,
    parent_folder_id: Option<String>,
    ids: &mut CoreIdGen,
    registry_fault: &Option<String>,
) -> (r: Result<EditResult, EditError>)
    requires
        old(state)@.version < u64::MAX,
    ensures
        (outcome(r), final(state)@) == create_folder_spec(
            old(state)@,
            name@,
            opt_text(parent_folder_id),
            old(ids)@,
            opt_text(*registry_fault),
        ),
        final(ids)@ == (if name@.len() == 0 {
            old(ids)@
        } else {
            ids_spent(old(state)@, old(ids)@, 1)
        }),
{
    if name.as_str().is_empty() {
        return Err(invalid("folder name is required"));
    }
    if let Err(e) = validate_timeline_frame_arithmetic(&state.timeline, "timeline") {
        return Err(e);
    }
    let id = ids.next_id();
    let mut manifest = state.manifest.copy();
    let ghost folders = manifest@.folders;
    let folder = MediaFolder { id: id.clone(), name, parent_folder_id };
    manifest.folders.push(folder);
    assert(manifest@.folders =~= folders.push(folder@));
    let summary = cat2("Created folder ", id.as_str());
    let affected: Vec<String> = vec![id];
    assert(texts(affected@) =~= seq![id@]);
    transact_library(state, "New Folder", summary.as_str(), manifest, affected, registry_fault)
}

/// Media entries with those of the given ids moved into a folder.
pub open spec fn refiled(
    entries: Seq<MediaManifestEntryView>,
    ids: Seq<Seq<char>>,
    folder_id: Option<Seq<char>>,
) -> Seq<MediaManifestEntryView> {
    entries.map_values(
        |e: MediaManifestEntryView|
            if ids.contains(e.id) {
                MediaManifestEntryView { folder_id, ..e }
            } else {
                e
            },
    )
}

/// Moving media into a folder.
pub open spec fn move_to_folder_spec(
    s: StateView,
    asset_ids: Seq<Seq<char>>,
    folder_id: Option<Seq<char>>,
    registry_fault: Option<Seq<char>>,
) -> (Result<EditResultView, Fault>, StateView) {
    if asset_ids.len() == 0 {
        (Err(Fault::Invalid("assetIds is required"@)), s)
    } else {
        library_transacted(
            s,
            "Move to Folder"@,
            "Moved "@ + nat_text(asset_ids.len()) + " asset(s)"@,
            MediaManifestView {
                entries: refiled(s.manifest.entries, asset_ids, folder_id),
                ..s.manifest
            },
            Seq::empty(),
            registry_fault,
        )
    }
}

/// Moves media assets into a folder, or to the root with `None`.
pub fn move_to_folder(
    state: &mut EditorState,
    asset_ids: Vec<String>,
    folder_id: Option<String>,
    registry_fault: &Option<String>,
) -> (r: Result<EditResult, EditError>)
    requires
        old(state)@.version < u64::MAX,
    ensures
        (outcome(r), final(state)@) == move_to_folder_spec(
            old(state)@,
            texts(asset_ids@),
            opt_text(folder_id),
            opt_text(*registry_fault),
        ),
{
    if asset_ids.len() == 0 {
        return Err(invalid("assetIds is required"));
    }
    let mut manifest = state.manifest.copy();
    let ghost before = manifest.entries@;
    let ghost expected = refiled(state@.manifest.entries, texts(asset_ids@), opt_text(folder_id));
    let mut i: usize = 0;
    assert(media_manifest_entry_views(before) == state@.manifest.entries);
    while i < manifest.entries.len()
        invariant
            i <= manifest.entries@.len(),
            manifest.entries@.len() == before.len(),
            media_folder_views(manifest.folders@) == state@.manifest.folders,
            state@ == old(state)@,
            expected == refiled(
                media_manifest_entry_views(before),
                texts(asset_ids@),
                opt_text(folder_id),
            ),
            forall|k: int| 0 <= k < i ==> (#[trigger] manifest.entries@[k])@ == expected[k],
            forall|k: int| i <= k < before.len() ==> #[trigger] manifest.entries@[k] == before[k],
        decreases manifest.entries@.len() - i,
    {
        if listed(&asset_ids, manifest.entries[i].id.as_str()) {
            manifest.entries[i].folder_id = copy_opt(&folder_id);
        }
        assert(manifest.entries@[i as int]@ =~= expected[i as int]);
        i += 1;
    }
    assert(manifest@.entries =~= expected);
    let count = usize_to_text(asset_ids.len());
    let summary = cat3("Moved ", count.as_str(), " asset(s)");
    let affected: Vec<String> = Vec::new();
    assert(texts(affected@) =~= Seq::empty());
    transact_library(
        state,
        "Move to Folder",
        summary.as_str(),
        manifest,
        affected,
        registry_fault,
    )
}

/// The position of the first folder with an id, from `from` on.
pub open spec fn folder_index(
    folders: Seq<MediaFolderView>,
    id: Seq<char>,
    from: int,
) -> Option<int>
    decreases folders.len() - from,
{
    if from < 0 || from >= folders.len() {
        None
    } else if folders[from].id == id {
        Some(from)
    } else {
        folder_index(folders, id, from + 1)
    }
}

/// Finds a folder by id.
pub fn find_folder(manifest: &MediaManifest, folder_id: &str) -> (r: Option<usize>)
    ensures
        match r {
            Some(i) => folder_index(manifest@.folders, folder_id@, 0) == Some(i as int) && i
                < manifest.folders@.len(),
            None => folder_index(manifest@.folders, folder_id@, 0) is None,
        },
{
    let mut i: usize = 0;
    while i < manifest.folders.len()
        invariant
            i <= manifest.folders@.len(),
            folder_index(manifest@.folders, folder_id@, 0) == folder_index(
                manifest@.folders,
                folder_id@,
                i as int,
            ),
        decreases manifest.folders@.len() - i,
    {
        if same_text(manifest.folders[i].id.as_str(), folder_id) {
            return Some(i);
        }
        i += 1;
    }
    None
}

/// The first renaming, from `from` on, of media that is not there.
pub open spec fn missing_media(
    entries: Seq<MediaManifestEntryView>,
    wanted: Seq<Seq<char>>,
    from: int,
) -> Option<Seq<char>>
    decreases wanted.len() - from,
{
    if from < 0 || from >= wanted.len() {
        None
    } else if media_index(entries, wanted[from], 0) is None {
        Some(wanted[from])
    } else {
        missing_media(entries, wanted, from + 1)
    }
}

/// The first id, from `from` on, that no folder has.
pub open spec fn missing_folder(
    folders: Seq<MediaFolderView>,
    wanted: Seq<Seq<char>>,
    from: int,
) -> Option<Seq<char>>
    decreases wanted.len() - from,
{
    if from < 0 || from >= wanted.len() {
        None
    } else if folder_index(folders, wanted[from], 0) is None {
        Some(wanted[from])
    } else {
        missing_folder(folders, wanted, from + 1)
    }
}

/// The complaint that a media asset is not there.
pub open spec fn asset_not_found(id: Seq<char>) -> Fault {
    Fault::Invalid("Media asset not found: "@ + id)
}

/// The complaint that a folder is not there.
pub open spec fn folder_not_found(id: Seq<char>) -> Fault {
    Fault::Invalid("folderId not found: "@ + id)
}

/// The ids of renamings.
pub open spec fn renamed_ids(entries: Seq<RenameEntryView>) -> Seq<Seq<char>> {
    entries.map_values(|e: RenameEntryView| e.id)
}

/// Media entries after the first `n` renamings, one after the other.
pub open spec fn media_renamed(
    entries: Seq<MediaManifestEntryView>,
    names: Seq<RenameEntryView>,
    n: int,
) -> Seq<MediaManifestEntryView>
    decreases n,
{
    if n <= 0 {
        entries
    } else {
        let before = media_renamed(entries, names, n - 1);
        match media_index(before, names[n - 1].id, 0) {
            Some(i) => before.update(
                i,
                MediaManifestEntryView { name: names[n - 1].name, ..before[i] },
            ),
            None => before,
        }
    }
}

/// Folders after the first `n` renamings, one after the other.
pub open spec fn folders_renamed(
    folders: Seq<MediaFolderView>,
    names: Seq<RenameEntryView>,
    n: int,
) -> Seq<MediaFolderView>
    decreases n,
{
    if n <= 0 {
        folders
    } else {
        let before = folders_renamed(folders, names, n - 1);
        match folder_index(before, names[n - 1].id, 0) {
            Some(i) => before.update(i, MediaFolderView { name: names[n - 1].name, ..before[i] }),
            None => before,
        }
    }
}

/// The summary of renamings: the one that was made, or how many.
pub open spec fn renamed_summary(
    one: Seq<char>,
    many: Seq<char>,
    names: Seq<RenameEntryView>,
) -> Seq<char> {
    if names.len() == 1 {
        one + names[0].id + " to '"@ + names[0].name + "'"@
    } else {
        "Renamed "@ + nat_text(names.len()) + many
    }
}

/// Renaming media: every asset has to exist before any is renamed.
pub open spec fn rename_media_spec(
    s: StateView,
    names: Seq<RenameEntryView>,
    registry_fault: Option<Seq<char>>,
) -> (Result<EditResultView, Fault>, StateView) {
    if names.len() == 0 {
        (Err(Fault::Invalid("rename_media: no entries to rename"@)), s)
    } else {
        match missing_media(s.manifest.entries, renamed_ids(names), 0) {
            Some(id) => (Err(asset_not_found(id)), s),
            None => library_transacted(
                s,
                if names.len() == 1 {
                    "Rename Asset"@
                } else {
                    "Rename Assets"@
                },
                renamed_summary("Renamed "@, " media asset(s)"@, names),
                MediaManifestView {
                    entries: media_renamed(s.manifest.entries, names, names.len() as int),
                    ..s.manifest
                },
                Seq::empty(),
                registry_fault,
            ),
        }
    }
}

/// Renaming folders: every folder has to exist before any is renamed.
pub open spec fn rename_folder_spec(
    s: StateView,
    names: Seq<RenameEntryView>,
    registry_fault: Option<Seq<char>>,
) -> (Result<EditResultView, Fault>, StateView) {
    if names.len() == 0 {
        (Err(Fault::Invalid("rename_folder: no entries to rename"@)), s)
    } else {
        match missing_folder(s.manifest.folders, renamed_ids(names), 0) {
            Some(id) => (Err(folder_not_found(id)), s),
            None => library_transacted(
                s,
                if names.len() == 1 {
                    "Rename Folder"@
                } else {
                    "Rename Folders"@
                },
                renamed_summary("Renamed folder "@, " folder(s)"@, names),
                MediaManifestView {
                    folders: folders_renamed(s.manifest.folders, names, names.len() as int),
                    ..s.manifest
                },
                Seq::empty(),
                registry_fault,
            ),
        }
    }
}

fn summarize_renames(one: &str, many: &str, names: &Vec<RenameEntry>) -> (r: String)
    ensures
        r@ == renamed_summary(one@, many@, rename_entry_views(names@)),
{
    if names.len() == 1 {
        cat5(one, names[0].id.as_str(), " to '", names[0].name.as_str(), "'")
    } else {
        let count = usize_to_text(names.len());
        cat3("Renamed ", count.as_str(), many)
    }
}

/// Renames media assets; clips are unaffected.
pub fn rename_media(
    state: &mut EditorState,
    entries: Vec<RenameEntry>,
    registry_fault: &Option<String>,
) -> (r: Result<EditResult, EditError>)
    requires
        old(state)@.version < u64::MAX,
    ensures
        (outcome(r), final(state)@) == rename_media_spec(
            old(state)@,
            rename_entry_views(entries@),
            opt_text(*registry_fault),
        ),
{
    if entries.len() == 0 {
        return Err(invalid("rename_media: no entries to rename"));
    }
    let ghost names = rename_entry_views(entries@);
    let ghost wanted = renamed_ids(names);
    let mut i: usize = 0;
    while i < entries.len()
        invariant
            i <= entries@.len(),
            entries@.len() > 0,
            names == rename_entry_views(entries@),
            wanted == renamed_ids(names),
            state@ == old(state)@,
            missing_media(state@.manifest.entries, wanted, 0) == missing_media(
                state@.manifest.entries,
                wanted,
                i as int,
            ),
        decreases entries@.len() - i,
    {
        assert(wanted[i as int] == entries@[i as int].id@);
        if find_media(&state.manifest, entries[i].id.as_str()).is_none() {
            return Err(
                EditError::Invalid(cat2("Media asset not found: ", entries[i].id.as_str())),
            );
        }
        i += 1;
    }
    let mut manifest = state.manifest.copy();
    let mut n: usize = 0;
    while n < entries.len()
        invariant
            n <= entries@.len(),
            names == rename_entry_views(entries@),
            state@ == old(state)@,
            manifest@.folders == state@.manifest.folders,
            manifest@.entries == media_renamed(state@.manifest.entries, names, n as int),
        decreases entries@.len() - n,
    {
        let ghost before = manifest@.entries;
        if let Some(k) = find_media(&manifest, entries[n].id.as_str()) {
            manifest.entries[k].name = entries[n].name.clone();
            assert(manifest@.entries =~= before.update(
                k as int,
                MediaManifestEntryView { name: names[n as int].name, ..before[k as int] },
            ));
        }
        n += 1;
    }
    let summary = summarize_renames("Renamed ", " media asset(s)", &entries);
    let affected: Vec<String> = Vec::new();
    assert(texts(affected@) =~= Seq::empty());
    transact_library(
        state,
        if entries.len() == 1 {
            "Rename Asset"
        } else {
            "Rename Assets"
        },
        summary.as_str(),
        manifest,
        affected,
        registry_fault,
    )
}

/// Renames folders.
pub fn rename_folder(
    state: &mut EditorState,
    entries: Vec<RenameEntry>,
    registry_fault: &Option<String>,
) -> (r: Result<EditResult, EditError>)
    requires
        old(state)@.version < u64::MAX,
    ensures
        (outcome(r), final(state)@) == rename_folder_spec(
            old(state)@,
            rename_entry_views(entries@),
            opt_text(*registry_fault),
        ),
{
    if entries.len() == 0 {
        return Err(invalid("rename_folder: no entries to rename"));
    }
    let ghost names = rename_entry_views(entries@);
    let ghost wanted = renamed_ids(names);
    let mut i: usize = 0;
    while i < entries.len()
        invariant
            i <= entries@.len(),
            entries@.len() > 0,
            names == rename_entry_views(entries@),
            wanted == renamed_ids(names),
            state@ == old(state)@,
            missing_folder(state@.manifest.folders, wanted, 0) == missing_folder(
                state@.manifest.folders,
                wanted,
                i as int,
            ),
        decreases entries@.len() - i,
    {
        assert(wanted[i as int] == entries@[i as int].id@);
        if find_folder(&state.manifest, entries[i].id.as_str()).is_none() {
            return Err(EditError::Invalid(cat2("folderId not found: ", entries[i].id.as_str())));
        }
        i += 1;
    }
    let mut manifest = state.manifest.copy();
    let mut n: usize = 0;
    while n < entries.len()
        invariant
            n <= entries@.len(),
            names == rename_entry_views(entries@),
            state@ == old(state)@,
            manifest@.entries == state@.manifest.entries,
            manifest@.folders == folders_renamed(state@.manifest.folders, names, n as int),
        decreases entries@.len() - n,
    {
        let ghost before = manifest@.folders;
        if let Some(k) = find_folder(&manifest, entries[n].id.as_str()) {
            manifest.folders[k].name = entries[n].name.clone();
            assert(manifest@.folders =~= before.update(
                k as int,
                MediaFolderView { name: names[n as int].name, ..before[k as int] },
            ));
        }
        n += 1;
    }
    let summary = summarize_renames("Renamed folder ", " folder(s)", &entries);
    let affected: Vec<String> = Vec::new();
    assert(texts(affected@) =~= Seq::empty());
    transact_library(
        state,
        if entries.len() == 1 {
            "Rename Folder"
        } else {
            "Rename Folders"
        },
        summary.as_str(),
        manifest,
        affected,
        registry_fault,
    )
}

} // verus!
