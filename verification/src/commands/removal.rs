//! Taking clips off the timeline: by themselves, or with the media that they show.

use crate::arrange::prune_empty_tracks;
use crate::arrange::remove_clips_from;
use crate::arrange::without_clips;
use crate::arrange::without_empty_tracks;
use crate::commands::effects::missing_clip;
use crate::commands::library::asset_not_found;
use crate::commands::library::find_folder;
use crate::commands::library::folder_not_found;
use crate::commands::library::missing_folder;
use crate::commands::library::missing_media;
use crate::edit::invalid;
use crate::edit::outcome;
use crate::edit::EditError;
use crate::edit::EditResult;
use crate::edit::EditResultView;
use crate::edit::Fault;
use crate::links::expand_to_link_group;
use crate::links::link_expanded;
use crate::links::listed;
use crate::locate::clip_not_found;
use crate::locate::find_media;
use crate::locate::require_clip;
use crate::model::clip_views;
use crate::model::lemma_nested_views;
use crate::model::media_folder_views;
use crate::model::media_manifest_entry_views;
use crate::model::nested_sequence_views;
use crate::model::Clip;
use crate::model::ClipView;
use crate::model::MediaFolder;
use crate::model::MediaFolderView;
use crate::model::MediaManifest;
use crate::model::MediaManifestEntry;
use crate::model::MediaManifestEntryView;
use crate::model::MediaManifestView;
use crate::model::NestedSequenceView;
use crate::model::Timeline;
use crate::model::TimelineView;
use crate::model::TrackView;
use crate::state::timeline_transacted;
use crate::state::transact;
use crate::state::transact_timeline;
use crate::state::transacted;
use crate::state::EditorState;
use crate::state::StateView;
use crate::state::Work;
use crate::state::WorkView;
use crate::text::cat2;
use crate::text::cat3;
use crate::text::copy_texts;
use crate::text::nat_text;
use crate::text::opt_text;
use crate::text::texts;
use crate::text::usize_to_text;
use vstd::prelude::*;
use vstd::string::StringExecFns;

verus! {

/// Removing clips together with those linked to them.
pub open spec fn remove_clips_spec(
    s: StateView,
    clip_ids: Seq<Seq<char>>,
    registry_fault: Option<Seq<char>>,
) -> (Result<EditResultView, Fault>, StateView) {
    if clip_ids.len() == 0 {
        (Err(Fault::Invalid("Missing or empty 'clipIds' array"@)), s)
    } else {
        match missing_clip(s.timeline, clip_ids, 0) {
            Some(id) => (Err(clip_not_found(id)), s),
            None => {
                let all = link_expanded(s.timeline, clip_ids);
                timeline_transacted(
                    s,
                    if all.len() == 1 {
                        "Remove Clip"@
                    } else {
                        "Remove Clips"@
                    },
                    "Removed "@ + nat_text(all.len()) + " clip(s)"@,
                    without_empty_tracks(without_clips(s.timeline, all)),
                    all,
                    registry_fault,
                )
            },
        }
    }
}

/// Removes clips, expanded to linked partners, and drops emptied tracks.
pub fn remove_clips(
    state: &mut EditorState,
    clip_ids: Vec<String>,
    registry_fault: &Option<String>,
) -> (r: Result<EditResult, EditError>)
    requires
        old(state)@.version < u64::MAX,
    ensures
        (outcome(r), final(state)@) == remove_clips_spec(
            old(state)@,
            texts(clip_ids@),
            opt_text(*registry_fault),
        ),
{
    if clip_ids.len() == 0 {
        return Err(invalid("Missing or empty 'clipIds' array"));
    }
    let ghost wanted = texts(clip_ids@);
    let mut i: usize = 0;
    while i < clip_ids.len()
        invariant
            i <= clip_ids@.len(),
            clip_ids@.len() > 0,
            wanted == texts(clip_ids@),
            state@ == old(state)@,
            missing_clip(state@.timeline, wanted, 0) == missing_clip(
                state@.timeline,
                wanted,
                i as int,
            ),
        decreases clip_ids@.len() - i,
    {
        if let Err(e) = require_clip(&state.timeline, clip_ids[i].as_str()) {
            return Err(e);
        }
        i += 1;
    }
    let expanded = expand_to_link_group(&state.timeline, &clip_ids);
    let mut timeline = state.timeline.copy();
    remove_clips_from(&mut timeline, &expanded);
    prune_empty_tracks(&mut timeline);
    let count: usize = expanded.len();
    assert(texts(expanded@).len() == expanded@.len());
    let number = usize_to_text(count);
    let summary = cat3("Removed ", number.as_str(), " clip(s)");
    transact_timeline(
        state,
        if count == 1 {
            "Remove Clip"
        } else {
            "Remove Clips"
        },
        summary.as_str(),
        timeline,
        expanded,
        registry_fault,
    )
}

/// The clips that show none of the given media.
pub open spec fn clips_off(clips: Seq<ClipView>, refs: Set<Seq<char>>) -> Seq<ClipView>
    decreases clips.len(),
{
    if clips.len() == 0 {
        Seq::empty()
    } else {
        let rest = clips_off(clips.drop_last(), refs);
        if refs.contains(clips.last().media_ref) {
            rest
        } else {
            rest.push(clips.last())
        }
    }
}

/// The timeline without the clips that show one of the given media, in nested
/// sequences too.
pub open spec fn without_media(t: TimelineView, refs: Set<Seq<char>>) -> TimelineView
    decreases t,
{
    TimelineView {
        tracks: t.tracks.map_values(
            |track: TrackView| TrackView { clips: clips_off(track.clips, refs), ..track },
        ),
        nested_sequences: Seq::new(
            t.nested_sequences.len(),
            |i: int|
                if 0 <= i < t.nested_sequences.len() {
                    NestedSequenceView {
                        timeline: without_media(t.nested_sequences[i].timeline, refs),
                        ..t.nested_sequences[i]
                    }
                } else {
                    arbitrary()
                },
        ),
        ..t
    }
}

/// The media entries with none of the given ids.
pub open spec fn entries_off(
    entries: Seq<MediaManifestEntryView>,
    ids: Set<Seq<char>>,
) -> Seq<MediaManifestEntryView>
    decreases entries.len(),
{
    if entries.len() == 0 {
        Seq::empty()
    } else {
        let rest = entries_off(entries.drop_last(), ids);
        if ids.contains(entries.last().id) {
            rest
        } else {
            rest.push(entries.last())
        }
    }
}

/// The folders with none of the given ids.
pub open spec fn folders_off(
    folders: Seq<MediaFolderView>,
    ids: Set<Seq<char>>,
) -> Seq<MediaFolderView>
    decreases folders.len(),
{
    if folders.len() == 0 {
        Seq::empty()
    } else {
        let rest = folders_off(folders.drop_last(), ids);
        if ids.contains(folders.last().id) {
            rest
        } else {
            rest.push(folders.last())
        }
    }
}

/// Whether at most `n` steps up from a folder lead to one of the given ones.
pub open spec fn descends(
    folders: Seq<MediaFolderView>,
    roots: Seq<Seq<char>>,
    id: Seq<char>,
    n: nat,
) -> bool
    decreases n,
{
    roots.contains(id) || (n > 0 && exists|i: int|
        0 <= i < folders.len() && (#[trigger] folders[i]).id == id
            && folders[i].parent_folder_id is Some && descends(
            folders,
            roots,
            folders[i].parent_folder_id->0,
            (n - 1) as nat,
        ))
}

/// The given folders and all folders below them.
pub open spec fn folder_trees(folders: Seq<MediaFolderView>, roots: Seq<Seq<char>>) -> Set<
    Seq<char>,
> {
    Set::new(|id: Seq<char>| exists|n: nat| descends(folders, roots, id, n))
}

/// The ids of the media in the given folders.
pub open spec fn filed_in(entries: Seq<MediaManifestEntryView>, folders: Set<Seq<char>>) -> Set<
    Seq<char>,
> {
    Set::new(
        |id: Seq<char>|
            exists|i: int|
                0 <= i < entries.len() && (#[trigger] entries[i]).id == id
                    && entries[i].folder_id is Some && folders.contains(entries[i].folder_id->0),
    )
}

/// A folder below one that is deleted is deleted too.
pub proof fn law_folder_trees_are_whole(
    folders: Seq<MediaFolderView>,
    roots: Seq<Seq<char>>,
    i: int,
)
    requires
        0 <= i < folders.len(),
        folders[i].parent_folder_id is Some,
        folder_trees(folders, roots).contains(folders[i].parent_folder_id->0),
    ensures
        folder_trees(folders, roots).contains(folders[i].id),
{
    let n = choose|n: nat| descends(folders, roots, folders[i].parent_folder_id->0, n);
    assert(descends(folders, roots, folders[i].id, n + 1));
}

/// No clip that shows deleted media stays on the root timeline.
pub proof fn law_no_clip_shows_deleted_media(
    t: TimelineView,
    refs: Set<Seq<char>>,
    ti: int,
    ci: int,
)
    requires
        0 <= ti < t.tracks.len(),
        0 <= ci < without_media(t, refs).tracks[ti].clips.len(),
    ensures
        !refs.contains(without_media(t, refs).tracks[ti].clips[ci].media_ref),
{
    lemma_clips_off(t.tracks[ti].clips, refs, ci);
}

proof fn lemma_clips_off(clips: Seq<ClipView>, refs: Set<Seq<char>>, ci: int)
    requires
        0 <= ci < clips_off(clips, refs).len(),
    ensures
        !refs.contains(clips_off(clips, refs)[ci].media_ref),
    decreases clips.len(),
{
    if clips.len() > 0 {
        let rest = clips_off(clips.drop_last(), refs);
        if ci < rest.len() {
            lemma_clips_off(clips.drop_last(), refs, ci);
        }
    }
}

/// Deleting media with the clips that show them.
pub open spec fn delete_media_spec(
    s: StateView,
    asset_ids: Seq<Seq<char>>,
    registry_fault: Option<Seq<char>>,
) -> (Result<EditResultView, Fault>, StateView) {
    if asset_ids.len() == 0 {
        (Err(Fault::Invalid("assetIds is required"@)), s)
    } else {
        match missing_media(s.manifest.entries, asset_ids, 0) {
            Some(id) => (Err(asset_not_found(id)), s),
            None => transacted(
                s,
                "Delete Media"@,
                "Deleted "@ + nat_text(asset_ids.len())
                    + " asset(s). Any clips referencing them were removed from the timeline."@,
                Ok(
                    WorkView {
                        timeline: without_media(s.timeline, asset_ids.to_set()),
                        manifest: MediaManifestView {
                            entries: entries_off(s.manifest.entries, asset_ids.to_set()),
                            ..s.manifest
                        },
                        affected: Seq::empty(),
                    },
                ),
                registry_fault,
            ),
        }
    }
}

/// Deleting folders with the folders and media in them, and the clips that show
/// those media.
pub open spec fn delete_folder_spec(
    s: StateView,
    folder_ids: Seq<Seq<char>>,
    registry_fault: Option<Seq<char>>,
) -> (Result<EditResultView, Fault>, StateView) {
    if folder_ids.len() == 0 {
        (Err(Fault::Invalid("folderIds is required"@)), s)
    } else {
        match missing_folder(s.manifest.folders, folder_ids, 0) {
            Some(id) => (Err(folder_not_found(id)), s),
            None => {
                let gone = folder_trees(s.manifest.folders, folder_ids);
                let media = filed_in(s.manifest.entries, gone);
                transacted(
                    s,
                    "Delete Folder"@,
                    "Deleted "@ + nat_text(folder_ids.len())
                        + " folder(s) with their contents. Any clips referencing deleted assets were removed from the timeline."@,
                    Ok(
                        WorkView {
                            timeline: without_media(s.timeline, media),
                            manifest: MediaManifestView {
                                entries: entries_off(s.manifest.entries, media),
                                folders: folders_off(s.manifest.folders, gone),
                            },
                            affected: Seq::empty(),
                        },
                    ),
                    registry_fault,
                )
            },
        }
    }
}

fn keep_clips_off(clips: &Vec<Clip>, refs: &Vec<String>) -> (r: Vec<Clip>)
    ensures
        clip_views(r@) == clips_off(clip_views(clips@), texts(refs@).to_set()),
{
    let ghost views = clip_views(clips@);
    let ghost gone = texts(refs@).to_set();
    let mut out: Vec<Clip> = Vec::new();
    let mut i: usize = 0;
    proof {
        assert(clip_views(out@) =~= Seq::empty());
        assert(views.take(0) =~= Seq::empty());
    }
    while i < clips.len()
        invariant
            i <= clips@.len(),
            views == clip_views(clips@),
            gone == texts(refs@).to_set(),
            clip_views(out@) == clips_off(views.take(i as int), gone),
        decreases clips@.len() - i,
    {
        let ghost before = clip_views(out@);
        assert(views.take(i as int + 1).drop_last() =~= views.take(i as int));
        if !listed(refs, clips[i].media_ref.as_str()) {
            out.push(clips[i].copy());
            assert(clip_views(out@) =~= before.push(views[i as int]));
        }
        i += 1;
    }
    assert(views.take(i as int) =~= views);
    out
}

/// Takes the clips that show one of the given media off a timeline and those
/// nested in it.
pub fn remove_media_from(timeline: &mut Timeline, refs: &Vec<String>)
    ensures
        final(timeline)@ == without_media(old(timeline)@, texts(refs@).to_set()),
    decreases *old(timeline),
{
    let ghost before = *timeline;
    let ghost gone = texts(refs@).to_set();
    let ghost expected = without_media(before@, gone);
    proof {
        lemma_nested_views(before);
    }
    let mut i: usize = 0;
    while i < timeline.nested_sequences.len()
        invariant
            i <= timeline.nested_sequences@.len(),
            before == *old(timeline),
            gone == texts(refs@).to_set(),
            expected == without_media(before@, gone),
            before@.nested_sequences == nested_sequence_views(before.nested_sequences@),
            timeline.nested_sequences@.len() == before.nested_sequences@.len(),
            timeline.fps == before.fps,
            timeline.width == before.width,
            timeline.height == before.height,
            timeline.settings_configured == before.settings_configured,
            timeline.tracks == before.tracks,
            timeline.script_assembly_plans == before.script_assembly_plans,
            timeline.voice_models == before.voice_models,
            forall|k: int|
                0 <= k < i ==> (#[trigger] timeline.nested_sequences@[k])@
                    == expected.nested_sequences[k],
            forall|k: int|
                i <= k < before.nested_sequences@.len() ==> #[trigger] timeline.nested_sequences@[k]
                    == before.nested_sequences@[k],
        decreases timeline.nested_sequences@.len() - i,
    {
        assert(before@.nested_sequences[i as int] == before.nested_sequences@[i as int]@);
        assert(decreases_to!(before => before.nested_sequences@[i as int].timeline));
        remove_media_from(&mut timeline.nested_sequences[i].timeline, refs);
        i += 1;
    }
    let ghost middle = *timeline;
    proof {
        lemma_nested_views(middle);
        assert(middle@.nested_sequences =~= expected.nested_sequences);
    }
    let mut j: usize = 0;
    while j < timeline.tracks.len()
        invariant
            j <= timeline.tracks@.len(),
            gone == texts(refs@).to_set(),
            expected == without_media(before@, gone),
            middle.tracks == before.tracks,
            timeline.tracks@.len() == before.tracks@.len(),
            timeline.fps == before.fps,
            timeline.width == before.width,
            timeline.height == before.height,
            timeline.settings_configured == before.settings_configured,
            timeline.nested_sequences == middle.nested_sequences,
            timeline.script_assembly_plans == before.script_assembly_plans,
            timeline.voice_models == before.voice_models,
            forall|k: int|
                0 <= k < j ==> (#[trigger] timeline.tracks@[k])@ == expected.tracks[k],
            forall|k: int|
                j <= k < before.tracks@.len() ==> #[trigger] timeline.tracks@[k]
                    == before.tracks@[k],
        decreases timeline.tracks@.len() - j,
    {
        assert(before@.tracks[j as int] == before.tracks@[j as int]@);
        let kept = keep_clips_off(&timeline.tracks[j].clips, refs);
        timeline.tracks[j].clips = kept;
        assert(timeline.tracks@[j as int]@ =~= expected.tracks[j as int]);
        j += 1;
    }
    proof {
        lemma_nested_views(*timeline);
        assert(timeline@.tracks =~= expected.tracks);
        assert(timeline@.nested_sequences =~= middle@.nested_sequences);
        assert(timeline@ =~= expected);
    }
}

fn keep_entries_off(entries: &Vec<MediaManifestEntry>, ids: &Vec<String>) -> (r: Vec<
    MediaManifestEntry,
>)
    ensures
        media_manifest_entry_views(r@) == entries_off(
            media_manifest_entry_views(entries@),
            texts(ids@).to_set(),
        ),
{
    let ghost views = media_manifest_entry_views(entries@);
    let ghost gone = texts(ids@).to_set();
    let mut out: Vec<MediaManifestEntry> = Vec::new();
    let mut i: usize = 0;
    proof {
        assert(media_manifest_entry_views(out@) =~= Seq::empty());
        assert(views.take(0) =~= Seq::empty());
    }
    while i < entries.len()
        invariant
            i <= entries@.len(),
            views == media_manifest_entry_views(entries@),
            gone == texts(ids@).to_set(),
            media_manifest_entry_views(out@) == entries_off(views.take(i as int), gone),
        decreases entries@.len() - i,
    {
        let ghost before = media_manifest_entry_views(out@);
        assert(views.take(i as int + 1).drop_last() =~= views.take(i as int));
        if !listed(ids, entries[i].id.as_str()) {
            out.push(entries[i].copy());
            assert(media_manifest_entry_views(out@) =~= before.push(views[i as int]));
        }
        i += 1;
    }
    assert(views.take(i as int) =~= views);
    out
}

fn keep_folders_off(folders: &Vec<MediaFolder>, ids: &Vec<String>) -> (r: Vec<MediaFolder>)
    ensures
        media_folder_views(r@) == folders_off(
            media_folder_views(folders@),
            texts(ids@).to_set(),
        ),
{
    let ghost views = media_folder_views(folders@);
    let ghost gone = texts(ids@).to_set();
    let mut out: Vec<MediaFolder> = Vec::new();
    let mut i: usize = 0;
    proof {
        assert(media_folder_views(out@) =~= Seq::empty());
        assert(views.take(0) =~= Seq::empty());
    }
    while i < folders.len()
        invariant
            i <= folders@.len(),
            views == media_folder_views(folders@),
            gone == texts(ids@).to_set(),
            media_folder_views(out@) == folders_off(views.take(i as int), gone),
        decreases folders@.len() - i,
    {
        let ghost before = media_folder_views(out@);
        assert(views.take(i as int + 1).drop_last() =~= views.take(i as int));
        if !listed(ids, folders[i].id.as_str()) {
            out.push(folders[i].copy());
            assert(media_folder_views(out@) =~= before.push(views[i as int]));
        }
        i += 1;
    }
    assert(views.take(i as int) =~= views);
    out
}

/// Deletes media assets and the clips that show them.
pub fn delete_media(
    state: &mut EditorState,
    asset_ids: Vec<String>,
    registry_fault: &Option<String>,
) -> (r: Result<EditResult, EditError>)
    requires
        old(state)@.version < u64::MAX,
    ensures
        (outcome(r), final(state)@) == delete_media_spec(
            old(state)@,
            texts(asset_ids@),
            opt_text(*registry_fault),
        ),
{
    if asset_ids.len() == 0 {
        return Err(invalid("assetIds is required"));
    }
    let ghost wanted = texts(asset_ids@);
    let mut i: usize = 0;
    while i < asset_ids.len()
        invariant
            i <= asset_ids@.len(),
            asset_ids@.len() > 0,
            wanted == texts(asset_ids@),
            state@ == old(state)@,
            missing_media(state@.manifest.entries, wanted, 0) == missing_media(
                state@.manifest.entries,
                wanted,
                i as int,
            ),
        decreases asset_ids@.len() - i,
    {
        if find_media(&state.manifest, asset_ids[i].as_str()).is_none() {
            return Err(EditError::Invalid(cat2("Media asset not found: ", asset_ids[i].as_str())));
        }
        i += 1;
    }
    let mut timeline = state.timeline.copy();
    remove_media_from(&mut timeline, &asset_ids);
    let mut manifest = state.manifest.copy();
    manifest.entries = keep_entries_off(&manifest.entries, &asset_ids);
    let count = usize_to_text(asset_ids.len());
    let summary = cat3(
        "Deleted ",
        count.as_str(),
        " asset(s). Any clips referencing them were removed from the timeline.",
    );
    let affected: Vec<String> = Vec::new();
    assert(texts(affected@) =~= Seq::empty());
    transact(
        state,
        "Delete Media",
        summary.as_str(),
        Ok(Work { timeline, manifest, affected }),
        registry_fault,
    )
}

/// A closed list holds every folder below its members.
proof fn lemma_trees_covered(
    folders: Seq<MediaFolderView>,
    roots: Seq<Seq<char>>,
    list: Seq<Seq<char>>,
    id: Seq<char>,
    n: nat,
)
    requires
        forall|x: Seq<char>| roots.contains(x) ==> list.contains(x),
        forall|i: int|
            0 <= i < folders.len() && (#[trigger] folders[i]).parent_folder_id is Some
                && list.contains(folders[i].parent_folder_id->0) ==> list.contains(folders[i].id),
        descends(folders, roots, id, n),
    ensures
        list.contains(id),
    decreases n,
{
    if !roots.contains(id) {
        let i = choose|i: int|
            0 <= i < folders.len() && (#[trigger] folders[i]).id == id
                && folders[i].parent_folder_id is Some && descends(
                folders,
                roots,
                folders[i].parent_folder_id->0,
                (n - 1) as nat,
            );
        lemma_trees_covered(
            folders,
            roots,
            list,
            folders[i].parent_folder_id->0,
            (n - 1) as nat,
        );
    }
}

/// Finds a folder, among those not taken yet, whose parent is on the list.
fn find_child(folders: &Vec<MediaFolder>, rest: &Vec<usize>, list: &Vec<String>) -> (r: Option<
    usize,
>)
    requires
        forall|k: int| 0 <= k < rest@.len() ==> (#[trigger] rest@[k]) < folders@.len(),
    ensures
        match r {
            Some(k) => k < rest@.len() && folders@[rest@[k as int] as int]@.parent_folder_id is Some
                && texts(list@).contains(
                folders@[rest@[k as int] as int]@.parent_folder_id->0,
            ),
            None => forall|k: int|
                0 <= k < rest@.len() ==> {
                    let f = folders@[#[trigger] rest@[k] as int]@;
                    f.parent_folder_id is Some ==> !texts(list@).contains(f.parent_folder_id->0)
                },
        },
{
    let mut k: usize = 0;
    while k < rest.len()
        invariant
            k <= rest@.len(),
            forall|j: int| 0 <= j < rest@.len() ==> (#[trigger] rest@[j]) < folders@.len(),
            forall|j: int|
                0 <= j < k ==> {
                    let f = folders@[#[trigger] rest@[j] as int]@;
                    f.parent_folder_id is Some ==> !texts(list@).contains(f.parent_folder_id->0)
                },
        decreases rest@.len() - k,
    {
        let folder = &folders[rest[k]];
        if let Some(parent) = &folder.parent_folder_id {
            if listed(list, parent.as_str()) {
                return Some(k);
            }
        }
        k += 1;
    }
    None
}

/// The given folders and all folders below them.
fn gather_trees(folders: &Vec<MediaFolder>, roots: &Vec<String>) -> (r: Vec<String>)
    ensures
        texts(r@).to_set() == folder_trees(media_folder_views(folders@), texts(roots@)),
{
    let ghost views = media_folder_views(folders@);
    let ghost start = texts(roots@);
    let ghost whole = folder_trees(views, start);
    let mut list = copy_texts(roots);
    let mut rest: Vec<usize> = Vec::new();
    let mut i: usize = 0;
    while i < folders.len()
        invariant
            i <= folders@.len(),
            rest@.len() == i,
            forall|k: int| 0 <= k < i ==> (#[trigger] rest@[k]) == k,
        decreases folders@.len() - i,
    {
        rest.push(i);
        i += 1;
    }
    proof {
        assert forall|x: Seq<char>| start.contains(x) implies whole.contains(x) by {
            assert(descends(views, start, x, 0));
        }
        assert forall|f: int| 0 <= f < views.len() implies texts(list@).contains(
            (#[trigger] views[f]).id,
        ) || exists|k: int| 0 <= k < rest@.len() && #[trigger] rest@[k] == f by {
            assert(rest@[f] == f);
        }
    }
    loop
        invariant
            views == media_folder_views(folders@),
            start == texts(roots@),
            whole == folder_trees(views, start),
            forall|x: Seq<char>| start.contains(x) ==> texts(list@).contains(x),
            forall|x: Seq<char>| texts(list@).contains(x) ==> whole.contains(x),
            forall|k: int| 0 <= k < rest@.len() ==> (#[trigger] rest@[k]) < folders@.len(),
            forall|f: int|
                0 <= f < views.len() ==> texts(list@).contains((#[trigger] views[f]).id) || exists|
                    k: int,
                |
                    0 <= k < rest@.len() && #[trigger] rest@[k] == f,
        ensures
            forall|x: Seq<char>| start.contains(x) ==> texts(list@).contains(x),
            forall|x: Seq<char>| texts(list@).contains(x) ==> whole.contains(x),
            forall|f: int|
                0 <= f < views.len() && (#[trigger] views[f]).parent_folder_id is Some && texts(
                    list@,
                ).contains(views[f].parent_folder_id->0) ==> texts(list@).contains(views[f].id),
        decreases rest@.len(),
    {
        match find_child(folders, &rest, &list) {
            None => {
                break;
            },
            Some(k) => {
                let ghost old_rest = rest@;
                let ghost old_list = texts(list@);
                let f: usize = rest[k];
                rest.remove(k);
                let id = folders[f].id.clone();
                list.push(id);
                proof {
                    assert(texts(list@) =~= old_list.push(id@));
                    assert(views[f as int].id == id@);
                    law_folder_trees_are_whole(views, start, f as int);
                    assert forall|x: Seq<char>| start.contains(x) implies texts(list@).contains(
                        x,
                    ) by {
                        let p = old_list.index_of(x);
                        assert(texts(list@)[p] == x);
                    }
                    assert forall|x: Seq<char>| texts(list@).contains(x) implies whole.contains(
                        x,
                    ) by {
                        let p = texts(list@).index_of(x);
                        if p < old_list.len() {
                            assert(old_list[p] == x);
                        }
                    }
                    assert forall|g: int| 0 <= g < views.len() implies texts(list@).contains(
                        (#[trigger] views[g]).id,
                    ) || exists|k2: int| 0 <= k2 < rest@.len() && #[trigger] rest@[k2] == g by {
                        if g == f {
                            assert(texts(list@)[old_list.len() as int] == id@);
                        } else if old_list.contains(views[g].id) {
                            let p = old_list.index_of(views[g].id);
                            assert(texts(list@)[p] == views[g].id);
                        } else {
                            let k2 = choose|k2: int|
                                0 <= k2 < old_rest.len() && #[trigger] old_rest[k2] == g;
                            if k2 < k {
                                assert(rest@[k2] == g);
                            } else {
                                assert(rest@[k2 - 1] == g);
                            }
                        }
                    }
                }
            },
        }
    }
    proof {
        assert forall|x: Seq<char>| whole.contains(x) implies texts(list@).contains(x) by {
            let n = choose|n: nat| descends(views, start, x, n);
            lemma_trees_covered(views, start, texts(list@), x, n);
        }
        assert(texts(list@).to_set() =~= whole);
    }
    list
}

/// The ids of the media in the given folders.
fn gather_media(entries: &Vec<MediaManifestEntry>, folders: &Vec<String>) -> (r: Vec<String>)
    ensures
        texts(r@).to_set() == filed_in(
            media_manifest_entry_views(entries@),
            texts(folders@).to_set(),
        ),
{
    let ghost views = media_manifest_entry_views(entries@);
    let ghost inside = texts(folders@).to_set();
    let mut out: Vec<String> = Vec::new();
    let mut i: usize = 0;
    assert(texts(out@) =~= Seq::empty());
    while i < entries.len()
        invariant
            i <= entries@.len(),
            views == media_manifest_entry_views(entries@),
            inside == texts(folders@).to_set(),
            forall|k: int|
                0 <= k < i && (#[trigger] views[k]).folder_id is Some && inside.contains(
                    views[k].folder_id->0,
                ) ==> texts(out@).contains(views[k].id),
            forall|x: Seq<char>| texts(out@).contains(x) ==> filed_in(views, inside).contains(x),
        decreases entries@.len() - i,
    {
        let ghost before = texts(out@);
        let entry = &entries[i];
        let filed = match &entry.folder_id {
            Some(folder) => listed(folders, folder.as_str()),
            None => false,
        };
        if filed {
            out.push(entry.id.clone());
            proof {
                assert(texts(out@) =~= before.push(views[i as int].id));
                assert forall|k: int|
                    0 <= k < i + 1 && (#[trigger] views[k]).folder_id is Some && inside.contains(
                        views[k].folder_id->0,
                    ) implies texts(out@).contains(views[k].id) by {
                    if k < i {
                        let p = before.index_of(views[k].id);
                        assert(texts(out@)[p] == views[k].id);
                    } else {
                        assert(texts(out@)[before.len() as int] == views[k].id);
                    }
                }
                assert forall|x: Seq<char>| texts(out@).contains(x) implies filed_in(
                    views,
                    inside,
                ).contains(x) by {
                    let p = texts(out@).index_of(x);
                    if p < before.len() {
                        assert(before[p] == x);
                    } else {
                        assert(views[i as int].id == x);
                    }
                }
            }
        }
        i += 1;
    }
    assert(texts(out@).to_set() =~= filed_in(views, inside));
    out
}

/// Deletes folders with all that is in them, and the clips that show deleted
/// media.
pub fn delete_folder(
    state: &mut EditorState,
    folder_ids: Vec<String>,
    registry_fault: &Option<String>,
) -> (r: Result<EditResult, EditError>)
    requires
        old(state)@.version < u64::MAX,
    ensures
        (outcome(r), final(state)@) == delete_folder_spec(
            old(state)@,
            texts(folder_ids@),
            opt_text(*registry_fault),
        ),
{
    if folder_ids.len() == 0 {
        return Err(invalid("folderIds is required"));
    }
    let ghost wanted = texts(folder_ids@);
    let mut i: usize = 0;
    while i < folder_ids.len()
        invariant
            i <= folder_ids@.len(),
            folder_ids@.len() > 0,
            wanted == texts(folder_ids@),
            state@ == old(state)@,
            missing_folder(state@.manifest.folders, wanted, 0) == missing_folder(
                state@.manifest.folders,
                wanted,
                i as int,
            ),
        decreases folder_ids@.len() - i,
    {
        if find_folder(&state.manifest, folder_ids[i].as_str()).is_none() {
            return Err(EditError::Invalid(cat2("folderId not found: ", folder_ids[i].as_str())));
        }
        i += 1;
    }
    let gone = gather_trees(&state.manifest.folders, &folder_ids);
    let media = gather_media(&state.manifest.entries, &gone);
    let mut timeline = state.timeline.copy();
    remove_media_from(&mut timeline, &media);
    let manifest = MediaManifest {
        entries: keep_entries_off(&state.manifest.entries, &media),
        folders: keep_folders_off(&state.manifest.folders, &gone),
    };
    let count = usize_to_text(folder_ids.len());
    let summary = cat3(
        "Deleted ",
        count.as_str(),
        " folder(s) with their contents. Any clips referencing deleted assets were removed from the timeline.",
    );
    let affected: Vec<String> = Vec::new();
    assert(texts(affected@) =~= Seq::empty());
    transact(
        state,
        "Delete Folder",
        summary.as_str(),
        Ok(Work { timeline, manifest, affected }),
        registry_fault,
    )
}

} // verus!
