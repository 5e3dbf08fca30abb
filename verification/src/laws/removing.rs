//! What is left once clips, media or folders are removed.

use crate::app_core::batch::filed;
use crate::arrange::without_clips;
use crate::arrange::without_empty_tracks;
use crate::commands::library::missing_media;
use crate::commands::removal::clips_off;
use crate::commands::removal::delete_folder_spec;
use crate::commands::removal::delete_media_spec;
use crate::commands::removal::descends;
use crate::commands::removal::entries_off;
use crate::commands::removal::filed_in;
use crate::commands::removal::folder_trees;
use crate::commands::removal::folders_off;
use crate::commands::removal::remove_clips_spec;
use crate::commands::removal::without_media;
use crate::laws::arranging::law_clips_are_taken_out_by_id;
use crate::laws::arranging::law_empty_tracks_are_dropped;
use crate::laws::document::has_clip;
use crate::laws::document::has_entry;
use crate::laws::document::law_media_are_found_by_id;
use crate::laws::document::law_pruning_changes_transitions_alone;
use crate::laws::document::same_timeline;
use crate::laws::linking::law_missing_clips_are_told;
use crate::laws::linking::law_selections_expand_to_their_links;
use crate::laws::linking::taken_along;
use crate::links::link_expanded;
use crate::model::ClipView;
use crate::model::MediaFolderView;
use crate::model::MediaManifestEntryView;
use crate::model::MediaManifestView;
use crate::model::NestedSequenceView;
use crate::model::TimelineView;
use crate::model::TrackView;
use crate::state::StateView;
use crate::transitions::pruned;
use vstd::prelude::*;

verus! {

/// The tracks without the clips that go with a selection, and without the tracks that
/// are left empty.
pub open spec fn rest_of(t: TimelineView, ids: Seq<Seq<char>>) -> TimelineView {
    TimelineView {
        tracks: t.tracks.map_values(
            |track: TrackView|
                TrackView {
                    clips: track.clips.filter(|c: ClipView| !taken_along(t, ids, c.id)),
                    ..track
                },
        ).filter(|track: TrackView| track.clips.len() > 0),
        ..t
    }
}

/// Removing clips removes the named ones and all that are linked to them, and no
/// others; tracks that are left empty go, all else stays, but for transitions. All named
/// clips have to be there.
pub proof fn law_clips_are_removed_with_their_links(
    s: StateView,
    ids: Seq<Seq<char>>,
    registry_fault: Option<Seq<char>>,
)
    ensures
        ({
            let (r, next) = remove_clips_spec(s, ids, registry_fault);
            &&& r is Err ==> next == s
            &&& ids.len() == 0 || (exists|k: int|
                0 <= k < ids.len() && !has_clip(s.timeline, #[trigger] ids[k])) ==> r is Err
            &&& r is Ok ==> next.manifest == s.manifest && same_timeline(
                rest_of(s.timeline, ids),
                next.timeline,
            )
        }),
{
    let t = s.timeline;
    let (r, next) = remove_clips_spec(s, ids, registry_fault);
    law_missing_clips_are_told(t, ids, 0);
    let all = link_expanded(t, ids);
    let left = without_clips(t, all);
    if r is Ok {
        assert(next.timeline == pruned(without_empty_tracks(left)));
        law_pruning_changes_transitions_alone(without_empty_tracks(left));
        law_empty_tracks_are_dropped(left);
        let kept = |c: ClipView| !all.contains(c.id);
        let stays = |c: ClipView| !taken_along(t, ids, c.id);
        assert forall|c: ClipView| #[trigger] kept(c) == stays(c) by {
            law_selections_expand_to_their_links(t, ids, c.id);
        }
        assert(kept =~= stays);
        let mapped = t.tracks.map_values(
            |track: TrackView|
                TrackView {
                    clips: track.clips.filter(|c: ClipView| !taken_along(t, ids, c.id)),
                    ..track
                },
        );
        assert forall|i: int| 0 <= i < t.tracks.len() implies left.tracks[i] == mapped[i] by {
            law_clips_are_taken_out_by_id(t, all, i);
        }
        assert(left.tracks =~= mapped);
        assert(without_empty_tracks(left) =~= rest_of(t, ids));
    }
}

proof fn lemma_off(clips: Seq<ClipView>, refs: Set<Seq<char>>)
    ensures
        clips_off(clips, refs) == clips.filter(|c: ClipView| !refs.contains(c.media_ref)),
    decreases clips.len(),
{
    reveal(Seq::filter);
    let keep = |c: ClipView| !refs.contains(c.media_ref);
    if clips.len() > 0 {
        lemma_off(clips.drop_last(), refs);
    } else {
        assert(clips.filter(keep) =~= Seq::empty());
    }
}

proof fn lemma_entries_off(entries: Seq<MediaManifestEntryView>, ids: Set<Seq<char>>)
    ensures
        entries_off(entries, ids) == entries.filter(
            |e: MediaManifestEntryView| !ids.contains(e.id),
        ),
    decreases entries.len(),
{
    reveal(Seq::filter);
    let keep = |e: MediaManifestEntryView| !ids.contains(e.id);
    if entries.len() > 0 {
        lemma_entries_off(entries.drop_last(), ids);
    } else {
        assert(entries.filter(keep) =~= Seq::empty());
    }
}

proof fn lemma_folders_off(folders: Seq<MediaFolderView>, ids: Set<Seq<char>>)
    ensures
        folders_off(folders, ids) == folders.filter(|f: MediaFolderView| !ids.contains(f.id)),
    decreases folders.len(),
{
    reveal(Seq::filter);
    let keep = |f: MediaFolderView| !ids.contains(f.id);
    if folders.len() > 0 {
        lemma_folders_off(folders.drop_last(), ids);
    } else {
        assert(folders.filter(keep) =~= Seq::empty());
    }
}

/// Taking media off a timeline leaves on every track exactly the clips of other media,
/// in order, and does the same in every nested sequence; tracks stay though empty.
pub proof fn law_media_are_taken_off(t: TimelineView, refs: Set<Seq<char>>)
    ensures
        ({
            let u = without_media(t, refs);
            &&& u == (TimelineView {
                tracks: u.tracks,
                nested_sequences: u.nested_sequences,
                ..t
            })
            &&& u.tracks == t.tracks.map_values(
                |track: TrackView|
                    TrackView {
                        clips: track.clips.filter(|c: ClipView| !refs.contains(c.media_ref)),
                        ..track
                    },
            )
            &&& u.nested_sequences.len() == t.nested_sequences.len()
            &&& forall|k: int|
                0 <= k < t.nested_sequences.len() ==> #[trigger] u.nested_sequences[k] == (
                NestedSequenceView {
                    timeline: without_media(t.nested_sequences[k].timeline, refs),
                    ..t.nested_sequences[k]
                })
        }),
{
    let u = without_media(t, refs);
    let mapped = t.tracks.map_values(
        |track: TrackView|
            TrackView {
                clips: track.clips.filter(|c: ClipView| !refs.contains(c.media_ref)),
                ..track
            },
    );
    assert forall|i: int| 0 <= i < t.tracks.len() implies u.tracks[i] == mapped[i] by {
        lemma_off(t.tracks[i].clips, refs);
    }
    assert(u.tracks =~= mapped);
}

proof fn lemma_missing_media(
    entries: Seq<MediaManifestEntryView>,
    ids: Seq<Seq<char>>,
    from: int,
)
    requires
        0 <= from,
    ensures
        missing_media(entries, ids, from) is None <==> forall|k: int|
            from <= k < ids.len() ==> has_entry(
                MediaManifestView { entries, folders: Seq::empty() },
                #[trigger] ids[k],
            ),
    decreases ids.len() - from,
{
    if from < ids.len() {
        lemma_missing_media(entries, ids, from + 1);
        law_media_are_found_by_id(
            MediaManifestView { entries, folders: Seq::empty() },
            ids[from],
            0,
        );
    }
}

/// Deleting media takes exactly the named entries out of the library and the clips that
/// show them off the timeline and its nested sequences; folders and all else stay. All
/// named media have to be there.
pub proof fn law_media_are_deleted_with_their_clips(
    s: StateView,
    ids: Seq<Seq<char>>,
    registry_fault: Option<Seq<char>>,
)
    ensures
        ({
            let (r, next) = delete_media_spec(s, ids, registry_fault);
            &&& r is Err ==> next == s
            &&& r is Ok ==> ids.len() > 0
            &&& r is Ok ==> forall|k: int|
                0 <= k < ids.len() ==> has_entry(
                    MediaManifestView {
                        entries: s.manifest.entries,
                        folders: Seq::empty(),
                    },
                    #[trigger] ids[k],
                )
            &&& r is Ok ==> next.manifest.entries == s.manifest.entries.filter(
                |e: MediaManifestEntryView| !ids.contains(e.id),
            )
            &&& r is Ok ==> next.manifest.folders == s.manifest.folders
            &&& r is Ok ==> same_timeline(without_media(s.timeline, ids.to_set()), next.timeline)
        }),
{
    let (r, next) = delete_media_spec(s, ids, registry_fault);
    lemma_missing_media(s.manifest.entries, ids, 0);
    if r is Ok {
        let off = ids.to_set();
        lemma_entries_off(s.manifest.entries, off);
        let a = |e: MediaManifestEntryView| !off.contains(e.id);
        let b = |e: MediaManifestEntryView| !ids.contains(e.id);
        assert forall|e: MediaManifestEntryView| #[trigger] a(e) == b(e) by {
            broadcast use vstd::seq_lib::group_seq_properties;

        }
        assert(a =~= b);
        law_pruning_changes_transitions_alone(without_media(s.timeline, off));
    }
}

/// Deleting folders takes exactly the folders of their trees out of the library, with the
/// media filed in them and the clips that show these; all else stays.
pub proof fn law_folders_are_deleted_with_their_contents(
    s: StateView,
    ids: Seq<Seq<char>>,
    registry_fault: Option<Seq<char>>,
)
    ensures
        ({
            let (r, next) = delete_folder_spec(s, ids, registry_fault);
            let gone = folder_trees(s.manifest.folders, ids);
            let filed = |e: MediaManifestEntryView| e.folder_id is Some && gone.contains(
                e.folder_id->0,
            );
            let lost = |id: Seq<char>|
                exists|i: int|
                    0 <= i < s.manifest.entries.len() && (#[trigger] s.manifest.entries[i]).id == id
                        && filed(s.manifest.entries[i]);
            &&& r is Err ==> next == s
            &&& r is Ok ==> ids.len() > 0
            &&& r is Ok ==> next.manifest.folders == s.manifest.folders.filter(
                |f: MediaFolderView| !gone.contains(f.id),
            )
            &&& r is Ok ==> next.manifest.entries == s.manifest.entries.filter(
                |e: MediaManifestEntryView| !lost(e.id),
            )
            &&& r is Ok ==> same_timeline(
                without_media(s.timeline, Set::new(lost)),
                next.timeline,
            )
            &&& forall|id: Seq<char>| ids.contains(id) ==> #[trigger] gone.contains(id)
            &&& forall|i: int|
                0 <= i < s.manifest.folders.len() && (
                #[trigger] s.manifest.folders[i]).parent_folder_id is Some && gone.contains(
                    s.manifest.folders[i].parent_folder_id->0,
                ) ==> gone.contains(s.manifest.folders[i].id)
        }),
{
    let (r, next) = delete_folder_spec(s, ids, registry_fault);
    let folders = s.manifest.folders;
    let gone = folder_trees(folders, ids);
    let filed = |e: MediaManifestEntryView| e.folder_id is Some && gone.contains(e.folder_id->0);
    let lost = |id: Seq<char>|
        exists|i: int|
            0 <= i < s.manifest.entries.len() && (#[trigger] s.manifest.entries[i]).id == id
                && filed(s.manifest.entries[i]);
    let media = filed_in(s.manifest.entries, gone);
    assert(media =~= Set::new(lost)) by {
        assert forall|id: Seq<char>| media.contains(id) <==> lost(id) by {
            if media.contains(id) {
                let i = choose|i: int|
                    0 <= i < s.manifest.entries.len() && (#[trigger] s.manifest.entries[i]).id == id
                        && s.manifest.entries[i].folder_id is Some && gone.contains(
                        s.manifest.entries[i].folder_id->0,
                    );
                assert(filed(s.manifest.entries[i]));
            }
        }
    }
    assert forall|id: Seq<char>| ids.contains(id) implies #[trigger] gone.contains(id) by {
        assert(descends(folders, ids, id, 0));
    }
    assert forall|i: int|
        0 <= i < folders.len() && (#[trigger] folders[i]).parent_folder_id is Some
            && gone.contains(folders[i].parent_folder_id->0) implies gone.contains(
        folders[i].id,
    ) by {
        let n = choose|n: nat|
            descends(folders, ids, folders[i].parent_folder_id->0, n);
        assert(descends(folders, ids, folders[i].id, n + 1));
    }
    if r is Ok {
        lemma_folders_off(folders, gone);
        lemma_entries_off(s.manifest.entries, media);
        let a = |e: MediaManifestEntryView| !media.contains(e.id);
        let b = |e: MediaManifestEntryView| !lost(e.id);
        assert(a =~= b);
        law_pruning_changes_transitions_alone(without_media(s.timeline, media));
    }
}

} // verus!
