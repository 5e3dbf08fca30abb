//! What clips are taken in, and on which tracks.

use crate::arrange::without_empty_tracks;
use crate::commands::placement::TargetView;
use crate::commands::placement::add_clips_auto_track_spec;
use crate::commands::placement::add_clips_fault;
use crate::commands::placement::add_clips_spec;
use crate::commands::placement::add_clips_to_separate_auto_tracks_spec;
use crate::commands::placement::any_audio;
use crate::commands::placement::any_visual;
use crate::commands::placement::auto_entries_fault;
use crate::commands::placement::entries_fault;
use crate::commands::placement::insert_clips_fault;
use crate::commands::placement::insert_clips_spec;
use crate::commands::placement::inserted_fault;
use crate::commands::placement::on_shared_tracks;
use crate::commands::placement::place_manifest_fault;
use crate::commands::placement::place_media_spec;
use crate::commands::placement::settled;
use crate::commands::placement::shared_count;
use crate::commands::placement::target_fault;
use crate::commands::placement::tidied;
use crate::commands::placement::with_destination;
use crate::commands::placement::with_shared_tracks;
use crate::commands::tracks::lemma_first_audio;
use crate::commands::tracks::track_inserted;
use crate::entries::ClipEntryView;
use crate::entries::ProjectTimelineSettings;
use crate::entries::UnplacedClipEntryView;
use crate::ids::IdsView;
use crate::ids::nth_id;
use crate::laws::arranging::law_empty_tracks_are_dropped;
use crate::laws::document::first_entry;
use crate::laws::document::law_media_are_found_by_id;
use crate::laws::document::law_pruning_changes_transitions_alone;
use crate::laws::document::law_tracks_are_found_by_id;
use crate::laws::document::same_timeline;
use crate::laws::frames::law_timelines_are_checked;
use crate::laws::frames::timeline_holds;
use crate::laws::frames::typed_frames_hold;
use crate::locate::media_index;
use crate::locate::track_index;
use crate::model::ClipType;
use crate::model::MediaManifestView;
use crate::model::Real;
use crate::model::TimelineView;
use crate::model::TrackView;
use crate::state::PlacedView;
use crate::state::StateView;
use crate::transitions::pruned;
use vstd::prelude::*;

verus! {

/// Whether the frame numbers of a clip to be placed hold; trims that are not given are 0.
pub open spec fn entry_holds(e: ClipEntryView) -> bool {
    typed_frames_hold(
        e.start_frame as int,
        e.duration_frames as int,
        if e.trim_start_frame is Some {
            e.trim_start_frame->0 as int
        } else {
            0
        },
        if e.trim_end_frame is Some {
            e.trim_end_frame->0 as int
        } else {
            0
        },
        Real { bits: 0x3FF0_0000_0000_0000 },
        e.media_type,
    )
}

/// Whether a clip may be placed on a timeline: its track is there and takes its kind, and
/// its frame numbers hold.
pub open spec fn may_be_placed(t: TimelineView, e: ClipEntryView) -> bool {
    &&& e.track_index < t.tracks.len()
    &&& (e.media_type is Audio <==> t.tracks[e.track_index as int].kind is Audio)
    &&& entry_holds(e)
}

proof fn lemma_entries(t: TimelineView, entries: Seq<ClipEntryView>, from: int)
    requires
        0 <= from,
    ensures
        entries_fault(t, entries, from) is None <==> forall|k: int|
            from <= k < entries.len() ==> may_be_placed(t, #[trigger] entries[k]),
        auto_entries_fault(entries, from) is None <==> forall|k: int|
            from <= k < entries.len() ==> entry_holds(#[trigger] entries[k]),
    decreases entries.len() - from,
{
    if from < entries.len() {
        lemma_entries(t, entries, from + 1);
    }
}

/// Adding clips is refused, and nothing changed, unless there is one and each may be
/// placed; otherwise the timeline on which they were placed comes in, without the tracks
/// that are empty on it.
pub proof fn law_clips_are_added_where_they_may_stand(
    s: StateView,
    entries: Seq<ClipEntryView>,
    placed: PlacedView,
    registry_fault: Option<Seq<char>>,
)
    ensures
        ({
            let (r, next) = add_clips_spec(s, entries, placed, registry_fault);
            &&& r is Err ==> next == s
            &&& r is Ok ==> {
                &&& entries.len() > 0
                &&& forall|k: int|
                    0 <= k < entries.len() ==> may_be_placed(s.timeline, #[trigger] entries[k])
                &&& next.manifest == s.manifest
                &&& r->Ok_0.affected_clip_ids == placed.affected
                &&& same_timeline(
                    TimelineView {
                        tracks: placed.timeline.tracks.filter(
                            |track: TrackView| track.clips.len() > 0,
                        ),
                        ..placed.timeline
                    },
                    next.timeline,
                )
            }
        }),
        add_clips_fault(s.timeline, entries) is None <==> entries.len() > 0 && forall|k: int|
            0 <= k < entries.len() ==> may_be_placed(s.timeline, #[trigger] entries[k]),
{
    lemma_entries(s.timeline, entries, 0);
    law_empty_tracks_are_dropped(placed.timeline);
    law_pruning_changes_transitions_alone(without_empty_tracks(placed.timeline));
}

/// Adding clips to tracks of their own is refused, and nothing changed, unless there is
/// one and the frame numbers of each hold; otherwise the timeline on which they were
/// placed comes in.
pub proof fn law_clips_are_added_to_new_tracks(
    s: StateView,
    entries: Seq<ClipEntryView>,
    ids: IdsView,
    placed: PlacedView,
    registry_fault: Option<Seq<char>>,
)
    ensures
        ({
            let (r, next) = add_clips_auto_track_spec(s, entries, ids, placed, registry_fault);
            let (q, after) = add_clips_to_separate_auto_tracks_spec(
                s,
                entries,
                ids,
                placed,
                registry_fault,
            );
            let fine = entries.len() > 0 && forall|k: int|
                0 <= k < entries.len() ==> entry_holds(#[trigger] entries[k]);
            &&& r is Err ==> next == s
            &&& q is Err ==> after == s
            &&& !fine ==> r is Err && q is Err
            &&& r is Ok ==> next.manifest == s.manifest && same_timeline(
                placed.timeline,
                next.timeline,
            ) && r->Ok_0.affected_clip_ids == placed.affected
            &&& q is Ok ==> after.manifest == s.manifest && same_timeline(
                placed.timeline,
                after.timeline,
            ) && q->Ok_0.affected_clip_ids == placed.affected
        }),
{
    lemma_entries(s.timeline, entries, 0);
    law_pruning_changes_transitions_alone(placed.timeline);
}

/// Shared tracks: clips of which some are visual get one new video track on top, clips of
/// which some are audio one new audio track at the bottom, all other tracks stay, and
/// every clip is sent to the new track of its kind.
pub proof fn law_clips_of_a_kind_share_a_track(
    t: TimelineView,
    entries: Seq<ClipEntryView>,
    ids: IdsView,
    k: int,
)
    requires
        0 <= k < entries.len(),
        t.tracks.len() + 1 < usize::MAX,
    ensures
        ({
            let u = with_shared_tracks(t, entries, ids);
            let sent = on_shared_tracks(t, entries);
            let e = entries[k];
            let visual = exists|i: int|
                0 <= i < entries.len() && !((#[trigger] entries[i]).source_clip_type is Audio);
            let audio = exists|i: int|
                0 <= i < entries.len() && (#[trigger] entries[i]).source_clip_type is Audio;
            let top: int = if visual {
                1
            } else {
                0
            };
            let bottom: int = if audio {
                1
            } else {
                0
            };
            &&& u == (TimelineView { tracks: u.tracks, ..t })
            &&& u.tracks.len() == t.tracks.len() + top + bottom
            &&& shared_count(entries) == top + bottom
            &&& forall|i: int|
                0 <= i < t.tracks.len() ==> u.tracks[i + top] == #[trigger] t.tracks[i]
            &&& visual ==> u.tracks[0].kind is Video && u.tracks[0].clips.len() == 0
                && u.tracks[0].id == nth_id(ids, 1)
            &&& audio ==> u.tracks.last().kind is Audio && u.tracks.last().clips.len() == 0
                && u.tracks.last().id == nth_id(ids, top + 1)
            &&& sent.len() == entries.len()
            &&& sent[k] == (ClipEntryView { track_index: sent[k].track_index, ..e })
            &&& e.source_clip_type is Audio ==> sent[k].track_index == u.tracks.len() - 1
            &&& !(e.source_clip_type is Audio) ==> sent[k].track_index == 0
        }),
{
    lemma_first_audio(t.tracks, 0);
    let seen = if any_visual(entries) {
        track_inserted(t, 0, ClipType::Video, nth_id(ids, 1))
    } else {
        t
    };
    lemma_first_audio(seen.tracks, 0);
    assert(entries[k].source_clip_type is Audio ==> any_audio(entries));
    assert(!(entries[k].source_clip_type is Audio) ==> any_visual(entries));
}

proof fn lemma_inserted(entries: Seq<ClipEntryView>, kind: ClipType, from: int)
    requires
        0 <= from,
    ensures
        inserted_fault(entries, kind, from) is None <==> forall|k: int|
            from <= k < entries.len() ==> ((#[trigger] entries[k]).media_type is Audio <==> kind
                is Audio),
    decreases entries.len() - from,
{
    if from < entries.len() {
        lemma_inserted(entries, kind, from + 1);
    }
}

/// Inserting clips with a ripple is refused, and nothing changed, unless there is one, the
/// track is there and takes all of them, the frame is 0 or later and the ripple may be
/// made; otherwise the rippled timeline comes in.
pub proof fn law_clips_are_inserted_where_they_may_stand(
    s: StateView,
    index: int,
    at_frame: int,
    entries: Seq<ClipEntryView>,
    ripple_fault: Option<Seq<char>>,
    placed: PlacedView,
    registry_fault: Option<Seq<char>>,
)
    requires
        0 <= index,
    ensures
        ({
            let (r, next) = insert_clips_spec(
                s,
                index,
                at_frame,
                entries,
                ripple_fault,
                placed,
                registry_fault,
            );
            &&& r is Err ==> next == s
            &&& r is Ok ==> {
                &&& entries.len() > 0
                &&& index < s.timeline.tracks.len()
                &&& at_frame >= 0
                &&& ripple_fault is None
                &&& forall|k: int|
                    0 <= k < entries.len() ==> ((#[trigger] entries[k]).media_type is Audio
                        <==> s.timeline.tracks[index].kind is Audio)
                &&& next.manifest == s.manifest
                &&& same_timeline(placed.timeline, next.timeline)
                &&& r->Ok_0.affected_clip_ids == placed.affected
            }
        }),
        insert_clips_fault(s.timeline, index, at_frame, entries, ripple_fault) is None
            <==> entries.len() > 0 && index < s.timeline.tracks.len() && at_frame >= 0
            && ripple_fault is None && forall|k: int|
            0 <= k < entries.len() ==> ((#[trigger] entries[k]).media_type is Audio
                <==> s.timeline.tracks[index].kind is Audio),
{
    if index < s.timeline.tracks.len() {
        lemma_inserted(entries, s.timeline.tracks[index].kind, 0);
    }
    law_pruning_changes_transitions_alone(placed.timeline);
}

/// Whether a medium is in the library as a clip says that it is.
pub open spec fn matches_library(m: MediaManifestView, e: UnplacedClipEntryView) -> bool {
    exists|i: int| #[trigger]
        first_entry(m, e.media_ref, i) && m.entries[i].kind == e.source_clip_type
            && m.entries[i].kind == e.media_type && e.has_audio == (m.entries[i].has_audio == Some(
            true,
        )) && (e.add_linked_audio ==> m.entries[i].kind is Video && e.has_audio)
}

/// Whether a clip is aimed at a track that takes it: an existing one of its kind, or a
/// new one, audio for audio and video for all else.
pub open spec fn aimed_well(t: TimelineView, target: TargetView, media_type: ClipType) -> bool {
    match target {
        TargetView::ExistingTrack { track_id } => exists|i: int|
            0 <= i < t.tracks.len() && (#[trigger] t.tracks[i]).id == track_id && (forall|j: int|
                0 <= j < i ==> (#[trigger] t.tracks[j]).id != track_id) && (t.tracks[i].kind
                is Audio <==> media_type is Audio),
        TargetView::NewTrack { kind, .. } => if media_type is Audio {
            kind is Audio
        } else {
            kind is Video
        },
    }
}

proof fn lemma_aimed(t: TimelineView, target: TargetView, media_type: ClipType)
    ensures
        target_fault(t, target, media_type) is None <==> aimed_well(t, target, media_type),
{
    if let TargetView::ExistingTrack { track_id } = target {
        law_tracks_are_found_by_id(t.tracks, track_id, 0);
        if let Some(i) = track_index(t.tracks, track_id, 0) {
            assert(t.tracks[i].id == track_id);
            if aimed_well(t, target, media_type) {
                let k = choose|k: int|
                    0 <= k < t.tracks.len() && (#[trigger] t.tracks[k]).id == track_id && (forall|
                        j: int,
                    | 0 <= j < k ==> (#[trigger] t.tracks[j]).id != track_id) && (
                    t.tracks[k].kind is Audio <==> media_type is Audio);
                if k < i {
                    assert(t.tracks[k].id != track_id);
                }
                if i < k {
                    assert(t.tracks[i].id != track_id);
                }
            }
        }
    }
}

proof fn lemma_matches(m: MediaManifestView, e: UnplacedClipEntryView)
    ensures
        place_manifest_fault(m, e) is None <==> matches_library(m, e),
{
    law_media_are_found_by_id(m, e.media_ref, 0);
    if let Some(i) = media_index(m.entries, e.media_ref, 0) {
        law_media_are_found_by_id(m, e.media_ref, i);
        assert(first_entry(m, e.media_ref, i));
        if matches_library(m, e) {
            let k = choose|k: int| #[trigger]
                first_entry(m, e.media_ref, k) && m.entries[k].kind == e.source_clip_type
                    && m.entries[k].kind == e.media_type && e.has_audio == (m.entries[k].has_audio
                    == Some(true)) && (e.add_linked_audio ==> m.entries[k].kind is Video
                    && e.has_audio);
            law_media_are_found_by_id(m, e.media_ref, k);
        }
    } else if matches_library(m, e) {
        let k = choose|k: int| #[trigger]
            first_entry(m, e.media_ref, k) && m.entries[k].kind == e.source_clip_type
                && m.entries[k].kind == e.media_type && e.has_audio == (m.entries[k].has_audio
                == Some(true)) && (e.add_linked_audio ==> m.entries[k].kind is Video
                && e.has_audio);
        law_media_are_found_by_id(m, e.media_ref, k);
    }
}

/// Placing media is refused, and nothing changed, unless the frame numbers of the clip
/// hold, the library has the medium as the clip says, new settings are positive, the
/// timeline holds and the clip is aimed at a track that takes it, on the timeline or in
/// the named sequence. Otherwise the timeline on which it was placed comes in with the
/// new settings, and the tracks that are empty where it was placed go.
pub proof fn law_media_are_placed_where_they_may_stand(
    s: StateView,
    sequence_id: Option<Seq<char>>,
    settings: Option<ProjectTimelineSettings>,
    target: TargetView,
    e: UnplacedClipEntryView,
    ids: IdsView,
    placed: PlacedView,
    registry_fault: Option<Seq<char>>,
)
    ensures
        ({
            let (r, next) = place_media_spec(
                s,
                sequence_id,
                settings,
                target,
                e,
                ids,
                placed,
                registry_fault,
            );
            &&& r is Err ==> next == s
            &&& r is Ok ==> {
                &&& typed_frames_hold(
                    e.start_frame as int,
                    e.duration_frames as int,
                    if e.trim_start_frame is Some {
                        e.trim_start_frame->0 as int
                    } else {
                        0
                    },
                    if e.trim_end_frame is Some {
                        e.trim_end_frame->0 as int
                    } else {
                        0
                    },
                    Real { bits: 0x3FF0_0000_0000_0000 },
                    e.media_type,
                )
                &&& matches_library(s.manifest, e)
                &&& settings matches Some(p) ==> p.fps > 0 && p.width > 0 && p.height > 0
                    && next.timeline.fps == p.fps && next.timeline.width == p.width
                    && next.timeline.height == p.height && next.timeline.settings_configured
                &&& settings is None ==> next.timeline.fps == placed.timeline.fps
                    && next.timeline.width == placed.timeline.width && next.timeline.height
                    == placed.timeline.height && next.timeline.settings_configured
                    == placed.timeline.settings_configured
                &&& timeline_holds(s.timeline)
                &&& sequence_id is None ==> aimed_well(s.timeline, target, e.media_type)
                &&& next.manifest == s.manifest
                &&& r->Ok_0.affected_clip_ids == placed.affected
                &&& sequence_id is None ==> next.timeline.tracks.len()
                    == placed.timeline.tracks.filter(
                    |track: TrackView| track.clips.len() > 0,
                ).len()
            }
        }),
{
    let (r, next) = place_media_spec(
        s,
        sequence_id,
        settings,
        target,
        e,
        ids,
        placed,
        registry_fault,
    );
    lemma_matches(s.manifest, e);
    law_timelines_are_checked(s.timeline, "timeline"@);
    lemma_aimed(s.timeline, target, e.media_type);
    let t = settled(placed.timeline, settings);
    law_empty_tracks_are_dropped(t);
    if r is Ok {
        let w = tidied(t, sequence_id)->0;
        law_pruning_changes_transitions_alone(w);
        assert(next.timeline == pruned(w));
    }
}

/// The track for a placed clip: an existing one, or a new, empty one of the kind.
pub proof fn law_destinations_are_made(t: TimelineView, target: TargetView, ids: IdsView)
    ensures
        ({
            let (u, at) = with_destination(t, target, ids);
            match target {
                TargetView::ExistingTrack { track_id } => u == t && (at matches Some(i) ==> 0 <= i
                    < t.tracks.len() && t.tracks[i].id == track_id),
                TargetView::NewTrack { kind, .. } => {
                    &&& at is Some
                    &&& u.tracks.len() == t.tracks.len() + 1
                    &&& at->0 >= 0 ==> 0 <= at->0 < u.tracks.len() && u.tracks[at->0].kind == kind
                        && u.tracks[at->0].id == nth_id(ids, 1) && u.tracks[at->0].clips.len() == 0
                },
            }
        }),
{
    lemma_first_audio(t.tracks, 0);
    if let TargetView::ExistingTrack { track_id } = target {
        law_tracks_are_found_by_id(t.tracks, track_id, 0);
    }
}

} // verus!
