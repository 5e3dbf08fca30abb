//! What every edit shares: how a clip is found by its id, and how the work of a
//! command reaches the document.

use crate::edit::Fault;
use crate::locate::clip_index;
use crate::locate::clip_place;
use crate::locate::lemma_clip_index;
use crate::locate::locate;
use crate::locate::media_entry;
use crate::locate::media_index;
use crate::locate::track_index;
use crate::model::ClipView;
use crate::model::MediaManifestEntryView;
use crate::model::MediaManifestView;
use crate::model::NestedSequenceView;
use crate::model::TimelineView;
use crate::model::TrackView;
use crate::state::StateView;
use crate::state::WorkView;
use crate::state::transacted;
use crate::transitions::pruned;
use vstd::prelude::*;

verus! {

/// Whether two clips agree in everything but the transition at their end.
pub open spec fn same_clip(a: ClipView, b: ClipView) -> bool {
    b == (ClipView { transition_out: b.transition_out, ..a })
}

/// Whether two tracks agree in everything but the transitions at the ends of clips.
pub open spec fn same_track(a: TrackView, b: TrackView) -> bool {
    &&& b == (TrackView { clips: b.clips, ..a })
    &&& b.clips.len() == a.clips.len()
    &&& forall|j: int| 0 <= j < a.clips.len() ==> same_clip(a.clips[j], #[trigger] b.clips[j])
}

/// Whether two timelines agree in everything but their tracks and the transitions
/// inside their nested sequences.
pub open spec fn same_frame(a: TimelineView, b: TimelineView) -> bool {
    &&& b == (TimelineView { tracks: b.tracks, nested_sequences: b.nested_sequences, ..a })
    &&& b.nested_sequences.len() == a.nested_sequences.len()
    &&& forall|k: int|
        0 <= k < a.nested_sequences.len() ==> #[trigger] same_sequence(
            a.nested_sequences[k],
            b.nested_sequences[k],
        )
}

/// Whether two nested sequences agree in everything but transitions, as far as the
/// tracks of their own timelines go.
pub open spec fn same_sequence(a: NestedSequenceView, b: NestedSequenceView) -> bool {
    &&& b == (NestedSequenceView { timeline: b.timeline, ..a })
    &&& b.timeline.tracks.len() == a.timeline.tracks.len()
    &&& forall|i: int|
        0 <= i < a.timeline.tracks.len() ==> #[trigger] same_track(
            a.timeline.tracks[i],
            b.timeline.tracks[i],
        )
}

/// Whether two timelines agree in everything but transitions.
pub open spec fn same_timeline(a: TimelineView, b: TimelineView) -> bool {
    &&& same_frame(a, b)
    &&& b.tracks.len() == a.tracks.len()
    &&& forall|i: int| 0 <= i < a.tracks.len() ==> #[trigger] same_track(a.tracks[i], b.tracks[i])
}

/// Whether the clip at a place is the first with an id: no clip of an earlier track,
/// and none before it on its own, has the id.
pub open spec fn first_clip(t: TimelineView, id: Seq<char>, ti: int, ci: int) -> bool {
    &&& 0 <= ti < t.tracks.len()
    &&& 0 <= ci < t.tracks[ti].clips.len()
    &&& t.tracks[ti].clips[ci].id == id
    &&& forall|j: int| 0 <= j < ci ==> (#[trigger] t.tracks[ti].clips[j]).id != id
    &&& forall|i: int, j: int|
        0 <= i < ti && 0 <= j < t.tracks[i].clips.len() ==> (
        #[trigger] t.tracks[i].clips[j]).id != id
}

/// Whether some clip has an id.
pub open spec fn has_clip(t: TimelineView, id: Seq<char>) -> bool {
    exists|i: int, j: int|
        0 <= i < t.tracks.len() && 0 <= j < t.tracks[i].clips.len() && (
        #[trigger] t.tracks[i].clips[j]).id == id
}

proof fn lemma_first_in_list(clips: Seq<ClipView>, id: Seq<char>, from: int, ci: int)
    requires
        0 <= from <= ci < clips.len(),
        clips[ci].id == id,
        forall|j: int| from <= j < ci ==> (#[trigger] clips[j]).id != id,
    ensures
        clip_index(clips, id, from) == Some(ci),
    decreases ci - from,
{
    if from < ci {
        lemma_first_in_list(clips, id, from + 1, ci);
    }
}

proof fn lemma_first_place(t: TimelineView, id: Seq<char>, from: int, ti: int, ci: int)
    requires
        first_clip(t, id, ti, ci),
        0 <= from <= ti,
    ensures
        clip_place(t.tracks, id, from) == Some((ti, ci)),
    decreases ti - from,
{
    if from < ti {
        lemma_clip_index(t.tracks[from].clips, id, 0);
        lemma_first_place(t, id, from + 1, ti, ci);
    } else {
        lemma_first_in_list(t.tracks[ti].clips, id, 0, ci);
    }
}

proof fn lemma_no_place(t: TimelineView, id: Seq<char>, from: int)
    requires
        0 <= from,
        clip_place(t.tracks, id, from) is None,
    ensures
        forall|i: int, j: int|
            from <= i < t.tracks.len() && 0 <= j < t.tracks[i].clips.len() ==> (
            #[trigger] t.tracks[i].clips[j]).id != id,
    decreases t.tracks.len() - from,
{
    if from < t.tracks.len() {
        lemma_clip_index(t.tracks[from].clips, id, 0);
        lemma_no_place(t, id, from + 1);
    }
}

proof fn lemma_place_is_first(t: TimelineView, id: Seq<char>, from: int)
    requires
        0 <= from,
        clip_place(t.tracks, id, from) is Some,
        forall|i: int, j: int|
            0 <= i < from && i < t.tracks.len() && 0 <= j < t.tracks[i].clips.len() ==> (
            #[trigger] t.tracks[i].clips[j]).id != id,
    ensures
        ({
            let (ti, ci) = clip_place(t.tracks, id, from)->0;
            first_clip(t, id, ti, ci)
        }),
    decreases t.tracks.len() - from,
{
    if from < t.tracks.len() {
        let clips = t.tracks[from].clips;
        lemma_clip_index(clips, id, 0);
        match clip_index(clips, id, 0) {
            Some(ci) => {
                lemma_before_first(clips, id, 0);
            },
            None => {
                lemma_place_is_first(t, id, from + 1);
            },
        }
    }
}

proof fn lemma_before_first(clips: Seq<ClipView>, id: Seq<char>, from: int)
    requires
        0 <= from,
        clip_index(clips, id, from) is Some,
    ensures
        forall|j: int|
            from <= j < clip_index(clips, id, from)->0 ==> (#[trigger] clips[j]).id != id,
    decreases clips.len() - from,
{
    if from < clips.len() && clips[from].id != id {
        lemma_before_first(clips, id, from + 1);
    }
}

/// A clip is found by its id exactly where the first clip with that id stands, and
/// is missing exactly where no clip has the id.
pub proof fn law_clips_are_found_by_id(t: TimelineView, id: Seq<char>)
    ensures
        forall|ti: int, ci: int| #[trigger]
            first_clip(t, id, ti, ci) <==> locate(t, id) == Some((ti, ci)),
        locate(t, id) is Some <==> has_clip(t, id),
{
    assert forall|ti: int, ci: int| #[trigger] first_clip(t, id, ti, ci) <==> locate(t, id) == Some(
        (ti, ci),
    ) by {
        if first_clip(t, id, ti, ci) {
            lemma_first_place(t, id, 0, ti, ci);
        }
        if locate(t, id) == Some((ti, ci)) {
            lemma_place_is_first(t, id, 0);
        }
    }
    if locate(t, id) is None {
        lemma_no_place(t, id, 0);
    } else {
        let (ti, ci) = locate(t, id)->0;
        assert(first_clip(t, id, ti, ci));
        assert(t.tracks[ti].clips[ci].id == id);
    }
}

/// A track is found by its id where the first track with that id stands, and is
/// missing exactly where no track has the id.
pub proof fn law_tracks_are_found_by_id(tracks: Seq<TrackView>, id: Seq<char>, from: int)
    requires
        0 <= from,
    ensures
        match track_index(tracks, id, from) {
            Some(i) => from <= i < tracks.len() && tracks[i].id == id && forall|j: int|
                from <= j < i ==> (#[trigger] tracks[j]).id != id,
            None => forall|j: int| from <= j < tracks.len() ==> (#[trigger] tracks[j]).id != id,
        },
    decreases tracks.len() - from,
{
    if from < tracks.len() && tracks[from].id != id {
        law_tracks_are_found_by_id(tracks, id, from + 1);
    }
}

proof fn lemma_media_found(entries: Seq<MediaManifestEntryView>, id: Seq<char>, from: int)
    requires
        0 <= from,
    ensures
        match media_index(entries, id, from) {
            Some(i) => from <= i < entries.len() && entries[i].id == id && forall|j: int|
                from <= j < i ==> (#[trigger] entries[j]).id != id,
            None => forall|j: int| from <= j < entries.len() ==> (#[trigger] entries[j]).id != id,
        },
    decreases entries.len() - from,
{
    if from < entries.len() && entries[from].id != id {
        lemma_media_found(entries, id, from + 1);
    }
}

/// Whether the entry at a position is the first with an id.
pub open spec fn first_entry(m: MediaManifestView, id: Seq<char>, i: int) -> bool {
    &&& 0 <= i < m.entries.len()
    &&& m.entries[i].id == id
    &&& forall|j: int| 0 <= j < i ==> (#[trigger] m.entries[j]).id != id
}

/// Whether some entry has an id.
pub open spec fn has_entry(m: MediaManifestView, id: Seq<char>) -> bool {
    exists|i: int| 0 <= i < m.entries.len() && (#[trigger] m.entries[i]).id == id
}

/// A medium is found by its id: the first entry with that id, or none where no entry
/// has it.
pub proof fn law_media_are_found_by_id(m: MediaManifestView, id: Seq<char>, i: int)
    ensures
        first_entry(m, id, i) <==> media_index(m.entries, id, 0) == Some(i),
        first_entry(m, id, i) ==> media_entry(m, id) == Some(m.entries[i]),
        media_entry(m, id) is Some <==> has_entry(m, id),
{
    lemma_media_found(m.entries, id, 0);
    match media_index(m.entries, id, 0) {
        Some(k) => {
            assert(m.entries[k].id == id);
            if first_entry(m, id, i) {
                if i < k {
                    assert(m.entries[i].id != id);
                }
                if k < i {
                    assert(m.entries[k].id != id);
                }
            }
        },
        None => {
            if first_entry(m, id, i) {
                assert(m.entries[i].id != id);
            }
        },
    }
}

/// Dropping transitions that no cut carries changes nothing but transitions.
pub proof fn law_pruning_changes_transitions_alone(t: TimelineView)
    ensures
        same_timeline(t, pruned(t)),
{
    assert forall|k: int| 0 <= k < t.nested_sequences.len() implies #[trigger] same_sequence(
        t.nested_sequences[k],
        pruned(t).nested_sequences[k],
    ) by {
        lemma_pruned_tracks(t.nested_sequences[k].timeline);
    }
    lemma_pruned_tracks(t);
}

proof fn lemma_pruned_tracks(t: TimelineView)
    ensures
        pruned(t).tracks.len() == t.tracks.len(),
        forall|i: int|
            0 <= i < t.tracks.len() ==> #[trigger] same_track(t.tracks[i], pruned(t).tracks[i]),
{
    assert forall|i: int| 0 <= i < t.tracks.len() implies #[trigger] same_track(
        t.tracks[i],
        pruned(t).tracks[i],
    ) by {
        let a = t.tracks[i];
        let b = pruned(t).tracks[i];
        assert forall|j: int| 0 <= j < a.clips.len() implies same_clip(
            a.clips[j],
            #[trigger] b.clips[j],
        ) by {}
    }
}

/// A transaction that succeeds puts the work in place: the library as the work left
/// it, and the timeline as the work left it but for transitions. One that fails puts
/// nothing in place.
pub proof fn law_transactions_put_the_work_in_place(
    s: StateView,
    action: Seq<char>,
    summary: Seq<char>,
    work: Result<WorkView, Fault>,
    registry_fault: Option<Seq<char>>,
)
    ensures
        ({
            let (r, next) = transacted(s, action, summary, work, registry_fault);
            &&& r is Err ==> next == s
            &&& r is Ok ==> work is Ok && registry_fault is None
            &&& r is Ok ==> next.manifest == work->Ok_0.manifest
            &&& r is Ok ==> same_timeline(work->Ok_0.timeline, next.timeline)
            &&& r is Ok ==> r->Ok_0.affected_clip_ids == work->Ok_0.affected
        }),
{
    let (r, next) = transacted(s, action, summary, work, registry_fault);
    if r is Ok {
        law_pruning_changes_transitions_alone(work->Ok_0.timeline);
    }
}

} // verus!
