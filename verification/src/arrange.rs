//! Arranging clips on tracks: sorting by start, taking clips out, dropping empty
//! tracks.

use crate::links::listed;
use crate::locate::lemma_track_replaced;
use crate::locate::lemma_tracks_replaced;
use crate::locate::with_track;
use crate::model::clip_views;
use crate::model::track_views;
use crate::model::Clip;
use crate::model::ClipView;
use crate::model::Timeline;
use crate::model::TimelineView;
use crate::model::Track;
use crate::model::TrackView;
use crate::text::texts;
use vstd::prelude::*;

verus! {

/// The first position, from `from` on, of a clip that starts after `start`.
pub open spec fn start_slot(clips: Seq<ClipView>, start: int, from: int) -> int
    decreases clips.len() - from,
{
    if from < 0 || from >= clips.len() {
        clips.len() as int
    } else if clips[from].start_frame > start {
        from
    } else {
        start_slot(clips, start, from + 1)
    }
}

/// A sorted list with one more clip, behind those that start no later.
pub open spec fn start_inserted(clips: Seq<ClipView>, c: ClipView) -> Seq<ClipView> {
    clips.insert(start_slot(clips, c.start_frame as int, 0), c)
}

/// The clips sorted by start; clips that start together keep their order.
pub open spec fn by_start(clips: Seq<ClipView>) -> Seq<ClipView>
    decreases clips.len(),
{
    if clips.len() == 0 {
        clips
    } else {
        start_inserted(by_start(clips.drop_last()), clips.last())
    }
}

/// Whether the clips are in order of their starts.
pub open spec fn start_ordered(clips: Seq<ClipView>) -> bool {
    forall|i: int, j: int|
        0 <= i < j < clips.len() ==> (#[trigger] clips[i]).start_frame <= (
        #[trigger] clips[j]).start_frame
}

/// Where a clip goes in a sorted list.
pub proof fn lemma_start_slot(clips: Seq<ClipView>, start: int, from: int)
    requires
        0 <= from <= clips.len(),
    ensures
        from <= start_slot(clips, start, from) <= clips.len(),
        forall|i: int|
            from <= i < start_slot(clips, start, from) ==> (#[trigger] clips[i]).start_frame
                <= start,
        start_slot(clips, start, from) < clips.len() ==> clips[start_slot(
            clips,
            start,
            from,
        )].start_frame > start,
    decreases clips.len() - from,
{
    if from < clips.len() && clips[from].start_frame <= start {
        lemma_start_slot(clips, start, from + 1);
    }
}

/// Sorting puts clips in order of their starts and neither loses nor adds any.
pub proof fn law_sorting(clips: Seq<ClipView>)
    ensures
        start_ordered(by_start(clips)),
        by_start(clips).to_multiset() == clips.to_multiset(),
        by_start(clips).len() == clips.len(),
    decreases clips.len(),
{
    if clips.len() > 0 {
        let rest = by_start(clips.drop_last());
        let c = clips.last();
        law_sorting(clips.drop_last());
        lemma_start_slot(rest, c.start_frame as int, 0);
        let p = start_slot(rest, c.start_frame as int, 0);
        let u = rest.insert(p, c);
        assert forall|i: int, j: int| 0 <= i < j < u.len() implies (#[trigger] u[i]).start_frame <= (
        #[trigger] u[j]).start_frame by {
            if i < p && j > p {
                assert(rest[i].start_frame <= rest[j - 1].start_frame);
            }
            if i == p && j - 1 > p {
                assert(rest[p].start_frame <= rest[j - 1].start_frame);
            }
            if i > p {
                assert(rest[i - 1].start_frame <= rest[j - 1].start_frame);
            }
        }
        assert(clips =~= clips.drop_last().push(c));
        vstd::seq_lib::to_multiset_insert(rest, p, c);
        broadcast use vstd::seq_lib::group_to_multiset_ensures;

        assert(clips.to_multiset() =~= clips.drop_last().to_multiset().insert(c));
        assert(u.to_multiset() =~= rest.to_multiset().insert(c));
    }
}

fn insert_by_start(clips: &mut Vec<Clip>, clip: Clip)
    ensures
        clip_views(final(clips)@) == start_inserted(clip_views(old(clips)@), clip@),
        final(clips)@.len() == old(clips)@.len() + 1,
{
    let ghost views = clip_views(clips@);
    let mut i: usize = 0;
    while i < clips.len() && clips[i].start_frame <= clip.start_frame
        invariant
            i <= clips@.len(),
            views == clip_views(clips@),
            clips@ == old(clips)@,
            start_slot(views, clip.start_frame as int, 0) == start_slot(
                views,
                clip.start_frame as int,
                i as int,
            ),
        decreases clips@.len() - i,
    {
        i += 1;
    }
    clips.insert(i, clip);
    assert(clip_views(clips@) =~= start_inserted(views, clip@));
}

/// Sorts the clips of a track by start.
pub fn sort_clips(track: &mut Track)
    ensures
        final(track)@ == (TrackView { clips: by_start(old(track)@.clips), ..old(track)@ }),
{
    let ghost views = track@.clips;
    let mut sorted: Vec<Clip> = Vec::new();
    let mut i: usize = 0;
    proof {
        assert(clip_views(sorted@) =~= Seq::empty());
        assert(views.take(0) =~= Seq::empty());
    }
    while i < track.clips.len()
        invariant
            i <= track.clips@.len(),
            views == track@.clips,
            *track == *old(track),
            clip_views(sorted@) == by_start(views.take(i as int)),
        decreases track.clips@.len() - i,
    {
        proof {
            assert(views.take(i as int + 1).drop_last() =~= views.take(i as int));
        }
        insert_by_start(&mut sorted, track.clips[i].copy());
        i += 1;
    }
    assert(views.take(i as int) =~= views);
    track.clips = sorted;
}

/// The clips whose id is not among the given ones.
pub open spec fn clips_without(clips: Seq<ClipView>, ids: Seq<Seq<char>>) -> Seq<ClipView>
    decreases clips.len(),
{
    if clips.len() == 0 {
        Seq::empty()
    } else {
        let rest = clips_without(clips.drop_last(), ids);
        if ids.contains(clips.last().id) {
            rest
        } else {
            rest.push(clips.last())
        }
    }
}

/// The clips whose id is among the given ones.
pub open spec fn clips_among(clips: Seq<ClipView>, ids: Seq<Seq<char>>) -> Seq<ClipView>
    decreases clips.len(),
{
    if clips.len() == 0 {
        Seq::empty()
    } else {
        let rest = clips_among(clips.drop_last(), ids);
        if ids.contains(clips.last().id) {
            rest.push(clips.last())
        } else {
            rest
        }
    }
}

/// The timeline without the clips with the given ids.
pub open spec fn without_clips(t: TimelineView, ids: Seq<Seq<char>>) -> TimelineView {
    TimelineView {
        tracks: t.tracks.map_values(
            |track: TrackView| TrackView { clips: clips_without(track.clips, ids), ..track },
        ),
        ..t
    }
}

/// The tracks that hold clips.
pub open spec fn filled_tracks(tracks: Seq<TrackView>) -> Seq<TrackView>
    decreases tracks.len(),
{
    if tracks.len() == 0 {
        Seq::empty()
    } else {
        let rest = filled_tracks(tracks.drop_last());
        if tracks.last().clips.len() == 0 {
            rest
        } else {
            rest.push(tracks.last())
        }
    }
}

/// The timeline without its empty tracks.
pub open spec fn without_empty_tracks(t: TimelineView) -> TimelineView {
    TimelineView { tracks: filled_tracks(t.tracks), ..t }
}

/// Splits the clips of a track by whether their id is among the given ones: first
/// those that are, then those that are not.
pub fn partition_clips(clips: &Vec<Clip>, ids: &Vec<String>) -> (r: (Vec<Clip>, Vec<Clip>))
    ensures
        clip_views(r.0@) == clips_among(clip_views(clips@), texts(ids@)),
        clip_views(r.1@) == clips_without(clip_views(clips@), texts(ids@)),
{
    let ghost views = clip_views(clips@);
    let ghost wanted = texts(ids@);
    let mut chosen: Vec<Clip> = Vec::new();
    let mut rest: Vec<Clip> = Vec::new();
    let mut i: usize = 0;
    proof {
        assert(clip_views(chosen@) =~= Seq::empty());
        assert(clip_views(rest@) =~= Seq::empty());
        assert(views.take(0) =~= Seq::empty());
    }
    while i < clips.len()
        invariant
            i <= clips@.len(),
            views == clip_views(clips@),
            wanted == texts(ids@),
            clip_views(chosen@) == clips_among(views.take(i as int), wanted),
            clip_views(rest@) == clips_without(views.take(i as int), wanted),
        decreases clips@.len() - i,
    {
        let ghost a = clip_views(chosen@);
        let ghost b = clip_views(rest@);
        proof {
            assert(views.take(i as int + 1).drop_last() =~= views.take(i as int));
        }
        if listed(ids, clips[i].id.as_str()) {
            chosen.push(clips[i].copy());
            assert(clip_views(chosen@) =~= a.push(views[i as int]));
        } else {
            rest.push(clips[i].copy());
            assert(clip_views(rest@) =~= b.push(views[i as int]));
        }
        i += 1;
    }
    assert(views.take(i as int) =~= views);
    (chosen, rest)
}

/// Takes the clips with the given ids off a timeline.
pub fn remove_clips_from(timeline: &mut Timeline, ids: &Vec<String>)
    ensures
        final(timeline)@ == without_clips(old(timeline)@, texts(ids@)),
        final(timeline).tracks@.len() == old(timeline).tracks@.len(),
{
    let ghost before = *timeline;
    let ghost expected = without_clips(before@, texts(ids@));
    let mut i: usize = 0;
    while i < timeline.tracks.len()
        invariant
            i <= timeline.tracks@.len(),
            expected == without_clips(before@, texts(ids@)),
            timeline.tracks@.len() == before.tracks@.len(),
            timeline.fps == before.fps,
            timeline.width == before.width,
            timeline.height == before.height,
            timeline.settings_configured == before.settings_configured,
            timeline.nested_sequences == before.nested_sequences,
            timeline.script_assembly_plans == before.script_assembly_plans,
            timeline.voice_models == before.voice_models,
            forall|k: int| 0 <= k < i ==> (#[trigger] timeline.tracks@[k])@ == expected.tracks[k],
            forall|k: int|
                i <= k < before.tracks@.len() ==> #[trigger] timeline.tracks@[k]
                    == before.tracks@[k],
        decreases timeline.tracks@.len() - i,
    {
        let (_chosen, rest) = partition_clips(&timeline.tracks[i].clips, ids);
        timeline.tracks[i].clips = rest;
        assert(timeline.tracks@[i as int]@ =~= expected.tracks[i as int]);
        i += 1;
    }
    proof {
        lemma_tracks_replaced(before, *timeline);
        assert(track_views(timeline.tracks@) =~= expected.tracks);
    }
}

/// Drops the tracks that hold no clips.
pub fn prune_empty_tracks(timeline: &mut Timeline)
    ensures
        final(timeline)@ == without_empty_tracks(old(timeline)@),
{
    let ghost before = *timeline;
    let ghost views = track_views(timeline.tracks@);
    let mut kept: Vec<Track> = Vec::new();
    let mut i: usize = 0;
    proof {
        assert(track_views(kept@) =~= Seq::empty());
        assert(views.take(0) =~= Seq::empty());
    }
    while i < timeline.tracks.len()
        invariant
            i <= timeline.tracks@.len(),
            *timeline == before,
            views == track_views(timeline.tracks@),
            track_views(kept@) == filled_tracks(views.take(i as int)),
        decreases timeline.tracks@.len() - i,
    {
        let ghost k = track_views(kept@);
        proof {
            assert(views.take(i as int + 1).drop_last() =~= views.take(i as int));
            assert(views[i as int].clips.len() == timeline.tracks@[i as int].clips@.len());
        }
        if timeline.tracks[i].clips.len() > 0 {
            kept.push(timeline.tracks[i].copy());
            assert(track_views(kept@) =~= k.push(views[i as int]));
        }
        i += 1;
    }
    assert(views.take(i as int) =~= views);
    timeline.tracks = kept;
    proof {
        lemma_tracks_replaced(before, *timeline);
    }
}

/// The track with one more clip, sorted again.
pub open spec fn with_new_clip(t: TimelineView, ti: int, c: ClipView) -> TimelineView {
    with_track(
        t,
        ti,
        TrackView { clips: by_start(t.tracks[ti].clips.push(c)), ..t.tracks[ti] },
    )
}

/// Puts a clip on a track and sorts the track.
pub fn add_clip_to_track(timeline: &mut Timeline, ti: usize, clip: Clip)
    requires
        ti < old(timeline).tracks@.len(),
    ensures
        final(timeline)@ == with_new_clip(old(timeline)@, ti as int, clip@),
        final(timeline).tracks@.len() == old(timeline).tracks@.len(),
{
    let ghost before = *timeline;
    timeline.tracks[ti].clips.push(clip);
    assert(timeline.tracks@[ti as int]@.clips =~= before.tracks@[ti as int]@.clips.push(clip@));
    sort_clips(&mut timeline.tracks[ti]);
    proof {
        lemma_track_replaced(before, *timeline, ti as int);
    }
}

} // verus!
