//! Finding clips, tracks and media, and replacing one clip of a timeline.

use crate::edit::EditError;
use crate::edit::Fault;
use crate::model::lemma_nested_views;
use crate::model::track_views;
use crate::model::Clip;
use crate::model::ClipView;
use crate::model::MediaManifest;
use crate::model::MediaManifestEntryView;
use crate::model::MediaManifestView;
use crate::model::Timeline;
use crate::model::TimelineView;
use crate::model::Track;
use crate::model::TrackView;
use crate::text::cat2;
use crate::text::same_text;
use crate::text::texts;
use vstd::prelude::*;

verus! {

/// The position of the first clip with an id, from `from` on.
pub open spec fn clip_index(clips: Seq<ClipView>, id: Seq<char>, from: int) -> Option<int>
    decreases clips.len() - from,
{
    if from < 0 || from >= clips.len() {
        None
    } else if clips[from].id == id {
        Some(from)
    } else {
        clip_index(clips, id, from + 1)
    }
}

/// Where a clip stands: the first track, from `from` on, that has a clip with
/// the id, and the first such clip on it.
pub open spec fn clip_place(tracks: Seq<TrackView>, id: Seq<char>, from: int) -> Option<(int, int)>
    decreases tracks.len() - from,
{
    if from < 0 || from >= tracks.len() {
        None
    } else {
        match clip_index(tracks[from].clips, id, 0) {
            Some(ci) => Some((from, ci)),
            None => clip_place(tracks, id, from + 1),
        }
    }
}

/// Where the clip with an id stands on a timeline.
pub open spec fn locate(t: TimelineView, id: Seq<char>) -> Option<(int, int)> {
    clip_place(t.tracks, id, 0)
}

/// The clip at a place.
pub open spec fn clip_at(t: TimelineView, place: (int, int)) -> ClipView {
    t.tracks[place.0].clips[place.1]
}

/// The position of the first track with an id, from `from` on.
pub open spec fn track_index(tracks: Seq<TrackView>, id: Seq<char>, from: int) -> Option<int>
    decreases tracks.len() - from,
{
    if from < 0 || from >= tracks.len() {
        None
    } else if tracks[from].id == id {
        Some(from)
    } else {
        track_index(tracks, id, from + 1)
    }
}

/// The position of the first media entry with an id, from `from` on.
pub open spec fn media_index(
    entries: Seq<MediaManifestEntryView>,
    id: Seq<char>,
    from: int,
) -> Option<int>
    decreases entries.len() - from,
{
    if from < 0 || from >= entries.len() {
        None
    } else if entries[from].id == id {
        Some(from)
    } else {
        media_index(entries, id, from + 1)
    }
}

/// The first media entry with an id.
pub open spec fn media_entry(m: MediaManifestView, id: Seq<char>) -> Option<
    MediaManifestEntryView,
> {
    match media_index(m.entries, id, 0) {
        Some(i) => Some(m.entries[i]),
        None => None,
    }
}

/// The timeline with the clip at a place replaced.
pub open spec fn with_clip(t: TimelineView, place: (int, int), c: ClipView) -> TimelineView {
    TimelineView {
        tracks: t.tracks.update(
            place.0,
            TrackView {
                clips: t.tracks[place.0].clips.update(place.1, c),
                ..t.tracks[place.0]
            },
        ),
        ..t
    }
}

/// The complaint that a clip is not there.
pub open spec fn clip_not_found(id: Seq<char>) -> Fault {
    Fault::Invalid("Clip not found: "@ + id)
}

/// The complaint that clearing a region lost the track that it lies on.
pub open spec fn track_lost() -> Fault {
    Fault::Invalid("clearing lost a destination track"@)
}

/// Complains that clearing a region lost the track that it lies on.
pub fn lost_track() -> (r: EditError)
    ensures
        r@ == track_lost(),
{
    crate::edit::invalid("clearing lost a destination track")
}

/// A located clip lies on the timeline and carries the id.
pub proof fn lemma_located(t: TimelineView, id: Seq<char>, from: int)
    requires
        0 <= from,
    ensures
        clip_place(t.tracks, id, from) matches Some(p) ==> from <= p.0 < t.tracks.len() && 0 <= p.1
            < t.tracks[p.0].clips.len() && clip_at(t, p).id == id,
    decreases t.tracks.len() - from,
{
    if from < t.tracks.len() {
        lemma_clip_index(t.tracks[from].clips, id, 0);
        lemma_located(t, id, from + 1);
    }
}

/// A found position lies in the list and its clip carries the id; where none is
/// found no clip does.
pub proof fn lemma_clip_index(clips: Seq<ClipView>, id: Seq<char>, from: int)
    requires
        0 <= from,
    ensures
        clip_index(clips, id, from) matches Some(i) ==> from <= i < clips.len() && clips[i].id
            == id,
        clip_index(clips, id, from) is None ==> forall|i: int|
            from <= i < clips.len() ==> (#[trigger] clips[i]).id != id,
    decreases clips.len() - from,
{
    if from < clips.len() && clips[from].id != id {
        lemma_clip_index(clips, id, from + 1);
    }
}

/// A found track position lies in the list and its track carries the id; where
/// none is found no track does.
pub proof fn lemma_track_index(tracks: Seq<TrackView>, id: Seq<char>, from: int)
    requires
        0 <= from,
    ensures
        track_index(tracks, id, from) matches Some(i) ==> from <= i < tracks.len() && tracks[i].id
            == id,
        track_index(tracks, id, from) is None ==> forall|i: int|
            from <= i < tracks.len() ==> (#[trigger] tracks[i]).id != id,
    decreases tracks.len() - from,
{
    if from < tracks.len() && tracks[from].id != id {
        lemma_track_index(tracks, id, from + 1);
    }
}

/// A found media position lies in the list and its entry carries the id.
pub proof fn lemma_media_index(entries: Seq<MediaManifestEntryView>, id: Seq<char>, from: int)
    requires
        0 <= from,
    ensures
        media_index(entries, id, from) matches Some(i) ==> from <= i < entries.len()
            && entries[i].id == id,
    decreases entries.len() - from,
{
    if from < entries.len() && entries[from].id != id {
        lemma_media_index(entries, id, from + 1);
    }
}

/// Changing one clip of a timeline in place changes nothing else of its view.
pub proof fn lemma_clip_replaced(before: Timeline, after: Timeline, ti: int, ci: int)
    requires
        0 <= ti < before.tracks@.len(),
        0 <= ci < before.tracks@[ti].clips@.len(),
        after.fps == before.fps,
        after.width == before.width,
        after.height == before.height,
        after.settings_configured == before.settings_configured,
        after.nested_sequences == before.nested_sequences,
        after.script_assembly_plans == before.script_assembly_plans,
        after.voice_models == before.voice_models,
        after.tracks@.len() == before.tracks@.len(),
        forall|k: int|
            0 <= k < before.tracks@.len() && k != ti ==> #[trigger] after.tracks@[k]
                == before.tracks@[k],
        after.tracks@[ti].id == before.tracks@[ti].id,
        after.tracks@[ti].kind == before.tracks@[ti].kind,
        after.tracks@[ti].muted == before.tracks@[ti].muted,
        after.tracks@[ti].hidden == before.tracks@[ti].hidden,
        after.tracks@[ti].sync_locked == before.tracks@[ti].sync_locked,
        after.tracks@[ti].clips@.len() == before.tracks@[ti].clips@.len(),
        forall|k: int|
            0 <= k < before.tracks@[ti].clips@.len() && k != ci ==> #[trigger] after.tracks@[ti].clips@[k]
                == before.tracks@[ti].clips@[k],
    ensures
        after@ == with_clip(before@, (ti, ci), after.tracks@[ti].clips@[ci]@),
{
    lemma_nested_views(before);
    lemma_nested_views(after);
    let expected = with_clip(before@, (ti, ci), after.tracks@[ti].clips@[ci]@);
    assert(after@.tracks[ti].clips =~= expected.tracks[ti].clips);
    assert(after@.tracks[ti] =~= expected.tracks[ti]);
    assert(after@.tracks =~= expected.tracks);
    assert(after@ =~= expected);
}

/// The timeline with the track at a position replaced.
pub open spec fn with_track(t: TimelineView, ti: int, track: TrackView) -> TimelineView {
    TimelineView { tracks: t.tracks.update(ti, track), ..t }
}

/// Changing one track of a timeline in place changes nothing else of its view.
pub proof fn lemma_track_replaced(before: Timeline, after: Timeline, ti: int)
    requires
        0 <= ti < before.tracks@.len(),
        after.fps == before.fps,
        after.width == before.width,
        after.height == before.height,
        after.settings_configured == before.settings_configured,
        after.nested_sequences == before.nested_sequences,
        after.script_assembly_plans == before.script_assembly_plans,
        after.voice_models == before.voice_models,
        after.tracks@.len() == before.tracks@.len(),
        forall|k: int|
            0 <= k < before.tracks@.len() && k != ti ==> #[trigger] after.tracks@[k]
                == before.tracks@[k],
    ensures
        after@ == with_track(before@, ti, after.tracks@[ti]@),
{
    lemma_nested_views(before);
    lemma_nested_views(after);
    let expected = with_track(before@, ti, after.tracks@[ti]@);
    assert(after@.tracks =~= expected.tracks);
    assert(after@ =~= expected);
}

/// Replacing the list of tracks changes nothing else of a timeline's view.
pub proof fn lemma_tracks_replaced(before: Timeline, after: Timeline)
    requires
        after.fps == before.fps,
        after.width == before.width,
        after.height == before.height,
        after.settings_configured == before.settings_configured,
        after.nested_sequences == before.nested_sequences,
        after.script_assembly_plans == before.script_assembly_plans,
        after.voice_models == before.voice_models,
    ensures
        after@ == (TimelineView { tracks: track_views(after.tracks@), ..before@ }),
{
    lemma_nested_views(before);
    lemma_nested_views(after);
    assert(after@ =~= TimelineView { tracks: track_views(after.tracks@), ..before@ });
}

/// The view of a timeline, track by track and clip by clip.
pub proof fn lemma_timeline_parts(t: Timeline, ti: int, ci: int)
    ensures
        t@.tracks.len() == t.tracks@.len(),
        0 <= ti < t.tracks@.len() ==> t@.tracks[ti] == t.tracks@[ti]@ && t@.tracks[ti].clips.len()
            == t.tracks@[ti].clips@.len(),
        0 <= ti < t.tracks@.len() && 0 <= ci < t.tracks@[ti].clips@.len()
            ==> t@.tracks[ti].clips[ci] == t.tracks@[ti].clips@[ci]@,
{
}

/// A copy of a timeline in which a clip is about to be changed.
pub fn copy_around(t: &Timeline, ti: usize, ci: usize) -> (r: Timeline)
    requires
        ti < t.tracks@.len(),
        ci < t.tracks@[ti as int].clips@.len(),
    ensures
        r@ == t@,
        ti < r.tracks@.len(),
        ci < r.tracks@[ti as int].clips@.len(),
        r.tracks@[ti as int].clips@[ci as int]@ == clip_at(t@, (ti as int, ci as int)),
{
    let r = t.copy();
    proof {
        lemma_timeline_parts(*t, ti as int, ci as int);
        lemma_timeline_parts(r, ti as int, ci as int);
    }
    r
}

/// Finds a clip on a timeline.
pub fn find(timeline: &Timeline, clip_id: &str) -> (r: Option<(usize, usize)>)
    ensures
        match r {
            Some((ti, ci)) => locate(timeline@, clip_id@) == Some((ti as int, ci as int)) && ti
                < timeline.tracks@.len() && ci < timeline.tracks@[ti as int].clips@.len()
                && timeline.tracks@[ti as int].clips@[ci as int].id@ == clip_id@,
            None => locate(timeline@, clip_id@) is None,
        },
{
    let mut ti: usize = 0;
    while ti < timeline.tracks.len()
        invariant
            ti <= timeline.tracks@.len(),
            clip_place(timeline@.tracks, clip_id@, 0) == clip_place(
                timeline@.tracks,
                clip_id@,
                ti as int,
            ),
        decreases timeline.tracks@.len() - ti,
    {
        let ghost clips = timeline@.tracks[ti as int].clips;
        let mut ci: usize = 0;
        while ci < timeline.tracks[ti].clips.len()
            invariant
                ti < timeline.tracks@.len(),
                ci <= timeline.tracks@[ti as int].clips@.len(),
                clips == timeline@.tracks[ti as int].clips,
                clip_index(clips, clip_id@, 0) == clip_index(clips, clip_id@, ci as int),
                clip_place(timeline@.tracks, clip_id@, 0) == clip_place(
                    timeline@.tracks,
                    clip_id@,
                    ti as int,
                ),
            decreases timeline.tracks@[ti as int].clips@.len() - ci,
        {
            if same_text(timeline.tracks[ti].clips[ci].id.as_str(), clip_id) {
                return Some((ti, ci));
            }
            ci += 1;
        }
        ti += 1;
    }
    None
}

/// Finds a clip, or says that it is not there.
pub fn require_clip(timeline: &Timeline, clip_id: &str) -> (r: Result<(usize, usize), EditError>)
    ensures
        match r {
            Ok((ti, ci)) => locate(timeline@, clip_id@) == Some((ti as int, ci as int)) && ti
                < timeline.tracks@.len() && ci < timeline.tracks@[ti as int].clips@.len()
                && timeline.tracks@[ti as int].clips@[ci as int].id@ == clip_id@,
            Err(e) => locate(timeline@, clip_id@) is None && e@ == clip_not_found(clip_id@),
        },
{
    match find(timeline, clip_id) {
        Some(place) => Ok(place),
        None => Err(EditError::Invalid(cat2("Clip not found: ", clip_id))),
    }
}

/// Finds a track by id.
pub fn find_track(tracks: &Vec<Track>, track_id: &str) -> (r: Option<usize>)
    ensures
        match r {
            Some(i) => track_index(track_views(tracks@), track_id@, 0) == Some(i as int) && i
                < tracks@.len() && tracks@[i as int].id@ == track_id@,
            None => track_index(track_views(tracks@), track_id@, 0) is None,
        },
{
    let ghost views = track_views(tracks@);
    let mut i: usize = 0;
    while i < tracks.len()
        invariant
            i <= tracks@.len(),
            views == track_views(tracks@),
            track_index(views, track_id@, 0) == track_index(views, track_id@, i as int),
        decreases tracks@.len() - i,
    {
        if same_text(tracks[i].id.as_str(), track_id) {
            return Some(i);
        }
        i += 1;
    }
    None
}

/// Finds a media entry by id.
pub fn find_media(manifest: &MediaManifest, media_id: &str) -> (r: Option<usize>)
    ensures
        match r {
            Some(i) => media_index(manifest@.entries, media_id@, 0) == Some(i as int) && i
                < manifest.entries@.len() && manifest.entries@[i as int].id@ == media_id@
                && media_entry(manifest@, media_id@) == Some(manifest.entries@[i as int]@),
            None => media_index(manifest@.entries, media_id@, 0) is None && media_entry(
                manifest@,
                media_id@,
            ) is None,
        },
{
    let mut i: usize = 0;
    while i < manifest.entries.len()
        invariant
            i <= manifest.entries@.len(),
            media_index(manifest@.entries, media_id@, 0) == media_index(
                manifest@.entries,
                media_id@,
                i as int,
            ),
        decreases manifest.entries@.len() - i,
    {
        if same_text(manifest.entries[i].id.as_str(), media_id) {
            return Some(i);
        }
        i += 1;
    }
    None
}

/// Whether tracks stand on a timeline, each known by its id.
pub open spec fn tracks_stand(t: TimelineView, ids: Seq<Seq<char>>) -> bool {
    forall|i: int| 0 <= i < ids.len() ==> track_index(t.tracks, #[trigger] ids[i], 0) is Some
}

/// Tells whether tracks stand on a timeline.
pub fn do_tracks_stand(timeline: &Timeline, ids: &Vec<String>) -> (r: bool)
    ensures
        r == tracks_stand(timeline@, texts(ids@)),
{
    let ghost wanted = texts(ids@);
    let mut i: usize = 0;
    while i < ids.len()
        invariant
            i <= ids@.len(),
            wanted == texts(ids@),
            forall|k: int|
                0 <= k < i ==> track_index(timeline@.tracks, #[trigger] wanted[k], 0) is Some,
        decreases ids@.len() - i,
    {
        assert(wanted[i as int] == ids@[i as int]@);
        if find_track(&timeline.tracks, ids[i].as_str()).is_none() {
            return false;
        }
        i += 1;
    }
    true
}

} // verus!
