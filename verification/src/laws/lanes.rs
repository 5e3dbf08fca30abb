//! Where clips go that are moved or copied to a new track.

use crate::commands::effects::missing_clip;
use crate::commands::new_track::Gesture;
use crate::commands::new_track::Lanes;
use crate::commands::new_track::clip_of;
use crate::commands::new_track::destinations_fault;
use crate::commands::new_track::displaced;
use crate::commands::new_track::first_start;
use crate::commands::new_track::follows_lead;
use crate::commands::new_track::frame_delta;
use crate::commands::new_track::gesture_of;
use crate::commands::new_track::lane_plans;
use crate::commands::new_track::lanes_added;
use crate::commands::new_track::lanes_of;
use crate::commands::new_track::lemma_lanes;
use crate::commands::new_track::lemma_track_stays;
use crate::commands::new_track::move_or_duplicate_spec;
use crate::commands::new_track::needs_fresh_track;
use crate::commands::new_track::new_track_fault;
use crate::commands::new_track::pinned;
use crate::commands::placement::lane_kind;
use crate::commands::tracks::track_inserted;
use crate::entries::NewTrackClipMode;
use crate::frames::fits;
use crate::ids::IdsView;
use crate::ids::nth_id;
use crate::laws::document::first_clip;
use crate::laws::document::has_clip;
use crate::laws::document::law_clips_are_found_by_id;
use crate::laws::document::law_pruning_changes_transitions_alone;
use crate::laws::document::law_tracks_are_found_by_id;
use crate::laws::document::same_timeline;
use crate::laws::frames::law_timelines_are_checked;
use crate::laws::frames::timeline_holds;
use crate::laws::linking::law_missing_clips_are_told;
use crate::laws::linking::law_repetitions_are_dropped;
use crate::links::distinct;
use crate::links::id_index;
use crate::locate::locate;
use crate::locate::track_index;
use crate::model::TimelineView;
use crate::state::PlacedView;
use crate::state::StateView;
use vstd::prelude::*;

verus! {

proof fn lemma_first_start(t: TimelineView, ids: Seq<Seq<char>>, n: int)
    requires
        0 <= n <= ids.len(),
    ensures
        forall|k: int|
            0 <= k < n ==> first_start(t, ids, n) <= clip_of(t, #[trigger] ids[k]).start_frame,
        n > 0 ==> exists|k: int|
            0 <= k < n && first_start(t, ids, n) == clip_of(t, #[trigger] ids[k]).start_frame,
    decreases n,
{
    if n > 0 {
        lemma_first_start(t, ids, n - 1);
        let least = first_start(t, ids, n);
        if least == clip_of(t, ids[n - 1]).start_frame {
            assert(exists|k: int|
                0 <= k < n && least == clip_of(t, #[trigger] ids[k]).start_frame);
        } else if n > 1 {
            let k = choose|k: int|
                0 <= k < n - 1 && first_start(t, ids, n - 1) == clip_of(
                    t,
                    #[trigger] ids[k],
                ).start_frame;
            assert(least == clip_of(t, ids[k]).start_frame);
        }
    }
}

/// Clips are shifted by as many frames as asked for, but no further back than until the
/// first of them stands at the start.
pub proof fn law_shifts_stop_at_the_start(
    t: TimelineView,
    ids: Seq<Seq<char>>,
    requested: int,
    k: int,
    i: int,
    j: int,
)
    requires
        0 <= k < ids.len(),
        first_clip(t, ids[k], i, j),
    ensures
        ({
            let d = frame_delta(t, ids, requested);
            &&& d >= requested
            &&& t.tracks[i].clips[j].start_frame + d >= 0
            &&& d == requested || exists|l: int|
                0 <= l < ids.len() && clip_of(t, #[trigger] ids[l]).start_frame + d == 0
        }),
{
    law_clips_are_found_by_id(t, ids[k]);
    lemma_first_start(t, ids, ids.len() as int);
    let d = frame_delta(t, ids, requested);
    let l = choose|l: int|
        0 <= l < ids.len() && first_start(t, ids, ids.len() as int) == clip_of(
            t,
            #[trigger] ids[l],
        ).start_frame;
    if d != requested {
        assert(clip_of(t, ids[l]).start_frame + d == 0);
    }
}

/// Whether a clip's frames can be told once it is shifted.
pub open spec fn stands_shifted(t: TimelineView, id: Seq<char>, d: int) -> bool {
    let c = clip_of(t, id);
    i32::MIN <= c.start_frame + d <= i32::MAX && i32::MIN <= c.start_frame + d + c.duration_frames
        <= i32::MAX
}

proof fn lemma_destinations(t: TimelineView, ids: Seq<Seq<char>>, d: int, from: int)
    requires
        0 <= from,
    ensures
        destinations_fault(t, ids, d, from) is None <==> forall|k: int|
            from <= k < ids.len() ==> stands_shifted(t, #[trigger] ids[k], d),
    decreases ids.len() - from,
{
    if from < ids.len() {
        lemma_destinations(t, ids, d, from + 1);
        assert(stands_shifted(t, ids[from], d) <==> fits(clip_of(t, ids[from]).start_frame + d)
            && fits(
            clip_of(t, ids[from]).start_frame + d + clip_of(t, ids[from]).duration_frames,
        ));
    }
}

proof fn lemma_distinct_length(s: Seq<Seq<char>>)
    ensures
        distinct(s).len() <= s.len(),
        distinct(s).len() == s.len() <==> s.no_duplicates(),
    decreases s.len(),
{
    law_repetitions_are_dropped(s);
    if s.len() > 0 {
        let rest = s.drop_last();
        lemma_distinct_length(rest);
        law_repetitions_are_dropped(rest);
        if distinct(s).len() == s.len() {
            assert(!distinct(rest).contains(s.last()));
            assert(!rest.contains(s.last()));
            assert forall|i: int, j: int|
                0 <= i < s.len() && 0 <= j < s.len() && i != j implies s[i] != s[j] by {
                if i < rest.len() && j < rest.len() {
                    assert(rest[i] != rest[j]);
                } else if i < rest.len() {
                    assert(rest[i] == s[i]);
                } else {
                    assert(rest[j] == s[j]);
                }
            }
        }
    }
}

/// Clips go to a new track exactly where there are some, none twice, the lead among them,
/// all there, the timeline's frame numbers hold and every clip's do once it is shifted.
pub proof fn law_new_tracks_are_checked(
    t: TimelineView,
    ids: Seq<Seq<char>>,
    lead: Seq<char>,
    requested: int,
)
    ensures
        new_track_fault(t, ids, lead, requested) is None <==> {
            &&& ids.len() > 0
            &&& ids.no_duplicates()
            &&& ids.contains(lead)
            &&& timeline_holds(t)
            &&& forall|k: int| 0 <= k < ids.len() ==> has_clip(t, #[trigger] ids[k])
            &&& forall|k: int|
                0 <= k < ids.len() ==> stands_shifted(
                    t,
                    #[trigger] ids[k],
                    frame_delta(t, ids, requested),
                )
        },
{
    lemma_distinct_length(ids);
    law_timelines_are_checked(t, "timeline"@);
    law_missing_clips_are_told(t, ids, 0);
    lemma_destinations(t, ids, frame_delta(t, ids, requested), 0);
    if missing_clip(t, ids, 0) is Some {
        let id = missing_clip(t, ids, 0)->0;
        let k = choose|k: int|
            0 <= k < ids.len() && #[trigger] ids[k] == id && !has_clip(t, id) && forall|l: int|
                0 <= l < k ==> has_clip(t, #[trigger] ids[l]);
        assert(!has_clip(t, ids[k]));
    }
}

proof fn lemma_id_at(ids: Seq<Seq<char>>, id: Seq<char>, from: int)
    requires
        0 <= from,
    ensures
        id_index(ids, id, from) matches Some(p) ==> from <= p < ids.len() && ids[p] == id,
    decreases ids.len() - from,
{
    if from < ids.len() && ids[from] != id {
        lemma_id_at(ids, id, from + 1);
    }
}

proof fn lemma_lane_ids(g: Gesture, x: Lanes, n: int)
    requires
        0 <= n <= g.sources.len(),
        x.track_ids.len() == 0,
        x.fresh_ids.len() == 0,
    ensures
        ({
            let y = lanes_added(g, x, n);
            &&& y.fresh_ids.len() == y.track_ids.len()
            &&& forall|p: int|
                0 <= p < y.fresh_ids.len() ==> #[trigger] y.fresh_ids[p] == nth_id(g.ids, p + 2)
            &&& forall|p: int|
                0 <= p < y.track_ids.len() ==> needs_fresh_track(g, #[trigger] y.track_ids[p])
        }),
    decreases n,
{
    if n > 0 {
        lemma_lane_ids(g, x, n - 1);
    }
}

/// Whether a clip keeps to a track of its own kind apart from the lead: it is linked to
/// the lead, or cannot stand on a track like the lead's.
pub open spec fn kept_apart(t: TimelineView, a: int, b: int, i: int, j: int) -> bool {
    let lead = t.tracks[a].clips[b];
    let c = t.tracks[i].clips[j];
    (c.id != lead.id && lead.link_group_id is Some && c.link_group_id == lead.link_group_id) || (
    c.media_type is Audio) != (t.tracks[a].kind is Audio)
}

/// Whether a clip goes along with the lead to the new track: it stands on the lead's track
/// and is not kept apart.
pub open spec fn goes_along(t: TimelineView, a: int, b: int, i: int, j: int) -> bool {
    !kept_apart(t, a, b, i, j) && t.tracks[i].id == t.tracks[a].id
}

/// Where a clip goes that is moved to a new track or copied there: every clip is shifted by
/// the same number of frames. Clips on the lead's track go along to the new track; others
/// keep to their own. A copy that would stand in the way of its track's originals, or that
/// is kept apart from the lead, goes to a fresh track instead.
pub proof fn law_clips_go_to_their_lanes(
    t: TimelineView,
    clip_ids: Seq<Seq<char>>,
    lead: Seq<char>,
    requested: int,
    insert_at: int,
    mode: NewTrackClipMode,
    ids: IdsView,
    a: int,
    b: int,
    k: int,
    i: int,
    j: int,
)
    requires
        0 <= insert_at,
        new_track_fault(t, clip_ids, lead, requested) is None,
        first_clip(t, lead, a, b),
        forall|x: int| 0 <= x < t.tracks.len() && x != a ==> (#[trigger] t.tracks[x]).id
            != t.tracks[a].id,
        0 <= k < clip_ids.len(),
        first_clip(t, clip_ids[k], i, j),
    ensures
        ({
            let g = gesture_of(t, clip_ids, lead, requested, mode, ids);
            let plans = lane_plans(g, lanes_of(t, g, insert_at));
            let p = plans[k];
            let c = t.tracks[i].clips[j];
            let d = frame_delta(t, clip_ids, requested);
            &&& plans.len() == clip_ids.len()
            &&& p.clip == c
            &&& p.to_frame == c.start_frame + d
            &&& p.to_end_frame == c.start_frame + d + c.duration_frames
            &&& mode is Move ==> p.to_track_id == if goes_along(t, a, b, i, j) {
                nth_id(ids, 1)
            } else {
                t.tracks[i].id
            }
            &&& mode is Duplicate ==> {
                ||| exists|n: int| n >= 2 && p.to_track_id == #[trigger] nth_id(ids, n)
                ||| goes_along(t, a, b, i, j) && p.to_track_id == nth_id(ids, 1)
                ||| !kept_apart(t, a, b, i, j) && p.to_track_id == t.tracks[i].id && forall|
                    l: int,
                    x: int,
                    y: int,
                |
                    0 <= l < clip_ids.len() && #[trigger] first_clip(t, clip_ids[l], x, y)
                        && t.tracks[x].id == t.tracks[i].id ==> p.to_end_frame
                        <= t.tracks[x].clips[y].start_frame || t.tracks[x].clips[y].start_frame
                        + t.tracks[x].clips[y].duration_frames <= p.to_frame
            }
        }),
{
    let g = gesture_of(t, clip_ids, lead, requested, mode, ids);
    let x = lanes_of(t, g, insert_at);
    let p = lane_plans(g, x)[k];
    let source = g.sources[k];
    let d = frame_delta(t, clip_ids, requested);
    law_clips_are_found_by_id(t, lead);
    law_clips_are_found_by_id(t, clip_ids[k]);
    law_new_tracks_are_checked(t, clip_ids, lead, requested);
    assert(stands_shifted(t, clip_ids[k], d));
    assert(source.clip == t.tracks[i].clips[j]);
    assert(source.track_id == t.tracks[i].id);
    law_tracks_are_found_by_id(t.tracks, t.tracks[a].id, 0);
    assert(track_index(t.tracks, t.tracks[a].id, 0) == Some(a));
    assert(g.lead_track_kind == t.tracks[a].kind);
    assert(pinned(g, source) <==> kept_apart(t, a, b, i, j));
    assert(follows_lead(g, source) <==> goes_along(t, a, b, i, j));
    let start = Lanes {
        timeline: track_inserted(t, insert_at, lane_kind(g.lead.clip.media_type), nth_id(g.ids, 1)),
        track_ids: Seq::empty(),
        fresh_ids: Seq::empty(),
    };
    lemma_lane_ids(g, start, g.sources.len() as int);
    lemma_id_at(x.track_ids, source.track_id, 0);
    law_tracks_are_found_by_id(t.tracks, source.track_id, 0);
    lemma_track_stays(
        t,
        source.track_id,
        insert_at,
        lane_kind(g.lead.clip.media_type),
        nth_id(g.ids, 1),
    );
    lemma_lanes(g, start, g.sources.len() as int, source.track_id);
    match id_index(x.track_ids, source.track_id, 0) {
        Some(q) => {
            assert(needs_fresh_track(g, x.track_ids[q]));
            assert(p.to_track_id == nth_id(ids, q + 2));
        },
        None => {
            if mode is Duplicate && !goes_along(t, a, b, i, j) {
                assert(!needs_fresh_track(g, source.track_id));
                assert(!displaced(g, source));
                assert forall|l: int, u: int, v: int|
                    0 <= l < clip_ids.len() && #[trigger] first_clip(t, clip_ids[l], u, v)
                        && t.tracks[u].id == t.tracks[i].id implies p.to_end_frame
                    <= t.tracks[u].clips[v].start_frame || t.tracks[u].clips[v].start_frame
                    + t.tracks[u].clips[v].duration_frames <= p.to_frame by {
                    law_clips_are_found_by_id(t, clip_ids[l]);
                    assert(locate(t, clip_ids[l]) == Some((u, v)));
                    assert(g.sources[l].track_id == source.track_id);
                }
            }
        },
    }
}

/// Moving or copying clips to a new track is refused where the check fails, and otherwise
/// puts in what the placement made, the clips named or the copies being told of.
pub proof fn law_clips_come_to_a_new_track_whole(
    s: StateView,
    clip_ids: Seq<Seq<char>>,
    lead: Seq<char>,
    requested: int,
    insert_at: int,
    mode: NewTrackClipMode,
    ids: IdsView,
    placed: PlacedView,
    registry_fault: Option<Seq<char>>,
)
    ensures
        ({
            let (r, next) = move_or_duplicate_spec(
                s,
                clip_ids,
                lead,
                requested,
                insert_at,
                mode,
                ids,
                placed,
                registry_fault,
            );
            &&& r is Err ==> next == s
            &&& r is Ok ==> {
                &&& new_track_fault(s.timeline, clip_ids, lead, requested) is None
                &&& next.manifest == s.manifest
                &&& same_timeline(placed.timeline, next.timeline)
                &&& mode is Move ==> r->Ok_0.affected_clip_ids == clip_ids
                &&& mode is Duplicate ==> r->Ok_0.affected_clip_ids == placed.affected
            }
        }),
{
    let r = move_or_duplicate_spec(
        s,
        clip_ids,
        lead,
        requested,
        insert_at,
        mode,
        ids,
        placed,
        registry_fault,
    ).0;
    if r is Ok {
        law_pruning_changes_transitions_alone(placed.timeline);
    }
}

} // verus!
