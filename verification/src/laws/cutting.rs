//! When clips may be split, frozen, trimmed and rippled, and what comes in.

use crate::commands::new_track::clip_of;
use crate::commands::ripple::RippleView;
use crate::commands::ripple::freeze_frame_spec;
use crate::commands::ripple::ripple_delete_clips_spec;
use crate::commands::ripple::ripple_delete_ranges_spec;
use crate::commands::ripple::still;
use crate::commands::ripple::trim_ids;
use crate::commands::ripple::trim_spec;
use crate::commands::splitting::candidates_fault;
use crate::commands::splitting::group_among;
use crate::commands::splitting::groups_fault;
use crate::commands::splitting::members_fault;
use crate::commands::splitting::split_clips_fault;
use crate::commands::splitting::split_clips_spec;
use crate::commands::splitting::split_seeds;
use crate::commands::splitting::split_spec;
use crate::entries::TrimEditView;
use crate::laws::arranging::clips_before;
use crate::laws::arranging::law_flattening_keeps_every_clip;
use crate::laws::arranging::lemma_flat_place;
use crate::laws::document::first_clip;
use crate::laws::document::has_clip;
use crate::laws::document::law_clips_are_found_by_id;
use crate::laws::document::law_pruning_changes_transitions_alone;
use crate::laws::document::same_timeline;
use crate::laws::frames::law_timelines_are_checked;
use crate::laws::frames::timeline_holds;
use crate::laws::linking::law_missing_clips_are_told;
use crate::laws::linking::law_repetitions_are_dropped;
use crate::laws::linking::law_selections_expand_to_their_links;
use crate::laws::linking::placed_at;
use crate::laws::linking::taken_along;
use crate::links::distinct;
use crate::links::flat_clips;
use crate::locate::locate;
use crate::model::ClipView;
use crate::model::TimelineView;
use crate::state::PlacedView;
use crate::state::StateView;
use vstd::prelude::*;

verus! {

/// Whether a frame lies strictly inside a clip: at least a frame is left on either side.
pub open spec fn strictly_inside(c: ClipView, frame: int) -> bool {
    c.start_frame < frame && frame < c.start_frame + c.duration_frames
}

/// Splitting a clip is refused, and nothing changed, unless it is there and the frame lies
/// strictly inside it; otherwise the timeline on which it was split comes in.
pub proof fn law_clips_are_split_inside(
    s: StateView,
    id: Seq<char>,
    at_frame: int,
    placed: PlacedView,
    registry_fault: Option<Seq<char>>,
    ti: int,
    ci: int,
)
    requires
        first_clip(s.timeline, id, ti, ci),
    ensures
        ({
            let (r, next) = split_spec(s, id, at_frame, placed, registry_fault);
            &&& r is Err ==> next == s
            &&& r is Ok ==> strictly_inside(s.timeline.tracks[ti].clips[ci], at_frame)
            &&& r is Ok ==> next.manifest == s.manifest && same_timeline(
                placed.timeline,
                next.timeline,
            ) && r->Ok_0.affected_clip_ids == placed.affected
        }),
{
    law_clips_are_found_by_id(s.timeline, id);
    law_pruning_changes_transitions_alone(placed.timeline);
}

/// Whether a clip may be split at a frame with the others that are named.
pub open spec fn may_split(
    t: TimelineView,
    id: Seq<char>,
    at_frame: int,
    unsplittable: Seq<Seq<char>>,
) -> bool {
    exists|ti: int, ci: int| #[trigger]
        first_clip(t, id, ti, ci) && strictly_inside(t.tracks[ti].clips[ci], at_frame)
            && !unsplittable.contains(id)
}

/// Whether the clip at a place is linked to one of the named ones.
pub open spec fn linked_with_named(
    t: TimelineView,
    ids: Seq<Seq<char>>,
    i: int,
    j: int,
) -> bool {
    exists|k: int, ti: int, ci: int|
        0 <= k < ids.len() && #[trigger] first_clip(t, ids[k], ti, ci)
            && t.tracks[ti].clips[ci].link_group_id is Some
            && t.tracks[ti].clips[ci].link_group_id == t.tracks[i].clips[j].link_group_id
}

proof fn lemma_candidates(
    t: TimelineView,
    ids: Seq<Seq<char>>,
    at_frame: int,
    unsplittable: Seq<Seq<char>>,
    from: int,
)
    requires
        0 <= from,
    ensures
        candidates_fault(t, ids, at_frame, unsplittable, from) is None <==> forall|k: int|
            from <= k < ids.len() ==> may_split(t, #[trigger] ids[k], at_frame, unsplittable),
    decreases ids.len() - from,
{
    if from < ids.len() {
        lemma_candidates(t, ids, at_frame, unsplittable, from + 1);
        law_clips_are_found_by_id(t, ids[from]);
        if let Some((ti, ci)) = locate(t, ids[from]) {
            assert(first_clip(t, ids[from], ti, ci));
        }
    }
}

proof fn lemma_members(
    clips: Seq<ClipView>,
    group: Seq<char>,
    at_frame: int,
    unsplittable: Seq<Seq<char>>,
    from: int,
)
    requires
        0 <= from,
    ensures
        members_fault(clips, group, at_frame, unsplittable, from) is None <==> forall|k: int|
            from <= k < clips.len() && (#[trigger] clips[k]).link_group_id == Some(group)
                && strictly_inside(clips[k], at_frame) ==> !unsplittable.contains(clips[k].id),
    decreases clips.len() - from,
{
    if from < clips.len() {
        lemma_members(clips, group, at_frame, unsplittable, from + 1);
    }
}

proof fn lemma_groups(
    t: TimelineView,
    seeds: Seq<Seq<char>>,
    at_frame: int,
    unsplittable: Seq<Seq<char>>,
    from: int,
)
    requires
        0 <= from,
    ensures
        groups_fault(t, seeds, at_frame, unsplittable, from) is None <==> forall|k: int, x: int|
            from <= k < seeds.len() && 0 <= x < flat_clips(t.tracks).len()
                && clip_of(t, #[trigger] seeds[k]).link_group_id
                is Some && (#[trigger] flat_clips(t.tracks)[x]).link_group_id
                == clip_of(t, seeds[k]).link_group_id
                && strictly_inside(flat_clips(t.tracks)[x], at_frame) ==> !unsplittable.contains(
                flat_clips(t.tracks)[x].id,
            ),
    decreases seeds.len() - from,
{
    if from < seeds.len() {
        lemma_groups(t, seeds, at_frame, unsplittable, from + 1);
        let link = clip_of(t, seeds[from]).link_group_id;
        if let Some(g) = link {
            lemma_members(flat_clips(t.tracks), g, at_frame, unsplittable, 0);
        }
    }
}

/// The clips from which groups are reached have every link group of the named clips.
proof fn lemma_seeds(t: TimelineView, ids: Seq<Seq<char>>, n: int)
    requires
        0 <= n <= ids.len(),
    ensures
        forall|g: Seq<char>|
            group_among(t, ids, g, n) <==> #[trigger] group_among(
                t,
                split_seeds(t, ids, n),
                g,
                split_seeds(t, ids, n).len() as int,
            ),
    decreases n,
{
    if n > 0 {
        lemma_seeds(t, ids, n - 1);
        let less = split_seeds(t, ids, n - 1);
        let more = split_seeds(t, ids, n);
        let link = clip_of(t, ids[n - 1]).link_group_id;
        assert forall|g: Seq<char>|
            group_among(t, ids, g, n) <==> #[trigger] group_among(t, more, g, more.len() as int) by {
            assert(group_among(t, ids, g, n - 1) <==> group_among(t, less, g, less.len() as int));
            if group_among(t, less, g, less.len() as int) {
                let k = choose|k: int|
                    0 <= k < less.len() && clip_of(
                        t,
                        #[trigger] less[k],
                    ).link_group_id == Some(g);
                assert(more[k] == less[k]);
            }
            if group_among(t, more, g, more.len() as int) {
                let k = choose|k: int|
                    0 <= k < more.len() && clip_of(
                        t,
                        #[trigger] more[k],
                    ).link_group_id == Some(g);
                if k < less.len() {
                    assert(less[k] == more[k]);
                } else {
                    assert(ids[n - 1] == more[k]);
                }
            }
            if group_among(t, ids, g, n) && !group_among(t, ids, g, n - 1) {
                let k = choose|k: int|
                    0 <= k < n && clip_of(
                        t,
                        #[trigger] ids[k],
                    ).link_group_id == Some(g);
                if k < n - 1 {
                    assert(group_among(t, ids, g, n - 1));
                }
                assert(more[less.len() as int] == ids[n - 1]);
            }
            if group_among(t, ids, g, n - 1) {
                let k = choose|k: int|
                    0 <= k < n - 1 && clip_of(
                        t,
                        #[trigger] ids[k],
                    ).link_group_id == Some(g);
                assert(ids[k] == ids[k]);
            }
        }
    }
}

/// Splitting clips is refused, and nothing changed, unless there is one, each may be split
/// at the frame, and so may every clip that is linked to one of them and has the frame
/// strictly inside; otherwise the timeline on which they were split comes in.
pub proof fn law_clips_are_split_with_their_links(
    s: StateView,
    ids: Seq<Seq<char>>,
    at_frame: int,
    unsplittable: Seq<Seq<char>>,
    placed: PlacedView,
    registry_fault: Option<Seq<char>>,
)
    ensures
        ({
            let (r, next) = split_clips_spec(
                s,
                ids,
                at_frame,
                unsplittable,
                placed,
                registry_fault,
            );
            &&& r is Err ==> next == s
            &&& r is Ok ==> split_clips_fault(s.timeline, ids, at_frame, unsplittable) is None
            &&& r is Ok ==> next.manifest == s.manifest && same_timeline(
                placed.timeline,
                next.timeline,
            ) && r->Ok_0.affected_clip_ids == placed.affected
        }),
        split_clips_fault(s.timeline, ids, at_frame, unsplittable) is None <==> {
            &&& ids.len() > 0
            &&& forall|k: int|
                0 <= k < ids.len() ==> may_split(
                    s.timeline,
                    #[trigger] ids[k],
                    at_frame,
                    unsplittable,
                )
            &&& forall|i: int, j: int| #[trigger]
                placed_at(s.timeline, i, j) && linked_with_named(s.timeline, ids, i, j)
                    && strictly_inside(s.timeline.tracks[i].clips[j], at_frame)
                    ==> !unsplittable.contains(s.timeline.tracks[i].clips[j].id)
        },
{
    let t = s.timeline;
    law_pruning_changes_transitions_alone(placed.timeline);
    let wanted = distinct(ids);
    law_repetitions_are_dropped(ids);
    lemma_candidates(t, wanted, at_frame, unsplittable, 0);
    let each = forall|k: int|
        0 <= k < ids.len() ==> may_split(t, #[trigger] ids[k], at_frame, unsplittable);
    assert((candidates_fault(t, wanted, at_frame, unsplittable, 0) is None) == each) by {
        if each {
            assert forall|k: int| 0 <= k < wanted.len() implies may_split(
                t,
                #[trigger] wanted[k],
                at_frame,
                unsplittable,
            ) by {
                assert(wanted.contains(wanted[k]));
                let l = choose|l: int| 0 <= l < ids.len() && ids[l] == wanted[k];
                assert(may_split(t, ids[l], at_frame, unsplittable));
            }
        }
        if candidates_fault(t, wanted, at_frame, unsplittable, 0) is None {
            assert forall|k: int| 0 <= k < ids.len() implies may_split(
                t,
                #[trigger] ids[k],
                at_frame,
                unsplittable,
            ) by {
                assert(ids.contains(ids[k]));
                assert(wanted.contains(ids[k]));
                let l = choose|l: int| 0 <= l < wanted.len() && wanted[l] == ids[k];
                assert(may_split(t, wanted[l], at_frame, unsplittable));
            }
        }
    }
    if each && ids.len() > 0 {
        lemma_split_groups(t, ids, at_frame, unsplittable);
    }
}

proof fn lemma_split_groups(
    t: TimelineView,
    ids: Seq<Seq<char>>,
    at_frame: int,
    unsplittable: Seq<Seq<char>>,
)
    requires
        forall|k: int|
            0 <= k < ids.len() ==> may_split(t, #[trigger] ids[k], at_frame, unsplittable),
    ensures
        groups_fault(
            t,
            split_seeds(t, distinct(ids), distinct(ids).len() as int),
            at_frame,
            unsplittable,
            0,
        ) is None <==> forall|i: int, j: int| #[trigger]
            placed_at(t, i, j) && linked_with_named(t, ids, i, j) && strictly_inside(
                t.tracks[i].clips[j],
                at_frame,
            ) ==> !unsplittable.contains(t.tracks[i].clips[j].id),
{
    let wanted = distinct(ids);
    let n = wanted.len() as int;
    let seeds = split_seeds(t, wanted, n);
    let flat = flat_clips(t.tracks);
    law_repetitions_are_dropped(ids);
    lemma_seeds(t, wanted, n);
    lemma_groups(t, seeds, at_frame, unsplittable, 0);
    if groups_fault(t, seeds, at_frame, unsplittable, 0) is None {
        assert forall|i: int, j: int| #[trigger]
            placed_at(t, i, j) && linked_with_named(t, ids, i, j) && strictly_inside(
                t.tracks[i].clips[j],
                at_frame,
            ) implies !unsplittable.contains(t.tracks[i].clips[j].id) by {
            let (k, ti, ci) = choose|k: int, ti: int, ci: int|
                0 <= k < ids.len() && #[trigger] first_clip(t, ids[k], ti, ci)
                    && t.tracks[ti].clips[ci].link_group_id is Some
                    && t.tracks[ti].clips[ci].link_group_id == t.tracks[i].clips[j].link_group_id;
            let g = t.tracks[ti].clips[ci].link_group_id->0;
            law_clips_are_found_by_id(t, ids[k]);
            assert(ids.contains(ids[k]));
            assert(wanted.contains(ids[k]));
            let l = choose|l: int| 0 <= l < wanted.len() && wanted[l] == ids[k];
            assert(clip_of(t, wanted[l]).link_group_id == Some(g));
            assert(group_among(t, wanted, g, n));
            assert(group_among(t, seeds, g, seeds.len() as int));
            let m = choose|m: int|
                0 <= m < seeds.len() && clip_of(
                    t,
                    #[trigger] seeds[m],
                ).link_group_id == Some(g);
            law_flattening_keeps_every_clip(t.tracks, i, j);
            let x = clips_before(t.tracks, i) + j;
            assert(flat[x].link_group_id == clip_of(
                t,
                seeds[m],
            ).link_group_id);
        }
    }
    if forall|i: int, j: int| #[trigger]
        placed_at(t, i, j) && linked_with_named(t, ids, i, j) && strictly_inside(
            t.tracks[i].clips[j],
            at_frame,
        ) ==> !unsplittable.contains(t.tracks[i].clips[j].id) {
        assert forall|k: int, x: int|
            0 <= k < seeds.len() && 0 <= x < flat.len() && clip_of(
                t,
                #[trigger] seeds[k],
            ).link_group_id is Some && (#[trigger] flat[x]).link_group_id
                == clip_of(t, seeds[k]).link_group_id
                && strictly_inside(flat[x], at_frame) implies !unsplittable.contains(
            flat[x].id,
        ) by {
            let g = clip_of(t, seeds[k]).link_group_id->0;
            assert(group_among(t, seeds, g, seeds.len() as int));
            assert(group_among(t, wanted, g, n));
            let l = choose|l: int|
                0 <= l < n && clip_of(
                    t,
                    #[trigger] wanted[l],
                ).link_group_id == Some(g);
            assert(wanted.contains(wanted[l]));
            let m = choose|m: int| 0 <= m < ids.len() && ids[m] == wanted[l];
            assert(may_split(t, ids[m], at_frame, unsplittable));
            law_clips_are_found_by_id(t, ids[m]);
            let (ti, ci) = choose|ti: int, ci: int| #[trigger]
                first_clip(t, ids[m], ti, ci) && strictly_inside(t.tracks[ti].clips[ci], at_frame)
                    && !unsplittable.contains(ids[m]);
            assert(first_clip(t, ids[m], ti, ci));
            let place = lemma_flat_place(t.tracks, x);
            assert(linked_with_named(t, ids, place.0, place.1));
            assert(placed_at(t, place.0, place.1));
        }
    }
}

/// Freezing a frame is refused, and nothing changed, unless the clip is there and is a
/// video or an image, the frame lies strictly inside it, the still lasts a frame or more
/// and the ripple may be made; otherwise the timeline with the still comes in. The still
/// is an image of the medium over the frames asked for, on the track of the clip, without
/// trims, sound or a place of its own on the canvas.
pub proof fn law_frames_are_frozen_inside(
    s: StateView,
    id: Seq<char>,
    at_frame: i32,
    duration: i32,
    media_ref: Seq<char>,
    ripple_fault: Option<Seq<char>>,
    placed: PlacedView,
    registry_fault: Option<Seq<char>>,
    ti: int,
    ci: int,
)
    requires
        first_clip(s.timeline, id, ti, ci),
    ensures
        ({
            let (r, next) = freeze_frame_spec(
                s,
                id,
                at_frame as int,
                duration as int,
                ripple_fault,
                placed,
                registry_fault,
            );
            let c = s.timeline.tracks[ti].clips[ci];
            &&& r is Err ==> next == s
            &&& r is Ok ==> {
                &&& strictly_inside(c, at_frame as int)
                &&& duration >= 1
                &&& c.media_type is Video || c.media_type is Image
                &&& ripple_fault is None
                &&& next.manifest == s.manifest
                &&& same_timeline(placed.timeline, next.timeline)
                &&& r->Ok_0.affected_clip_ids == placed.affected
            }
        }),
        ({
            let e = still(s.timeline, id, at_frame, duration, media_ref);
            &&& e.media_ref == media_ref
            &&& e.media_type is Image
            &&& e.source_clip_type is Image
            &&& ti <= usize::MAX ==> e.track_index == ti
            &&& e.start_frame == at_frame
            &&& e.duration_frames == duration
            &&& e.trim_start_frame is None
            &&& e.trim_end_frame is None
            &&& !e.has_audio
            &&& !e.add_linked_audio
            &&& e.transform is None
        }),
{
    law_clips_are_found_by_id(s.timeline, id);
    law_pruning_changes_transitions_alone(placed.timeline);
}

/// Trimming is refused, and nothing changed, unless there is an edit, all clips are there
/// and the trims hold; otherwise the trimmed timeline comes in.
pub proof fn law_trims_come_in_whole(
    s: StateView,
    edits: Seq<TrimEditView>,
    outcome: Option<TimelineView>,
    registry_fault: Option<Seq<char>>,
)
    ensures
        ({
            let (r, next) = trim_spec(s, edits, outcome, registry_fault);
            &&& r is Err ==> next == s
            &&& r is Ok ==> {
                &&& edits.len() > 0
                &&& outcome is Some
                &&& forall|k: int|
                    0 <= k < edits.len() ==> has_clip(s.timeline, (#[trigger] edits[k]).clip_id)
                &&& next.manifest == s.manifest
                &&& same_timeline(outcome->0, next.timeline)
            }
        }),
{
    let (r, next) = trim_spec(s, edits, outcome, registry_fault);
    law_missing_clips_are_told(s.timeline, trim_ids(edits), 0);
    if outcome is Some {
        law_pruning_changes_transitions_alone(outcome->0);
    }
    if r is Ok {
        assert forall|k: int| 0 <= k < edits.len() implies has_clip(
            s.timeline,
            (#[trigger] edits[k]).clip_id,
        ) by {
            assert(trim_ids(edits)[k] == edits[k].clip_id);
        }
    }
}

/// A ripple delete is refused, and nothing changed, unless its ranges or clips are in
/// order and the ripple may be made; otherwise the rippled timeline comes in exactly as it
/// is, the library stays, and the clips told are the fragments, or the clips named and
/// those linked to them.
pub proof fn law_ripples_come_in_whole(
    s: StateView,
    index: int,
    ranges: nat,
    range_fault: Option<Seq<char>>,
    ripple: RippleView,
    ids: Seq<Seq<char>>,
    rippled: Result<TimelineView, Seq<char>>,
    id: Seq<char>,
)
    ensures
        ({
            let (r, next) = ripple_delete_ranges_spec(s, index, ranges, range_fault, ripple);
            &&& r is Err ==> next == s
            &&& r is Ok ==> {
                &&& ranges > 0
                &&& index < s.timeline.tracks.len()
                &&& range_fault is None
                &&& timeline_holds(s.timeline)
                &&& next.manifest == s.manifest
                &&& ripple matches RippleView::Done { timeline, resulting_fragments, .. }
                    && next.timeline == timeline && timeline_holds(timeline)
                    && r->Ok_0.affected_clip_ids == resulting_fragments
            }
        }),
        ({
            let (r, next) = ripple_delete_clips_spec(s, ids, rippled);
            &&& r is Err ==> next == s
            &&& r is Ok ==> {
                &&& ids.len() > 0
                &&& timeline_holds(s.timeline)
                &&& forall|k: int| 0 <= k < ids.len() ==> has_clip(s.timeline, #[trigger] ids[k])
                &&& next.manifest == s.manifest
                &&& rippled is Ok && next.timeline == rippled->Ok_0
                &&& timeline_holds(next.timeline)
                &&& r->Ok_0.affected_clip_ids.contains(id) <==> taken_along(s.timeline, ids, id)
            }
        }),
{
    law_timelines_are_checked(s.timeline, "timeline"@);
    if let RippleView::Done { timeline, .. } = ripple {
        law_timelines_are_checked(timeline, "timeline"@);
    }
    if let Ok(t) = rippled {
        law_timelines_are_checked(t, "timeline"@);
    }
    law_missing_clips_are_told(s.timeline, ids, 0);
    law_selections_expand_to_their_links(s.timeline, ids, id);
}

} // verus!
