//! Where moves, copies and exchanges of clips may go.

use crate::commands::moving::among_first;
use crate::commands::moving::duplicate_clips_fault;
use crate::commands::moving::duplicate_clips_spec;
use crate::commands::moving::duplicate_fault;
use crate::commands::moving::duplicate_plans;
use crate::commands::moving::duplicates_fault;
use crate::commands::moving::move_clips_fault;
use crate::commands::moving::move_clips_spec;
use crate::commands::moving::move_fault;
use crate::commands::moving::move_ids;
use crate::commands::moving::move_plans;
use crate::commands::moving::moves_fault;
use crate::commands::moving::swap_clips_spec;
use crate::entries::ClipMoveView;
use crate::laws::document::first_clip;
use crate::laws::document::has_clip;
use crate::laws::document::law_clips_are_found_by_id;
use crate::laws::document::law_pruning_changes_transitions_alone;
use crate::laws::document::same_timeline;
use crate::laws::frames::is_frame;
use crate::laws::frames::law_timelines_are_checked;
use crate::laws::frames::timeline_holds;
use crate::laws::frames::typed_frames_hold;
use crate::locate::locate;
use crate::model::TimelineView;
use crate::state::PlacedView;
use crate::state::StateView;
use vstd::prelude::*;

verus! {

/// A frame, or 0 where it lies before.
pub open spec fn from_zero(frame: int) -> int {
    if frame < 0 {
        0
    } else {
        frame
    }
}

/// Whether the `i`-th move may be made: no earlier one names its clip, the clip and the
/// track are there, the track takes the clip, and the clip ends within the frame numbers.
pub open spec fn may_move(t: TimelineView, moves: Seq<ClipMoveView>, i: int) -> bool {
    let m = moves[i];
    &&& forall|k: int| 0 <= k < i ==> (#[trigger] moves[k]).clip_id != m.clip_id
    &&& m.to_track < t.tracks.len()
    &&& exists|ti: int, ci: int| #[trigger]
        first_clip(t, m.clip_id, ti, ci) && (t.tracks[ti].clips[ci].media_type is Audio
            <==> t.tracks[m.to_track as int].kind is Audio) && is_frame(
            from_zero(m.to_frame as int) + t.tracks[ti].clips[ci].duration_frames,
        )
}

proof fn lemma_moves(t: TimelineView, moves: Seq<ClipMoveView>, from: int)
    requires
        0 <= from,
    ensures
        moves_fault(t, moves, from) is None <==> forall|i: int|
            from <= i < moves.len() ==> #[trigger] may_move(t, moves, i),
    decreases moves.len() - from,
{
    if from < moves.len() {
        lemma_moves(t, moves, from + 1);
        let m = moves[from];
        law_clips_are_found_by_id(t, m.clip_id);
        assert(among_first(move_ids(moves), m.clip_id, from) <==> exists|k: int|
            0 <= k < from && (#[trigger] moves[k]).clip_id == m.clip_id) by {
            if among_first(move_ids(moves), m.clip_id, from) {
                let k = choose|k: int|
                    0 <= k < from && #[trigger] move_ids(moves)[k] == m.clip_id;
                assert(moves[k].clip_id == m.clip_id);
            }
            if exists|k: int| 0 <= k < from && (#[trigger] moves[k]).clip_id == m.clip_id {
                let k = choose|k: int| 0 <= k < from && (#[trigger] moves[k]).clip_id == m.clip_id;
                assert(move_ids(moves)[k] == m.clip_id);
            }
        }
        if let Some((ti, ci)) = locate(t, m.clip_id) {
            assert(first_clip(t, m.clip_id, ti, ci));
        }
        assert((move_fault(t, moves, from) is None) == may_move(
            t,
            moves,
            from,
        ));
    }
}

/// Moving clips is refused, and nothing changed, unless there is a move, the timeline
/// holds and each move may be made; otherwise the timeline on which they were moved comes
/// in. Each clip is sent to the track that was named, to the frame that was named or to 0,
/// for as long as it lasts.
pub proof fn law_clips_are_moved_where_they_may_stand(
    s: StateView,
    moves: Seq<ClipMoveView>,
    moved: TimelineView,
    registry_fault: Option<Seq<char>>,
)
    ensures
        ({
            let (r, next) = move_clips_spec(s, moves, moved, registry_fault);
            &&& r is Err ==> next == s
            &&& r is Ok ==> move_clips_fault(s.timeline, moves) is None
            &&& r is Ok ==> next.manifest == s.manifest && same_timeline(moved, next.timeline)
        }),
        move_clips_fault(s.timeline, moves) is None <==> moves.len() > 0 && timeline_holds(
            s.timeline,
        ) && forall|i: int|
            0 <= i < moves.len() ==> #[trigger] may_move(s.timeline, moves, i),
        move_plans(s.timeline, moves).len() == moves.len(),
        forall|i: int, ti: int, ci: int|
            0 <= i < moves.len() && may_move(s.timeline, moves, i) && #[trigger] first_clip(
                s.timeline,
                moves[i].clip_id,
                ti,
                ci,
            ) ==> {
                let plan = move_plans(s.timeline, moves)[i];
                let c = s.timeline.tracks[ti].clips[ci];
                &&& plan.clip == c
                &&& plan.to_track_id == s.timeline.tracks[moves[i].to_track as int].id
                &&& plan.to_frame == from_zero(moves[i].to_frame as int)
                &&& plan.to_end_frame == plan.to_frame + c.duration_frames
            },
{
    lemma_moves(s.timeline, moves, 0);
    law_timelines_are_checked(s.timeline, "timeline"@);
    law_pruning_changes_transitions_alone(moved);
    assert forall|i: int, ti: int, ci: int|
        0 <= i < moves.len() && may_move(s.timeline, moves, i) && #[trigger] first_clip(
            s.timeline,
            moves[i].clip_id,
            ti,
            ci,
        ) implies {
        let plan = move_plans(s.timeline, moves)[i];
        let c = s.timeline.tracks[ti].clips[ci];
        &&& plan.clip == c
        &&& plan.to_track_id == s.timeline.tracks[moves[i].to_track as int].id
        &&& plan.to_frame == from_zero(moves[i].to_frame as int)
        &&& plan.to_end_frame == plan.to_frame + c.duration_frames
    } by {
        law_clips_are_found_by_id(s.timeline, moves[i].clip_id);
    }
}

/// Whether a copy of the `i`-th clip may be made.
pub open spec fn may_copy(
    t: TimelineView,
    ids: Seq<Seq<char>>,
    offset: int,
    targets: Seq<usize>,
    i: int,
) -> bool {
    &&& forall|k: int| 0 <= k < i ==> #[trigger] ids[k] != ids[i]
    &&& targets[i] < t.tracks.len()
    &&& exists|ti: int, ci: int| #[trigger]
        first_clip(t, ids[i], ti, ci) && {
            let c = t.tracks[ti].clips[ci];
            &&& (c.media_type is Audio <==> t.tracks[targets[i] as int].kind is Audio)
            &&& is_frame(c.start_frame + offset)
            &&& is_frame(from_zero(c.start_frame + offset) + c.duration_frames)
        }
}

proof fn lemma_copies(
    t: TimelineView,
    ids: Seq<Seq<char>>,
    offset: int,
    targets: Seq<usize>,
    from: int,
)
    requires
        0 <= from,
    ensures
        duplicates_fault(t, ids, offset, targets, from) is None <==> forall|i: int|
            from <= i < ids.len() ==> #[trigger] may_copy(t, ids, offset, targets, i),
    decreases ids.len() - from,
{
    if from < ids.len() {
        lemma_copies(t, ids, offset, targets, from + 1);
        law_clips_are_found_by_id(t, ids[from]);
        if let Some((ti, ci)) = locate(t, ids[from]) {
            assert(first_clip(t, ids[from], ti, ci));
        }
        assert((duplicate_fault(t, ids, offset, targets, from) is None)
            == may_copy(t, ids, offset, targets, from));
    }
}

/// Copying clips is refused, and nothing changed, unless there is one, each has a target,
/// the timeline holds and each copy may be made; otherwise the timeline with the copies
/// comes in. Each copy is sent to its target track, shifted by the offset but not before
/// frame 0.
pub proof fn law_clips_are_copied_where_they_may_stand(
    s: StateView,
    ids: Seq<Seq<char>>,
    offset: int,
    targets: Seq<usize>,
    created: PlacedView,
    registry_fault: Option<Seq<char>>,
)
    ensures
        ({
            let (r, next) = duplicate_clips_spec(s, ids, offset, targets, created, registry_fault);
            &&& r is Err ==> next == s
            &&& r is Ok ==> duplicate_clips_fault(s.timeline, ids, offset, targets) is None
            &&& r is Ok ==> next.manifest == s.manifest && same_timeline(
                created.timeline,
                next.timeline,
            ) && r->Ok_0.affected_clip_ids == created.affected
        }),
        duplicate_clips_fault(s.timeline, ids, offset, targets) is None <==> ids.len() > 0
            && targets.len() == ids.len() && timeline_holds(s.timeline) && forall|i: int|
            0 <= i < ids.len() ==> #[trigger] may_copy(s.timeline, ids, offset, targets, i),
        duplicate_plans(s.timeline, ids, offset, targets).len() == ids.len(),
        forall|i: int, ti: int, ci: int|
            0 <= i < ids.len() && may_copy(s.timeline, ids, offset, targets, i)
                && #[trigger] first_clip(s.timeline, ids[i], ti, ci) ==> {
                let plan = duplicate_plans(s.timeline, ids, offset, targets)[i];
                let c = s.timeline.tracks[ti].clips[ci];
                &&& plan.clip == c
                &&& plan.to_track_id == s.timeline.tracks[targets[i] as int].id
                &&& plan.to_frame == from_zero(c.start_frame + offset)
                &&& plan.to_end_frame == plan.to_frame + c.duration_frames
            },
{
    lemma_copies(s.timeline, ids, offset, targets, 0);
    law_timelines_are_checked(s.timeline, "timeline"@);
    law_pruning_changes_transitions_alone(created.timeline);
    assert forall|i: int, ti: int, ci: int|
        0 <= i < ids.len() && may_copy(s.timeline, ids, offset, targets, i)
            && #[trigger] first_clip(s.timeline, ids[i], ti, ci) implies {
        let plan = duplicate_plans(s.timeline, ids, offset, targets)[i];
        let c = s.timeline.tracks[ti].clips[ci];
        &&& plan.clip == c
        &&& plan.to_track_id == s.timeline.tracks[targets[i] as int].id
        &&& plan.to_frame == from_zero(c.start_frame + offset)
        &&& plan.to_end_frame == plan.to_frame + c.duration_frames
    } by {
        law_clips_are_found_by_id(s.timeline, ids[i]);
    }
}

/// Exchanging two clips is refused, and nothing changed, unless both are there and each
/// may start where the other does; otherwise the timeline on which they were exchanged
/// comes in.
pub proof fn law_clips_are_exchanged_where_both_fit(
    s: StateView,
    a: Seq<char>,
    b: Seq<char>,
    swapped: TimelineView,
    registry_fault: Option<Seq<char>>,
)
    ensures
        ({
            let (r, next) = swap_clips_spec(s, a, b, swapped, registry_fault);
            let t = s.timeline;
            &&& r is Err ==> next == s
            &&& r is Ok ==> has_clip(t, a) && has_clip(t, b)
            &&& r is Ok ==> next.manifest == s.manifest && same_timeline(swapped, next.timeline)
            &&& r is Ok ==> forall|i: int, j: int, k: int, l: int| #[trigger]
                first_clip(t, a, i, j) && #[trigger] first_clip(t, b, k, l) ==> {
                    let x = t.tracks[i].clips[j];
                    let y = t.tracks[k].clips[l];
                    &&& typed_frames_hold(
                        y.start_frame as int,
                        x.duration_frames as int,
                        x.trim_start_frame as int,
                        x.trim_end_frame as int,
                        x.speed,
                        x.media_type,
                    )
                    &&& typed_frames_hold(
                        x.start_frame as int,
                        y.duration_frames as int,
                        y.trim_start_frame as int,
                        y.trim_end_frame as int,
                        y.speed,
                        y.media_type,
                    )
                }
        }),
{
    law_clips_are_found_by_id(s.timeline, a);
    law_clips_are_found_by_id(s.timeline, b);
    law_pruning_changes_transitions_alone(swapped);
}

} // verus!
