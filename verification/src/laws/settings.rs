//! What new project settings do, and what setting a transition does.

use crate::commands::settings::order_slot;
use crate::commands::settings::projection_fault;
use crate::commands::settings::set_timeline_settings_spec;
use crate::commands::settings::settings_fault;
use crate::commands::settings::start_order;
use crate::commands::settings::with_settings;
use crate::commands::transition::set_transition_spec;
use crate::commands::transition::without_transition;
use crate::laws::arranging::rearranges;
use crate::laws::document::first_clip;
use crate::laws::document::has_clip;
use crate::laws::document::law_clips_are_found_by_id;
use crate::laws::document::law_pruning_changes_transitions_alone;
use crate::laws::document::same_frame;
use crate::laws::document::same_sequence;
use crate::laws::document::same_timeline;
use crate::laws::document::same_track;
use crate::locate::with_clip;
use crate::model::ClipView;
use crate::model::TimelineView;
use crate::model::TransitionKind;
use crate::model::TransitionView;
use crate::state::StateView;
use crate::transitions::pruned;
use vstd::prelude::*;

verus! {

/// New settings are refused, and nothing changed, unless rate, width and height are
/// positive; otherwise the timeline has them and counts as configured, and holds the
/// tracks that were carried over to the new rate.
pub proof fn law_settings_are_taken_over(
    s: StateView,
    fps: i32,
    width: i32,
    height: i32,
    carried: TimelineView,
    registry_fault: Option<Seq<char>>,
)
    ensures
        ({
            let (r, next) = set_timeline_settings_spec(
                s,
                fps,
                width,
                height,
                carried,
                registry_fault,
            );
            &&& r is Err ==> next == s
            &&& fps <= 0 || width <= 0 || height <= 0 ==> r is Err
            &&& r is Ok ==> {
                &&& projection_fault(s.timeline, fps as int, "timeline"@) is None
                &&& next.manifest == s.manifest
                &&& next.timeline.fps == fps
                &&& next.timeline.width == width
                &&& next.timeline.height == height
                &&& next.timeline.settings_configured
                &&& next.timeline.tracks.len() == carried.tracks.len()
                &&& forall|i: int|
                    0 <= i < carried.tracks.len() ==> #[trigger] same_track(
                        carried.tracks[i],
                        next.timeline.tracks[i],
                    )
                &&& next.timeline.nested_sequences.len() == carried.nested_sequences.len()
                &&& next.timeline.script_assembly_plans == carried.script_assembly_plans
                &&& next.timeline.voice_models == carried.voice_models
            }
        }),
        settings_fault(fps as int, width as int, height as int) is None <==> fps > 0 && width > 0
            && height > 0,
{
    let work = with_settings(carried, fps, width, height);
    law_pruning_changes_transitions_alone(work);
    let (r, next) = set_timeline_settings_spec(s, fps, width, height, carried, registry_fault);
    if r is Ok {
        assert(next.timeline == pruned(work));
        assert forall|i: int| 0 <= i < carried.tracks.len() implies #[trigger] same_track(
            carried.tracks[i],
            next.timeline.tracks[i],
        ) by {
            assert(same_track(work.tracks[i], next.timeline.tracks[i]));
        }
    }
}

/// The order in which the clips of a track are carried over: all of them, once each, by
/// their starts, those that start together as they stand.
pub proof fn law_clips_are_carried_over_in_order(clips: Seq<ClipView>, n: int)
    requires
        0 <= n <= clips.len(),
    ensures
        rearranges(start_order(clips, n), n as nat),
        forall|i: int, j: int|
            0 <= i < j < n ==> {
                let a = #[trigger] start_order(clips, n)[i];
                let b = #[trigger] start_order(clips, n)[j];
                clips[a].start_frame < clips[b].start_frame || (clips[a].start_frame
                    == clips[b].start_frame && a < b)
            },
    decreases n,
{
    if n > 0 {
        law_clips_are_carried_over_in_order(clips, n - 1);
        let rest = start_order(clips, n - 1);
        let start = clips[n - 1].start_frame as int;
        lemma_order_slot(clips, rest, start, 0);
        let p = order_slot(clips, rest, start, 0);
        let o = start_order(clips, n);
        assert(o =~= rest.insert(p, n - 1));
        assert forall|i: int| 0 <= i < n implies 0 <= #[trigger] o[i] < n by {
            if i < p {
                assert(o[i] == rest[i]);
            } else if i > p {
                assert(o[i] == rest[i - 1]);
            }
        }
        assert forall|i: int, j: int| 0 <= i < j < n implies #[trigger] o[i] != #[trigger] o[j] by {
            lemma_two(clips, rest, n, p, i, j);
        }
        assert forall|i: int, j: int| 0 <= i < j < n implies {
            let a = #[trigger] o[i];
            let b = #[trigger] o[j];
            clips[a].start_frame < clips[b].start_frame || (clips[a].start_frame
                == clips[b].start_frame && a < b)
        } by {
            lemma_two(clips, rest, n, p, i, j);
        }
    }
}

proof fn lemma_two(clips: Seq<ClipView>, rest: Seq<int>, n: int, p: int, i: int, j: int)
    requires
        0 < n <= clips.len(),
        rearranges(rest, (n - 1) as nat),
        0 <= p <= rest.len(),
        0 <= i < j < n,
        forall|k: int|
            0 <= k < p ==> clips[#[trigger] rest[k]].start_frame <= clips[n - 1].start_frame,
        p < rest.len() ==> clips[rest[p]].start_frame > clips[n - 1].start_frame,
        forall|x: int, y: int|
            0 <= x < y < n - 1 ==> {
                let a = #[trigger] rest[x];
                let b = #[trigger] rest[y];
                clips[a].start_frame < clips[b].start_frame || (clips[a].start_frame
                    == clips[b].start_frame && a < b)
            },
    ensures
        ({
            let o = rest.insert(p, n - 1);
            &&& o[i] != o[j]
            &&& clips[o[i]].start_frame < clips[o[j]].start_frame || (clips[o[i]].start_frame
                == clips[o[j]].start_frame && o[i] < o[j])
        }),
{
    let o = rest.insert(p, n - 1);
    let a = if i < p {
        i
    } else {
        i - 1
    };
    let b = if j < p {
        j
    } else {
        j - 1
    };
    if i != p && j != p {
        assert(o[i] == rest[a] && o[j] == rest[b]);
    } else if i == p {
        assert(o[j] == rest[b]);
        assert(clips[rest[p]].start_frame > clips[n - 1].start_frame);
        if b > p {
            assert(clips[rest[p]].start_frame <= clips[rest[b]].start_frame);
        }
    } else {
        assert(o[i] == rest[a]);
    }
}

proof fn lemma_order_slot(clips: Seq<ClipView>, order: Seq<int>, start: int, from: int)
    requires
        0 <= from <= order.len(),
    ensures
        ({
            let p = order_slot(clips, order, start, from);
            &&& from <= p <= order.len()
            &&& forall|k: int|
                from <= k < p ==> clips[#[trigger] order[k]].start_frame <= start
            &&& p < order.len() ==> clips[order[p]].start_frame > start
        }),
    decreases order.len() - from,
{
    if from < order.len() && clips[order[from]].start_frame <= start {
        lemma_order_slot(clips, order, start, from + 1);
    }
}

/// Setting a transition changes the end of the named clip and no other clip, but for
/// transitions that no cut carries. One is set only between two visual clips of one visual
/// track, neither of them a compound, of which the second begins where the first ends and
/// is the next in order, for no longer than half of the shorter. One is taken off where it
/// leads to the clip that was named.
pub proof fn law_transitions_are_set_on_cuts(
    s: StateView,
    from_id: Seq<char>,
    to_id: Seq<char>,
    kind: Option<TransitionKind>,
    duration: i32,
    registry_fault: Option<Seq<char>>,
    ti: int,
    ci: int,
)
    requires
        first_clip(s.timeline, from_id, ti, ci),
    ensures
        ({
            let (r, next) = set_transition_spec(
                s,
                from_id,
                to_id,
                kind,
                duration,
                registry_fault,
            );
            let t = s.timeline;
            let c = t.tracks[ti].clips[ci];
            &&& r is Err ==> next == s
            &&& r is Ok ==> {
                &&& next.manifest == s.manifest
                &&& same_timeline(t, next.timeline)
                &&& kind is Some ==> {
                    &&& duration >= 1
                    &&& has_clip(t, to_id)
                    &&& c.nested_sequence_id is None
                    &&& !(t.tracks[ti].kind is Audio)
                    &&& !(c.media_type is Audio) && !(c.media_type is Text)
                    &&& forall|xi: int, xj: int| #[trigger]
                        first_clip(t, to_id, xi, xj) ==> {
                            let d = t.tracks[xi].clips[xj];
                            &&& xi == ti
                            &&& d.nested_sequence_id is None
                            &&& !(d.media_type is Audio) && !(d.media_type is Text)
                            &&& c.start_frame + c.duration_frames == d.start_frame
                            &&& 2 * duration <= c.duration_frames || duration == 1
                            &&& 2 * duration <= d.duration_frames || duration == 1
                        }
                }
            }
        }),
        ({
            let c = s.timeline.tracks[ti].clips[ci];
            let d = without_transition(c, from_id, to_id);
            &&& d == (ClipView { transition_out: d.transition_out, ..c })
            &&& c.transition_out matches Some(x) ==> if x.to_clip_id == to_id && (
            x.from_clip_id.len() == 0 || x.from_clip_id == from_id) {
                d.transition_out is None
            } else {
                d.transition_out == c.transition_out
            }
            &&& c.transition_out is None ==> d.transition_out is None
        }),
{
    let t = s.timeline;
    let (r, next) = set_transition_spec(s, from_id, to_id, kind, duration, registry_fault);
    law_clips_are_found_by_id(t, from_id);
    law_clips_are_found_by_id(t, to_id);
    let c = t.tracks[ti].clips[ci];
    if r is Ok {
        let e = match kind {
            None => without_transition(c, from_id, to_id),
            Some(k) => ClipView {
                transition_out: Some(
                    TransitionView {
                        from_clip_id: from_id,
                        to_clip_id: to_id,
                        kind: k,
                        duration_frames: duration,
                    },
                ),
                ..c
            },
        };
        let work = with_clip(t, (ti, ci), e);
        assert(next.timeline == pruned(work));
        law_pruning_changes_transitions_alone(work);
        assert forall|i: int| 0 <= i < t.tracks.len() implies #[trigger] same_track(
            t.tracks[i],
            next.timeline.tracks[i],
        ) by {
            assert(same_track(work.tracks[i], next.timeline.tracks[i]));
        }
        assert(same_frame(t, next.timeline)) by {
            assert forall|k: int| 0 <= k < t.nested_sequences.len() implies
                #[trigger] same_sequence(
                t.nested_sequences[k],
                next.timeline.nested_sequences[k],
            ) by {
                assert(same_sequence(
                    work.nested_sequences[k],
                    next.timeline.nested_sequences[k],
                ));
            }
        }
    }
}

} // verus!
