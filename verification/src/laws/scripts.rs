//! What a script plan has to be like, and what it is built into.

use crate::binary64::finite;
use crate::binary64::scaled_frames;
use crate::binary64::sign_bit;
use crate::binary64::zero;
use crate::commands::script::apply_script_assembly_plan_spec;
use crate::commands::script::build_fault;
use crate::commands::script::builds_fault;
use crate::commands::script::built;
use crate::commands::script::byte_length;
use crate::commands::script::counting_fps;
use crate::commands::script::narrated;
use crate::commands::script::narration_clips;
use crate::commands::script::plan_fault;
use crate::commands::script::plan_index;
use crate::commands::script::plan_saved;
use crate::commands::script::save_script_assembly_plan_spec;
use crate::commands::script::segment_fault;
use crate::commands::script::segment_start;
use crate::commands::script::segments_fault;
use crate::commands::script::sha256_text;
use crate::ids::IdsView;
use crate::ids::nth_id;
use crate::laws::arranging::unadorned;
use crate::laws::document::first_entry;
use crate::laws::document::law_media_are_found_by_id;
use crate::laws::document::law_pruning_changes_transitions_alone;
use crate::laws::document::same_timeline;
use crate::laws::frames::frames_hold;
use crate::laws::frames::is_frame;
use crate::locate::media_entry;
use crate::locate::media_index;
use crate::model::ClipView;
use crate::model::MediaManifestView;
use crate::model::Real;
use crate::model::ScriptAssemblyPlanView;
use crate::model::TimelineView;
use crate::model::TransitionView;
use crate::state::StateView;
use crate::text::trimmed;
use vstd::prelude::*;

verus! {

/// Segments follow each other: each starts where the one before it ends, the first at 0.
pub proof fn law_segments_follow_each_other(p: ScriptAssemblyPlanView, k: int)
    requires
        0 <= k < p.segments.len(),
    ensures
        segment_start(p, 0) == p.start_frame,
        segment_start(p, k + 1) == segment_start(p, k) + p.segments[k].duration_frames,
{
}

/// Whether a segment of a plan is in order: a script, a medium and, where there is one, a
/// narration, none of them blank or too long, a length from one frame to 36 000, a
/// transition only to a following segment with two frames on either side, and an end
/// within the frame numbers.
pub open spec fn segment_in_order(p: ScriptAssemblyPlanView, k: int) -> bool {
    let s = p.segments[k];
    &&& trimmed(s.script).len() > 0
    &&& byte_length(s.script) <= 20_000
    &&& 0 < s.media_ref.len()
    &&& byte_length(s.media_ref) <= 256
    &&& s.narration_media_ref is Some ==> 0 < s.narration_media_ref->0.len() && byte_length(
        s.narration_media_ref->0,
    ) <= 256
    &&& 1 <= s.duration_frames <= 36_000
    &&& s.transition is Some ==> k + 1 < p.segments.len() && s.duration_frames >= 2
        && p.segments[k + 1].duration_frames >= 2
    &&& is_frame(segment_start(p, k) + s.duration_frames)
}

/// A plan is complained about exactly when it is not in order: an id, a hash and a planner
/// with a version, a start at 0 or later, and one to a hundred segments, each in order.
pub proof fn law_plans_are_checked(p: ScriptAssemblyPlanView)
    ensures
        plan_fault(p) is None <==> {
            &&& 0 < p.id.len()
            &&& byte_length(p.id) <= 128
            &&& sha256_text(p.plan_hash)
            &&& trimmed(p.planner).len() > 0
            &&& byte_length(p.planner) <= 128
            &&& p.planner_version != 0
            &&& p.start_frame >= 0
            &&& 1 <= p.segments.len() <= 100
            &&& forall|k: int| 0 <= k < p.segments.len() ==> #[trigger] segment_in_order(p, k)
        },
{
    lemma_segments(p, 0);
}

proof fn lemma_segments(p: ScriptAssemblyPlanView, from: int)
    requires
        0 <= from,
    ensures
        segments_fault(p, from) is None <==> forall|k: int|
            from <= k < p.segments.len() ==> #[trigger] segment_in_order(p, k),
    decreases p.segments.len() - from,
{
    if from < p.segments.len() {
        lemma_segments(p, from + 1);
        law_segments_follow_each_other(p, from);
        assert((segment_fault(p, from) is None) == segment_in_order(p, from));
    }
}

/// Whether the plan at a position is the first with an id.
pub open spec fn first_plan(t: TimelineView, id: Seq<char>, q: int) -> bool {
    &&& 0 <= q < t.script_assembly_plans.len()
    &&& t.script_assembly_plans[q].id == id
    &&& forall|k: int| 0 <= k < q ==> (#[trigger] t.script_assembly_plans[k]).id != id
}

proof fn lemma_plan(t: TimelineView, id: Seq<char>, from: int)
    requires
        0 <= from,
    ensures
        match plan_index(t.script_assembly_plans, id, from) {
            Some(q) => from <= q < t.script_assembly_plans.len() && t.script_assembly_plans[q].id
                == id && forall|k: int|
                from <= k < q ==> (#[trigger] t.script_assembly_plans[k]).id != id,
            None => forall|k: int|
                from <= k < t.script_assembly_plans.len() ==> (
                #[trigger] t.script_assembly_plans[k]).id != id,
        },
    decreases t.script_assembly_plans.len() - from,
{
    if from < t.script_assembly_plans.len() && t.script_assembly_plans[from].id != id {
        lemma_plan(t, id, from + 1);
    }
}

/// Saving a plan that is in order puts it in the place of the one with its id; a new one
/// goes behind the others, and where there were twenty the first goes. Nothing else
/// changes, but for transitions.
pub proof fn law_plans_are_saved(
    s: StateView,
    p: ScriptAssemblyPlanView,
    registry_fault: Option<Seq<char>>,
)
    ensures
        ({
            let (r, next) = save_script_assembly_plan_spec(s, p, registry_fault);
            let old_plans = s.timeline.script_assembly_plans;
            let plans = next.timeline.script_assembly_plans;
            let n = old_plans.len() as int;
            &&& r is Err ==> next == s
            &&& r is Ok ==> {
                &&& plan_fault(p) is None
                &&& next.manifest == s.manifest
                &&& same_timeline(
                    TimelineView { script_assembly_plans: plans, ..s.timeline },
                    next.timeline,
                )
                &&& forall|q: int| #[trigger]
                    first_plan(s.timeline, p.id, q) ==> plans.len() == n && plans[q] == p
                        && forall|k: int|
                        0 <= k < n && k != q ==> #[trigger] plans[k] == old_plans[k]
                &&& (forall|k: int| 0 <= k < n ==> (#[trigger] old_plans[k]).id != p.id) ==> {
                    let lost: int = if n >= 20 {
                        1
                    } else {
                        0
                    };
                    &&& plans.len() == n + 1 - lost
                    &&& plans.last() == p
                    &&& forall|k: int|
                        0 <= k < n - lost ==> #[trigger] plans[k] == old_plans[k + lost]
                }
            }
        }),
{
    lemma_plan(s.timeline, p.id, 0);
    let work = TimelineView {
        script_assembly_plans: plan_saved(s.timeline.script_assembly_plans, p),
        ..s.timeline
    };
    law_pruning_changes_transitions_alone(work);
    let (r, next) = save_script_assembly_plan_spec(s, p, registry_fault);
    if r is Ok {
        let old_plans = s.timeline.script_assembly_plans;
        assert forall|q: int| #[trigger] first_plan(s.timeline, p.id, q) implies plan_index(
            old_plans,
            p.id,
            0,
        ) == Some(q) by {
            if let Some(k) = plan_index(old_plans, p.id, 0) {
                if k < q {
                    assert(old_plans[k].id != p.id);
                }
                if q < k {
                    assert(old_plans[q].id != p.id);
                }
            } else {
                assert(old_plans[q].id != p.id);
            }
        }
    }
}

/// Whether a medium lasts as long as is asked of it, at a rate: 0 seconds stands for a
/// length that is not known.
pub open spec fn lasts(duration: Real, fps: nat, least: int, most: int) -> bool {
    zero(duration) || (finite(duration) && !sign_bit(duration) && scaled_frames(fps, duration)
        <= i32::MAX && least <= scaled_frames(fps, duration) <= most)
}

/// Whether a segment may be built from a library: its medium is there, is an image, a
/// video or an animation, and a video is no more than a frame shorter than the segment; its
/// narration, if it has one, is there, carries sound, and lasts as long as the segment to
/// within a frame.
pub open spec fn may_build(
    p: ScriptAssemblyPlanView,
    k: int,
    m: MediaManifestView,
    fps: nat,
) -> bool {
    let s = p.segments[k];
    &&& frames_hold(
        segment_start(p, k),
        s.duration_frames as int,
        0,
        0,
        Real { bits: 0x3FF0_0000_0000_0000 },
    )
    &&& exists|i: int| #[trigger]
        first_entry(m, s.media_ref, i) && {
            let v = m.entries[i];
            &&& v.kind is Image || v.kind is Video || v.kind is Lottie
            &&& v.kind is Video ==> lasts(
                v.duration,
                fps,
                s.duration_frames - 1,
                i32::MAX as int,
            )
        }
    &&& s.narration_media_ref is Some ==> exists|i: int| #[trigger]
        first_entry(m, s.narration_media_ref->0, i) && {
            let v = m.entries[i];
            &&& v.kind is Audio || v.kind is Video
            &&& v.has_audio == Some(true) || (v.has_audio is None && v.kind is Audio)
            &&& lasts(v.duration, fps, s.duration_frames - 1, s.duration_frames + 1)
        }
}

proof fn lemma_one_entry(m: MediaManifestView, id: Seq<char>)
    ensures
        match media_index(m.entries, id, 0) {
            Some(i) => first_entry(m, id, i) && media_entry(m, id) == Some(
                m.entries[i],
            ) && forall|k: int| #[trigger] first_entry(m, id, k) ==> k == i,
            None => media_entry(m, id) is None && forall|k: int|
                !#[trigger] first_entry(m, id, k),
        },
{
    match media_index(m.entries, id, 0) {
        Some(i) => {
            law_media_are_found_by_id(m, id, i);
            assert forall|k: int| #[trigger] first_entry(m, id, k) implies k == i by {
                law_media_are_found_by_id(m, id, k);
            }
        },
        None => {
            assert forall|k: int| !#[trigger] first_entry(m, id, k) by {
                law_media_are_found_by_id(m, id, k);
            }
        },
    }
}

/// Building a plan is complained about exactly when a segment may not be built.
pub proof fn law_builds_are_checked(
    p: ScriptAssemblyPlanView,
    m: MediaManifestView,
    fps: nat,
    from: int,
)
    requires
        0 <= from,
    ensures
        builds_fault(p, m, fps, from) is None <==> forall|k: int|
            from <= k < p.segments.len() ==> #[trigger] may_build(p, k, m, fps),
    decreases p.segments.len() - from,
{
    if from < p.segments.len() {
        law_builds_are_checked(p, m, fps, from + 1);
        let s = p.segments[from];
        lemma_one_entry(m, s.media_ref);
        if let Some(n) = s.narration_media_ref {
            lemma_one_entry(m, n);
        }
        assert((build_fault(p, from, m, fps) is None) == may_build(p, from, m, fps));
    }
}

/// Whether a clip shows the picture of a segment: its medium over its span, silent where
/// the segment is narrated.
pub open spec fn shows_segment(
    p: ScriptAssemblyPlanView,
    m: MediaManifestView,
    k: int,
    c: ClipView,
) -> bool {
    let s = p.segments[k];
    &&& c.media_ref == s.media_ref
    &&& forall|i: int| #[trigger]
        first_entry(m, s.media_ref, i) ==> c.media_type == m.entries[i].kind && c.source_clip_type
            == m.entries[i].kind
    &&& c.start_frame == segment_start(p, k)
    &&& c.duration_frames == s.duration_frames
    &&& c.volume == (if s.narration_media_ref is Some {
        Real { bits: 0 }
    } else {
        Real { bits: 0x3FF0_0000_0000_0000 }
    })
    &&& unadorned(
        ClipView {
            volume: Real { bits: 0x3FF0_0000_0000_0000 },
            transition_out: None,
            ..c
        },
    )
}

/// Whether a clip speaks the narration of a segment over its span.
pub open spec fn speaks_segment(
    p: ScriptAssemblyPlanView,
    m: MediaManifestView,
    k: int,
    c: ClipView,
) -> bool {
    let s = p.segments[k];
    &&& s.narration_media_ref == Some(c.media_ref)
    &&& c.media_type is Audio
    &&& forall|i: int| #[trigger]
        first_entry(m, c.media_ref, i) ==> c.source_clip_type == m.entries[i].kind
    &&& c.start_frame == segment_start(p, k)
    &&& c.duration_frames == s.duration_frames
    &&& unadorned(c)
}

proof fn lemma_narrations(
    p: ScriptAssemblyPlanView,
    m: MediaManifestView,
    ids: IdsView,
    n: int,
) -> (at: Seq<int>)
    requires
        0 <= n <= p.segments.len(),
        forall|k: int|
            0 <= k < p.segments.len() ==> is_frame(#[trigger] segment_start(p, k)),
    ensures
        at.len() == narration_clips(p, m, ids, n).len(),
        at.len() == narrated(p.segments, n),
        forall|x: int| 0 <= x < at.len() ==> 0 <= #[trigger] at[x] < n,
        forall|x: int, y: int| 0 <= x < y < at.len() ==> #[trigger] at[x] < #[trigger] at[y],
        forall|x: int|
            0 <= x < at.len() ==> speaks_segment(
                p,
                m,
                #[trigger] at[x],
                narration_clips(p, m, ids, n)[x],
            ),
        forall|k: int|
            0 <= k < n && (#[trigger] p.segments[k]).narration_media_ref is Some ==> at.contains(k),
    decreases n,
{
    if n <= 0 {
        Seq::empty()
    } else {
        let less = lemma_narrations(p, m, ids, n - 1);
        if p.segments[n - 1].narration_media_ref is Some {
            let at = less.push(n - 1);
            let narration = p.segments[n - 1].narration_media_ref->0;
            lemma_one_entry(m, narration);
            assert(is_frame(segment_start(p, n - 1)));
            assert forall|k: int|
                0 <= k < n && (#[trigger] p.segments[k]).narration_media_ref is Some implies at.contains(
                k,
            ) by {
                if k < n - 1 {
                    assert(less.contains(k));
                    let x = choose|x: int| 0 <= x < less.len() && less[x] == k;
                    assert(at[x] == k);
                } else {
                    assert(at[less.len() as int] == k);
                }
            }
            at
        } else {
            less
        }
    }
}

/// Whether positions on a narration track are those of the narrated segments, in order,
/// all of them.
pub open spec fn narrates(
    p: ScriptAssemblyPlanView,
    m: MediaManifestView,
    clips: Seq<ClipView>,
    at: Seq<int>,
) -> bool {
    &&& at.len() == clips.len()
    &&& forall|x: int, y: int| 0 <= x < y < at.len() ==> #[trigger] at[x] < #[trigger] at[y]
    &&& forall|x: int|
        0 <= x < at.len() ==> 0 <= #[trigger] at[x] < p.segments.len() && speaks_segment(
            p,
            m,
            at[x],
            clips[x],
        )
    &&& forall|k: int|
        0 <= k < p.segments.len() && (#[trigger] p.segments[k]).narration_media_ref is Some
            ==> at.contains(k)
}

/// Whether a transition joins two segments: from the clip of the one to that of the next,
/// of the kind asked for, as long as half of the shorter allows, but no longer than twelve
/// frames.
pub open spec fn joins_segments(
    p: ScriptAssemblyPlanView,
    k: int,
    clips: Seq<ClipView>,
    x: TransitionView,
) -> bool {
    let a = p.segments[k].duration_frames;
    let b = p.segments[k + 1].duration_frames;
    &&& x.from_clip_id == clips[k].id
    &&& x.to_clip_id == clips[k + 1].id
    &&& Some(x.kind) == p.segments[k].transition
    &&& 1 <= x.duration_frames <= 12
    &&& 2 * x.duration_frames <= a
    &&& 2 * x.duration_frames <= b
    &&& x.duration_frames == 12 || 2 * (x.duration_frames + 1) > a || 2 * (x.duration_frames + 1)
        > b
}

/// Whether some segment of a plan is narrated.
pub open spec fn spoken(p: ScriptAssemblyPlanView) -> bool {
    exists|k: int|
        0 <= k < p.segments.len() && (#[trigger] p.segments[k]).narration_media_ref is Some
}

/// Whether a timeline is another with a plan built on it: the pictures one after the other
/// on a new video track on top, and the narrations, where there is one, on a new audio
/// track at the bottom.
pub open spec fn holds_the_plan(
    t: TimelineView,
    p: ScriptAssemblyPlanView,
    m: MediaManifestView,
    ids: IdsView,
    work: TimelineView,
) -> bool {
    let n = t.tracks.len() as int;
    let clips = work.tracks[0].clips;
    &&& work == (TimelineView { tracks: work.tracks, ..t })
    &&& work.tracks.len() == n + 1 + (if spoken(p) {
        1int
    } else {
        0
    })
    &&& forall|i: int| 0 <= i < n ==> work.tracks[i + 1] == #[trigger] t.tracks[i]
    &&& work.tracks[0].kind is Video
    &&& work.tracks[0].id == nth_id(ids, 1)
    &&& clips.len() == p.segments.len()
    &&& forall|k: int| 0 <= k < clips.len() ==> shows_segment(p, m, k, #[trigger] clips[k])
    &&& forall|k: int|
        0 <= k < clips.len() ==> ((#[trigger] clips[k]).transition_out is Some <==> k + 1
            < clips.len() && p.segments[k].transition is Some)
    &&& forall|k: int|
        0 <= k < clips.len() && (#[trigger] clips[k]).transition_out is Some ==> joins_segments(
            p,
            k,
            clips,
            clips[k].transition_out->0,
        )
    &&& spoken(p) ==> {
        &&& work.tracks[n + 1].kind is Audio
        &&& work.tracks[n + 1].id == nth_id(ids, 2)
        &&& exists|at: Seq<int>| #[trigger] narrates(p, m, work.tracks[n + 1].clips, at)
    }
}

proof fn lemma_spoken(p: ScriptAssemblyPlanView, n: int)
    requires
        0 <= n <= p.segments.len(),
    ensures
        narrated(p.segments, n) >= 0,
        narrated(p.segments, n) > 0 <==> exists|k: int|
            0 <= k < n && (#[trigger] p.segments[k]).narration_media_ref is Some,
    decreases n,
{
    if n > 0 {
        lemma_spoken(p, n - 1);
        if p.segments[n - 1].narration_media_ref is Some {
            assert(narrated(p.segments, n) > 0);
        }
    }
}

proof fn lemma_built(
    t: TimelineView,
    p: ScriptAssemblyPlanView,
    m: MediaManifestView,
    ids: IdsView,
)
    requires
        plan_fault(p) is None,
        forall|k: int| 0 <= k < p.segments.len() ==> is_frame(#[trigger] segment_start(p, k)),
    ensures
        holds_the_plan(t, p, m, ids, built(t, p, m, ids)),
{
    let n = t.tracks.len() as int;
    let work = built(t, p, m, ids);
    let clips = work.tracks[0].clips;
    law_plans_are_checked(p);
    lemma_spoken(p, p.segments.len() as int);
    let at = lemma_narrations(p, m, ids, p.segments.len() as int);
    if spoken(p) {
        assert(work.tracks[n + 1].clips == narration_clips(p, m, ids, p.segments.len() as int));
        assert(narrates(p, m, work.tracks[n + 1].clips, at));
    }
    assert forall|k: int| 0 <= k < clips.len() implies shows_segment(p, m, k, #[trigger] clips[k]) by {
        lemma_one_entry(m, p.segments[k].media_ref);
        assert(is_frame(segment_start(p, k)));
    }
    assert forall|k: int|
        0 <= k < clips.len() && (#[trigger] clips[k]).transition_out is Some implies joins_segments(
        p,
        k,
        clips,
        clips[k].transition_out->0,
    ) by {
        assert(segment_in_order(p, k));
        assert(clips[k + 1].id == clips[k].transition_out->0.to_clip_id);
    }
}

/// Building a plan is refused, and nothing changed, unless the plan is there, in order, and
/// may be built; otherwise its pictures stand one after the other on a new video track on
/// top, its narrations, each beside its picture, on a new audio track at the bottom, where
/// there is one, and nothing else changes, but for transitions.
pub proof fn law_plans_are_built(
    s: StateView,
    plan_id: Seq<char>,
    ids: IdsView,
    registry_fault: Option<Seq<char>>,
    q: int,
)
    requires
        first_plan(s.timeline, plan_id, q),
    ensures
        ({
            let (r, next) = apply_script_assembly_plan_spec(s, plan_id, ids, registry_fault);
            let t = s.timeline;
            let p = t.script_assembly_plans[q];
            &&& r is Err ==> next == s
            &&& r is Ok ==> {
                &&& plan_fault(p) is None
                &&& forall|k: int|
                    0 <= k < p.segments.len() ==> #[trigger] may_build(
                        p,
                        k,
                        s.manifest,
                        counting_fps(t.fps),
                    )
                &&& counting_fps(t.fps) >= 1
                &&& t.fps >= 1 ==> counting_fps(t.fps) == t.fps
                &&& next.manifest == s.manifest
                &&& exists|work: TimelineView| #[trigger]
                    holds_the_plan(t, p, s.manifest, ids, work) && same_timeline(
                        work,
                        next.timeline,
                    )
            }
        }),
{
    let (r, next) = apply_script_assembly_plan_spec(s, plan_id, ids, registry_fault);
    let t = s.timeline;
    let p = t.script_assembly_plans[q];
    let m = s.manifest;
    lemma_plan(t, plan_id, 0);
    if let Some(k) = plan_index(t.script_assembly_plans, plan_id, 0) {
        if k < q {
            assert(t.script_assembly_plans[k].id != plan_id);
        }
        if q < k {
            assert(t.script_assembly_plans[q].id != plan_id);
        }
    } else {
        assert(t.script_assembly_plans[q].id != plan_id);
    }
    if r is Ok {
        let work = built(t, p, m, ids);
        law_builds_are_checked(p, m, counting_fps(t.fps), 0);
        law_pruning_changes_transitions_alone(work);
        assert forall|k: int| 0 <= k < p.segments.len() implies is_frame(
            #[trigger] segment_start(p, k),
        ) by {
            assert(may_build(p, k, m, counting_fps(t.fps)));
        }
        lemma_built(t, p, m, ids);
    }
}

} // verus!
