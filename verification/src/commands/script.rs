//! Script assembly plans: saving a reviewable plan, and building tracks from it.

use crate::binary64::finite;
use crate::binary64::scale_frames;
use crate::binary64::scaled_frames;
use crate::binary64::sign_bit;
use crate::binary64::zero;
use crate::edit::invalid;
use crate::edit::outcome;
use crate::edit::verdict;
use crate::edit::EditError;
use crate::edit::EditResult;
use crate::edit::EditResultView;
use crate::edit::Fault;
use crate::frames::checked_frame_arithmetic;
use crate::frames::fits;
use crate::frames::frame_fault;
use crate::frames::invalid_if;
use crate::frames::validate_timeline_frame_arithmetic;
use crate::fresh::fresh_clip;
use crate::fresh::fresh_track;
use crate::ids::ids_after;
use crate::ids::lemma_ids_after;
use crate::ids::nth_id;
use crate::ids::CoreIdGen;
use crate::ids::IdsView;
use crate::locate::find_media;
use crate::locate::lemma_tracks_replaced;
use crate::locate::media_entry;
use crate::model::clip_views;
use crate::model::lemma_nested_views;
use crate::model::script_assembly_plan_views;
use crate::model::script_segment_views;
use crate::model::Clip;
use crate::model::ClipType;
use crate::model::ClipView;
use crate::model::MediaManifestView;
use crate::model::Real;
use crate::model::ScriptAssemblyPlan;
use crate::model::ScriptAssemblyPlanView;
use crate::model::ScriptSegment;
use crate::model::ScriptSegmentView;
use crate::model::TimelineView;
use crate::model::Track;
use crate::model::TrackView;
use crate::model::Transition;
use crate::model::TransitionView;
use crate::state::ids_spent;
use crate::state::timeline_transacted;
use crate::state::transact_timeline;
use crate::state::EditorState;
use crate::state::StateView;
use crate::text::cat2;
use crate::text::cat3;
use crate::text::nat_text;
use crate::text::opt_text;
use crate::text::same_text;
use crate::text::texts;
use crate::text::trim;
use crate::text::trimmed;
use crate::text::usize_to_text;
use vstd::prelude::*;
use vstd::utf8::encode_utf8;

verus! {

/// The number of bytes of a text in UTF-8.
pub open spec fn byte_length(s: Seq<char>) -> nat {
    encode_utf8(s).len()
}

/// Whether a byte is a hexadecimal digit.
pub open spec fn hex_digit(b: u8) -> bool {
    48 <= b <= 57 || 65 <= b <= 70 || 97 <= b <= 102
}

/// Whether a text consists of 64 hexadecimal digits.
pub open spec fn sha256_text(s: Seq<char>) -> bool {
    let bytes = encode_utf8(s);
    bytes.len() == 64 && forall|i: int| 0 <= i < bytes.len() ==> hex_digit(#[trigger] bytes[i])
}

/// Counts the bytes of a text.
pub fn count_bytes(s: &str) -> (r: usize)
    ensures
        r == byte_length(s@),
{
    s.as_bytes().len()
}

/// Whether a text is a SHA-256 digest in hexadecimal.
pub fn valid_sha256(value: &str) -> (r: bool)
    ensures
        r == sha256_text(value@),
{
    let bytes = value.as_bytes();
    if bytes.len() != 64 {
        return false;
    }
    let mut i: usize = 0;
    while i < bytes.len()
        invariant
            i <= bytes@.len(),
            bytes@ == encode_utf8(value@),
            bytes@.len() == 64,
            forall|j: int| 0 <= j < i ==> hex_digit(#[trigger] bytes@[j]),
        decreases bytes@.len() - i,
    {
        let b: u8 = bytes[i];
        if !((48 <= b && b <= 57) || (65 <= b && b <= 70) || (97 <= b && b <= 102)) {
            assert(!hex_digit(bytes@[i as int]));
            return false;
        }
        i += 1;
    }
    true
}

/// The frames of the segments before the `k`-th.
pub open spec fn frames_before(segments: Seq<ScriptSegmentView>, k: int) -> int
    decreases k,
{
    if k <= 0 {
        0
    } else {
        frames_before(segments, k - 1) + segments[k - 1].duration_frames
    }
}

/// Where the `k`-th segment starts.
pub open spec fn segment_start(p: ScriptAssemblyPlanView, k: int) -> int {
    p.start_frame + frames_before(p.segments, k)
}

/// Whether the fields of a segment are in order.
pub open spec fn segment_ok(s: ScriptSegmentView) -> bool {
    &&& trimmed(s.script).len() > 0
    &&& byte_length(s.script) <= 20_000
    &&& s.media_ref.len() > 0
    &&& byte_length(s.media_ref) <= 256
    &&& s.narration_media_ref matches Some(n) ==> n.len() > 0 && byte_length(n) <= 256
    &&& 1 <= s.duration_frames <= 36_000
}

/// The complaint against the `i`-th segment of a plan, if any.
pub open spec fn segment_fault(p: ScriptAssemblyPlanView, i: int) -> Option<Seq<char>> {
    let s = p.segments[i];
    if !segment_ok(s) {
        Some("invalid script assembly segment "@ + nat_text(i as nat))
    } else if s.transition is Some && (i + 1 == p.segments.len() || s.duration_frames < 2
        || p.segments[i + 1].duration_frames < 2) {
        Some(
            "segment "@ + nat_text(i as nat)
                + " transition requires a following segment with at least two frames"@,
        )
    } else if !fits(segment_start(p, i + 1)) {
        Some("script segment "@ + nat_text(i as nat) + " timeline span overflows"@)
    } else {
        None
    }
}

/// The first complaint, from `from` on, against the segments of a plan.
pub open spec fn segments_fault(p: ScriptAssemblyPlanView, from: int) -> Option<Seq<char>>
    decreases p.segments.len() - from,
{
    if from < 0 || from >= p.segments.len() {
        None
    } else {
        match segment_fault(p, from) {
            Some(m) => Some(m),
            None => segments_fault(p, from + 1),
        }
    }
}

/// Whether the fields of a plan itself are in order.
pub open spec fn plan_ok(p: ScriptAssemblyPlanView) -> bool {
    &&& p.id.len() > 0
    &&& byte_length(p.id) <= 128
    &&& sha256_text(p.plan_hash)
    &&& trimmed(p.planner).len() > 0
    &&& byte_length(p.planner) <= 128
    &&& p.planner_version != 0
    &&& p.start_frame >= 0
    &&& 1 <= p.segments.len() <= 100
}

/// The complaint against a plan, if any.
pub open spec fn plan_fault(p: ScriptAssemblyPlanView) -> Option<Seq<char>> {
    if !plan_ok(p) {
        Some("invalid script assembly plan"@)
    } else {
        segments_fault(p, 0)
    }
}

fn is_segment_ok(s: &ScriptSegment) -> (r: bool)
    ensures
        r == segment_ok(s@),
{
    let script = trim(s.script.as_str());
    if script.as_str().is_empty() || count_bytes(s.script.as_str()) > 20_000
        || s.media_ref.as_str().is_empty() || count_bytes(s.media_ref.as_str()) > 256 {
        return false;
    }
    if let Some(n) = &s.narration_media_ref {
        if n.as_str().is_empty() || count_bytes(n.as_str()) > 256 {
            return false;
        }
    }
    1 <= s.duration_frames && s.duration_frames <= 36_000
}

/// Checks a script assembly plan.
pub fn validate_script_assembly_plan(plan: &ScriptAssemblyPlan) -> (r: Result<(), EditError>)
    ensures
        verdict(r) == invalid_if(plan_fault(plan@)),
{
    let ghost p = plan@;
    let planner = trim(plan.planner.as_str());
    assert(plan.segments@.len() == p.segments.len());
    if plan.id.as_str().is_empty() || count_bytes(plan.id.as_str()) > 128 || !valid_sha256(
        plan.plan_hash.as_str(),
    ) || planner.as_str().is_empty() || count_bytes(plan.planner.as_str()) > 128
        || plan.planner_version == 0 || plan.start_frame < 0 || plan.segments.len() == 0
        || plan.segments.len() > 100 {
        return Err(invalid("invalid script assembly plan"));
    }
    let mut cursor: i32 = plan.start_frame;
    let mut i: usize = 0;
    while i < plan.segments.len()
        invariant
            i <= plan.segments@.len(),
            p == plan@,
            p.segments.len() == plan.segments@.len(),
            plan_ok(p),
            cursor == segment_start(p, i as int),
            segments_fault(p, 0) == segments_fault(p, i as int),
        decreases plan.segments@.len() - i,
    {
        let segment = &plan.segments[i];
        let index = usize_to_text(i);
        if !is_segment_ok(segment) {
            return Err(
                EditError::Invalid(cat2("invalid script assembly segment ", index.as_str())),
            );
        }
        if segment.transition.is_some() {
            let last = i + 1 == plan.segments.len();
            if last || segment.duration_frames < 2 || plan.segments[i + 1].duration_frames < 2 {
                return Err(
                    EditError::Invalid(
                        cat3(
                            "segment ",
                            index.as_str(),
                            " transition requires a following segment with at least two frames",
                        ),
                    ),
                );
            }
        }
        cursor =
        match cursor.checked_add(segment.duration_frames) {
            Some(next) => next,
            None => {
                return Err(
                    EditError::Invalid(
                        cat3("script segment ", index.as_str(), " timeline span overflows"),
                    ),
                );
            },
        };
        i += 1;
    }
    Ok(())
}

/// The position of the first plan with an id, from `from` on.
pub open spec fn plan_index(
    plans: Seq<ScriptAssemblyPlanView>,
    id: Seq<char>,
    from: int,
) -> Option<int>
    decreases plans.len() - from,
{
    if from < 0 || from >= plans.len() {
        None
    } else if plans[from].id == id {
        Some(from)
    } else {
        plan_index(plans, id, from + 1)
    }
}

/// The plans with one more: in place of the one with its id, or else at the end,
/// where the oldest leaves a list of twenty.
pub open spec fn plan_saved(
    plans: Seq<ScriptAssemblyPlanView>,
    p: ScriptAssemblyPlanView,
) -> Seq<ScriptAssemblyPlanView> {
    match plan_index(plans, p.id, 0) {
        Some(i) => plans.update(i, p),
        None => if plans.len() >= 20 {
            plans.remove(0).push(p)
        } else {
            plans.push(p)
        },
    }
}

/// Saving a plan that is in order.
pub open spec fn save_script_assembly_plan_spec(
    s: StateView,
    p: ScriptAssemblyPlanView,
    registry_fault: Option<Seq<char>>,
) -> (Result<EditResultView, Fault>, StateView) {
    if plan_fault(p) is Some {
        (Err(Fault::Invalid(plan_fault(p)->0)), s)
    } else {
        timeline_transacted(
            s,
            "Plan Script Video"@,
            "Saved script assembly plan "@ + p.id,
            TimelineView {
                script_assembly_plans: plan_saved(s.timeline.script_assembly_plans, p),
                ..s.timeline
            },
            Seq::empty(),
            registry_fault,
        )
    }
}

/// A list of at most twenty plans stays one.
pub proof fn law_plans_stay_bounded(
    plans: Seq<ScriptAssemblyPlanView>,
    p: ScriptAssemblyPlanView,
)
    requires
        plans.len() <= 20,
    ensures
        plan_saved(plans, p).len() <= 20,
        plan_saved(plans, p).contains(p),
{
    lemma_plan_index(plans, p.id, 0);
    match plan_index(plans, p.id, 0) {
        Some(i) => {
            assert(plans.update(i, p)[i] == p);
        },
        None => {
            let kept = if plans.len() >= 20 {
                plans.remove(0)
            } else {
                plans
            };
            assert(kept.push(p)[kept.len() as int] == p);
        },
    }
}

proof fn lemma_plan_index(plans: Seq<ScriptAssemblyPlanView>, id: Seq<char>, from: int)
    requires
        0 <= from,
    ensures
        plan_index(plans, id, from) matches Some(i) ==> from <= i < plans.len() && plans[i].id
            == id,
    decreases plans.len() - from,
{
    if from < plans.len() && plans[from].id != id {
        lemma_plan_index(plans, id, from + 1);
    }
}

fn find_plan(plans: &Vec<ScriptAssemblyPlan>, id: &str) -> (r: Option<usize>)
    ensures
        match r {
            Some(i) => plan_index(script_assembly_plan_views(plans@), id@, 0) == Some(i as int) && i
                < plans@.len(),
            None => plan_index(script_assembly_plan_views(plans@), id@, 0) is None,
        },
{
    let ghost views = script_assembly_plan_views(plans@);
    let mut i: usize = 0;
    while i < plans.len()
        invariant
            i <= plans@.len(),
            views == script_assembly_plan_views(plans@),
            plan_index(views, id@, 0) == plan_index(views, id@, i as int),
        decreases plans@.len() - i,
    {
        if same_text(plans[i].id.as_str(), id) {
            return Some(i);
        }
        i += 1;
    }
    None
}

/// Persists a reviewable plan without placing any clips.
pub fn save_script_assembly_plan(
    state: &mut EditorState,
    plan: ScriptAssemblyPlan,
    registry_fault: &Option<String>,
) -> (r: Result<EditResult, EditError>)
    requires
        old(state)@.version < u64::MAX,
    ensures
        (outcome(r), final(state)@) == save_script_assembly_plan_spec(
            old(state)@,
            plan@,
            opt_text(*registry_fault),
        ),
{
    if let Err(e) = validate_script_assembly_plan(&plan) {
        return Err(e);
    }
    let ghost p = plan@;
    let summary = cat2("Saved script assembly plan ", plan.id.as_str());
    let mut timeline = state.timeline.copy();
    let ghost before = timeline;
    let ghost plans = before@.script_assembly_plans;
    match find_plan(&timeline.script_assembly_plans, plan.id.as_str()) {
        Some(i) => {
            timeline.script_assembly_plans[i] = plan;
        },
        None => {
            if timeline.script_assembly_plans.len() >= 20 {
                let _ = timeline.script_assembly_plans.remove(0);
            }
            timeline.script_assembly_plans.push(plan);
        },
    }
    proof {
        lemma_nested_views(before);
        lemma_nested_views(timeline);
        assert(timeline@.script_assembly_plans =~= plan_saved(plans, p));
        assert(timeline@ =~= TimelineView {
            script_assembly_plans: plan_saved(plans, p),
            ..before@
        });
    }
    let affected: Vec<String> = Vec::new();
    assert(texts(affected@) =~= Seq::empty());
    transact_timeline(
        state,
        "Plan Script Video",
        summary.as_str(),
        timeline,
        affected,
        registry_fault,
    )
}

/// The length of a medium in frames: unknown where its duration is zero.
pub open spec fn media_frames(duration: Real, fps: nat, label: Seq<char>) -> Result<
    Option<nat>,
    Seq<char>,
> {
    if zero(duration) {
        Ok(None)
    } else if !finite(duration) || sign_bit(duration) {
        Err(label + ": duration must be finite and nonnegative"@)
    } else if scaled_frames(fps, duration) > i32::MAX {
        Err(label + ": duration is out of frame range"@)
    } else {
        Ok(Some(scaled_frames(fps, duration)))
    }
}

/// Converts a duration in seconds to frames.
pub fn checked_media_duration_frames(duration_seconds: Real, fps: i32, label: &str) -> (r: Result<
    Option<i32>,
    EditError,
>)
    requires
        0 <= fps,
    ensures
        match media_frames(duration_seconds, fps as nat, label@) {
            Ok(frames) => r matches Ok(got) && (match frames {
                Some(n) => got == Some(n as i32),
                None => got is None,
            }),
            Err(m) => r matches Err(e) && e@ == Fault::Invalid(m),
        },
{
    if duration_seconds.is_zero() {
        return Ok(None);
    }
    if !duration_seconds.is_finite() || duration_seconds.bits >= 0x8000_0000_0000_0000 {
        return Err(
            EditError::Invalid(cat2(label, ": duration must be finite and nonnegative")),
        );
    }
    match scale_frames(fps, duration_seconds) {
        Some(frames) => Ok(Some(frames)),
        None => Err(EditError::Invalid(cat2(label, ": duration is out of frame range"))),
    }
}

/// The frame rate that media lengths are counted in.
pub open spec fn counting_fps(fps: i32) -> nat {
    if fps < 1 {
        1
    } else {
        fps as nat
    }
}

/// The name of the `i`-th segment in complaints.
pub open spec fn segment_label(i: int) -> Seq<char> {
    "script segment "@ + nat_text(i as nat)
}

/// The complaint against the `i`-th segment's picture, if any: the medium has to
/// be there, be visual, and if it is a video last about as long as the segment.
pub open spec fn visual_fault(
    s: ScriptSegmentView,
    i: int,
    m: MediaManifestView,
    fps: nat,
) -> Option<Seq<char>> {
    match media_entry(m, s.media_ref) {
        None => Some(segment_label(i) + " visual media not found: "@ + s.media_ref),
        Some(v) => {
            if !(v.kind is Image || v.kind is Video || v.kind is Lottie) {
                Some(segment_label(i) + " media must be visual"@)
            } else if v.kind is Video {
                match media_frames(v.duration, fps, segment_label(i) + " visual media"@) {
                    Err(text) => Some(text),
                    Ok(None) => None,
                    Ok(Some(frames)) => if frames < s.duration_frames - 1 {
                        Some(segment_label(i) + " is longer than its video source"@)
                    } else {
                        None
                    },
                }
            } else {
                None
            }
        },
    }
}

/// The complaint against the `i`-th segment's narration, if any: the medium has to
/// be there, carry sound, and match the segment within one frame.
pub open spec fn narration_fault(
    s: ScriptSegmentView,
    i: int,
    m: MediaManifestView,
    fps: nat,
) -> Option<Seq<char>> {
    match s.narration_media_ref {
        None => None,
        Some(narration) => match media_entry(m, narration) {
            None => Some(segment_label(i) + " narration media not found: "@ + narration),
            Some(n) => {
                let audible = match n.has_audio {
                    Some(b) => b,
                    None => n.kind is Audio,
                };
                if !audible || !(n.kind is Audio || n.kind is Video) {
                    Some(segment_label(i) + " narration must contain audio"@)
                } else {
                    match media_frames(n.duration, fps, segment_label(i) + " narration media"@) {
                        Err(text) => Some(text),
                        Ok(None) => None,
                        Ok(Some(frames)) => if frames - s.duration_frames > 1
                            || s.duration_frames - frames > 1 {
                            Some(
                                segment_label(i)
                                    + " narration duration must match within one frame"@,
                            )
                        } else {
                            None
                        },
                    }
                }
            },
        },
    }
}

/// The complaint against building the `i`-th segment, if any.
pub open spec fn build_fault(
    p: ScriptAssemblyPlanView,
    i: int,
    m: MediaManifestView,
    fps: nat,
) -> Option<Seq<char>> {
    let s = p.segments[i];
    match frame_fault(
        segment_start(p, i),
        s.duration_frames as int,
        0,
        0,
        Real { bits: 0x3FF0_0000_0000_0000 },
        segment_label(i),
    ) {
        Some(text) => Some(text),
        None => match visual_fault(s, i, m, fps) {
            Some(text) => Some(text),
            None => narration_fault(s, i, m, fps),
        },
    }
}

/// The first complaint, from `from` on, against building a plan.
pub open spec fn builds_fault(
    p: ScriptAssemblyPlanView,
    m: MediaManifestView,
    fps: nat,
    from: int,
) -> Option<Seq<char>>
    decreases p.segments.len() - from,
{
    if from < 0 || from >= p.segments.len() {
        None
    } else {
        match build_fault(p, from, m, fps) {
            Some(text) => Some(text),
            None => builds_fault(p, m, fps, from + 1),
        }
    }
}

/// How many of the first `k` segments are narrated.
pub open spec fn narrated(segments: Seq<ScriptSegmentView>, k: int) -> int
    decreases k,
{
    if k <= 0 {
        0
    } else {
        narrated(segments, k - 1) + (if segments[k - 1].narration_media_ref is Some {
            1int
        } else {
            0
        })
    }
}

/// How many ids the tracks take: one for the picture, one for the narration where
/// there is any.
pub open spec fn track_ids(segments: Seq<ScriptSegmentView>) -> int {
    if narrated(segments, segments.len() as int) > 0 {
        2
    } else {
        1
    }
}

/// How many ids are minted before the `k`-th segment.
pub open spec fn ids_before(segments: Seq<ScriptSegmentView>, k: int) -> int {
    track_ids(segments) + k + narrated(segments, k)
}

/// The id of the `k`-th segment's picture clip.
pub open spec fn visual_id(segments: Seq<ScriptSegmentView>, ids: IdsView, k: int) -> Seq<char> {
    nth_id(ids, ids_before(segments, k) + 1)
}

/// The id of the `k`-th segment's narration clip.
pub open spec fn narration_id(segments: Seq<ScriptSegmentView>, ids: IdsView, k: int) -> Seq<char> {
    nth_id(ids, ids_before(segments, k) + 2)
}

/// The `k`-th segment's picture clip, without a transition. A narrated segment's
/// own sound is turned off.
pub open spec fn visual_clip(
    p: ScriptAssemblyPlanView,
    m: MediaManifestView,
    ids: IdsView,
    k: int,
) -> ClipView {
    let s = p.segments[k];
    let kind = media_entry(m, s.media_ref)->0.kind;
    let c = fresh_clip(
        visual_id(p.segments, ids, k),
        s.media_ref,
        segment_start(p, k) as i32,
        s.duration_frames,
    );
    ClipView {
        media_type: kind,
        source_clip_type: kind,
        volume: if s.narration_media_ref is Some {
            Real { bits: 0 }
        } else {
            c.volume
        },
        ..c
    }
}

/// The length of the transition between two segments: twelve frames, but no more
/// than half of either, and at least one.
pub open spec fn segment_transition(from: int, to: int) -> int {
    let a = if from / 2 < 12 {
        from / 2
    } else {
        12
    };
    let b = if to / 2 < a {
        to / 2
    } else {
        a
    };
    if b < 1 {
        1
    } else {
        b
    }
}

/// The `k`-th segment's picture clip with its transition to the next.
pub open spec fn visual_clip_joined(
    p: ScriptAssemblyPlanView,
    m: MediaManifestView,
    ids: IdsView,
    k: int,
) -> ClipView {
    let c = visual_clip(p, m, ids, k);
    if k + 1 < p.segments.len() && p.segments[k].transition is Some {
        ClipView {
            transition_out: Some(
                TransitionView {
                    from_clip_id: visual_id(p.segments, ids, k),
                    to_clip_id: visual_id(p.segments, ids, k + 1),
                    kind: p.segments[k].transition->0,
                    duration_frames: segment_transition(
                        p.segments[k].duration_frames as int,
                        p.segments[k + 1].duration_frames as int,
                    ) as i32,
                },
            ),
            ..c
        }
    } else {
        c
    }
}

/// The `k`-th segment's narration clip.
pub open spec fn narration_clip(
    p: ScriptAssemblyPlanView,
    m: MediaManifestView,
    ids: IdsView,
    k: int,
) -> ClipView {
    let s = p.segments[k];
    let narration = s.narration_media_ref->0;
    ClipView {
        media_type: ClipType::Audio,
        source_clip_type: media_entry(m, narration)->0.kind,
        ..fresh_clip(
            narration_id(p.segments, ids, k),
            narration,
            segment_start(p, k) as i32,
            s.duration_frames,
        )
    }
}

/// The narration clips of the first `k` segments.
pub open spec fn narration_clips(
    p: ScriptAssemblyPlanView,
    m: MediaManifestView,
    ids: IdsView,
    k: int,
) -> Seq<ClipView>
    decreases k,
{
    if k <= 0 {
        Seq::empty()
    } else if p.segments[k - 1].narration_media_ref is Some {
        narration_clips(p, m, ids, k - 1).push(narration_clip(p, m, ids, k - 1))
    } else {
        narration_clips(p, m, ids, k - 1)
    }
}

/// The ids of the clips of the first `k` segments: picture, then narration.
pub open spec fn built_ids(segments: Seq<ScriptSegmentView>, ids: IdsView, k: int) -> Seq<Seq<char>>
    decreases k,
{
    if k <= 0 {
        Seq::empty()
    } else {
        let before = built_ids(segments, ids, k - 1).push(visual_id(segments, ids, k - 1));
        if segments[k - 1].narration_media_ref is Some {
            before.push(narration_id(segments, ids, k - 1))
        } else {
            before
        }
    }
}

/// The timeline with a plan built: a picture track on top, and a narration track
/// at the bottom where anything is narrated.
pub open spec fn built(
    t: TimelineView,
    p: ScriptAssemblyPlanView,
    m: MediaManifestView,
    ids: IdsView,
) -> TimelineView {
    let n = p.segments.len() as int;
    let with_picture = t.tracks.insert(
        0,
        TrackView {
            clips: Seq::new(p.segments.len(), |k: int| visual_clip_joined(p, m, ids, k)),
            ..fresh_track(nth_id(ids, 1), ClipType::Video)
        },
    );
    TimelineView {
        tracks: if narrated(p.segments, n) > 0 {
            with_picture.push(
                TrackView {
                    clips: narration_clips(p, m, ids, n),
                    ..fresh_track(nth_id(ids, 2), ClipType::Audio)
                },
            )
        } else {
            with_picture
        },
        ..t
    }
}

/// Building a saved plan: it exists and is in order, and so is its media.
pub open spec fn apply_script_assembly_plan_spec(
    s: StateView,
    plan_id: Seq<char>,
    ids: IdsView,
    registry_fault: Option<Seq<char>>,
) -> (Result<EditResultView, Fault>, StateView) {
    match plan_index(s.timeline.script_assembly_plans, plan_id, 0) {
        None => (Err(Fault::Invalid("script assembly plan not found: "@ + plan_id)), s),
        Some(i) => {
            let p = s.timeline.script_assembly_plans[i];
            let n = p.segments.len() as int;
            if plan_fault(p) is Some {
                (Err(Fault::Invalid(plan_fault(p)->0)), s)
            } else if builds_fault(p, s.manifest, counting_fps(s.timeline.fps), 0) is Some {
                (
                    Err(
                        Fault::Invalid(
                            builds_fault(p, s.manifest, counting_fps(s.timeline.fps), 0)->0,
                        ),
                    ),
                    s,
                )
            } else {
                let added = built_ids(p.segments, ids, n);
                timeline_transacted(
                    s,
                    "Build Script Video"@,
                    "Built script video with "@ + nat_text(added.len()) + " clip(s)"@,
                    built(s.timeline, p, s.manifest, ids),
                    added,
                    registry_fault,
                )
            }
        },
    }
}

/// Whether a saved plan can be built.
pub open spec fn buildable(s: StateView, plan_id: Seq<char>) -> bool {
    plan_index(s.timeline.script_assembly_plans, plan_id, 0) matches Some(i) && plan_fault(
        s.timeline.script_assembly_plans[i],
    ) is None && builds_fault(
        s.timeline.script_assembly_plans[i],
        s.manifest,
        counting_fps(s.timeline.fps),
        0,
    ) is None
}

/// The segments of a saved plan.
pub open spec fn saved_segments(s: StateView, plan_id: Seq<char>) -> Seq<ScriptSegmentView> {
    s.timeline.script_assembly_plans[plan_index(
        s.timeline.script_assembly_plans,
        plan_id,
        0,
    )->0].segments
}

fn check_visual(
    state: &EditorState,
    segment: &ScriptSegment,
    fps: i32,
    label: &str,
    Ghost(i): Ghost<int>,
) -> (r: Result<(), EditError>)
    requires
        0 <= fps,
        label@ == segment_label(i),
        segment.duration_frames >= 1,
    ensures
        verdict(r) == invalid_if(visual_fault(segment@, i, state@.manifest, fps as nat)),
{
    let index: usize = match find_media(&state.manifest, segment.media_ref.as_str()) {
        Some(index) => index,
        None => {
            return Err(
                EditError::Invalid(
                    cat3(label, " visual media not found: ", segment.media_ref.as_str()),
                ),
            );
        },
    };
    let visual = &state.manifest.entries[index];
    if !(visual.kind == ClipType::Image || visual.kind == ClipType::Video || visual.kind
        == ClipType::Lottie) {
        return Err(EditError::Invalid(cat2(label, " media must be visual")));
    }
    if visual.kind == ClipType::Video {
        let what = cat2(label, " visual media");
        match checked_media_duration_frames(visual.duration, fps, what.as_str()) {
            Err(e) => return Err(e),
            Ok(None) => {},
            Ok(Some(frames)) => {
                if frames < segment.duration_frames - 1 {
                    return Err(
                        EditError::Invalid(cat2(label, " is longer than its video source")),
                    );
                }
            },
        }
    }
    Ok(())
}

fn check_narration(
    state: &EditorState,
    segment: &ScriptSegment,
    fps: i32,
    label: &str,
    Ghost(i): Ghost<int>,
) -> (r: Result<(), EditError>)
    requires
        0 <= fps,
        label@ == segment_label(i),
    ensures
        verdict(r) == invalid_if(narration_fault(segment@, i, state@.manifest, fps as nat)),
{
    let narration_ref = match &segment.narration_media_ref {
        Some(narration_ref) => narration_ref,
        None => return Ok(()),
    };
    let index: usize = match find_media(&state.manifest, narration_ref.as_str()) {
        Some(index) => index,
        None => {
            return Err(
                EditError::Invalid(
                    cat3(label, " narration media not found: ", narration_ref.as_str()),
                ),
            );
        },
    };
    let narration = &state.manifest.entries[index];
    let audible = match narration.has_audio {
        Some(b) => b,
        None => narration.kind == ClipType::Audio,
    };
    if !audible || !(narration.kind == ClipType::Audio || narration.kind == ClipType::Video) {
        return Err(EditError::Invalid(cat2(label, " narration must contain audio")));
    }
    let what = cat2(label, " narration media");
    match checked_media_duration_frames(narration.duration, fps, what.as_str()) {
        Err(e) => return Err(e),
        Ok(None) => {},
        Ok(Some(frames)) => {
            let difference: i64 = frames as i64 - segment.duration_frames as i64;
            if difference > 1 || difference < -1 {
                return Err(
                    EditError::Invalid(
                        cat2(label, " narration duration must match within one frame"),
                    ),
                );
            }
        },
    }
    Ok(())
}

/// A plan that is in order has segments of at least one frame, and their starts
/// are frame numbers.
proof fn lemma_plan_in_order(p: ScriptAssemblyPlanView, from: int, k: int)
    requires
        segments_fault(p, from) is None,
        0 <= from <= k < p.segments.len(),
    ensures
        segment_ok(p.segments[k]),
        fits(segment_start(p, k + 1)),
        p.segments[k].transition is Some ==> k + 1 < p.segments.len(),
    decreases k - from,
{
    if from < k {
        lemma_plan_in_order(p, from + 1, k);
    }
}

fn check_build(state: &EditorState, plan: &ScriptAssemblyPlan) -> (r: Result<(), EditError>)
    requires
        plan_fault(plan@) is None,
    ensures
        verdict(r) == invalid_if(
            builds_fault(plan@, state@.manifest, counting_fps(state@.timeline.fps), 0),
        ),
{
    let ghost p = plan@;
    let ghost m = state@.manifest;
    let fps: i32 = if state.timeline.fps < 1 {
        1
    } else {
        state.timeline.fps
    };
    let mut cursor: i32 = plan.start_frame;
    let mut i: usize = 0;
    while i < plan.segments.len()
        invariant
            i <= plan.segments@.len(),
            p == plan@,
            p.segments.len() == plan.segments@.len(),
            m == state@.manifest,
            plan_fault(p) is None,
            fps == counting_fps(state@.timeline.fps),
            cursor == segment_start(p, i as int),
            builds_fault(p, m, fps as nat, 0) == builds_fault(p, m, fps as nat, i as int),
        decreases plan.segments@.len() - i,
    {
        let segment = &plan.segments[i];
        let index = usize_to_text(i);
        let label = cat2("script segment ", index.as_str());
        proof {
            lemma_plan_in_order(p, 0, i as int);
        }
        let checked = checked_frame_arithmetic(
            cursor,
            segment.duration_frames,
            0,
            0,
            Real::one(),
            label.as_str(),
        );
        if let Err(e) = checked {
            return Err(e);
        }
        let seen = check_visual(state, segment, fps, label.as_str(), Ghost(i as int));
        if let Err(e) = seen {
            return Err(e);
        }
        let heard = check_narration(state, segment, fps, label.as_str(), Ghost(i as int));
        if let Err(e) = heard {
            return Err(e);
        }
        cursor = cursor + segment.duration_frames;
        i += 1;
    }
    Ok(())
}

fn any_narration(segments: &Vec<ScriptSegment>) -> (r: bool)
    ensures
        r == (narrated(script_segment_views(segments@), segments@.len() as int) > 0),
{
    let ghost views = script_segment_views(segments@);
    let mut any = false;
    let mut k: usize = 0;
    while k < segments.len()
        invariant
            k <= segments@.len(),
            views == script_segment_views(segments@),
            any == (narrated(views, k as int) > 0),
            narrated(views, k as int) >= 0,
        decreases segments@.len() - k,
    {
        if segments[k].narration_media_ref.is_some() {
            any = true;
        }
        k += 1;
    }
    any
}

fn half_at_most(limit: i32, duration: i32) -> (r: i32)
    requires
        duration >= 0,
    ensures
        r == (if duration as int / 2 < limit {
            duration as int / 2
        } else {
            limit as int
        }),
{
    let half: i32 = duration / 2;
    if half < limit {
        half
    } else {
        limit
    }
}

/// A clip list with the transitions of a plan's segments set.
fn join_segments(
    clips: &mut Vec<Clip>,
    plan: &ScriptAssemblyPlan,
    Ghost(m): Ghost<MediaManifestView>,
    Ghost(ids): Ghost<IdsView>,
)
    requires
        plan_fault(plan@) is None,
        clip_views(old(clips)@) == Seq::new(
            plan@.segments.len(),
            |k: int| visual_clip(plan@, m, ids, k),
        ),
    ensures
        clip_views(final(clips)@) == Seq::new(
            plan@.segments.len(),
            |k: int| visual_clip_joined(plan@, m, ids, k),
        ),
{
    let ghost p = plan@;
    let ghost n = p.segments.len();
    assert(clips@.len() == clip_views(clips@).len());
    proof {
        assert forall|j: int| 0 <= j < n implies (#[trigger] clips@[j])@ == visual_clip(
            p,
            m,
            ids,
            j,
        ) by {
            assert(clip_views(clips@)[j] == visual_clip(p, m, ids, j));
        }
    }
    let mut k: usize = 0;
    while k < clips.len()
        invariant
            k <= clips@.len(),
            clips@.len() == n,
            p == plan@,
            n == p.segments.len(),
            n == plan.segments@.len(),
            plan_fault(p) is None,
            forall|j: int|
                0 <= j < k ==> (#[trigger] clips@[j])@ == visual_clip_joined(p, m, ids, j),
            forall|j: int| k <= j < n ==> (#[trigger] clips@[j])@ == visual_clip(p, m, ids, j),
        decreases clips@.len() - k,
    {
        if k + 1 < clips.len() {
            if let Some(kind) = plan.segments[k].transition {
                proof {
                    lemma_plan_in_order(p, 0, k as int);
                    lemma_plan_in_order(p, 0, k as int + 1);
                }
                assert(clips@[k as int]@ == visual_clip(p, m, ids, k as int));
                assert(clips@[k as int + 1]@ == visual_clip(p, m, ids, k as int + 1));
                assert(plan.segments@[k as int + 1]@ == p.segments[k as int + 1]);
                let limit: i32 = half_at_most(
                    half_at_most(12, plan.segments[k].duration_frames),
                    plan.segments[k + 1].duration_frames,
                );
                let duration_frames: i32 = if limit < 1 {
                    1
                } else {
                    limit
                };
                let from_clip_id = clips[k].id.clone();
                let to_clip_id = clips[k + 1].id.clone();
                clips[k].transition_out = Some(
                    Transition { from_clip_id, to_clip_id, kind, duration_frames },
                );
                assert(clips@[k as int]@ =~= visual_clip_joined(p, m, ids, k as int));
            }
        }
        k += 1;
    }
    assert(clip_views(clips@) =~= Seq::new(n, |k: int| visual_clip_joined(p, m, ids, k)));
}

/// Every segment of a plan without faults has its media.
proof fn lemma_build_in_order(
    p: ScriptAssemblyPlanView,
    m: MediaManifestView,
    fps: nat,
    from: int,
    k: int,
)
    requires
        builds_fault(p, m, fps, from) is None,
        0 <= from <= k < p.segments.len(),
    ensures
        build_fault(p, k, m, fps) is None,
    decreases k - from,
{
    if from < k {
        lemma_build_in_order(p, m, fps, from + 1, k);
    }
}

/// What a plan builds stays in step: the picture of each segment starts where the one
/// before it ends, and its narration sounds exactly as long as its picture shows.
pub proof fn law_built_segments_stay_in_step(
    p: ScriptAssemblyPlanView,
    m: MediaManifestView,
    fps: nat,
    ids: IdsView,
    k: int,
)
    requires
        builds_fault(p, m, fps, 0) is None,
        0 <= k < p.segments.len(),
    ensures
        ({
            let picture = visual_clip_joined(p, m, ids, k);
            let sound = narration_clip(p, m, ids, k);
            &&& picture.start_frame == segment_start(p, k)
            &&& picture.duration_frames == p.segments[k].duration_frames
            &&& sound.start_frame == picture.start_frame
            &&& sound.duration_frames == picture.duration_frames
            &&& k + 1 < p.segments.len() ==> visual_clip_joined(p, m, ids, k + 1).start_frame
                == picture.start_frame + picture.duration_frames
        }),
{
    lemma_build_in_order(p, m, fps, 0, k);
    if k + 1 < p.segments.len() {
        lemma_build_in_order(p, m, fps, 0, k + 1);
    }
}

fn build_visual(
    state: &EditorState,
    segment: &ScriptSegment,
    id: String,
    start_frame: i32,
) -> (r: Clip)
    requires
        media_entry(state@.manifest, segment@.media_ref) is Some,
    ensures
        ({
            let kind = media_entry(state@.manifest, segment@.media_ref)->0.kind;
            let c = fresh_clip(id@, segment@.media_ref, start_frame, segment.duration_frames);
            r@ == ClipView {
                media_type: kind,
                source_clip_type: kind,
                volume: if segment@.narration_media_ref is Some {
                    Real { bits: 0 }
                } else {
                    c.volume
                },
                ..c
            }
        }),
{
    let mut clip = Clip::new(id, segment.media_ref.clone(), start_frame, segment.duration_frames);
    if let Some(index) = find_media(&state.manifest, segment.media_ref.as_str()) {
        clip.media_type = state.manifest.entries[index].kind;
        clip.source_clip_type = state.manifest.entries[index].kind;
    }
    if segment.narration_media_ref.is_some() {
        clip.volume = Real::zero();
    }
    clip
}

fn build_narration(
    state: &EditorState,
    narration_ref: &String,
    id: String,
    start_frame: i32,
    duration_frames: i32,
) -> (r: Clip)
    requires
        media_entry(state@.manifest, narration_ref@) is Some,
    ensures
        r@ == (ClipView {
            media_type: ClipType::Audio,
            source_clip_type: media_entry(state@.manifest, narration_ref@)->0.kind,
            ..fresh_clip(id@, narration_ref@, start_frame, duration_frames)
        }),
{
    let mut clip = Clip::new(id, narration_ref.clone(), start_frame, duration_frames);
    clip.media_type = ClipType::Audio;
    if let Some(index) = find_media(&state.manifest, narration_ref.as_str()) {
        clip.source_clip_type = state.manifest.entries[index].kind;
    }
    clip
}

proof fn lemma_narrated(segments: Seq<ScriptSegmentView>, j: int, k: int)
    requires
        0 <= j <= k,
    ensures
        0 <= narrated(segments, j) <= narrated(segments, k),
    decreases k,
{
    if j < k {
        lemma_narrated(segments, j, k - 1);
    } else if j > 0 {
        lemma_narrated(segments, j - 1, j - 1);
    }
}

/// Applies one persisted plan to fresh picture and narration tracks.
pub fn apply_script_assembly_plan(
    state: &mut EditorState,
    plan_id: String,
    ids: &mut CoreIdGen,
    registry_fault: &Option<String>,
) -> (r: Result<EditResult, EditError>)
    requires
        old(state)@.version < u64::MAX,
    ensures
        (outcome(r), final(state)@) == apply_script_assembly_plan_spec(
            old(state)@,
            plan_id@,
            old(ids)@,
            opt_text(*registry_fault),
        ),
        final(ids)@ == (if buildable(old(state)@, plan_id@) {
            ids_spent(
                old(state)@,
                old(ids)@,
                ids_before(
                    saved_segments(old(state)@, plan_id@),
                    saved_segments(old(state)@, plan_id@).len() as int,
                ),
            )
        } else {
            old(ids)@
        }),
{
    let index: usize = match find_plan(&state.timeline.script_assembly_plans, plan_id.as_str()) {
        Some(index) => index,
        None => {
            return Err(
                EditError::Invalid(cat2("script assembly plan not found: ", plan_id.as_str())),
            );
        },
    };
    let plan = state.timeline.script_assembly_plans[index].copy();
    let ghost p = plan@;
    let ghost segments = p.segments;
    let ghost m = state@.manifest;
    let ghost start = ids@;
    let ghost fps = counting_fps(state@.timeline.fps);
    assert(p == state@.timeline.script_assembly_plans[index as int]);
    if let Err(e) = validate_script_assembly_plan(&plan) {
        return Err(e);
    }
    if let Err(e) = check_build(state, &plan) {
        return Err(e);
    }
    if let Err(e) = validate_timeline_frame_arithmetic(&state.timeline, "timeline") {
        return Err(e);
    }
    let has_narration = any_narration(&plan.segments);
    let mut visual_track = Track::new(ids.next_id(), ClipType::Video);
    let mut narration_track = if has_narration {
        proof {
            lemma_ids_after(start, 1, 1);
        }
        Track::new(ids.next_id(), ClipType::Audio)
    } else {
        Track::new(String::new(), ClipType::Audio)
    };
    let mut visual: Vec<Clip> = Vec::new();
    let mut narration: Vec<Clip> = Vec::new();
    let mut added: Vec<String> = Vec::new();
    let mut cursor: i32 = plan.start_frame;
    let mut k: usize = 0;
    proof {
        assert(clip_views(visual@) =~= Seq::new(0, |k: int| visual_clip(p, m, start, k)));
        assert(clip_views(narration@) =~= Seq::empty());
        assert(texts(added@) =~= Seq::empty());
    }
    while k < plan.segments.len()
        invariant
            k <= plan.segments@.len(),
            p == plan@,
            segments == p.segments,
            segments.len() == plan.segments@.len(),
            m == state@.manifest,
            state@ == old(state)@,
            plan_fault(p) is None,
            builds_fault(p, m, fps, 0) is None,
            cursor == segment_start(p, k as int),
            ids@ == ids_after(start, ids_before(segments, k as int)),
            clip_views(visual@) == Seq::new(k as nat, |k: int| visual_clip(p, m, start, k)),
            clip_views(narration@) == narration_clips(p, m, start, k as int),
            texts(added@) == built_ids(segments, start, k as int),
        decreases plan.segments@.len() - k,
    {
        let segment = &plan.segments[k];
        proof {
            lemma_plan_in_order(p, 0, k as int);
            lemma_build_in_order(p, m, fps, 0, k as int);
            lemma_narrated(segments, k as int, k as int);
            lemma_ids_after(start, ids_before(segments, k as int), 1);
            lemma_ids_after(start, ids_before(segments, k as int) + 1, 1);
            assert(segment@ == segments[k as int]);
        }
        let id = ids.next_id();
        let clip = build_visual(state, segment, id.clone(), cursor);
        assert(clip@ =~= visual_clip(p, m, start, k as int));
        let ghost seen = clip_views(visual@);
        visual.push(clip);
        assert(clip_views(visual@) =~= seen.push(visual_clip(p, m, start, k as int)));
        assert(clip_views(visual@) =~= Seq::new(
            (k + 1) as nat,
            |k: int| visual_clip(p, m, start, k),
        ));
        let ghost list = texts(added@);
        added.push(id);
        assert(texts(added@) =~= list.push(visual_id(segments, start, k as int)));
        if let Some(narration_ref) = &segment.narration_media_ref {
            let narration_clip_id = ids.next_id();
            let clip = build_narration(
                state,
                narration_ref,
                narration_clip_id.clone(),
                cursor,
                segment.duration_frames,
            );
            assert(clip@ =~= narration_clip(p, m, start, k as int));
            let ghost heard = clip_views(narration@);
            narration.push(clip);
            assert(clip_views(narration@) =~= heard.push(narration_clip(p, m, start, k as int)));
            let ghost list = texts(added@);
            added.push(narration_clip_id);
            assert(texts(added@) =~= list.push(narration_id(segments, start, k as int)));
        }
        cursor = cursor + segment.duration_frames;
        k += 1;
    }
    join_segments(&mut visual, &plan, Ghost(m), Ghost(start));
    visual_track.clips = visual;
    narration_track.clips = narration;
    let mut timeline = state.timeline.copy();
    let ghost before = timeline;
    timeline.tracks.insert(0, visual_track);
    if has_narration {
        timeline.tracks.push(narration_track);
    }
    proof {
        lemma_tracks_replaced(before, timeline);
        let expected = built(before@, p, m, start);
        assert(timeline@.tracks =~= expected.tracks);
        assert(timeline@ =~= expected);
    }
    let count = usize_to_text(added.len());
    let summary = cat3("Built script video with ", count.as_str(), " clip(s)");
    transact_timeline(
        state,
        "Build Script Video",
        summary.as_str(),
        timeline,
        added,
        registry_fault,
    )
}

} // verus!
