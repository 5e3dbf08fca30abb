//! Changing the frame rate and the size of the project.

use crate::binary64::ratio53;
use crate::binary64::ratio_53;
use crate::binary64::rescale;
use crate::binary64::rescaled;
use crate::binary64::Binary;
use crate::binary64::MANTISSA_END;
use crate::edit::outcome;
use crate::edit::verdict;
use crate::edit::EditError;
use crate::edit::EditResult;
use crate::edit::EditResultView;
use crate::edit::Fault;
use crate::frames::checked_clip_frame_arithmetic;
use crate::frames::fits;
use crate::frames::invalid_if;
use crate::frames::item_label;
use crate::frames::placed_fault;
use crate::model::clip_views;
use crate::model::lemma_nested_views;
use crate::model::nested_sequence_views;
use crate::model::Clip;
use crate::model::ClipView;
use crate::model::NestedSequenceView;
use crate::model::Timeline;
use crate::model::TimelineView;
use crate::model::TrackView;
use crate::state::timeline_transacted;
use crate::state::transact_timeline;
use crate::state::EditorState;
use crate::state::StateView;
use crate::text::cat2;
use crate::text::cat4;
use crate::text::cat5;
use crate::text::cat7;
use crate::text::i32_to_text;
use crate::text::int_text;
use crate::text::opt_text;
use crate::text::texts;
use crate::text::usize_to_text;
use vstd::prelude::*;

verus! {

/// The first position in a list of clip positions of a clip that starts after
/// `start`, from `from` on.
pub open spec fn order_slot(clips: Seq<ClipView>, order: Seq<int>, start: int, from: int) -> int
    decreases order.len() - from,
{
    if from < 0 || from >= order.len() {
        order.len() as int
    } else if clips[order[from]].start_frame > start {
        from
    } else {
        order_slot(clips, order, start, from + 1)
    }
}

/// The positions of the first `n` clips in order of their starts; clips that start
/// together keep their order.
pub open spec fn start_order(clips: Seq<ClipView>, n: int) -> Seq<int>
    decreases n,
{
    if n <= 0 {
        Seq::empty()
    } else {
        let rest = start_order(clips, n - 1);
        rest.insert(order_slot(clips, rest, clips[n - 1].start_frame as int, 0), n - 1)
    }
}

/// The larger of two numbers.
pub open spec fn larger(a: int, b: int) -> int {
    if a > b {
        a
    } else {
        b
    }
}

/// Where a clip would start at the new rate: not before the clip ahead of it ends.
pub open spec fn projected_start(c: ClipView, scale: (nat, int), previous_end: Option<int>) -> int {
    let start = rescaled(c.start_frame as int, scale);
    match previous_end {
        Some(end) => larger(start, end),
        None => start,
    }
}

/// The frames of a clip at the new rate, before at least one is granted.
pub open spec fn projected_frames(c: ClipView, scale: (nat, int), previous_end: Option<int>) -> int {
    rescaled(c.start_frame + c.duration_frames, scale) - projected_start(c, scale, previous_end)
}

/// The first complaint, from `from` on, against the clips of a track at the new
/// rate, in order of their starts.
pub open spec fn clips_projection_fault(
    clips: Seq<ClipView>,
    order: Seq<int>,
    scale: (nat, int),
    label: Seq<char>,
    from: int,
    previous_end: Option<int>,
) -> Option<Seq<char>>
    decreases order.len() - from,
{
    if from < 0 || from >= order.len() {
        None
    } else {
        let c = clips[order[from]];
        let name = item_label(label, ".clips["@, order[from]);
        let start = projected_start(c, scale, previous_end);
        let frames = projected_frames(c, scale, previous_end);
        if !fits(c.start_frame + c.duration_frames) {
            Some(name + ": source end overflows"@)
        } else if !fits(frames) {
            Some(name + ": projected duration overflows"@)
        } else {
            match placed_fault(
                start,
                larger(frames, 1),
                rescaled(c.trim_start_frame as int, scale),
                rescaled(c.trim_end_frame as int, scale),
                c.speed,
                c.media_type,
                name + " projected"@,
            ) {
                Some(m) => Some(m),
                None => clips_projection_fault(
                    clips,
                    order,
                    scale,
                    label,
                    from + 1,
                    Some(start + larger(frames, 1)),
                ),
            }
        }
    }
}

/// The first complaint, from `from` on, against tracks at the new rate.
pub open spec fn tracks_projection_fault(
    tracks: Seq<TrackView>,
    scale: (nat, int),
    label: Seq<char>,
    from: int,
) -> Option<Seq<char>>
    decreases tracks.len() - from,
{
    if from < 0 || from >= tracks.len() {
        None
    } else {
        let clips = tracks[from].clips;
        match clips_projection_fault(
            clips,
            start_order(clips, clips.len() as int),
            scale,
            item_label(label, ".tracks["@, from),
            0,
            None,
        ) {
            Some(m) => Some(m),
            None => tracks_projection_fault(tracks, scale, label, from + 1),
        }
    }
}

/// The first complaint, from `from` on, against nested sequences at the new rate.
pub open spec fn sequences_projection_fault(
    sequences: Seq<NestedSequenceView>,
    fps: int,
    label: Seq<char>,
    from: int,
) -> Option<Seq<char>>
    decreases sequences, sequences.len() - from,
{
    if from < 0 || from >= sequences.len() {
        None
    } else {
        match projection_fault(
            sequences[from].timeline,
            fps,
            item_label(label, ".nestedSequences["@, from) + ".timeline"@,
        ) {
            Some(m) => Some(m),
            None => sequences_projection_fault(sequences, fps, label, from + 1),
        }
    }
}

/// The first complaint against a timeline at a new frame rate: its nested
/// sequences, then its own clips.
pub open spec fn projection_fault(t: TimelineView, fps: int, label: Seq<char>) -> Option<Seq<char>>
    decreases t, 0int,
{
    match sequences_projection_fault(t.nested_sequences, fps, label, 0) {
        Some(m) => Some(m),
        None => {
            if t.fps <= 0 || t.fps == fps {
                None
            } else {
                tracks_projection_fault(t.tracks, ratio53(fps as nat, t.fps as nat), label, 0)
            }
        },
    }
}

/// The complaint that settings are not positive.
pub open spec fn settings_fault(fps: int, width: int, height: int) -> Option<Seq<char>> {
    if fps <= 0 || width <= 0 || height <= 0 {
        Some(
            "timeline settings must be positive (got fps="@ + int_text(fps) + ", width="@
                + int_text(width) + ", height="@ + int_text(height) + ")"@,
        )
    } else {
        None
    }
}

/// The timeline with the settings of the project, once its frame numbers were
/// carried over to the new rate.
pub open spec fn with_settings(t: TimelineView, fps: i32, width: i32, height: i32) -> TimelineView {
    TimelineView { fps, width, height, settings_configured: true, ..t }
}

/// Changing the project settings.
pub open spec fn set_timeline_settings_spec(
    s: StateView,
    fps: i32,
    width: i32,
    height: i32,
    carried: TimelineView,
    registry_fault: Option<Seq<char>>,
) -> (Result<EditResultView, Fault>, StateView) {
    if settings_fault(fps as int, width as int, height as int) is Some {
        (Err(Fault::Invalid(settings_fault(fps as int, width as int, height as int)->0)), s)
    } else if projection_fault(s.timeline, fps as int, "timeline"@) is Some {
        (Err(Fault::Invalid(projection_fault(s.timeline, fps as int, "timeline"@)->0)), s)
    } else {
        timeline_transacted(
            s,
            "Change Project Settings"@,
            "Set timeline to "@ + int_text(width as int) + "×"@ + int_text(height as int) + " @ "@
                + int_text(fps as int) + " fps"@,
            with_settings(carried, fps, width, height),
            Seq::empty(),
            registry_fault,
        )
    }
}

/// The views of positions.
pub open spec fn positions(v: Seq<usize>) -> Seq<int> {
    v.map_values(|i: usize| i as int)
}

proof fn lemma_order_in_range(clips: Seq<ClipView>, n: int)
    requires
        0 <= n <= clips.len(),
    ensures
        start_order(clips, n).len() == n,
        forall|i: int| 0 <= i < n ==> 0 <= #[trigger] start_order(clips, n)[i] < n,
    decreases n,
{
    if n > 0 {
        lemma_order_in_range(clips, n - 1);
        let rest = start_order(clips, n - 1);
        lemma_order_slot(clips, rest, clips[n - 1].start_frame as int, 0);
        let slot = order_slot(clips, rest, clips[n - 1].start_frame as int, 0);
        assert forall|i: int| 0 <= i < n implies 0 <= #[trigger] start_order(clips, n)[i] < n by {
            if i < slot {
                assert(start_order(clips, n)[i] == rest[i]);
            } else if i > slot {
                assert(start_order(clips, n)[i] == rest[i - 1]);
            }
        }
    }
}

proof fn lemma_order_slot(clips: Seq<ClipView>, order: Seq<int>, start: int, from: int)
    requires
        0 <= from <= order.len(),
    ensures
        from <= order_slot(clips, order, start, from) <= order.len(),
    decreases order.len() - from,
{
    if from < order.len() && clips[order[from]].start_frame <= start {
        lemma_order_slot(clips, order, start, from + 1);
    }
}

fn order_by_start(clips: &Vec<Clip>) -> (r: Vec<usize>)
    ensures
        positions(r@) == start_order(clip_views(clips@), clips@.len() as int),
        r@.len() == clips@.len(),
        forall|i: int| 0 <= i < r@.len() ==> (#[trigger] r@[i]) < clips@.len(),
{
    let ghost views = clip_views(clips@);
    let mut order: Vec<usize> = Vec::new();
    let mut n: usize = 0;
    assert(positions(order@) =~= Seq::empty());
    while n < clips.len()
        invariant
            n <= clips@.len(),
            views == clip_views(clips@),
            positions(order@) == start_order(views, n as int),
            order@.len() == n,
        decreases clips@.len() - n,
    {
        let ghost before = positions(order@);
        let ghost start = views[n as int].start_frame as int;
        proof {
            lemma_order_in_range(views, n as int);
        }
        let mut slot: usize = 0;
        while slot < order.len() && clips[order[slot]].start_frame <= clips[n].start_frame
            invariant
                slot <= order@.len(),
                order@.len() == n,
                n < clips@.len(),
                views == clip_views(clips@),
                before == positions(order@),
                forall|i: int| 0 <= i < n ==> 0 <= #[trigger] before[i] < n,
                start == views[n as int].start_frame,
                order_slot(views, before, start, 0) == order_slot(views, before, start, slot as int),
            decreases order@.len() - slot,
        {
            assert(before[slot as int] == order@[slot as int]);
            slot += 1;
        }
        proof {
            if slot < order@.len() {
                assert(before[slot as int] == order@[slot as int]);
            }
        }
        order.insert(slot, n);
        assert(positions(order@) =~= before.insert(slot as int, n as int));
        n += 1;
    }
    proof {
        lemma_order_in_range(views, n as int);
        assert forall|i: int| 0 <= i < order@.len() implies (#[trigger] order@[i])
            < clips@.len() by {
            assert(positions(order@)[i] == order@[i]);
        }
    }
    order
}

fn check_projected_clips(clips: &Vec<Clip>, scale: Binary, label: &str) -> (r: Result<
    (),
    EditError,
>)
    requires
        scale.m <= MANTISSA_END,
        -127 <= scale.e <= 127,
    ensures
        verdict(r) == invalid_if(
            clips_projection_fault(
                clip_views(clips@),
                start_order(clip_views(clips@), clips@.len() as int),
                (scale.m as nat, scale.e as int),
                label@,
                0,
                None,
            ),
        ),
{
    let ghost views = clip_views(clips@);
    let ghost number = (scale.m as nat, scale.e as int);
    let order = order_by_start(clips);
    let ghost positions_in_order = positions(order@);
    let mut previous_end: Option<i32> = None;
    let ghost mut end: Option<int> = None;
    let mut i: usize = 0;
    while i < order.len()
        invariant
            i <= order@.len(),
            views == clip_views(clips@),
            number == (scale.m as nat, scale.e as int),
            positions_in_order == positions(order@),
            positions_in_order == start_order(views, clips@.len() as int),
            forall|k: int| 0 <= k < order@.len() ==> (#[trigger] order@[k]) < clips@.len(),
            scale.m <= MANTISSA_END,
            -127 <= scale.e <= 127,
            end == (match previous_end {
                Some(e) => Some(e as int),
                None => None,
            }),
            clips_projection_fault(views, positions_in_order, number, label@, 0, None)
                == clips_projection_fault(
                views,
                positions_in_order,
                number,
                label@,
                i as int,
                end,
            ),
        decreases order@.len() - i,
    {
        let k: usize = order[i];
        assert(positions_in_order[i as int] == k);
        let clip = &clips[k];
        let index = usize_to_text(k);
        let name = cat4(label, ".clips[", index.as_str(), "]");
        let source_end: i32 = match clip.start_frame.checked_add(clip.duration_frames) {
            Some(value) => value,
            None => return Err(
                EditError::Invalid(cat2(name.as_str(), ": source end overflows")),
            ),
        };
        let scaled_start: i32 = rescale(clip.start_frame, scale);
        let scaled_end: i32 = rescale(source_end, scale);
        let start: i32 = match previous_end {
            Some(e) => if scaled_start > e {
                scaled_start
            } else {
                e
            },
            None => scaled_start,
        };
        let frames: i32 = match scaled_end.checked_sub(start) {
            Some(value) => value,
            None => return Err(
                EditError::Invalid(cat2(name.as_str(), ": projected duration overflows")),
            ),
        };
        let duration: i32 = if frames > 1 {
            frames
        } else {
            1
        };
        let projected = cat2(name.as_str(), " projected");
        match checked_clip_frame_arithmetic(
            start,
            duration,
            rescale(clip.trim_start_frame, scale),
            rescale(clip.trim_end_frame, scale),
            clip.speed,
            clip.media_type,
            projected.as_str(),
        ) {
            Ok(e) => {
                previous_end = Some(e);
            },
            Err(e) => return Err(e),
        }
        proof {
            end = Some(start + duration);
        }
        i += 1;
    }
    Ok(())
}

/// Checks every clip of a timeline, and of those nested in it, at a new frame rate.
pub fn validate_settings_frame_projection(timeline: &Timeline, fps: i32, label: &str) -> (r: Result<
    (),
    EditError,
>)
    requires
        fps > 0,
    ensures
        verdict(r) == invalid_if(projection_fault(timeline@, fps as int, label@)),
    decreases timeline,
{
    let ghost t = timeline@;
    proof {
        lemma_nested_views(*timeline);
    }
    let mut k: usize = 0;
    while k < timeline.nested_sequences.len()
        invariant
            k <= timeline.nested_sequences@.len(),
            fps > 0,
            t == timeline@,
            t.nested_sequences == nested_sequence_views(timeline.nested_sequences@),
            sequences_projection_fault(t.nested_sequences, fps as int, label@, 0)
                == sequences_projection_fault(t.nested_sequences, fps as int, label@, k as int),
        decreases timeline.nested_sequences@.len() - k,
    {
        let index = usize_to_text(k);
        let sequence_label = cat5(label, ".nestedSequences[", index.as_str(), "]", ".timeline");
        let checked = validate_settings_frame_projection(
            &timeline.nested_sequences[k].timeline,
            fps,
            sequence_label.as_str(),
        );
        if let Err(e) = checked {
            return Err(e);
        }
        k += 1;
    }
    if timeline.fps <= 0 || timeline.fps == fps {
        return Ok(());
    }
    let scale = ratio_53(fps as u64, timeline.fps as u64);
    let ghost number = (scale.m as nat, scale.e as int);
    let mut i: usize = 0;
    while i < timeline.tracks.len()
        invariant
            i <= timeline.tracks@.len(),
            t == timeline@,
            number == (scale.m as nat, scale.e as int),
            scale.m <= MANTISSA_END,
            -127 <= scale.e <= 127,
            tracks_projection_fault(t.tracks, number, label@, 0) == tracks_projection_fault(
                t.tracks,
                number,
                label@,
                i as int,
            ),
            projection_fault(t, fps as int, label@) == tracks_projection_fault(
                t.tracks,
                number,
                label@,
                0,
            ),
        decreases timeline.tracks@.len() - i,
    {
        let index = usize_to_text(i);
        let track_label = cat4(label, ".tracks[", index.as_str(), "]");
        assert(t.tracks[i as int].clips == clip_views(timeline.tracks@[i as int].clips@));
        if let Err(e) = check_projected_clips(
            &timeline.tracks[i].clips,
            scale,
            track_label.as_str(),
        ) {
            return Err(e);
        }
        i += 1;
    }
    Ok(())
}

/// Checks that settings are positive.
pub fn check_settings(fps: i32, width: i32, height: i32) -> (r: Result<(), EditError>)
    ensures
        verdict(r) == invalid_if(settings_fault(fps as int, width as int, height as int)),
{
    if fps <= 0 || width <= 0 || height <= 0 {
        let fps = i32_to_text(fps);
        let width = i32_to_text(width);
        let height = i32_to_text(height);
        return Err(
            EditError::Invalid(
                cat7(
                    "timeline settings must be positive (got fps=",
                    fps.as_str(),
                    ", width=",
                    width.as_str(),
                    ", height=",
                    height.as_str(),
                    ")",
                ),
            ),
        );
    }
    Ok(())
}

/// Changes the frame rate and the size of the project. `carried` is the timeline
/// with its frame numbers carried over to the new rate; it is the timeline itself
/// where the rate stays.
pub fn set_timeline_settings_cmd(
    state: &mut EditorState,
    fps: i32,
    width: i32,
    height: i32,
    carried: Timeline,
    registry_fault: &Option<String>,
) -> (r: Result<EditResult, EditError>)
    requires
        old(state)@.version < u64::MAX,
    ensures
        (outcome(r), final(state)@) == set_timeline_settings_spec(
            old(state)@,
            fps,
            width,
            height,
            carried@,
            opt_text(*registry_fault),
        ),
{
    if let Err(e) = check_settings(fps, width, height) {
        return Err(e);
    }
    if let Err(e) = validate_settings_frame_projection(&state.timeline, fps, "timeline") {
        return Err(e);
    }
    let mut timeline = carried;
    let ghost before = timeline;
    timeline.fps = fps;
    timeline.width = width;
    timeline.height = height;
    timeline.settings_configured = true;
    proof {
        lemma_nested_views(before);
        lemma_nested_views(timeline);
        assert(timeline@ =~= with_settings(carried@, fps, width, height));
    }
    let w = i32_to_text(width);
    let h = i32_to_text(height);
    let f = i32_to_text(fps);
    let size = cat4("Set timeline to ", w.as_str(), "×", h.as_str());
    let summary = cat4(size.as_str(), " @ ", f.as_str(), " fps");
    let affected: Vec<String> = Vec::new();
    assert(texts(affected@) =~= Seq::empty());
    transact_timeline(
        state,
        "Change Project Settings",
        summary.as_str(),
        timeline,
        affected,
        registry_fault,
    )
}

} // verus!
