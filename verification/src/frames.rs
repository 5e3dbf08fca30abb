//! Frame arithmetic that is checked before anything reads a clip's end.

use crate::binary64::finite_positive;
use crate::binary64::scale_frames;
use crate::binary64::scaled_frames;
use crate::edit::verdict;
use crate::edit::EditError;
use crate::edit::Fault;
use crate::model::lemma_nested_views;
use crate::model::nested_sequence_views;
use crate::model::Clip;
use crate::model::ClipType;
use crate::model::ClipView;
use crate::model::NestedSequenceView;
use crate::model::Real;
use crate::model::Timeline;
use crate::model::TimelineView;
use crate::model::TrackView;
use crate::text::cat2;
use crate::text::cat4;
use crate::text::cat5;
use crate::text::nat_text;
use crate::text::trim;
use crate::text::usize_to_text;
use vstd::prelude::*;

verus! {

/// Whether an integer is a frame number.
pub open spec fn fits(n: int) -> bool {
    i32::MIN <= n <= i32::MAX
}

/// The first thing wrong with a clip's frame numbers, told under `label`; `None`
/// where every sum that the editor forms of them fits a frame number.
pub open spec fn frame_fault(
    start: int,
    duration: int,
    trim_start: int,
    trim_end: int,
    speed: Real,
    label: Seq<char>,
) -> Option<Seq<char>> {
    if start < 0 || duration < 1 {
        Some(label + ": startFrame must be >= 0 and durationFrames >= 1"@)
    } else if !finite_positive(speed) {
        Some(label + ": speed must be finite and > 0"@)
    } else if !fits(start + duration) {
        Some(label + ": startFrame + durationFrames overflows"@)
    } else if !fits(duration + trim_start) || !fits(duration + trim_start + trim_end) {
        Some(label + ": durationFrames + trim frames overflows"@)
    } else {
        let consumed = scaled_frames(duration as nat, speed);
        if consumed > i32::MAX {
            Some(label + ": visible source-frame extent is out of range"@)
        } else if !fits(trim_start + consumed) {
            Some(label + ": trimStart source-frame extent overflows"@)
        } else if !fits(trim_end + consumed) {
            Some(label + ": trimEnd source-frame extent overflows"@)
        } else if !fits(trim_start + consumed + trim_end) {
            Some(label + ": source-frame extent overflows"@)
        } else {
            None
        }
    }
}

/// The first thing wrong with the frame numbers of a clip of a given type: trims
/// may be negative only where there is no source to run out of.
pub open spec fn placed_fault(
    start: int,
    duration: int,
    trim_start: int,
    trim_end: int,
    speed: Real,
    media_type: ClipType,
    label: Seq<char>,
) -> Option<Seq<char>> {
    if !(media_type is Image || media_type is Text) && (trim_start < 0 || trim_end < 0) {
        Some(label + ": trim frames must be >= 0 for audio/video clips"@)
    } else {
        frame_fault(start, duration, trim_start, trim_end, speed, label)
    }
}

/// The first thing wrong with a clip, were it to start at `start`.
pub open spec fn clip_fault_at(c: ClipView, start: int, label: Seq<char>) -> Option<Seq<char>> {
    placed_fault(
        start,
        c.duration_frames as int,
        c.trim_start_frame as int,
        c.trim_end_frame as int,
        c.speed,
        c.media_type,
        label,
    )
}

/// The first thing wrong with a clip's frame numbers.
pub open spec fn clip_fault(c: ClipView, label: Seq<char>) -> Option<Seq<char>> {
    clip_fault_at(c, c.start_frame as int, label)
}

/// The label of the item at `index` of the list `list` under `label`.
pub open spec fn item_label(label: Seq<char>, list: Seq<char>, index: int) -> Seq<char> {
    label + list + nat_text(index as nat) + "]"@
}

/// The first fault among the clips of a track, from index `from` on.
pub open spec fn clips_fault(clips: Seq<ClipView>, label: Seq<char>, from: int) -> Option<
    Seq<char>,
>
    decreases clips.len() - from,
{
    if from < 0 || from >= clips.len() {
        None
    } else {
        match clip_fault(clips[from], item_label(label, ".clips["@, from)) {
            Some(m) => Some(m),
            None => clips_fault(clips, label, from + 1),
        }
    }
}

/// The first fault among tracks, from index `from` on.
pub open spec fn tracks_fault(tracks: Seq<TrackView>, label: Seq<char>, from: int) -> Option<
    Seq<char>,
>
    decreases tracks.len() - from,
{
    if from < 0 || from >= tracks.len() {
        None
    } else {
        match clips_fault(tracks[from].clips, item_label(label, ".tracks["@, from), 0) {
            Some(m) => Some(m),
            None => tracks_fault(tracks, label, from + 1),
        }
    }
}

/// The first fault among nested sequences, from index `from` on.
pub open spec fn sequences_fault(
    sequences: Seq<NestedSequenceView>,
    label: Seq<char>,
    from: int,
) -> Option<Seq<char>>
    decreases sequences, sequences.len() - from,
{
    if from < 0 || from >= sequences.len() {
        None
    } else {
        match timeline_fault(
            sequences[from].timeline,
            item_label(label, ".nestedSequences["@, from) + ".timeline"@,
        ) {
            Some(m) => Some(m),
            None => sequences_fault(sequences, label, from + 1),
        }
    }
}

/// The first fault of a timeline: its tracks in order, then its nested sequences.
pub open spec fn timeline_fault(t: TimelineView, label: Seq<char>) -> Option<Seq<char>>
    decreases t, 0int,
{
    match tracks_fault(t.tracks, label, 0) {
        Some(m) => Some(m),
        None => sequences_fault(t.nested_sequences, label, 0),
    }
}

/// The view of a fault message.
pub open spec fn invalid_if(m: Option<Seq<char>>) -> Option<Fault> {
    match m {
        Some(m) => Some(Fault::Invalid(m)),
        None => None,
    }
}

/// The view of a check that hands a frame number back.
pub open spec fn frame_verdict(r: Result<i32, EditError>) -> Option<Fault> {
    match r {
        Ok(_) => None,
        Err(e) => Some(e@),
    }
}

fn fault(label: &str, what: &str) -> (r: EditError)
    ensures
        r@ == Fault::Invalid(label@ + what@),
{
    EditError::Invalid(cat2(label, what))
}

/// Checks a clip's frame numbers and returns the frame after its last.
pub fn checked_frame_arithmetic(
    start_frame: i32,
    duration_frames: i32,
    trim_start_frame: i32,
    trim_end_frame: i32,
    speed: Real,
    label: &str,
) -> (r: Result<i32, EditError>)
    ensures
        frame_verdict(r) == invalid_if(
            frame_fault(
                start_frame as int,
                duration_frames as int,
                trim_start_frame as int,
                trim_end_frame as int,
                speed,
                label@,
            ),
        ),
        r matches Ok(end) ==> end == start_frame + duration_frames,
{
    if start_frame < 0 || duration_frames < 1 {
        return Err(fault(label, ": startFrame must be >= 0 and durationFrames >= 1"));
    }
    if !speed.is_finite_positive() {
        return Err(fault(label, ": speed must be finite and > 0"));
    }
    let end_frame: i32 = match start_frame.checked_add(duration_frames) {
        Some(end) => end,
        None => return Err(fault(label, ": startFrame + durationFrames overflows")),
    };
    let padded: i32 = match duration_frames.checked_add(trim_start_frame) {
        Some(value) => value,
        None => return Err(fault(label, ": durationFrames + trim frames overflows")),
    };
    if padded.checked_add(trim_end_frame).is_none() {
        return Err(fault(label, ": durationFrames + trim frames overflows"));
    }
    let consumed: i32 = match scale_frames(duration_frames, speed) {
        Some(value) => value,
        None => return Err(fault(label, ": visible source-frame extent is out of range")),
    };
    let head: i32 = match trim_start_frame.checked_add(consumed) {
        Some(value) => value,
        None => return Err(fault(label, ": trimStart source-frame extent overflows")),
    };
    if trim_end_frame.checked_add(consumed).is_none() {
        return Err(fault(label, ": trimEnd source-frame extent overflows"));
    }
    if head.checked_add(trim_end_frame).is_none() {
        return Err(fault(label, ": source-frame extent overflows"));
    }
    Ok(end_frame)
}

/// As [`checked_frame_arithmetic`], with the rule on trims of the clip's type.
pub fn checked_clip_frame_arithmetic(
    start_frame: i32,
    duration_frames: i32,
    trim_start_frame: i32,
    trim_end_frame: i32,
    speed: Real,
    media_type: ClipType,
    label: &str,
) -> (r: Result<i32, EditError>)
    ensures
        frame_verdict(r) == invalid_if(
            placed_fault(
                start_frame as int,
                duration_frames as int,
                trim_start_frame as int,
                trim_end_frame as int,
                speed,
                media_type,
                label@,
            ),
        ),
        r matches Ok(end) ==> end == start_frame + duration_frames,
{
    if !(media_type == ClipType::Image || media_type == ClipType::Text) && (trim_start_frame < 0
        || trim_end_frame < 0) {
        return Err(fault(label, ": trim frames must be >= 0 for audio/video clips"));
    }
    checked_frame_arithmetic(
        start_frame,
        duration_frames,
        trim_start_frame,
        trim_end_frame,
        speed,
        label,
    )
}

/// Checks a clip as if it started at `start_frame`.
pub fn validate_clip_frame_arithmetic_at(clip: &Clip, start_frame: i32, label: &str) -> (r: Result<
    i32,
    EditError,
>)
    ensures
        frame_verdict(r) == invalid_if(clip_fault_at(clip@, start_frame as int, label@)),
        r matches Ok(end) ==> end == start_frame + clip.duration_frames,
{
    checked_clip_frame_arithmetic(
        start_frame,
        clip.duration_frames,
        clip.trim_start_frame,
        clip.trim_end_frame,
        clip.speed,
        clip.media_type,
        label,
    )
}

/// Checks a clip where it stands.
pub fn validate_clip_frame_arithmetic(clip: &Clip, label: &str) -> (r: Result<i32, EditError>)
    ensures
        frame_verdict(r) == invalid_if(clip_fault(clip@, label@)),
        r matches Ok(end) ==> end == clip.start_frame + clip.duration_frames,
{
    validate_clip_frame_arithmetic_at(clip, clip.start_frame, label)
}

/// Checks every clip of a timeline and of the timelines nested in it.
pub fn validate_timeline_frame_arithmetic(timeline: &Timeline, label: &str) -> (r: Result<
    (),
    EditError,
>)
    ensures
        verdict(r) == invalid_if(timeline_fault(timeline@, label@)),
    decreases timeline,
{
    let mut i: usize = 0;
    while i < timeline.tracks.len()
        invariant
            i <= timeline.tracks@.len(),
            tracks_fault(timeline@.tracks, label@, 0) == tracks_fault(
                timeline@.tracks,
                label@,
                i as int,
            ),
        decreases timeline.tracks@.len() - i,
    {
        let index = usize_to_text(i);
        let track_label = cat4(label, ".tracks[", index.as_str(), "]");
        let ghost clips = timeline@.tracks[i as int].clips;
        let mut j: usize = 0;
        while j < timeline.tracks[i].clips.len()
            invariant
                i < timeline.tracks@.len(),
                j <= timeline.tracks@[i as int].clips@.len(),
                clips == timeline@.tracks[i as int].clips,
                track_label@ == item_label(label@, ".tracks["@, i as int),
                clips_fault(clips, track_label@, 0) == clips_fault(clips, track_label@, j as int),
                tracks_fault(timeline@.tracks, label@, 0) == tracks_fault(
                    timeline@.tracks,
                    label@,
                    i as int,
                ),
            decreases timeline.tracks@[i as int].clips@.len() - j,
        {
            let clip_index = usize_to_text(j);
            let clip_label = cat4(track_label.as_str(), ".clips[", clip_index.as_str(), "]");
            let checked = validate_clip_frame_arithmetic(
                &timeline.tracks[i].clips[j],
                clip_label.as_str(),
            );
            if let Err(e) = checked {
                return Err(e);
            }
            j += 1;
        }
        i += 1;
    }
    proof {
        lemma_nested_views(*timeline);
    }
    let mut k: usize = 0;
    while k < timeline.nested_sequences.len()
        invariant
            k <= timeline.nested_sequences@.len(),
            timeline@.nested_sequences == nested_sequence_views(timeline.nested_sequences@),
            tracks_fault(timeline@.tracks, label@, 0) is None,
            sequences_fault(timeline@.nested_sequences, label@, 0) == sequences_fault(
                timeline@.nested_sequences,
                label@,
                k as int,
            ),
        decreases timeline.nested_sequences@.len() - k,
    {
        let index = usize_to_text(k);
        let sequence_label = cat5(label, ".nestedSequences[", index.as_str(), "]", ".timeline");
        let checked = validate_timeline_frame_arithmetic(
            &timeline.nested_sequences[k].timeline,
            sequence_label.as_str(),
        );
        if let Err(e) = checked {
            return Err(e);
        }
        k += 1;
    }
    Ok(())
}

} // verus!
