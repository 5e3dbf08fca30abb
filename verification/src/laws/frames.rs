//! Which clips and timelines have frame numbers that the editor can reckon with.

use crate::binary64::finite_positive;
use crate::binary64::scaled_frames;
use crate::frames::clip_fault;
use crate::frames::clip_fault_at;
use crate::frames::fits;
use crate::frames::frame_fault;
use crate::frames::placed_fault;
use crate::frames::timeline_fault;
use crate::model::ClipType;
use crate::model::ClipView;
use crate::model::Real;
use crate::model::TimelineView;
use crate::model::compatible;
use crate::transitions::clip_sound;
use crate::transitions::clips_sound;
use crate::transitions::lemma_timeline_sound;
use crate::transitions::timeline_sound;
use vstd::prelude::*;

verus! {

/// Whether a number is a frame number: a signed number of 32 bits.
pub open spec fn is_frame(n: int) -> bool {
    -0x8000_0000 <= n <= 0x7FFF_FFFF
}

/// Whether the frame numbers of a clip hold: it starts at 0 or later, lasts a frame or
/// more, plays at a positive speed, and none of the sums of its frames and trims, nor of
/// the source frames it plays and its trims, leaves the frame numbers.
pub open spec fn frames_hold(
    start: int,
    duration: int,
    trim_start: int,
    trim_end: int,
    speed: Real,
) -> bool {
    let played = scaled_frames(duration as nat, speed);
    &&& start >= 0
    &&& duration >= 1
    &&& finite_positive(speed)
    &&& is_frame(start + duration)
    &&& is_frame(duration + trim_start)
    &&& is_frame(duration + trim_start + trim_end)
    &&& played <= 0x7FFF_FFFF
    &&& is_frame(trim_start + played)
    &&& is_frame(trim_end + played)
    &&& is_frame(trim_start + played + trim_end)
}

/// Whether the frame numbers of a clip of a type hold: audio, video and the like have no
/// source before its first frame and after its last to be trimmed to.
pub open spec fn typed_frames_hold(
    start: int,
    duration: int,
    trim_start: int,
    trim_end: int,
    speed: Real,
    kind: ClipType,
) -> bool {
    &&& frames_hold(start, duration, trim_start, trim_end, speed)
    &&& !(kind is Image) && !(kind is Text) ==> trim_start >= 0 && trim_end >= 0
}

/// Whether the frame numbers of a clip hold.
pub open spec fn clip_holds(c: ClipView) -> bool {
    typed_frames_hold(
        c.start_frame as int,
        c.duration_frames as int,
        c.trim_start_frame as int,
        c.trim_end_frame as int,
        c.speed,
        c.media_type,
    )
}

/// Frame numbers are complained about exactly when they do not hold.
pub proof fn law_frame_numbers_are_checked(
    start: int,
    duration: int,
    trim_start: int,
    trim_end: int,
    speed: Real,
    kind: ClipType,
    label: Seq<char>,
)
    ensures
        frame_fault(start, duration, trim_start, trim_end, speed, label) is None <==> frames_hold(
            start,
            duration,
            trim_start,
            trim_end,
            speed,
        ),
        placed_fault(start, duration, trim_start, trim_end, speed, kind, label) is None
            <==> typed_frames_hold(start, duration, trim_start, trim_end, speed, kind),
        fits(start) <==> is_frame(start),
{
}

/// Whether the frame numbers of all clips of a timeline, and of the timelines nested in
/// it, hold.
pub open spec fn timeline_holds(t: TimelineView) -> bool
    decreases t,
{
    &&& forall|i: int, j: int|
        0 <= i < t.tracks.len() && 0 <= j < t.tracks[i].clips.len() ==> clip_holds(
            #[trigger] t.tracks[i].clips[j],
        )
    &&& forall|k: int|
        0 <= k < t.nested_sequences.len() ==> timeline_holds(
            (#[trigger] t.nested_sequences[k]).timeline,
        )
}

proof fn lemma_sound_holds(t: TimelineView)
    ensures
        timeline_sound(t) <==> timeline_holds(t),
    decreases t,
{
    assert forall|k: int| 0 <= k < t.nested_sequences.len() implies timeline_sound(
        (#[trigger] t.nested_sequences[k]).timeline,
    ) == timeline_holds(t.nested_sequences[k].timeline) by {
        lemma_sound_holds(t.nested_sequences[k].timeline);
    }
    assert forall|c: ClipView| #[trigger] clip_sound(c) == clip_holds(c) by {}
    if timeline_sound(t) {
        assert forall|i: int, j: int|
            0 <= i < t.tracks.len() && 0 <= j < t.tracks[i].clips.len() implies clip_holds(
            #[trigger] t.tracks[i].clips[j],
        ) by {
            assert(clips_sound(t.tracks[i].clips));
            assert(clip_sound(t.tracks[i].clips[j]));
        }
    }
    if timeline_holds(t) {
        assert forall|i: int| 0 <= i < t.tracks.len() implies clips_sound(
            (#[trigger] t.tracks[i]).clips,
        ) by {
            assert forall|j: int| 0 <= j < t.tracks[i].clips.len() implies clip_sound(
                #[trigger] t.tracks[i].clips[j],
            ) by {
                assert(clip_holds(t.tracks[i].clips[j]));
            }
        }
    }
}

/// A timeline is complained about exactly when the frame numbers of some clip on it, or
/// in a sequence nested in it, do not hold.
pub proof fn law_timelines_are_checked(t: TimelineView, label: Seq<char>)
    ensures
        timeline_fault(t, label) is None <==> timeline_holds(t),
{
    lemma_timeline_sound(t, label);
    lemma_sound_holds(t);
}

/// A clip is complained about, where it stands or were it to start elsewhere, exactly
/// when its frame numbers do not hold there.
pub proof fn law_clips_are_checked(c: ClipView, start: int, label: Seq<char>)
    ensures
        clip_fault(c, label) is None <==> clip_holds(c),
        clip_fault_at(c, start, label) is None <==> typed_frames_hold(
            start,
            c.duration_frames as int,
            c.trim_start_frame as int,
            c.trim_end_frame as int,
            c.speed,
            c.media_type,
        ),
{
}

/// Audio goes on audio tracks, and all else on the others.
pub proof fn law_kinds_that_go_together(media: ClipType, track: ClipType)
    ensures
        media is Audio && track is Audio ==> compatible(media, track),
        media is Audio && !(track is Audio) ==> !compatible(media, track),
        !(media is Audio) && track is Audio ==> !compatible(media, track),
        !(media is Audio) && !(track is Audio) ==> compatible(media, track),
{
}

} // verus!
