//! Commands on keyframes.

use crate::binary64::finite;
use crate::edit::invalid;
use crate::edit::outcome;
use crate::edit::EditError;
use crate::edit::EditResult;
use crate::edit::EditResultView;
use crate::edit::Fault;
use crate::keyframe_track::cleared;
use crate::keyframe_track::curved;
use crate::keyframe_track::empty_to_none;
use crate::keyframe_track::has_keyframe_at;
use crate::keyframe_track::none_if_empty;
use crate::keyframe_track::set_kf_interp;
use crate::keyframe_track::shift;
use crate::keyframe_track::shifted;
use crate::keyframe_track::stamp;
use crate::keyframe_track::stamped;
use crate::keyframe_track::track_has;
use crate::keyframe_track::unstamp;
use crate::locate::clip_at;
use crate::locate::clip_not_found;
use crate::locate::copy_around;
use crate::locate::lemma_clip_replaced;
use crate::locate::locate;
use crate::locate::require_clip;
use crate::locate::with_clip;
use crate::model::opt_track;
use crate::model::AnimPair;
use crate::model::Clip;
use crate::model::ClipView;
use crate::model::Crop;
use crate::model::Interpolation;
use crate::model::Keyframe;
use crate::model::KeyframeTrack;
use crate::model::Real;
use crate::model::Transform;
use crate::state::timeline_transacted;
use crate::state::transact_timeline;
use crate::state::EditorState;
use crate::state::StateView;
use crate::text::cat2;
use crate::text::cat3;
use crate::text::cat7;
use crate::text::i32_to_text;
use crate::text::i64_to_text;
use crate::text::int_text;
use crate::text::opt_text;
use crate::text::texts;
use vstd::prelude::*;

verus! {

/// Which keyframe track a command targets.
#[derive(Clone, Copy, PartialEq, Eq, Structural, Debug)]
pub enum KeyframeProperty {
    Opacity,
    Volume,
    Rotation,
    Position,
    Scale,
    Crop,
}

/// A whole replacement track; its kind has to match the property.
#[derive(Debug)]
pub enum KeyframePayload {
    Scalar(KeyframeTrack<Real>),
    Pair(KeyframeTrack<AnimPair>),
    Crop(KeyframeTrack<Crop>),
}

/// The view of a [`KeyframePayload`].
pub enum KeyframePayloadView {
    Scalar(Seq<Keyframe<Real>>),
    Pair(Seq<Keyframe<AnimPair>>),
    Crop(Seq<Keyframe<Crop>>),
}

impl View for KeyframePayload {
    type V = KeyframePayloadView;

    open spec fn view(&self) -> KeyframePayloadView {
        match self {
            KeyframePayload::Scalar(t) => KeyframePayloadView::Scalar(t@),
            KeyframePayload::Pair(t) => KeyframePayloadView::Pair(t@),
            KeyframePayload::Crop(t) => KeyframePayloadView::Crop(t@),
        }
    }
}

/// One explicit value: a scalar for opacity, volume and rotation, a pair for
/// position and scale, a crop for the crop.
#[derive(Clone, Copy, PartialEq, Eq, Structural, Debug)]
pub enum KeyframeValue {
    Scalar(Real),
    Pair(AnimPair),
    Crop(Crop),
}

/// The values that a clip's animated properties have at some frame.
#[derive(Clone, Copy, PartialEq, Eq, Structural, Debug)]
pub struct ClipSample {
    pub opacity: Real,
    pub volume: Real,
    pub rotation: Real,
    pub position: AnimPair,
    pub scale: AnimPair,
    pub crop: Crop,
}

/// The sampled value of one property.
pub open spec fn sample_of(sample: ClipSample, property: KeyframeProperty) -> KeyframeValue {
    match property {
        KeyframeProperty::Opacity => KeyframeValue::Scalar(sample.opacity),
        KeyframeProperty::Volume => KeyframeValue::Scalar(sample.volume),
        KeyframeProperty::Rotation => KeyframeValue::Scalar(sample.rotation),
        KeyframeProperty::Position => KeyframeValue::Pair(sample.position),
        KeyframeProperty::Scale => KeyframeValue::Pair(sample.scale),
        KeyframeProperty::Crop => KeyframeValue::Crop(sample.crop),
    }
}

/// Whether a value is of the kind that a property takes.
pub open spec fn value_fits(property: KeyframeProperty, value: KeyframeValue) -> bool {
    match property {
        KeyframeProperty::Opacity => value is Scalar,
        KeyframeProperty::Volume => value is Scalar,
        KeyframeProperty::Rotation => value is Scalar,
        KeyframeProperty::Position => value is Pair,
        KeyframeProperty::Scale => value is Pair,
        KeyframeProperty::Crop => value is Crop,
    }
}

/// Whether a payload is of the kind that a property takes.
pub open spec fn payload_fits(property: KeyframeProperty, payload: KeyframePayloadView) -> bool {
    match property {
        KeyframeProperty::Opacity => payload is Scalar,
        KeyframeProperty::Volume => payload is Scalar,
        KeyframeProperty::Rotation => payload is Scalar,
        KeyframeProperty::Position => payload is Pair,
        KeyframeProperty::Scale => payload is Pair,
        KeyframeProperty::Crop => payload is Crop,
    }
}

/// Whether a clip has a keyframe of a property at a frame of its own.
pub open spec fn has_keyframe(c: ClipView, property: KeyframeProperty, rel: int) -> bool {
    match property {
        KeyframeProperty::Opacity => track_has(c.opacity_track, rel),
        KeyframeProperty::Volume => track_has(c.volume_track, rel),
        KeyframeProperty::Rotation => track_has(c.rotation_track, rel),
        KeyframeProperty::Position => track_has(c.position_track, rel),
        KeyframeProperty::Scale => track_has(c.scale_track, rel),
        KeyframeProperty::Crop => track_has(c.crop_track, rel),
    }
}

/// The clip with a value written at a frame of its own.
pub open spec fn keyed(
    c: ClipView,
    property: KeyframeProperty,
    rel: i32,
    value: KeyframeValue,
) -> ClipView {
    match (property, value) {
        (KeyframeProperty::Opacity, KeyframeValue::Scalar(v)) => ClipView { opacity_track: stamped(c.opacity_track, rel, v), ..c },
        (KeyframeProperty::Volume, KeyframeValue::Scalar(v)) => ClipView { volume_track: stamped(c.volume_track, rel, v), ..c },
        (KeyframeProperty::Rotation, KeyframeValue::Scalar(v)) => ClipView { rotation_track: stamped(c.rotation_track, rel, v), ..c },
        (KeyframeProperty::Position, KeyframeValue::Pair(v)) => ClipView { position_track: stamped(c.position_track, rel, v), ..c },
        (KeyframeProperty::Scale, KeyframeValue::Pair(v)) => ClipView { scale_track: stamped(c.scale_track, rel, v), ..c },
        (KeyframeProperty::Crop, KeyframeValue::Crop(v)) => ClipView { crop_track: stamped(c.crop_track, rel, v), ..c },
        _ => c,
    }
}

/// The clip with a property's whole track replaced.
pub open spec fn rekeyed(
    c: ClipView,
    property: KeyframeProperty,
    payload: KeyframePayloadView,
) -> ClipView {
    match (property, payload) {
        (KeyframeProperty::Opacity, KeyframePayloadView::Scalar(t)) => ClipView { opacity_track: none_if_empty(t), ..c },
        (KeyframeProperty::Volume, KeyframePayloadView::Scalar(t)) => ClipView { volume_track: none_if_empty(t), ..c },
        (KeyframeProperty::Rotation, KeyframePayloadView::Scalar(t)) => ClipView { rotation_track: none_if_empty(t), ..c },
        (KeyframeProperty::Position, KeyframePayloadView::Pair(t)) => ClipView { position_track: none_if_empty(t), ..c },
        (KeyframeProperty::Scale, KeyframePayloadView::Pair(t)) => ClipView { scale_track: none_if_empty(t), ..c },
        (KeyframeProperty::Crop, KeyframePayloadView::Crop(t)) => ClipView { crop_track: none_if_empty(t), ..c },
        _ => c,
    }
}

/// The clip without a property's keyframe at a frame of its own.
pub open spec fn unkeyed(c: ClipView, property: KeyframeProperty, rel: int) -> ClipView {
    match property {
        KeyframeProperty::Opacity => ClipView { opacity_track: cleared(c.opacity_track, rel), ..c },
        KeyframeProperty::Volume => ClipView { volume_track: cleared(c.volume_track, rel), ..c },
        KeyframeProperty::Rotation => ClipView { rotation_track: cleared(c.rotation_track, rel), ..c },
        KeyframeProperty::Position => ClipView { position_track: cleared(c.position_track, rel), ..c },
        KeyframeProperty::Scale => ClipView { scale_track: cleared(c.scale_track, rel), ..c },
        KeyframeProperty::Crop => ClipView { crop_track: cleared(c.crop_track, rel), ..c },
    }
}

/// The clip with a property's keyframe moved.
pub open spec fn key_moved(c: ClipView, property: KeyframeProperty, from: int, to: i32) -> ClipView {
    match property {
        KeyframeProperty::Opacity => ClipView { opacity_track: shifted(c.opacity_track, from, to), ..c },
        KeyframeProperty::Volume => ClipView { volume_track: shifted(c.volume_track, from, to), ..c },
        KeyframeProperty::Rotation => ClipView { rotation_track: shifted(c.rotation_track, from, to), ..c },
        KeyframeProperty::Position => ClipView { position_track: shifted(c.position_track, from, to), ..c },
        KeyframeProperty::Scale => ClipView { scale_track: shifted(c.scale_track, from, to), ..c },
        KeyframeProperty::Crop => ClipView { crop_track: shifted(c.crop_track, from, to), ..c },
    }
}

/// The clip with the curve after a property's keyframe set.
pub open spec fn key_curved(
    c: ClipView,
    property: KeyframeProperty,
    rel: int,
    interpolation: Interpolation,
) -> ClipView {
    match property {
        KeyframeProperty::Opacity => ClipView { opacity_track: curved(c.opacity_track, rel, interpolation), ..c },
        KeyframeProperty::Volume => ClipView { volume_track: curved(c.volume_track, rel, interpolation), ..c },
        KeyframeProperty::Rotation => ClipView { rotation_track: curved(c.rotation_track, rel, interpolation), ..c },
        KeyframeProperty::Position => ClipView { position_track: curved(c.position_track, rel, interpolation), ..c },
        KeyframeProperty::Scale => ClipView { scale_track: curved(c.scale_track, rel, interpolation), ..c },
        KeyframeProperty::Crop => ClipView { crop_track: curved(c.crop_track, rel, interpolation), ..c },
    }
}

impl ClipSample {
    /// The value of one property.
    pub fn value(&self, property: KeyframeProperty) -> (r: KeyframeValue)
        ensures
            r == sample_of(*self, property),
            value_fits(property, r),
    {
        match property {
            KeyframeProperty::Opacity => KeyframeValue::Scalar(self.opacity),
            KeyframeProperty::Volume => KeyframeValue::Scalar(self.volume),
            KeyframeProperty::Rotation => KeyframeValue::Scalar(self.rotation),
            KeyframeProperty::Position => KeyframeValue::Pair(self.position),
            KeyframeProperty::Scale => KeyframeValue::Pair(self.scale),
            KeyframeProperty::Crop => KeyframeValue::Crop(self.crop),
        }
    }
}

fn check_value(property: KeyframeProperty, value: KeyframeValue) -> (r: bool)
    ensures
        r == value_fits(property, value),
{
    match (property, value) {
        (KeyframeProperty::Opacity, KeyframeValue::Scalar(_)) => true,
        (KeyframeProperty::Volume, KeyframeValue::Scalar(_)) => true,
        (KeyframeProperty::Rotation, KeyframeValue::Scalar(_)) => true,
        (KeyframeProperty::Position, KeyframeValue::Pair(_)) => true,
        (KeyframeProperty::Scale, KeyframeValue::Pair(_)) => true,
        (KeyframeProperty::Crop, KeyframeValue::Crop(_)) => true,
        _ => false,
    }
}

fn check_payload(property: KeyframeProperty, payload: &KeyframePayload) -> (r: bool)
    ensures
        r == payload_fits(property, payload@),
{
    match (property, payload) {
        (KeyframeProperty::Opacity, KeyframePayload::Scalar(_)) => true,
        (KeyframeProperty::Volume, KeyframePayload::Scalar(_)) => true,
        (KeyframeProperty::Rotation, KeyframePayload::Scalar(_)) => true,
        (KeyframeProperty::Position, KeyframePayload::Pair(_)) => true,
        (KeyframeProperty::Scale, KeyframePayload::Pair(_)) => true,
        (KeyframeProperty::Crop, KeyframePayload::Crop(_)) => true,
        _ => false,
    }
}

fn clip_has_keyframe(clip: &Clip, property: KeyframeProperty, rel: i32) -> (r: bool)
    ensures
        r == has_keyframe(clip@, property, rel as int),
{
    match property {
        KeyframeProperty::Opacity => has_keyframe_at(&clip.opacity_track, rel),
        KeyframeProperty::Volume => has_keyframe_at(&clip.volume_track, rel),
        KeyframeProperty::Rotation => has_keyframe_at(&clip.rotation_track, rel),
        KeyframeProperty::Position => has_keyframe_at(&clip.position_track, rel),
        KeyframeProperty::Scale => has_keyframe_at(&clip.scale_track, rel),
        KeyframeProperty::Crop => has_keyframe_at(&clip.crop_track, rel),
    }
}

fn key(clip: &mut Clip, property: KeyframeProperty, rel: i32, value: KeyframeValue)
    ensures
        final(clip)@ == keyed(old(clip)@, property, rel, value),
{
    match (property, value) {
        (KeyframeProperty::Opacity, KeyframeValue::Scalar(v)) => stamp(&mut clip.opacity_track, rel, v),
        (KeyframeProperty::Volume, KeyframeValue::Scalar(v)) => stamp(&mut clip.volume_track, rel, v),
        (KeyframeProperty::Rotation, KeyframeValue::Scalar(v)) => stamp(&mut clip.rotation_track, rel, v),
        (KeyframeProperty::Position, KeyframeValue::Pair(v)) => stamp(&mut clip.position_track, rel, v),
        (KeyframeProperty::Scale, KeyframeValue::Pair(v)) => stamp(&mut clip.scale_track, rel, v),
        (KeyframeProperty::Crop, KeyframeValue::Crop(v)) => stamp(&mut clip.crop_track, rel, v),
        _ => {},
    }
}

fn rekey(clip: &mut Clip, property: KeyframeProperty, payload: KeyframePayload)
    ensures
        final(clip)@ == rekeyed(old(clip)@, property, payload@),
{
    match (property, payload) {
        (KeyframeProperty::Opacity, KeyframePayload::Scalar(t)) => {
            clip.opacity_track = empty_to_none(t);
        },
        (KeyframeProperty::Volume, KeyframePayload::Scalar(t)) => {
            clip.volume_track = empty_to_none(t);
        },
        (KeyframeProperty::Rotation, KeyframePayload::Scalar(t)) => {
            clip.rotation_track = empty_to_none(t);
        },
        (KeyframeProperty::Position, KeyframePayload::Pair(t)) => {
            clip.position_track = empty_to_none(t);
        },
        (KeyframeProperty::Scale, KeyframePayload::Pair(t)) => {
            clip.scale_track = empty_to_none(t);
        },
        (KeyframeProperty::Crop, KeyframePayload::Crop(t)) => {
            clip.crop_track = empty_to_none(t);
        },
        _ => {},
    }
}

fn unkey(clip: &mut Clip, property: KeyframeProperty, rel: i32)
    ensures
        final(clip)@ == unkeyed(old(clip)@, property, rel as int),
{
    match property {
        KeyframeProperty::Opacity => unstamp(&mut clip.opacity_track, rel),
        KeyframeProperty::Volume => unstamp(&mut clip.volume_track, rel),
        KeyframeProperty::Rotation => unstamp(&mut clip.rotation_track, rel),
        KeyframeProperty::Position => unstamp(&mut clip.position_track, rel),
        KeyframeProperty::Scale => unstamp(&mut clip.scale_track, rel),
        KeyframeProperty::Crop => unstamp(&mut clip.crop_track, rel),
    }
}

fn move_key(clip: &mut Clip, property: KeyframeProperty, from: i32, to: i32)
    ensures
        final(clip)@ == key_moved(old(clip)@, property, from as int, to),
{
    match property {
        KeyframeProperty::Opacity => shift(&mut clip.opacity_track, from, to),
        KeyframeProperty::Volume => shift(&mut clip.volume_track, from, to),
        KeyframeProperty::Rotation => shift(&mut clip.rotation_track, from, to),
        KeyframeProperty::Position => shift(&mut clip.position_track, from, to),
        KeyframeProperty::Scale => shift(&mut clip.scale_track, from, to),
        KeyframeProperty::Crop => shift(&mut clip.crop_track, from, to),
    }
}

fn curve_key(clip: &mut Clip, property: KeyframeProperty, rel: i32, interpolation: Interpolation)
    ensures
        final(clip)@ == key_curved(old(clip)@, property, rel as int, interpolation),
{
    match property {
        KeyframeProperty::Opacity => set_kf_interp(&mut clip.opacity_track, rel, interpolation),
        KeyframeProperty::Volume => set_kf_interp(&mut clip.volume_track, rel, interpolation),
        KeyframeProperty::Rotation => set_kf_interp(&mut clip.rotation_track, rel, interpolation),
        KeyframeProperty::Position => set_kf_interp(&mut clip.position_track, rel, interpolation),
        KeyframeProperty::Scale => set_kf_interp(&mut clip.scale_track, rel, interpolation),
        KeyframeProperty::Crop => set_kf_interp(&mut clip.crop_track, rel, interpolation),
    }
}

/// The frame after a clip's last.
pub open spec fn end_of(c: ClipView) -> int {
    c.start_frame + c.duration_frames
}

/// Whether a frame of the timeline falls into a clip.
pub open spec fn covers(c: ClipView, frame: int) -> bool {
    c.start_frame <= frame < end_of(c)
}

/// The complaint that a frame lies outside a clip.
pub open spec fn outside_clip(what: Seq<char>, frame: int, c: ClipView) -> Fault {
    Fault::Invalid(
        what + int_text(frame) + " is outside clip range ("@ + int_text(c.start_frame as int)
            + ".."@ + int_text(end_of(c)) + ")"@,
    )
}

fn covers_frame(clip: &Clip, frame: i32) -> (r: bool)
    ensures
        r == covers(clip@, frame as int),
{
    clip.start_frame <= frame && (frame as i64) < clip.start_frame as i64
        + clip.duration_frames as i64
}

/// Says that a frame lies outside a clip.
pub fn outside(what: &str, frame: i32, clip: &Clip) -> (r: EditError)
    ensures
        r@ == outside_clip(what@, frame as int, clip@),
{
    let frame_text = i32_to_text(frame);
    let start_text = i32_to_text(clip.start_frame);
    let end_text = i64_to_text(clip.start_frame as i64 + clip.duration_frames as i64);
    EditError::Invalid(
        cat7(
            what,
            frame_text.as_str(),
            " is outside clip range (",
            start_text.as_str(),
            "..",
            end_text.as_str(),
            ")",
        ),
    )
}

/// What replacing one clip through a transaction returns and leaves.
pub open spec fn clip_edited(
    s: StateView,
    action: Seq<char>,
    summary: Seq<char>,
    id: Seq<char>,
    c: ClipView,
    registry_fault: Option<Seq<char>>,
) -> (Result<EditResultView, Fault>, StateView) {
    timeline_transacted(
        s,
        action,
        summary,
        with_clip(s.timeline, locate(s.timeline, id)->0, c),
        seq![id],
        registry_fault,
    )
}

/// Setting a whole track: the clip exists, a compound clip has no crop track, and
/// the payload is of the property's kind.
pub open spec fn set_keyframes_spec(
    s: StateView,
    id: Seq<char>,
    property: KeyframeProperty,
    payload: KeyframePayloadView,
    registry_fault: Option<Seq<char>>,
) -> (Result<EditResultView, Fault>, StateView) {
    match locate(s.timeline, id) {
        None => (Err(clip_not_found(id)), s),
        Some(place) => {
            let c = clip_at(s.timeline, place);
            if property is Crop && c.nested_sequence_id is Some {
                (Err(Fault::Invalid("compound clips do not support crop keyframes"@)), s)
            } else if !payload_fits(property, payload) {
                (Err(Fault::Invalid("keyframe payload type does not match property"@)), s)
            } else {
                clip_edited(
                    s,
                    "Set Keyframes"@,
                    "Set keyframes on "@ + id,
                    id,
                    rekeyed(c, property, payload),
                    registry_fault,
                )
            }
        },
    }
}

/// Writing a value at a frame: the clip exists, a compound clip has no crop
/// track, the frame lies in the clip, and the value is of the property's kind.
pub open spec fn write_keyframe_spec(
    s: StateView,
    id: Seq<char>,
    property: KeyframeProperty,
    frame: i32,
    value: KeyframeValue,
    action: Seq<char>,
    summary: Seq<char>,
    registry_fault: Option<Seq<char>>,
) -> (Result<EditResultView, Fault>, StateView) {
    match locate(s.timeline, id) {
        None => (Err(clip_not_found(id)), s),
        Some(place) => {
            let c = clip_at(s.timeline, place);
            if property is Crop && c.nested_sequence_id is Some {
                (Err(Fault::Invalid("compound clips do not support crop keyframes"@)), s)
            } else if !covers(c, frame as int) {
                (Err(outside_clip("Frame "@, frame as int, c)), s)
            } else if !value_fits(property, value) {
                (Err(Fault::Invalid("keyframe value type does not match property"@)), s)
            } else {
                clip_edited(
                    s,
                    action,
                    summary + id,
                    id,
                    keyed(c, property, (frame - c.start_frame) as i32, value),
                    registry_fault,
                )
            }
        },
    }
}

/// The complaint that a frame cannot be counted from a clip's start.
pub open spec fn unsupported_frame(what: Seq<char>, frame: int) -> Fault {
    Fault::Invalid(what + int_text(frame) + " is outside the supported range"@)
}

/// The complaint that there is no keyframe.
pub open spec fn keyframe_not_found(frame: int) -> Fault {
    Fault::Invalid("Keyframe not found at frame "@ + int_text(frame))
}

/// Removing a keyframe that exists.
pub open spec fn remove_keyframe_spec(
    s: StateView,
    id: Seq<char>,
    property: KeyframeProperty,
    frame: i32,
    registry_fault: Option<Seq<char>>,
) -> (Result<EditResultView, Fault>, StateView) {
    match locate(s.timeline, id) {
        None => (Err(clip_not_found(id)), s),
        Some(place) => {
            let c = clip_at(s.timeline, place);
            let rel = frame - c.start_frame;
            if !crate::frames::fits(rel) {
                (Err(unsupported_frame("Keyframe frame "@, frame as int)), s)
            } else if !has_keyframe(c, property, rel) {
                (Err(keyframe_not_found(frame as int)), s)
            } else {
                clip_edited(
                    s,
                    "Remove Keyframe"@,
                    "Remove keyframe on "@ + id,
                    id,
                    unkeyed(c, property, rel),
                    registry_fault,
                )
            }
        },
    }
}

/// Moving a keyframe that exists to a free frame of its clip.
pub open spec fn move_keyframe_spec(
    s: StateView,
    id: Seq<char>,
    property: KeyframeProperty,
    from_frame: i32,
    to_frame: i32,
    registry_fault: Option<Seq<char>>,
) -> (Result<EditResultView, Fault>, StateView) {
    match locate(s.timeline, id) {
        None => (Err(clip_not_found(id)), s),
        Some(place) => {
            let c = clip_at(s.timeline, place);
            let from = from_frame - c.start_frame;
            let to = to_frame - c.start_frame;
            if !crate::frames::fits(from) {
                (Err(unsupported_frame("Keyframe frame "@, from_frame as int)), s)
            } else if !crate::frames::fits(to) {
                (Err(unsupported_frame("Target frame "@, to_frame as int)), s)
            } else if !has_keyframe(c, property, from) {
                (Err(keyframe_not_found(from_frame as int)), s)
            } else if !covers(c, to_frame as int) {
                (Err(outside_clip("Target frame "@, to_frame as int, c)), s)
            } else if from != to && has_keyframe(c, property, to) {
                (
                    Err(
                        Fault::Invalid(
                            "Target frame "@ + int_text(to_frame as int) + " already occupied"@,
                        ),
                    ),
                    s,
                )
            } else {
                clip_edited(
                    s,
                    "Move Keyframe"@,
                    "Move keyframe on "@ + id,
                    id,
                    key_moved(c, property, from, to as i32),
                    registry_fault,
                )
            }
        },
    }
}

/// Setting the curve after a keyframe that exists.
pub open spec fn set_keyframe_interpolation_spec(
    s: StateView,
    id: Seq<char>,
    property: KeyframeProperty,
    frame: i32,
    interpolation: Interpolation,
    registry_fault: Option<Seq<char>>,
) -> (Result<EditResultView, Fault>, StateView) {
    match locate(s.timeline, id) {
        None => (Err(clip_not_found(id)), s),
        Some(place) => {
            let c = clip_at(s.timeline, place);
            let rel = frame - c.start_frame;
            if !crate::frames::fits(rel) {
                (Err(unsupported_frame("Keyframe frame "@, frame as int)), s)
            } else if !has_keyframe(c, property, rel) {
                (Err(keyframe_not_found(frame as int)), s)
            } else {
                clip_edited(
                    s,
                    "Set Keyframe Interpolation"@,
                    "Set keyframe interpolation on "@ + id,
                    id,
                    key_curved(c, property, rel, interpolation),
                    registry_fault,
                )
            }
        },
    }
}

/// Replaces (or clears) a clip's keyframe track for one property.
pub fn set_keyframes(
    state: &mut EditorState,
    clip_id: String,
    property: KeyframeProperty,
    payload: KeyframePayload,
    registry_fault: &Option<String>,
) -> (r: Result<EditResult, EditError>)
    requires
        old(state)@.version < u64::MAX,
    ensures
        (outcome(r), final(state)@) == set_keyframes_spec(
            old(state)@,
            clip_id@,
            property,
            payload@,
            opt_text(*registry_fault),
        ),
{
    let (ti, ci) = match require_clip(&state.timeline, clip_id.as_str()) {
        Ok(place) => place,
        Err(e) => return Err(e),
    };
    if property == KeyframeProperty::Crop
        && state.timeline.tracks[ti].clips[ci].nested_sequence_id.is_some() {
        return Err(invalid("compound clips do not support crop keyframes"));
    }
    if !check_payload(property, &payload) {
        return Err(invalid("keyframe payload type does not match property"));
    }
    let mut timeline = copy_around(&state.timeline, ti, ci);
    let ghost before = timeline;
    rekey(&mut timeline.tracks[ti].clips[ci], property, payload);
    proof {
        lemma_clip_replaced(before, timeline, ti as int, ci as int);
    }
    let summary = cat2("Set keyframes on ", clip_id.as_str());
    let affected: Vec<String> = vec![clip_id];
    assert(texts(affected@) =~= seq![clip_id@]);
    transact_timeline(
        state,
        "Set Keyframes",
        summary.as_str(),
        timeline,
        affected,
        registry_fault,
    )
}

fn write_keyframe(
    state: &mut EditorState,
    clip_id: String,
    property: KeyframeProperty,
    frame: i32,
    value: KeyframeValue,
    action_name: &str,
    summary_prefix: &str,
    registry_fault: &Option<String>,
) -> (r: Result<EditResult, EditError>)
    requires
        old(state)@.version < u64::MAX,
    ensures
        (outcome(r), final(state)@) == write_keyframe_spec(
            old(state)@,
            clip_id@,
            property,
            frame,
            value,
            action_name@,
            summary_prefix@,
            opt_text(*registry_fault),
        ),
{
    let (ti, ci) = match require_clip(&state.timeline, clip_id.as_str()) {
        Ok(place) => place,
        Err(e) => return Err(e),
    };
    let clip = &state.timeline.tracks[ti].clips[ci];
    if property == KeyframeProperty::Crop && clip.nested_sequence_id.is_some() {
        return Err(invalid("compound clips do not support crop keyframes"));
    }
    if !covers_frame(clip, frame) {
        return Err(outside("Frame ", frame, clip));
    }
    if !check_value(property, value) {
        return Err(invalid("keyframe value type does not match property"));
    }
    let rel: i32 = (frame as i64 - clip.start_frame as i64) as i32;
    let mut timeline = copy_around(&state.timeline, ti, ci);
    let ghost before = timeline;
    key(&mut timeline.tracks[ti].clips[ci], property, rel, value);
    proof {
        lemma_clip_replaced(before, timeline, ti as int, ci as int);
    }
    let summary = cat2(summary_prefix, clip_id.as_str());
    let affected: Vec<String> = vec![clip_id];
    assert(texts(affected@) =~= seq![clip_id@]);
    transact_timeline(state, action_name, summary.as_str(), timeline, affected, registry_fault)
}

/// Stamps a keyframe at a timeline frame with the clip's current value, which
/// `sample` holds.
pub fn stamp_keyframe(
    state: &mut EditorState,
    clip_id: String,
    property: KeyframeProperty,
    frame: i32,
    sample: &ClipSample,
    registry_fault: &Option<String>,
) -> (r: Result<EditResult, EditError>)
    requires
        old(state)@.version < u64::MAX,
    ensures
        (outcome(r), final(state)@) == write_keyframe_spec(
            old(state)@,
            clip_id@,
            property,
            frame,
            sample_of(*sample, property),
            "Stamp Keyframe"@,
            "Stamp keyframe on "@,
            opt_text(*registry_fault),
        ),
{
    let value = sample.value(property);
    write_keyframe(
        state,
        clip_id,
        property,
        frame,
        value,
        "Stamp Keyframe",
        "Stamp keyframe on ",
        registry_fault,
    )
}

/// Writes an explicit value at a timeline frame, making the track where there is
/// none. The clip's static value is left alone.
pub fn upsert_keyframe(
    state: &mut EditorState,
    clip_id: String,
    property: KeyframeProperty,
    frame: i32,
    value: KeyframeValue,
    registry_fault: &Option<String>,
) -> (r: Result<EditResult, EditError>)
    requires
        old(state)@.version < u64::MAX,
    ensures
        (outcome(r), final(state)@) == write_keyframe_spec(
            old(state)@,
            clip_id@,
            property,
            frame,
            value,
            "Set Keyframe"@,
            "Set keyframe on "@,
            opt_text(*registry_fault),
        ),
{
    write_keyframe(
        state,
        clip_id,
        property,
        frame,
        value,
        "Set Keyframe",
        "Set keyframe on ",
        registry_fault,
    )
}

fn no_keyframe(frame: i32) -> (r: EditError)
    ensures
        r@ == keyframe_not_found(frame as int),
{
    let frame_text = i32_to_text(frame);
    EditError::Invalid(cat2("Keyframe not found at frame ", frame_text.as_str()))
}

fn no_frame(what: &str, frame: i32) -> (r: EditError)
    ensures
        r@ == unsupported_frame(what@, frame as int),
{
    let frame_text = i32_to_text(frame);
    EditError::Invalid(cat3(what, frame_text.as_str(), " is outside the supported range"))
}

/// Removes the keyframe at a timeline frame.
pub fn remove_keyframe(
    state: &mut EditorState,
    clip_id: String,
    property: KeyframeProperty,
    frame: i32,
    registry_fault: &Option<String>,
) -> (r: Result<EditResult, EditError>)
    requires
        old(state)@.version < u64::MAX,
    ensures
        (outcome(r), final(state)@) == remove_keyframe_spec(
            old(state)@,
            clip_id@,
            property,
            frame,
            opt_text(*registry_fault),
        ),
{
    let (ti, ci) = match require_clip(&state.timeline, clip_id.as_str()) {
        Ok(place) => place,
        Err(e) => return Err(e),
    };
    let clip = &state.timeline.tracks[ti].clips[ci];
    let rel: i32 = match frame.checked_sub(clip.start_frame) {
        Some(rel) => rel,
        None => return Err(no_frame("Keyframe frame ", frame)),
    };
    if !clip_has_keyframe(clip, property, rel) {
        return Err(no_keyframe(frame));
    }
    let mut timeline = copy_around(&state.timeline, ti, ci);
    let ghost before = timeline;
    unkey(&mut timeline.tracks[ti].clips[ci], property, rel);
    proof {
        lemma_clip_replaced(before, timeline, ti as int, ci as int);
    }
    let summary = cat2("Remove keyframe on ", clip_id.as_str());
    let affected: Vec<String> = vec![clip_id];
    assert(texts(affected@) =~= seq![clip_id@]);
    transact_timeline(
        state,
        "Remove Keyframe",
        summary.as_str(),
        timeline,
        affected,
        registry_fault,
    )
}

/// Moves a keyframe between timeline frames; refuses an occupied target.
pub fn move_keyframe(
    state: &mut EditorState,
    clip_id: String,
    property: KeyframeProperty,
    from_frame: i32,
    to_frame: i32,
    registry_fault: &Option<String>,
) -> (r: Result<EditResult, EditError>)
    requires
        old(state)@.version < u64::MAX,
    ensures
        (outcome(r), final(state)@) == move_keyframe_spec(
            old(state)@,
            clip_id@,
            property,
            from_frame,
            to_frame,
            opt_text(*registry_fault),
        ),
{
    let (ti, ci) = match require_clip(&state.timeline, clip_id.as_str()) {
        Ok(place) => place,
        Err(e) => return Err(e),
    };
    let clip = &state.timeline.tracks[ti].clips[ci];
    let from_rel: i32 = match from_frame.checked_sub(clip.start_frame) {
        Some(rel) => rel,
        None => return Err(no_frame("Keyframe frame ", from_frame)),
    };
    let to_rel: i32 = match to_frame.checked_sub(clip.start_frame) {
        Some(rel) => rel,
        None => return Err(no_frame("Target frame ", to_frame)),
    };
    if !clip_has_keyframe(clip, property, from_rel) {
        return Err(no_keyframe(from_frame));
    }
    if !covers_frame(clip, to_frame) {
        return Err(outside("Target frame ", to_frame, clip));
    }
    if from_rel != to_rel && clip_has_keyframe(clip, property, to_rel) {
        let frame_text = i32_to_text(to_frame);
        return Err(
            EditError::Invalid(cat3("Target frame ", frame_text.as_str(), " already occupied")),
        );
    }
    let mut timeline = copy_around(&state.timeline, ti, ci);
    let ghost before = timeline;
    move_key(&mut timeline.tracks[ti].clips[ci], property, from_rel, to_rel);
    proof {
        lemma_clip_replaced(before, timeline, ti as int, ci as int);
    }
    let summary = cat2("Move keyframe on ", clip_id.as_str());
    let affected: Vec<String> = vec![clip_id];
    assert(texts(affected@) =~= seq![clip_id@]);
    transact_timeline(
        state,
        "Move Keyframe",
        summary.as_str(),
        timeline,
        affected,
        registry_fault,
    )
}

/// Changes the interpolation mode of the keyframe at a timeline frame.
pub fn set_keyframe_interpolation(
    state: &mut EditorState,
    clip_id: String,
    property: KeyframeProperty,
    frame: i32,
    interpolation: Interpolation,
    registry_fault: &Option<String>,
) -> (r: Result<EditResult, EditError>)
    requires
        old(state)@.version < u64::MAX,
    ensures
        (outcome(r), final(state)@) == set_keyframe_interpolation_spec(
            old(state)@,
            clip_id@,
            property,
            frame,
            interpolation,
            opt_text(*registry_fault),
        ),
{
    let (ti, ci) = match require_clip(&state.timeline, clip_id.as_str()) {
        Ok(place) => place,
        Err(e) => return Err(e),
    };
    let clip = &state.timeline.tracks[ti].clips[ci];
    let rel: i32 = match frame.checked_sub(clip.start_frame) {
        Some(rel) => rel,
        None => return Err(no_frame("Keyframe frame ", frame)),
    };
    if !clip_has_keyframe(clip, property, rel) {
        return Err(no_keyframe(frame));
    }
    let mut timeline = copy_around(&state.timeline, ti, ci);
    let ghost before = timeline;
    curve_key(&mut timeline.tracks[ti].clips[ci], property, rel, interpolation);
    proof {
        lemma_clip_replaced(before, timeline, ti as int, ci as int);
    }
    let summary = cat2("Set keyframe interpolation on ", clip_id.as_str());
    let affected: Vec<String> = vec![clip_id];
    assert(texts(affected@) =~= seq![clip_id@]);
    transact_timeline(
        state,
        "Set Keyframe Interpolation",
        summary.as_str(),
        timeline,
        affected,
        registry_fault,
    )
}

/// Whether an optional track animates its property.
pub open spec fn animates<V>(t: Option<Seq<Keyframe<V>>>) -> bool {
    t matches Some(s) && s.len() > 0
}

fn is_animated<V>(track: &Option<KeyframeTrack<V>>) -> (r: bool)
    ensures
        r == animates(opt_track(*track)),
{
    match track {
        Some(t) => t.keyframes.len() > 0,
        None => false,
    }
}

/// Whether all numbers of a transform are finite.
pub open spec fn transform_finite(t: Transform) -> bool {
    finite(t.center_x) && finite(t.center_y) && finite(t.width) && finite(t.height) && finite(
        t.rotation,
    )
}

/// The clip with a transform committed at a frame of its own: animated properties
/// get keyframes, the others are set, and the flips are taken over.
pub open spec fn transformed(c: ClipView, rel: i32, t: Transform, top_left: AnimPair) -> ClipView {
    let position = animates(c.position_track);
    let scale = animates(c.scale_track);
    let rotation = animates(c.rotation_track);
    ClipView {
        position_track: if position {
            stamped(c.position_track, rel, top_left)
        } else {
            c.position_track
        },
        scale_track: if scale {
            stamped(c.scale_track, rel, AnimPair { a: t.width, b: t.height })
        } else {
            c.scale_track
        },
        rotation_track: if rotation {
            stamped(c.rotation_track, rel, t.rotation)
        } else {
            c.rotation_track
        },
        transform: Transform {
            center_x: if position {
                c.transform.center_x
            } else {
                t.center_x
            },
            center_y: if position {
                c.transform.center_y
            } else {
                t.center_y
            },
            width: if scale {
                c.transform.width
            } else {
                t.width
            },
            height: if scale {
                c.transform.height
            } else {
                t.height
            },
            rotation: if rotation {
                c.transform.rotation
            } else {
                t.rotation
            },
            flip_horizontal: t.flip_horizontal,
            flip_vertical: t.flip_vertical,
        },
        ..c
    }
}

/// Committing a canvas transform at a timeline frame. The frame has to lie in the
/// clip only where something of the transform is animated.
pub open spec fn set_transform_at_frame_spec(
    s: StateView,
    id: Seq<char>,
    frame: i32,
    t: Transform,
    top_left: AnimPair,
    registry_fault: Option<Seq<char>>,
) -> (Result<EditResultView, Fault>, StateView) {
    if !transform_finite(t) {
        (Err(Fault::Invalid("Transform values must all be finite"@)), s)
    } else if !finite(top_left.a) || !finite(top_left.b) {
        (Err(Fault::Invalid("Derived transform position must be finite"@)), s)
    } else {
        match locate(s.timeline, id) {
            None => (Err(clip_not_found(id)), s),
            Some(place) => {
                let c = clip_at(s.timeline, place);
                let animated = animates(c.position_track) || animates(c.scale_track) || animates(
                    c.rotation_track,
                );
                if animated && !covers(c, frame as int) {
                    (Err(outside_clip("Frame "@, frame as int, c)), s)
                } else {
                    clip_edited(
                        s,
                        "Change Transform"@,
                        "Set transform on "@ + id,
                        id,
                        transformed(
                            c,
                            if animated {
                                (frame - c.start_frame) as i32
                            } else {
                                0
                            },
                            t,
                            top_left,
                        ),
                        registry_fault,
                    )
                }
            },
        }
    }
}

fn commit_transform(clip: &mut Clip, rel: i32, transform: Transform, top_left: AnimPair)
    ensures
        final(clip)@ == transformed(old(clip)@, rel, transform, top_left),
{
    let position = is_animated(&clip.position_track);
    let scale = is_animated(&clip.scale_track);
    let rotation = is_animated(&clip.rotation_track);
    if position {
        stamp(&mut clip.position_track, rel, top_left);
    } else {
        clip.transform.center_x = transform.center_x;
        clip.transform.center_y = transform.center_y;
    }
    if scale {
        stamp(&mut clip.scale_track, rel, AnimPair { a: transform.width, b: transform.height });
    } else {
        clip.transform.width = transform.width;
        clip.transform.height = transform.height;
    }
    if rotation {
        stamp(&mut clip.rotation_track, rel, transform.rotation);
    } else {
        clip.transform.rotation = transform.rotation;
    }
    clip.transform.flip_horizontal = transform.flip_horizontal;
    clip.transform.flip_vertical = transform.flip_vertical;
}

/// Commits one canvas transform at a timeline frame. `top_left` is the corner
/// that the transform's centre and size give.
pub fn set_transform_at_frame(
    state: &mut EditorState,
    clip_id: String,
    frame: i32,
    transform: Transform,
    top_left: AnimPair,
    registry_fault: &Option<String>,
) -> (r: Result<EditResult, EditError>)
    requires
        old(state)@.version < u64::MAX,
    ensures
        (outcome(r), final(state)@) == set_transform_at_frame_spec(
            old(state)@,
            clip_id@,
            frame,
            transform,
            top_left,
            opt_text(*registry_fault),
        ),
{
    if !(transform.center_x.is_finite() && transform.center_y.is_finite()
        && transform.width.is_finite() && transform.height.is_finite()
        && transform.rotation.is_finite()) {
        return Err(invalid("Transform values must all be finite"));
    }
    if !top_left.a.is_finite() || !top_left.b.is_finite() {
        return Err(invalid("Derived transform position must be finite"));
    }
    let (ti, ci) = match require_clip(&state.timeline, clip_id.as_str()) {
        Ok(place) => place,
        Err(e) => return Err(e),
    };
    let clip = &state.timeline.tracks[ti].clips[ci];
    let animated = is_animated(&clip.position_track) || is_animated(&clip.scale_track)
        || is_animated(&clip.rotation_track);
    if animated && !covers_frame(clip, frame) {
        return Err(outside("Frame ", frame, clip));
    }
    let rel: i32 = if animated {
        (frame as i64 - clip.start_frame as i64) as i32
    } else {
        0
    };
    let mut timeline = copy_around(&state.timeline, ti, ci);
    let ghost before = timeline;
    commit_transform(&mut timeline.tracks[ti].clips[ci], rel, transform, top_left);
    proof {
        lemma_clip_replaced(before, timeline, ti as int, ci as int);
    }
    let summary = cat2("Set transform on ", clip_id.as_str());
    let affected: Vec<String> = vec![clip_id];
    assert(texts(affected@) =~= seq![clip_id@]);
    transact_timeline(
        state,
        "Change Transform",
        summary.as_str(),
        timeline,
        affected,
        registry_fault,
    )
}

} // verus!
