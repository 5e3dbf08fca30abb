//! What keyframe commands do to the tracks of a clip.

use crate::commands::keyframes::ClipSample;
use crate::commands::keyframes::KeyframePayloadView;
use crate::commands::keyframes::KeyframeProperty;
use crate::commands::keyframes::KeyframeValue;
use crate::commands::keyframes::clip_edited;
use crate::commands::keyframes::key_curved;
use crate::commands::keyframes::key_moved;
use crate::commands::keyframes::keyed;
use crate::commands::keyframes::move_keyframe_spec;
use crate::commands::keyframes::rekeyed;
use crate::commands::keyframes::remove_keyframe_spec;
use crate::commands::keyframes::sample_of;
use crate::commands::keyframes::set_keyframe_interpolation_spec;
use crate::commands::keyframes::set_keyframes_spec;
use crate::commands::keyframes::set_transform_at_frame_spec;
use crate::commands::keyframes::transformed;
use crate::commands::keyframes::unkeyed;
use crate::commands::keyframes::write_keyframe_spec;
use crate::keyframe_track::cleared;
use crate::keyframe_track::curved;
use crate::keyframe_track::keyframe_index;
use crate::keyframe_track::keyframe_slot;
use crate::keyframe_track::law_upsert_keeps_order;
use crate::keyframe_track::lemma_index_bounds;
use crate::keyframe_track::lemma_slot_bounds;
use crate::keyframe_track::shifted;
use crate::keyframe_track::stamped;
use crate::keyframe_track::track_has;
use crate::keyframe_track::upserted;
use crate::laws::document::first_clip;
use crate::laws::document::has_clip;
use crate::laws::document::law_clips_are_found_by_id;
use crate::laws::document::law_pruning_changes_transitions_alone;
use crate::laws::document::same_clip;
use crate::laws::document::same_frame;
use crate::laws::document::same_track;
use crate::locate::with_clip;
use crate::model::AnimPair;
use crate::model::ClipView;
use crate::model::Crop;
use crate::model::Interpolation;
use crate::model::Keyframe;
use crate::model::TimelineView;
use crate::model::TrackView;
use crate::model::Transform;
use crate::state::StateView;
use crate::transitions::pruned;
use vstd::prelude::*;

verus! {

/// Whether a keyframe stands on an optional track.
pub open spec fn on_track<V>(t: Option<Seq<Keyframe<V>>>, k: Keyframe<V>) -> bool {
    t matches Some(s) && s.contains(k)
}

/// Whether a track has a keyframe at a frame.
pub open spec fn keyed_at<V>(t: Option<Seq<Keyframe<V>>>, frame: int) -> bool {
    t matches Some(s) && exists|i: int| 0 <= i < s.len() && (#[trigger] s[i]).frame == frame
}

/// Whether the keyframes of a track, if there is one, come in order of their frames,
/// one a frame.
pub open spec fn ordered_track<V>(t: Option<Seq<Keyframe<V>>>) -> bool {
    t matches Some(s) ==> forall|i: int, j: int|
        0 <= i < j < s.len() ==> (#[trigger] s[i]).frame < (#[trigger] s[j]).frame
}

/// Whether a value was written at a frame of a track: the track has it there with a
/// smooth curve, holds the same keyframes as before at all other frames, and stays in
/// order.
pub open spec fn written<V>(
    a: Option<Seq<Keyframe<V>>>,
    b: Option<Seq<Keyframe<V>>>,
    frame: i32,
    value: V,
) -> bool {
    &&& on_track(b, Keyframe { frame, value, interpolation_out: Interpolation::Smooth })
    &&& forall|k: Keyframe<V>|
        k.frame != frame ==> (on_track(a, k) <==> #[trigger] on_track(b, k))
    &&& ordered_track(a) ==> ordered_track(b)
}

/// Whether the keyframe at a frame was taken off a track: none is left there, the
/// others stay, in order, and a track with none left is gone.
pub open spec fn taken_off<V>(
    a: Option<Seq<Keyframe<V>>>,
    b: Option<Seq<Keyframe<V>>>,
    frame: int,
) -> bool {
    &&& forall|k: Keyframe<V>|
        k.frame != frame ==> (on_track(a, k) <==> #[trigger] on_track(b, k))
    &&& ordered_track(a) ==> ordered_track(b) && !keyed_at(b, frame)
    &&& b matches Some(s) ==> s.len() > 0
}

/// Whether the keyframe at one frame was carried to another: it stands there with its
/// value and curve, not where it stood, and all others stay, in order.
pub open spec fn carried<V>(
    a: Option<Seq<Keyframe<V>>>,
    b: Option<Seq<Keyframe<V>>>,
    from: i32,
    to: i32,
) -> bool {
    &&& exists|k: Keyframe<V>|
        k.frame == from && #[trigger] on_track(a, k) && on_track(b, Keyframe { frame: to, ..k })
    &&& forall|k: Keyframe<V>|
        k.frame != from && k.frame != to ==> (on_track(a, k) <==> #[trigger] on_track(b, k))
    &&& ordered_track(a) ==> ordered_track(b) && (from != to ==> !keyed_at(b, from as int))
}

/// Whether the curve behind the keyframes at a frame was set, and nothing else.
pub open spec fn bent<V>(
    a: Option<Seq<Keyframe<V>>>,
    b: Option<Seq<Keyframe<V>>>,
    frame: int,
    curve: Interpolation,
) -> bool {
    match (a, b) {
        (Some(x), Some(y)) => y.len() == x.len() && forall|i: int|
            0 <= i < x.len() ==> #[trigger] y[i] == (if x[i].frame == frame {
                Keyframe { interpolation_out: curve, ..x[i] }
            } else {
                x[i]
            }),
        (None, None) => true,
        _ => false,
    }
}

/// Whether two clips agree in everything but one property's keyframes and the
/// transition at their end.
pub open spec fn same_but_track(c: ClipView, d: ClipView, property: KeyframeProperty) -> bool {
    match property {
        KeyframeProperty::Opacity => d == (ClipView {
            opacity_track: d.opacity_track,
            transition_out: d.transition_out,
            ..c
        }),
        KeyframeProperty::Volume => d == (ClipView {
            volume_track: d.volume_track,
            transition_out: d.transition_out,
            ..c
        }),
        KeyframeProperty::Rotation => d == (ClipView {
            rotation_track: d.rotation_track,
            transition_out: d.transition_out,
            ..c
        }),
        KeyframeProperty::Position => d == (ClipView {
            position_track: d.position_track,
            transition_out: d.transition_out,
            ..c
        }),
        KeyframeProperty::Scale => d == (ClipView {
            scale_track: d.scale_track,
            transition_out: d.transition_out,
            ..c
        }),
        KeyframeProperty::Crop => d == (ClipView {
            crop_track: d.crop_track,
            transition_out: d.transition_out,
            ..c
        }),
    }
}

/// Whether two timelines agree, but for transitions, in everything but the clip at one
/// place.
pub open spec fn same_elsewhere(a: TimelineView, b: TimelineView, ti: int, ci: int) -> bool {
    &&& same_frame(a, b)
    &&& b.tracks.len() == a.tracks.len()
    &&& forall|i: int|
        0 <= i < a.tracks.len() && i != ti ==> #[trigger] same_track(a.tracks[i], b.tracks[i])
    &&& b.tracks[ti] == (TrackView { clips: b.tracks[ti].clips, ..a.tracks[ti] })
    &&& b.tracks[ti].clips.len() == a.tracks[ti].clips.len()
    &&& forall|j: int|
        0 <= j < a.tracks[ti].clips.len() && j != ci ==> same_clip(
            a.tracks[ti].clips[j],
            #[trigger] b.tracks[ti].clips[j],
        )
}

/// A command that replaces one clip changes that clip and, but for transitions,
/// nothing else.
pub proof fn lemma_one_clip_edited(
    s: StateView,
    action: Seq<char>,
    summary: Seq<char>,
    id: Seq<char>,
    c: ClipView,
    registry_fault: Option<Seq<char>>,
    ti: int,
    ci: int,
)
    requires
        first_clip(s.timeline, id, ti, ci),
        clip_edited(s, action, summary, id, c, registry_fault).0 is Ok,
    ensures
        ({
            let next = clip_edited(s, action, summary, id, c, registry_fault).1;
            &&& next.manifest == s.manifest
            &&& same_elsewhere(s.timeline, next.timeline, ti, ci)
            &&& same_clip(c, next.timeline.tracks[ti].clips[ci])
        }),
{
    law_clips_are_found_by_id(s.timeline, id);
    let work = with_clip(s.timeline, (ti, ci), c);
    let next = clip_edited(s, action, summary, id, c, registry_fault).1;
    assert(next.timeline == pruned(work));
    law_pruning_changes_transitions_alone(work);
    assert(same_track(work.tracks[ti], next.timeline.tracks[ti]));
    assert forall|i: int| 0 <= i < s.timeline.tracks.len() && i != ti implies #[trigger] same_track(
        s.timeline.tracks[i],
        next.timeline.tracks[i],
    ) by {
        assert(same_track(work.tracks[i], next.timeline.tracks[i]));
    }
}

proof fn lemma_stamped<V>(t: Option<Seq<Keyframe<V>>>, frame: i32, value: V)
    ensures
        written(t, stamped(t, frame, value), frame, value),
{
    let s = match t {
        Some(s) => s,
        None => Seq::empty(),
    };
    let k0 = Keyframe { frame, value, interpolation_out: Interpolation::Smooth };
    lemma_index_bounds(s, frame as int, 0);
    lemma_slot_bounds(s, frame as int, 0);
    let u = upserted(s, k0);
    let b = stamped(t, frame, value);
    match keyframe_index(s, frame as int, 0) {
        Some(p) => {
            assert(u[p] == k0);
        },
        None => {
            assert(u[keyframe_slot(s, frame as int, 0)] == k0);
        },
    }
    assert(b == Some(u));
    assert forall|k: Keyframe<V>| k.frame != frame implies (on_track(t, k)
        <==> #[trigger] on_track(b, k)) by {
        lemma_upserted_members(s, k0, k);
    }
    if ordered_track(t) {
        law_upsert_keeps_order(s, k0);
    }
}

proof fn lemma_upserted_members<V>(s: Seq<Keyframe<V>>, k0: Keyframe<V>, k: Keyframe<V>)
    requires
        k.frame != k0.frame,
    ensures
        s.contains(k) <==> upserted(s, k0).contains(k),
{
    lemma_index_bounds(s, k0.frame as int, 0);
    lemma_slot_bounds(s, k0.frame as int, 0);
    let u = upserted(s, k0);
    let p = match keyframe_index(s, k0.frame as int, 0) {
        Some(p) => p,
        None => keyframe_slot(s, k0.frame as int, 0),
    };
    let grown = keyframe_index(s, k0.frame as int, 0) is None;
    if s.contains(k) {
        let i = choose|i: int| 0 <= i < s.len() && s[i] == k;
        if grown && i >= p {
            assert(u[i + 1] == k);
        } else {
            assert(u[i] == k);
        }
    }
    if u.contains(k) {
        let i = choose|i: int| 0 <= i < u.len() && u[i] == k;
        assert(i != p);
        if grown && i > p {
            assert(s[i - 1] == k);
        } else {
            assert(s[i] == k);
        }
    }
}

/// Writing a keyframe, by value or by sample, puts the given value at the frame,
/// counted from the clip's start, on the property's own track; the tracks of the five
/// other properties, the rest of the clip and all other clips stay as they were. It
/// takes a frame of the clip, a value of the property's kind and no crop on a compound
/// clip.
pub proof fn law_keyframes_land_on_their_own_track(
    s: StateView,
    id: Seq<char>,
    property: KeyframeProperty,
    frame: i32,
    value: KeyframeValue,
    action: Seq<char>,
    summary: Seq<char>,
    registry_fault: Option<Seq<char>>,
    ti: int,
    ci: int,
)
    requires
        first_clip(s.timeline, id, ti, ci),
    ensures
        ({
            let (r, next) = write_keyframe_spec(
                s,
                id,
                property,
                frame,
                value,
                action,
                summary,
                registry_fault,
            );
            let c = s.timeline.tracks[ti].clips[ci];
            let d = next.timeline.tracks[ti].clips[ci];
            let rel = (frame - c.start_frame) as i32;
            &&& r is Err ==> next == s
            &&& r is Ok ==> {
                &&& c.start_frame <= frame < c.start_frame + c.duration_frames
                &&& rel == frame - c.start_frame
                &&& property is Crop ==> c.nested_sequence_id is None
                &&& next.manifest == s.manifest
                &&& same_elsewhere(s.timeline, next.timeline, ti, ci)
                &&& same_but_track(c, d, property)
                &&& match property {
                    KeyframeProperty::Opacity => value matches KeyframeValue::Scalar(v) && written(
                        c.opacity_track,
                        d.opacity_track,
                        rel,
                        v,
                    ),
                    KeyframeProperty::Volume => value matches KeyframeValue::Scalar(v) && written(
                        c.volume_track,
                        d.volume_track,
                        rel,
                        v,
                    ),
                    KeyframeProperty::Rotation => value matches KeyframeValue::Scalar(v) && written(
                        c.rotation_track,
                        d.rotation_track,
                        rel,
                        v,
                    ),
                    KeyframeProperty::Position => value matches KeyframeValue::Pair(v) && written(
                        c.position_track,
                        d.position_track,
                        rel,
                        v,
                    ),
                    KeyframeProperty::Scale => value matches KeyframeValue::Pair(v) && written(
                        c.scale_track,
                        d.scale_track,
                        rel,
                        v,
                    ),
                    KeyframeProperty::Crop => value matches KeyframeValue::Crop(v) && written(
                        c.crop_track,
                        d.crop_track,
                        rel,
                        v,
                    ),
                }
            }
        }),
{
    law_clips_are_found_by_id(s.timeline, id);
    let (r, next) = write_keyframe_spec(
        s,
        id,
        property,
        frame,
        value,
        action,
        summary,
        registry_fault,
    );
    let c = s.timeline.tracks[ti].clips[ci];
    let rel = (frame - c.start_frame) as i32;
    if r is Ok {
        lemma_one_clip_edited(
            s,
            action,
            summary + id,
            id,
            keyed(c, property, rel, value),
            registry_fault,
            ti,
            ci,
        );
        match value {
            KeyframeValue::Scalar(v) => {
                lemma_stamped(c.opacity_track, rel, v);
                lemma_stamped(c.volume_track, rel, v);
                lemma_stamped(c.rotation_track, rel, v);
            },
            KeyframeValue::Pair(v) => {
                lemma_stamped(c.position_track, rel, v);
                lemma_stamped(c.scale_track, rel, v);
            },
            KeyframeValue::Crop(v) => {
                lemma_stamped(c.crop_track, rel, v);
            },
        }
    }
}

/// The sample of a property is the value that the clip has of that property.
pub proof fn law_samples_are_of_the_property(sample: ClipSample)
    ensures
        sample_of(sample, KeyframeProperty::Opacity) == KeyframeValue::Scalar(sample.opacity),
        sample_of(sample, KeyframeProperty::Volume) == KeyframeValue::Scalar(sample.volume),
        sample_of(sample, KeyframeProperty::Rotation) == KeyframeValue::Scalar(sample.rotation),
        sample_of(sample, KeyframeProperty::Position) == KeyframeValue::Pair(sample.position),
        sample_of(sample, KeyframeProperty::Scale) == KeyframeValue::Pair(sample.scale),
        sample_of(sample, KeyframeProperty::Crop) == KeyframeValue::Crop(sample.crop),
{
}

proof fn lemma_had<V>(t: Option<Seq<Keyframe<V>>>, frame: int)
    ensures
        track_has(t, frame) == keyed_at(t, frame),
{
    if t is Some {
        lemma_index_bounds(t->0, frame, 0);
    }
}

proof fn lemma_cleared<V>(t: Option<Seq<Keyframe<V>>>, frame: int)
    requires
        keyed_at(t, frame),
    ensures
        taken_off(t, cleared(t, frame), frame),
{
    let s = t->0;
    lemma_index_bounds(s, frame, 0);
    let p = keyframe_index(s, frame, 0)->0;
    let u = s.remove(p);
    let b = cleared(t, frame);
    assert forall|k: Keyframe<V>| k.frame != frame implies (on_track(t, k)
        <==> #[trigger] on_track(b, k)) by {
        lemma_removed_members(s, p, k);
        if u.contains(k) {
            assert(u.len() > 0);
        }
    }
    if ordered_track(t) {
        assert forall|j: int| 0 <= j < u.len() implies (#[trigger] u[j]).frame != frame by {
            if j < p {
                assert(u[j] == s[j]);
            } else {
                assert(u[j] == s[j + 1]);
            }
        }
        assert forall|i: int, j: int| 0 <= i < j < u.len() implies (#[trigger] u[i]).frame < (
        #[trigger] u[j]).frame by {
            let x = if i < p {
                i
            } else {
                i + 1
            };
            let y = if j < p {
                j
            } else {
                j + 1
            };
            assert(s[x].frame < s[y].frame);
        }
    }
}

proof fn lemma_removed_members<V>(s: Seq<Keyframe<V>>, p: int, k: Keyframe<V>)
    requires
        0 <= p < s.len(),
        k.frame != s[p].frame,
    ensures
        s.contains(k) <==> s.remove(p).contains(k),
{
    let u = s.remove(p);
    if s.contains(k) {
        let i = choose|i: int| 0 <= i < s.len() && s[i] == k;
        if i > p {
            assert(u[i - 1] == k);
        } else {
            assert(u[i] == k);
        }
    }
    if u.contains(k) {
        let i = choose|i: int| 0 <= i < u.len() && u[i] == k;
        if i < p {
            assert(s[i] == k);
        } else {
            assert(s[i + 1] == k);
        }
    }
}

proof fn lemma_shifted<V>(t: Option<Seq<Keyframe<V>>>, from: i32, to: i32)
    requires
        keyed_at(t, from as int),
    ensures
        carried(t, shifted(t, from as int, to), from, to),
{
    let s = t->0;
    lemma_index_bounds(s, from as int, 0);
    let p = keyframe_index(s, from as int, 0)->0;
    let rest = s.remove(p);
    let k0 = Keyframe { frame: to, ..s[p] };
    let u = upserted(rest, k0);
    let b = shifted(t, from as int, to);
    lemma_index_bounds(rest, to as int, 0);
    lemma_slot_bounds(rest, to as int, 0);
    match keyframe_index(rest, to as int, 0) {
        Some(q) => {
            assert(u[q] == k0);
        },
        None => {
            assert(u[keyframe_slot(rest, to as int, 0)] == k0);
        },
    }
    assert(b == Some(u));
    assert(on_track(t, s[p]) && on_track(b, Keyframe { frame: to, ..s[p] }));
    assert forall|k: Keyframe<V>| k.frame != from && k.frame != to implies (on_track(t, k)
        <==> #[trigger] on_track(b, k)) by {
        lemma_removed_members(s, p, k);
        lemma_upserted_members(rest, k0, k);
    }
    if ordered_track(t) {
        lemma_cleared(t, from as int);
        assert(ordered_track(Some(rest)));
        law_upsert_keeps_order(rest, k0);
        if from != to {
            assert forall|j: int| 0 <= j < u.len() implies (#[trigger] u[j]).frame != from by {
                if u[j].frame == from {
                    lemma_upserted_members(rest, k0, u[j]);
                    assert(u.contains(u[j]));
                    assert(rest.contains(u[j]));
                    let m = choose|m: int| 0 <= m < rest.len() && rest[m] == u[j];
                    assert(keyed_at(cleared(t, from as int), from as int)) by {
                        assert(rest[m].frame == from);
                    }
                }
            }
        }
    }
}

proof fn lemma_curved<V>(t: Option<Seq<Keyframe<V>>>, frame: int, curve: Interpolation)
    ensures
        bent(t, curved(t, frame, curve), frame, curve),
{
}

/// Removing a keyframe takes the one at the frame off the property's own track and
/// leaves the other keyframes, the other tracks and the other clips alone. There has to
/// be one.
pub proof fn law_removed_keyframes_are_gone(
    s: StateView,
    id: Seq<char>,
    property: KeyframeProperty,
    frame: i32,
    registry_fault: Option<Seq<char>>,
    ti: int,
    ci: int,
)
    requires
        first_clip(s.timeline, id, ti, ci),
    ensures
        ({
            let (r, next) = remove_keyframe_spec(s, id, property, frame, registry_fault);
            let c = s.timeline.tracks[ti].clips[ci];
            let d = next.timeline.tracks[ti].clips[ci];
            &&& r is Err ==> next == s
            &&& r is Ok ==> {
                &&& next.manifest == s.manifest
                &&& same_elsewhere(s.timeline, next.timeline, ti, ci)
                &&& same_but_track(c, d, property)
                &&& match property {
                    KeyframeProperty::Opacity => keyed_at(c.opacity_track, frame - c.start_frame) && taken_off(
                        c.opacity_track,
                        d.opacity_track,
                        frame - c.start_frame,
                    ),
                    KeyframeProperty::Volume => keyed_at(c.volume_track, frame - c.start_frame) && taken_off(
                        c.volume_track,
                        d.volume_track,
                        frame - c.start_frame,
                    ),
                    KeyframeProperty::Rotation => keyed_at(c.rotation_track, frame - c.start_frame) && taken_off(
                        c.rotation_track,
                        d.rotation_track,
                        frame - c.start_frame,
                    ),
                    KeyframeProperty::Position => keyed_at(c.position_track, frame - c.start_frame) && taken_off(
                        c.position_track,
                        d.position_track,
                        frame - c.start_frame,
                    ),
                    KeyframeProperty::Scale => keyed_at(c.scale_track, frame - c.start_frame) && taken_off(
                        c.scale_track,
                        d.scale_track,
                        frame - c.start_frame,
                    ),
                    KeyframeProperty::Crop => keyed_at(c.crop_track, frame - c.start_frame) && taken_off(
                        c.crop_track,
                        d.crop_track,
                        frame - c.start_frame,
                    ),
                }
            }
        }),
{
    law_clips_are_found_by_id(s.timeline, id);
    let (r, next) = remove_keyframe_spec(s, id, property, frame, registry_fault);
    let c = s.timeline.tracks[ti].clips[ci];
    if r is Ok {
        let rel = frame - c.start_frame;
        lemma_had(c.opacity_track, rel);
        lemma_had(c.volume_track, rel);
        lemma_had(c.rotation_track, rel);
        lemma_had(c.position_track, rel);
        lemma_had(c.scale_track, rel);
        lemma_had(c.crop_track, rel);
        lemma_one_clip_edited(
            s,
            "Remove Keyframe"@,
            "Remove keyframe on "@ + id,
            id,
            unkeyed(c, property, rel),
            registry_fault,
            ti,
            ci,
        );
        match property {
            KeyframeProperty::Opacity => lemma_cleared(c.opacity_track, rel),
            KeyframeProperty::Volume => lemma_cleared(c.volume_track, rel),
            KeyframeProperty::Rotation => lemma_cleared(c.rotation_track, rel),
            KeyframeProperty::Position => lemma_cleared(c.position_track, rel),
            KeyframeProperty::Scale => lemma_cleared(c.scale_track, rel),
            KeyframeProperty::Crop => lemma_cleared(c.crop_track, rel),
        }
    }
}

/// Moving a keyframe puts it, with its value and curve, at the target frame of the same
/// track, and no longer where it stood; the target lies in the clip and was free.
pub proof fn law_moved_keyframes_keep_value_and_curve(
    s: StateView,
    id: Seq<char>,
    property: KeyframeProperty,
    from_frame: i32,
    to_frame: i32,
    registry_fault: Option<Seq<char>>,
    ti: int,
    ci: int,
)
    requires
        first_clip(s.timeline, id, ti, ci),
    ensures
        ({
            let (r, next) = move_keyframe_spec(s, id, property, from_frame, to_frame, registry_fault);
            let c = s.timeline.tracks[ti].clips[ci];
            let d = next.timeline.tracks[ti].clips[ci];
            &&& r is Err ==> next == s
            &&& r is Ok ==> {
                &&& next.manifest == s.manifest
                &&& same_elsewhere(s.timeline, next.timeline, ti, ci)
                &&& same_but_track(c, d, property)
                &&& c.start_frame <= to_frame < c.start_frame + c.duration_frames
                &&& match property {
                    KeyframeProperty::Opacity => carried(
                        c.opacity_track,
                        d.opacity_track,
                        (from_frame - c.start_frame) as i32,
                        (to_frame - c.start_frame) as i32,
                    ) && (from_frame != to_frame ==> !keyed_at(c.opacity_track, to_frame - c.start_frame)),
                    KeyframeProperty::Volume => carried(
                        c.volume_track,
                        d.volume_track,
                        (from_frame - c.start_frame) as i32,
                        (to_frame - c.start_frame) as i32,
                    ) && (from_frame != to_frame ==> !keyed_at(c.volume_track, to_frame - c.start_frame)),
                    KeyframeProperty::Rotation => carried(
                        c.rotation_track,
                        d.rotation_track,
                        (from_frame - c.start_frame) as i32,
                        (to_frame - c.start_frame) as i32,
                    ) && (from_frame != to_frame ==> !keyed_at(c.rotation_track, to_frame - c.start_frame)),
                    KeyframeProperty::Position => carried(
                        c.position_track,
                        d.position_track,
                        (from_frame - c.start_frame) as i32,
                        (to_frame - c.start_frame) as i32,
                    ) && (from_frame != to_frame ==> !keyed_at(c.position_track, to_frame - c.start_frame)),
                    KeyframeProperty::Scale => carried(
                        c.scale_track,
                        d.scale_track,
                        (from_frame - c.start_frame) as i32,
                        (to_frame - c.start_frame) as i32,
                    ) && (from_frame != to_frame ==> !keyed_at(c.scale_track, to_frame - c.start_frame)),
                    KeyframeProperty::Crop => carried(
                        c.crop_track,
                        d.crop_track,
                        (from_frame - c.start_frame) as i32,
                        (to_frame - c.start_frame) as i32,
                    ) && (from_frame != to_frame ==> !keyed_at(c.crop_track, to_frame - c.start_frame)),
                }
            }
        }),
{
    law_clips_are_found_by_id(s.timeline, id);
    let (r, next) = move_keyframe_spec(s, id, property, from_frame, to_frame, registry_fault);
    let c = s.timeline.tracks[ti].clips[ci];
    if r is Ok {
        let rel = from_frame - c.start_frame;
        let to = to_frame - c.start_frame;
        lemma_had(c.opacity_track, rel);
        lemma_had(c.volume_track, rel);
        lemma_had(c.rotation_track, rel);
        lemma_had(c.position_track, rel);
        lemma_had(c.scale_track, rel);
        lemma_had(c.crop_track, rel);
        lemma_had(c.opacity_track, to);
        lemma_had(c.volume_track, to);
        lemma_had(c.rotation_track, to);
        lemma_had(c.position_track, to);
        lemma_had(c.scale_track, to);
        lemma_had(c.crop_track, to);
        lemma_one_clip_edited(
            s,
            "Move Keyframe"@,
            "Move keyframe on "@ + id,
            id,
            key_moved(c, property, rel, to as i32),
            registry_fault,
            ti,
            ci,
        );
        match property {
            KeyframeProperty::Opacity => lemma_shifted(c.opacity_track, rel as i32, to as i32),
            KeyframeProperty::Volume => lemma_shifted(c.volume_track, rel as i32, to as i32),
            KeyframeProperty::Rotation => lemma_shifted(c.rotation_track, rel as i32, to as i32),
            KeyframeProperty::Position => lemma_shifted(c.position_track, rel as i32, to as i32),
            KeyframeProperty::Scale => lemma_shifted(c.scale_track, rel as i32, to as i32),
            KeyframeProperty::Crop => lemma_shifted(c.crop_track, rel as i32, to as i32),
        }
    }
}

/// Setting the curve behind a keyframe changes the curve at that frame of the
/// property's own track and nothing else. There has to be a keyframe.
pub proof fn law_curves_are_set_at_their_keyframe(
    s: StateView,
    id: Seq<char>,
    property: KeyframeProperty,
    frame: i32,
    interpolation: Interpolation,
    registry_fault: Option<Seq<char>>,
    ti: int,
    ci: int,
)
    requires
        first_clip(s.timeline, id, ti, ci),
    ensures
        ({
            let (r, next) = set_keyframe_interpolation_spec(s, id, property, frame, interpolation, registry_fault);
            let c = s.timeline.tracks[ti].clips[ci];
            let d = next.timeline.tracks[ti].clips[ci];
            &&& r is Err ==> next == s
            &&& r is Ok ==> {
                &&& next.manifest == s.manifest
                &&& same_elsewhere(s.timeline, next.timeline, ti, ci)
                &&& same_but_track(c, d, property)
                &&& match property {
                    KeyframeProperty::Opacity => keyed_at(c.opacity_track, frame - c.start_frame) && bent(
                        c.opacity_track,
                        d.opacity_track,
                        frame - c.start_frame,
                        interpolation,
                    ),
                    KeyframeProperty::Volume => keyed_at(c.volume_track, frame - c.start_frame) && bent(
                        c.volume_track,
                        d.volume_track,
                        frame - c.start_frame,
                        interpolation,
                    ),
                    KeyframeProperty::Rotation => keyed_at(c.rotation_track, frame - c.start_frame) && bent(
                        c.rotation_track,
                        d.rotation_track,
                        frame - c.start_frame,
                        interpolation,
                    ),
                    KeyframeProperty::Position => keyed_at(c.position_track, frame - c.start_frame) && bent(
                        c.position_track,
                        d.position_track,
                        frame - c.start_frame,
                        interpolation,
                    ),
                    KeyframeProperty::Scale => keyed_at(c.scale_track, frame - c.start_frame) && bent(
                        c.scale_track,
                        d.scale_track,
                        frame - c.start_frame,
                        interpolation,
                    ),
                    KeyframeProperty::Crop => keyed_at(c.crop_track, frame - c.start_frame) && bent(
                        c.crop_track,
                        d.crop_track,
                        frame - c.start_frame,
                        interpolation,
                    ),
                }
            }
        }),
{
    law_clips_are_found_by_id(s.timeline, id);
    let (r, next) = set_keyframe_interpolation_spec(s, id, property, frame, interpolation, registry_fault);
    let c = s.timeline.tracks[ti].clips[ci];
    if r is Ok {
        let rel = frame - c.start_frame;
        lemma_had(c.opacity_track, rel);
        lemma_had(c.volume_track, rel);
        lemma_had(c.rotation_track, rel);
        lemma_had(c.position_track, rel);
        lemma_had(c.scale_track, rel);
        lemma_had(c.crop_track, rel);
        lemma_one_clip_edited(
            s,
            "Set Keyframe Interpolation"@,
            "Set keyframe interpolation on "@ + id,
            id,
            key_curved(c, property, rel, interpolation),
            registry_fault,
            ti,
            ci,
        );
        match property {
            KeyframeProperty::Opacity => lemma_curved(c.opacity_track, rel, interpolation),
            KeyframeProperty::Volume => lemma_curved(c.volume_track, rel, interpolation),
            KeyframeProperty::Rotation => lemma_curved(c.rotation_track, rel, interpolation),
            KeyframeProperty::Position => lemma_curved(c.position_track, rel, interpolation),
            KeyframeProperty::Scale => lemma_curved(c.scale_track, rel, interpolation),
            KeyframeProperty::Crop => lemma_curved(c.crop_track, rel, interpolation),
        }
    }
}

/// Setting a property's keyframes makes its own track the given one, or none where the
/// given one is empty, and leaves everything else alone. The track is of the property's
/// kind, and a compound clip takes no crop track.
pub proof fn law_replaced_tracks_are_as_given(
    s: StateView,
    id: Seq<char>,
    property: KeyframeProperty,
    payload: KeyframePayloadView,
    registry_fault: Option<Seq<char>>,
    ti: int,
    ci: int,
)
    requires
        first_clip(s.timeline, id, ti, ci),
    ensures
        ({
            let (r, next) = set_keyframes_spec(s, id, property, payload, registry_fault);
            let c = s.timeline.tracks[ti].clips[ci];
            let d = next.timeline.tracks[ti].clips[ci];
            &&& r is Err ==> next == s
            &&& r is Ok ==> {
                &&& next.manifest == s.manifest
                &&& same_elsewhere(s.timeline, next.timeline, ti, ci)
                &&& same_but_track(c, d, property)
                &&& property is Crop ==> c.nested_sequence_id is None
                &&& match property {
                    KeyframeProperty::Opacity => payload matches KeyframePayloadView::Scalar(t) && d.opacity_track == (
                    if t.len() == 0 {
                        None
                    } else {
                        Some(t)
                    }),
                    KeyframeProperty::Volume => payload matches KeyframePayloadView::Scalar(t) && d.volume_track == (
                    if t.len() == 0 {
                        None
                    } else {
                        Some(t)
                    }),
                    KeyframeProperty::Rotation => payload matches KeyframePayloadView::Scalar(t) && d.rotation_track == (
                    if t.len() == 0 {
                        None
                    } else {
                        Some(t)
                    }),
                    KeyframeProperty::Position => payload matches KeyframePayloadView::Pair(t) && d.position_track == (
                    if t.len() == 0 {
                        None
                    } else {
                        Some(t)
                    }),
                    KeyframeProperty::Scale => payload matches KeyframePayloadView::Pair(t) && d.scale_track == (
                    if t.len() == 0 {
                        None
                    } else {
                        Some(t)
                    }),
                    KeyframeProperty::Crop => payload matches KeyframePayloadView::Crop(t) && d.crop_track == (
                    if t.len() == 0 {
                        None
                    } else {
                        Some(t)
                    }),
                }
            }
        }),
{
    law_clips_are_found_by_id(s.timeline, id);
    let (r, next) = set_keyframes_spec(s, id, property, payload, registry_fault);
    let c = s.timeline.tracks[ti].clips[ci];
    if r is Ok {
        lemma_one_clip_edited(
            s,
            "Set Keyframes"@,
            "Set keyframes on "@ + id,
            id,
            rekeyed(c, property, payload),
            registry_fault,
            ti,
            ci,
        );
    }
}

/// Whether an optional track animates its property: it has keyframes.
pub open spec fn animated<V>(t: Option<Seq<Keyframe<V>>>) -> bool {
    t matches Some(s) && s.len() > 0
}

/// Committing a transform writes a keyframe for each of position, scale and rotation
/// that is animated, and sets those that are not; the flips are taken over, the crop,
/// opacity and volume are left alone. Where anything is animated the frame lies in the
/// clip.
pub proof fn law_transforms_go_to_what_is_animated(
    s: StateView,
    id: Seq<char>,
    frame: i32,
    t: Transform,
    top_left: AnimPair,
    registry_fault: Option<Seq<char>>,
    ti: int,
    ci: int,
)
    requires
        first_clip(s.timeline, id, ti, ci),
    ensures
        ({
            let (r, next) = set_transform_at_frame_spec(s, id, frame, t, top_left, registry_fault);
            let c = s.timeline.tracks[ti].clips[ci];
            let d = next.timeline.tracks[ti].clips[ci];
            let rel = (frame - c.start_frame) as i32;
            &&& r is Err ==> next == s
            &&& r is Ok ==> {
                &&& next.manifest == s.manifest
                &&& same_elsewhere(s.timeline, next.timeline, ti, ci)
                &&& d == (ClipView {
                    position_track: d.position_track,
                    scale_track: d.scale_track,
                    rotation_track: d.rotation_track,
                    transform: d.transform,
                    transition_out: d.transition_out,
                    ..c
                })
                &&& animated(c.position_track) || animated(c.scale_track) || animated(
                    c.rotation_track,
                ) ==> c.start_frame <= frame < c.start_frame + c.duration_frames && rel == frame
                    - c.start_frame
                &&& if animated(c.position_track) {
                    &&& written(c.position_track, d.position_track, rel, top_left)
                    &&& d.transform.center_x == c.transform.center_x
                    &&& d.transform.center_y == c.transform.center_y
                } else {
                    &&& d.position_track == c.position_track
                    &&& d.transform.center_x == t.center_x
                    &&& d.transform.center_y == t.center_y
                }
                &&& if animated(c.scale_track) {
                    &&& written(
                        c.scale_track,
                        d.scale_track,
                        rel,
                        AnimPair { a: t.width, b: t.height },
                    )
                    &&& d.transform.width == c.transform.width
                    &&& d.transform.height == c.transform.height
                } else {
                    &&& d.scale_track == c.scale_track
                    &&& d.transform.width == t.width
                    &&& d.transform.height == t.height
                }
                &&& if animated(c.rotation_track) {
                    &&& written(c.rotation_track, d.rotation_track, rel, t.rotation)
                    &&& d.transform.rotation == c.transform.rotation
                } else {
                    &&& d.rotation_track == c.rotation_track
                    &&& d.transform.rotation == t.rotation
                }
                &&& d.transform.flip_horizontal == t.flip_horizontal
                &&& d.transform.flip_vertical == t.flip_vertical
            }
        }),
{
    law_clips_are_found_by_id(s.timeline, id);
    let (r, next) = set_transform_at_frame_spec(s, id, frame, t, top_left, registry_fault);
    let c = s.timeline.tracks[ti].clips[ci];
    if r is Ok {
        let any = animated(c.position_track) || animated(c.scale_track) || animated(
            c.rotation_track,
        );
        let rel: i32 = if any {
            (frame - c.start_frame) as i32
        } else {
            0
        };
        lemma_one_clip_edited(
            s,
            "Change Transform"@,
            "Set transform on "@ + id,
            id,
            transformed(c, rel, t, top_left),
            registry_fault,
            ti,
            ci,
        );
        lemma_stamped(c.position_track, rel, top_left);
        lemma_stamped(c.scale_track, rel, AnimPair { a: t.width, b: t.height });
        lemma_stamped(c.rotation_track, rel, t.rotation);
    }
}

/// A keyframe command on a clip that is not there is refused and changes nothing.
pub proof fn law_keyframes_need_their_clip(
    s: StateView,
    id: Seq<char>,
    property: KeyframeProperty,
    frame: i32,
    to_frame: i32,
    value: KeyframeValue,
    payload: KeyframePayloadView,
    curve: Interpolation,
    action: Seq<char>,
    summary: Seq<char>,
    registry_fault: Option<Seq<char>>,
)
    requires
        !has_clip(s.timeline, id),
    ensures
        write_keyframe_spec(s, id, property, frame, value, action, summary, registry_fault).0
            is Err,
        set_keyframes_spec(s, id, property, payload, registry_fault).0 is Err,
        remove_keyframe_spec(s, id, property, frame, registry_fault).0 is Err,
        move_keyframe_spec(s, id, property, frame, to_frame, registry_fault).0 is Err,
        set_keyframe_interpolation_spec(s, id, property, frame, curve, registry_fault).0 is Err,
{
    law_clips_are_found_by_id(s.timeline, id);
}

} // verus!
