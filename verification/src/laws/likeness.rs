//! What makes two documents alike.

use crate::alike::alike;
use crate::alike::alike_asset;
use crate::alike::alike_clip;
use crate::alike::alike_crop;
use crate::alike::alike_crops;
use crate::alike::alike_library;
use crate::alike::alike_mask;
use crate::alike::alike_opt_setting;
use crate::alike::alike_pair;
use crate::alike::alike_pairs;
use crate::alike::alike_scalar;
use crate::alike::alike_scalars;
use crate::alike::alike_setting;
use crate::alike::alike_stabilizations;
use crate::alike::alike_track;
use crate::binary64::same_number;
use crate::model::AnimPair;
use crate::model::ClipView;
use crate::model::Crop;
use crate::model::Keyframe;
use crate::model::MediaManifestEntryView;
use crate::model::MediaManifestView;
use crate::model::Real;
use crate::model::SettingView;
use crate::model::TimelineView;
use crate::model::TrackView;
use vstd::prelude::*;

verus! {

/// Clips that are alike differ in nothing but how their numbers are written.
pub proof fn law_alike_clips(a: ClipView, b: ClipView)
    requires
        alike_clip(a, b),
    ensures
        a.id == b.id,
        a.media_ref == b.media_ref,
        a.media_type == b.media_type,
        a.source_clip_type == b.source_clip_type,
        a.start_frame == b.start_frame,
        a.duration_frames == b.duration_frames,
        a.trim_start_frame == b.trim_start_frame,
        a.trim_end_frame == b.trim_end_frame,
        a.fade_in_frames == b.fade_in_frames,
        a.fade_out_frames == b.fade_out_frames,
        a.fade_in_interpolation == b.fade_in_interpolation,
        a.fade_out_interpolation == b.fade_out_interpolation,
        a.link_group_id == b.link_group_id,
        a.caption_group_id == b.caption_group_id,
        a.text_content == b.text_content,
        a.transition_out == b.transition_out,
        a.nested_sequence_id == b.nested_sequence_id,
        a.reversed == b.reversed,
        a.caption_translation_input == b.caption_translation_input,
        same_number(a.speed, b.speed),
        same_number(a.volume, b.volume),
        same_number(a.opacity, b.opacity),
        same_number(a.transform.center_x, b.transform.center_x),
        same_number(a.transform.center_y, b.transform.center_y),
        same_number(a.transform.width, b.transform.width),
        same_number(a.transform.height, b.transform.height),
        same_number(a.transform.rotation, b.transform.rotation),
        a.transform.flip_horizontal == b.transform.flip_horizontal,
        a.transform.flip_vertical == b.transform.flip_vertical,
        same_number(a.crop.left, b.crop.left),
        same_number(a.crop.top, b.crop.top),
        same_number(a.crop.right, b.crop.right),
        same_number(a.crop.bottom, b.crop.bottom),
        a.masks.len() == b.masks.len(),
        a.effects.len() == b.effects.len(),
        forall|k: int|
            0 <= k < a.masks.len() ==> (#[trigger] a.masks[k]).polygon_points
                == b.masks[k].polygon_points && alike_setting(a.masks[k].encoded, b.masks[k].encoded),
        forall|k: int|
            0 <= k < a.effects.len() ==> alike_setting(#[trigger] a.effects[k], b.effects[k]),
        alike_scalars(a.opacity_track, b.opacity_track),
        alike_scalars(a.rotation_track, b.rotation_track),
        alike_scalars(a.volume_track, b.volume_track),
        alike_pairs(a.position_track, b.position_track),
        alike_pairs(a.scale_track, b.scale_track),
        alike_crops(a.crop_track, b.crop_track),
        alike_opt_setting(a.text_style, b.text_style),
        alike_opt_setting(a.color_grade, b.color_grade),
        alike_opt_setting(a.color_match_input, b.color_match_input),
        alike_opt_setting(a.lut, b.lut),
        alike_opt_setting(a.chroma_key, b.chroma_key),
        alike_opt_setting(a.loudness_normalization, b.loudness_normalization),
        alike_opt_setting(a.audio_denoise, b.audio_denoise),
        alike_stabilizations(a.stabilization, b.stabilization),
{
    assert forall|k: int| 0 <= k < a.masks.len() implies (#[trigger] a.masks[k]).polygon_points
        == b.masks[k].polygon_points && alike_setting(a.masks[k].encoded, b.masks[k].encoded) by {
        assert(alike_mask(a.masks[k], b.masks[k]));
    }
    assert forall|k: int| 0 <= k < a.effects.len() implies alike_setting(
        #[trigger] a.effects[k],
        b.effects[k],
    ) by {
        assert(alike_setting(a.effects[k], b.effects[k]));
    }
}

/// Keyframe tracks that are alike have their keyframes at the same frames, with the same
/// curves and values that are the same numbers.
pub proof fn law_alike_tracks_of_keyframes(
    a: Seq<Keyframe<Real>>,
    b: Seq<Keyframe<Real>>,
    c: Seq<Keyframe<AnimPair>>,
    d: Seq<Keyframe<AnimPair>>,
    e: Seq<Keyframe<Crop>>,
    f: Seq<Keyframe<Crop>>,
)
    ensures
        alike_scalars(Some(a), Some(b)) <==> a.len() == b.len() && forall|k: int|
            0 <= k < a.len() ==> (#[trigger] a[k]).frame == b[k].frame && a[k].interpolation_out
                == b[k].interpolation_out && same_number(a[k].value, b[k].value),
        alike_pairs(Some(c), Some(d)) <==> c.len() == d.len() && forall|k: int|
            0 <= k < c.len() ==> (#[trigger] c[k]).frame == d[k].frame && c[k].interpolation_out
                == d[k].interpolation_out && same_number(c[k].value.a, d[k].value.a)
                && same_number(c[k].value.b, d[k].value.b),
        alike_crops(Some(e), Some(f)) <==> e.len() == f.len() && forall|k: int|
            0 <= k < e.len() ==> (#[trigger] e[k]).frame == f[k].frame && e[k].interpolation_out
                == f[k].interpolation_out && same_number(e[k].value.left, f[k].value.left)
                && same_number(e[k].value.top, f[k].value.top) && same_number(
                e[k].value.right,
                f[k].value.right,
            ) && same_number(e[k].value.bottom, f[k].value.bottom),
        !alike_scalars(Some(a), None),
        !alike_scalars(None, Some(a)),
        alike_scalars(None, None),
{
    if alike_scalars(Some(a), Some(b)) {
        assert forall|k: int| 0 <= k < a.len() implies (#[trigger] a[k]).frame == b[k].frame
            && a[k].interpolation_out == b[k].interpolation_out && same_number(
            a[k].value,
            b[k].value,
        ) by {
            assert(alike_scalar(a[k], b[k]));
        }
    }
    if alike_pairs(Some(c), Some(d)) {
        assert forall|k: int| 0 <= k < c.len() implies (#[trigger] c[k]).frame == d[k].frame
            && c[k].interpolation_out == d[k].interpolation_out && same_number(
            c[k].value.a,
            d[k].value.a,
        ) && same_number(c[k].value.b, d[k].value.b) by {
            assert(alike_pair(c[k], d[k]));
        }
    }
    if alike_crops(Some(e), Some(f)) {
        assert forall|k: int| 0 <= k < e.len() implies (#[trigger] e[k]).frame == f[k].frame
            && e[k].interpolation_out == f[k].interpolation_out && same_number(
            e[k].value.left,
            f[k].value.left,
        ) && same_number(e[k].value.top, f[k].value.top) && same_number(
            e[k].value.right,
            f[k].value.right,
        ) && same_number(e[k].value.bottom, f[k].value.bottom) by {
            assert(alike_crop(e[k], f[k]));
        }
    }
}

/// Settings are alike exactly when what is no number in them is the same and the numbers
/// are the same one by one.
pub proof fn law_alike_settings(a: SettingView, b: SettingView)
    ensures
        alike_setting(a, b) <==> a.rest == b.rest && a.numbers.len() == b.numbers.len() && forall|
            k: int,
        |
            0 <= k < a.numbers.len() ==> same_number(#[trigger] a.numbers[k], b.numbers[k]),
        alike_opt_setting(Some(a), Some(b)) <==> alike_setting(a, b),
        !alike_opt_setting(Some(a), None),
        !alike_opt_setting(None, Some(a)),
        alike_opt_setting(None, None),
{
}

/// Timelines that are alike have the same tracks and sequences, in the same order, with
/// clips that are alike.
pub proof fn law_alike_timelines(a: TimelineView, b: TimelineView)
    requires
        alike(a, b),
    ensures
        a == (TimelineView { tracks: a.tracks, nested_sequences: a.nested_sequences, ..b }),
        a.tracks.len() == b.tracks.len(),
        forall|i: int|
            0 <= i < a.tracks.len() ==> (#[trigger] a.tracks[i]) == (TrackView {
                clips: a.tracks[i].clips,
                ..b.tracks[i]
            }) && a.tracks[i].clips.len() == b.tracks[i].clips.len(),
        forall|i: int, j: int|
            0 <= i < a.tracks.len() && 0 <= j < a.tracks[i].clips.len() ==> alike_clip(
                #[trigger] a.tracks[i].clips[j],
                b.tracks[i].clips[j],
            ),
        a.nested_sequences.len() == b.nested_sequences.len(),
        forall|k: int|
            0 <= k < a.nested_sequences.len() ==> (#[trigger] a.nested_sequences[k]).id
                == b.nested_sequences[k].id && a.nested_sequences[k].name
                == b.nested_sequences[k].name && alike(
                a.nested_sequences[k].timeline,
                b.nested_sequences[k].timeline,
            ),
{
    assert forall|i: int| 0 <= i < a.tracks.len() implies (#[trigger] a.tracks[i]) == (TrackView {
        clips: a.tracks[i].clips,
        ..b.tracks[i]
    }) && a.tracks[i].clips.len() == b.tracks[i].clips.len() by {
        assert(alike_track(a.tracks[i], b.tracks[i]));
    }
    assert forall|i: int, j: int|
        0 <= i < a.tracks.len() && 0 <= j < a.tracks[i].clips.len() implies alike_clip(
        #[trigger] a.tracks[i].clips[j],
        b.tracks[i].clips[j],
    ) by {
        assert(alike_track(a.tracks[i], b.tracks[i]));
        assert(alike_clip(a.tracks[i].clips[j], b.tracks[i].clips[j]));
    }
}

/// Whether entries differ in nothing but how their numbers are written.
pub open spec fn same_asset(x: MediaManifestEntryView, y: MediaManifestEntryView) -> bool {
    &&& x == (MediaManifestEntryView {
        duration: x.duration,
        generation_input: x.generation_input,
        source_fps: x.source_fps,
        cached_remote_url_expires_at: x.cached_remote_url_expires_at,
        ..y
    })
    &&& same_number(x.duration, y.duration)
    &&& alike_opt_setting(x.generation_input, y.generation_input)
    &&& x.source_fps is Some <==> y.source_fps is Some
    &&& x.source_fps is Some ==> same_number(x.source_fps->0, y.source_fps->0)
    &&& x.cached_remote_url_expires_at is Some <==> y.cached_remote_url_expires_at is Some
    &&& x.cached_remote_url_expires_at is Some ==> same_number(
        x.cached_remote_url_expires_at->0,
        y.cached_remote_url_expires_at->0,
    )
}

/// Libraries are alike exactly when they have the same folders and entries, in the same
/// order, that differ in nothing but how their numbers are written.
pub proof fn law_alike_libraries(a: MediaManifestView, b: MediaManifestView)
    ensures
        alike_library(a, b) <==> a.folders == b.folders && a.entries.len() == b.entries.len()
            && forall|i: int|
            0 <= i < a.entries.len() ==> #[trigger] same_asset(a.entries[i], b.entries[i]),
{
    assert forall|i: int| 0 <= i < a.entries.len() implies #[trigger] same_asset(
        a.entries[i],
        b.entries[i],
    ) == alike_asset(a.entries[i], b.entries[i]) by {}
    if alike_library(a, b) {
        assert forall|i: int| 0 <= i < a.entries.len() implies #[trigger] same_asset(
            a.entries[i],
            b.entries[i],
        ) by {
            assert(alike_asset(a.entries[i], b.entries[i]));
        }
    }
    if a.entries.len() == b.entries.len() && forall|i: int|
        0 <= i < a.entries.len() ==> #[trigger] same_asset(a.entries[i], b.entries[i]) {
        assert forall|i: int| 0 <= i < a.entries.len() implies #[trigger] alike_asset(
            a.entries[i],
            b.entries[i],
        ) by {
            assert(same_asset(a.entries[i], b.entries[i]));
        }
    }
}

} // verus!
