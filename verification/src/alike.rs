//! Comparing documents: numbers are compared as numbers, so that the two zeros are the
//! same and a NaN is the same as nothing, and everything else by its contents.

use crate::binary64::same_number;
use crate::model::clip_views;
use crate::model::mask_views;
use crate::model::media_manifest_entry_views;
use crate::model::opt_setting;
use crate::model::opt_stabilization_track;
use crate::model::opt_track;
use crate::model::same_media_folders;
use crate::model::same_opt_caption_translation_input;
use crate::model::same_opt_transition;
use crate::model::same_script_assembly_plans;
use crate::model::same_voice_model_records;
use crate::model::setting_views;
use crate::model::track_views;
use crate::model::AnimPair;
use crate::model::Clip;
use crate::model::ClipView;
use crate::model::Crop;
use crate::model::Keyframe;
use crate::model::KeyframeTrack;
use crate::model::Mask;
use crate::model::MaskView;
use crate::model::MediaManifest;
use crate::model::MediaManifestEntry;
use crate::model::MediaManifestEntryView;
use crate::model::MediaManifestView;
use crate::model::NestedSequence;
use crate::model::NestedSequenceView;
use crate::model::Real;
use crate::model::Setting;
use crate::model::SettingView;
use crate::model::StabilizationTrack;
use crate::model::StabilizationTrackView;
use crate::model::Timeline;
use crate::model::TimelineView;
use crate::model::Track;
use crate::model::TrackView;
use crate::model::Transform;
use crate::text::same_opt;
use vstd::prelude::*;

verus! {

/// Whether two optional numbers are the same.
pub open spec fn alike_numbers(a: Option<Real>, b: Option<Real>) -> bool {
    match (a, b) {
        (None, None) => true,
        (Some(x), Some(y)) => same_number(x, y),
        _ => false,
    }
}

/// Whether two settings are the same.
pub open spec fn alike_setting(a: SettingView, b: SettingView) -> bool {
    &&& a.rest == b.rest
    &&& a.numbers.len() == b.numbers.len()
    &&& forall|i: int|
        0 <= i < a.numbers.len() ==> same_number(#[trigger] a.numbers[i], b.numbers[i])
}

/// Whether two optional settings are the same.
pub open spec fn alike_opt_setting(a: Option<SettingView>, b: Option<SettingView>) -> bool {
    match (a, b) {
        (None, None) => true,
        (Some(x), Some(y)) => alike_setting(x, y),
        _ => false,
    }
}

/// Whether two lists of settings are the same, one by one.
pub open spec fn alike_settings(a: Seq<SettingView>, b: Seq<SettingView>) -> bool {
    a.len() == b.len() && forall|i: int|
        0 <= i < a.len() ==> #[trigger] alike_setting(a[i], b[i])
}

/// Whether two masks are the same.
pub open spec fn alike_mask(a: MaskView, b: MaskView) -> bool {
    a.polygon_points == b.polygon_points && alike_setting(a.encoded, b.encoded)
}

/// Whether two lists of masks are the same, one by one.
pub open spec fn alike_masks(a: Seq<MaskView>, b: Seq<MaskView>) -> bool {
    a.len() == b.len() && forall|i: int| 0 <= i < a.len() ==> #[trigger] alike_mask(a[i], b[i])
}

/// Whether two pairs of numbers are the same.
pub open spec fn alike_values(a: AnimPair, b: AnimPair) -> bool {
    same_number(a.a, b.a) && same_number(a.b, b.b)
}

/// Whether two crops are the same.
pub open spec fn alike_insets(a: Crop, b: Crop) -> bool {
    &&& same_number(a.left, b.left)
    &&& same_number(a.top, b.top)
    &&& same_number(a.right, b.right)
    &&& same_number(a.bottom, b.bottom)
}

/// Whether two transforms are the same.
pub open spec fn alike_transforms(a: Transform, b: Transform) -> bool {
    &&& same_number(a.center_x, b.center_x)
    &&& same_number(a.center_y, b.center_y)
    &&& same_number(a.width, b.width)
    &&& same_number(a.height, b.height)
    &&& same_number(a.rotation, b.rotation)
    &&& a.flip_horizontal == b.flip_horizontal
    &&& a.flip_vertical == b.flip_vertical
}

/// Whether two keyframes of a scalar are the same.
pub open spec fn alike_scalar(a: Keyframe<Real>, b: Keyframe<Real>) -> bool {
    a.frame == b.frame && same_number(a.value, b.value) && a.interpolation_out == b.interpolation_out
}

/// Whether two optional scalar tracks hold the same keyframes.
pub open spec fn alike_scalars(
    a: Option<Seq<Keyframe<Real>>>,
    b: Option<Seq<Keyframe<Real>>>,
) -> bool {
    match (a, b) {
        (None, None) => true,
        (Some(x), Some(y)) => x.len() == y.len() && forall|i: int|
            0 <= i < x.len() ==> #[trigger] alike_scalar(x[i], y[i]),
        _ => false,
    }
}

/// Whether two keyframes of a pair are the same.
pub open spec fn alike_pair(a: Keyframe<AnimPair>, b: Keyframe<AnimPair>) -> bool {
    a.frame == b.frame && alike_values(a.value, b.value) && a.interpolation_out == b.interpolation_out
}

/// Whether two optional pair tracks hold the same keyframes.
pub open spec fn alike_pairs(
    a: Option<Seq<Keyframe<AnimPair>>>,
    b: Option<Seq<Keyframe<AnimPair>>>,
) -> bool {
    match (a, b) {
        (None, None) => true,
        (Some(x), Some(y)) => x.len() == y.len() && forall|i: int|
            0 <= i < x.len() ==> #[trigger] alike_pair(x[i], y[i]),
        _ => false,
    }
}

/// Whether two keyframes of a crop are the same.
pub open spec fn alike_crop(a: Keyframe<Crop>, b: Keyframe<Crop>) -> bool {
    a.frame == b.frame && alike_insets(a.value, b.value) && a.interpolation_out == b.interpolation_out
}

/// Whether two optional crop tracks hold the same keyframes.
pub open spec fn alike_crops(
    a: Option<Seq<Keyframe<Crop>>>,
    b: Option<Seq<Keyframe<Crop>>>,
) -> bool {
    match (a, b) {
        (None, None) => true,
        (Some(x), Some(y)) => x.len() == y.len() && forall|i: int|
            0 <= i < x.len() ==> #[trigger] alike_crop(x[i], y[i]),
        _ => false,
    }
}

/// Whether two optional stabilizations are the same.
pub open spec fn alike_stabilizations(
    a: Option<StabilizationTrackView>,
    b: Option<StabilizationTrackView>,
) -> bool {
    match (a, b) {
        (None, None) => true,
        (Some(x), Some(y)) => {
            &&& x.source_identity == y.source_identity
            &&& same_number(x.strength, y.strength)
            &&& same_number(x.crop_margin, y.crop_margin)
            &&& alike_setting(x.encoded, y.encoded)
        },
        _ => false,
    }
}

/// Whether two clips are the same.
pub open spec fn alike_clip(a: ClipView, b: ClipView) -> bool {
    &&& same_number(a.speed, b.speed)
    &&& same_number(a.volume, b.volume)
    &&& same_number(a.opacity, b.opacity)
    &&& alike_transforms(a.transform, b.transform)
    &&& alike_insets(a.crop, b.crop)
    &&& alike_scalars(a.opacity_track, b.opacity_track)
    &&& alike_pairs(a.position_track, b.position_track)
    &&& alike_pairs(a.scale_track, b.scale_track)
    &&& alike_scalars(a.rotation_track, b.rotation_track)
    &&& alike_crops(a.crop_track, b.crop_track)
    &&& alike_scalars(a.volume_track, b.volume_track)
    &&& alike_opt_setting(a.text_style, b.text_style)
    &&& alike_opt_setting(a.color_grade, b.color_grade)
    &&& alike_opt_setting(a.color_match_input, b.color_match_input)
    &&& alike_opt_setting(a.lut, b.lut)
    &&& alike_opt_setting(a.chroma_key, b.chroma_key)
    &&& alike_masks(a.masks, b.masks)
    &&& alike_settings(a.effects, b.effects)
    &&& alike_opt_setting(a.loudness_normalization, b.loudness_normalization)
    &&& alike_opt_setting(a.audio_denoise, b.audio_denoise)
    &&& alike_stabilizations(a.stabilization, b.stabilization)
    &&& a == (ClipView {
        text_style: a.text_style,
        color_grade: a.color_grade,
        color_match_input: a.color_match_input,
        lut: a.lut,
        chroma_key: a.chroma_key,
        masks: a.masks,
        effects: a.effects,
        loudness_normalization: a.loudness_normalization,
        audio_denoise: a.audio_denoise,
        speed: a.speed,
        volume: a.volume,
        opacity: a.opacity,
        transform: a.transform,
        crop: a.crop,
        opacity_track: a.opacity_track,
        position_track: a.position_track,
        scale_track: a.scale_track,
        rotation_track: a.rotation_track,
        crop_track: a.crop_track,
        volume_track: a.volume_track,
        stabilization: a.stabilization,
        ..b
    })
}

/// Whether two lists of clips are the same, one by one.
pub open spec fn alike_clips(a: Seq<ClipView>, b: Seq<ClipView>) -> bool {
    a.len() == b.len() && forall|i: int|
        0 <= i < a.len() ==> #[trigger] alike_clip(a[i], b[i])
}

/// Whether two tracks are the same.
pub open spec fn alike_track(a: TrackView, b: TrackView) -> bool {
    alike_clips(a.clips, b.clips) && a == (TrackView { clips: a.clips, ..b })
}

/// Whether two lists of tracks are the same, one by one.
pub open spec fn alike_tracks(a: Seq<TrackView>, b: Seq<TrackView>) -> bool {
    a.len() == b.len() && forall|i: int|
        0 <= i < a.len() ==> #[trigger] alike_track(a[i], b[i])
}

/// Whether two timelines are the same, those nested in them too.
pub open spec fn alike(a: TimelineView, b: TimelineView) -> bool
    decreases a,
{
    &&& alike_tracks(a.tracks, b.tracks)
    &&& a.nested_sequences.len() == b.nested_sequences.len()
    &&& forall|i: int|
        0 <= i < a.nested_sequences.len() ==> {
            &&& (#[trigger] a.nested_sequences[i]).id == b.nested_sequences[i].id
            &&& a.nested_sequences[i].name == b.nested_sequences[i].name
            &&& alike(a.nested_sequences[i].timeline, b.nested_sequences[i].timeline)
        }
    &&& a == (TimelineView {
        tracks: a.tracks,
        nested_sequences: a.nested_sequences,
        ..b
    })
}

/// Whether two nested sequences are the same.
pub open spec fn alike_sequence(a: NestedSequenceView, b: NestedSequenceView) -> bool {
    a.id == b.id && a.name == b.name && alike(a.timeline, b.timeline)
}

/// Whether two assets are the same.
pub open spec fn alike_asset(a: MediaManifestEntryView, b: MediaManifestEntryView) -> bool {
    &&& same_number(a.duration, b.duration)
    &&& alike_opt_setting(a.generation_input, b.generation_input)
    &&& alike_numbers(a.source_fps, b.source_fps)
    &&& alike_numbers(a.cached_remote_url_expires_at, b.cached_remote_url_expires_at)
    &&& a == (MediaManifestEntryView {
        duration: a.duration,
        generation_input: a.generation_input,
        source_fps: a.source_fps,
        cached_remote_url_expires_at: a.cached_remote_url_expires_at,
        ..b
    })
}

/// Whether two lists of assets are the same, one by one.
pub open spec fn alike_assets(a: Seq<MediaManifestEntryView>, b: Seq<MediaManifestEntryView>) -> bool {
    a.len() == b.len() && forall|i: int|
        0 <= i < a.len() ==> #[trigger] alike_asset(a[i], b[i])
}

/// Whether two media libraries are the same.
pub open spec fn alike_library(a: MediaManifestView, b: MediaManifestView) -> bool {
    alike_assets(a.entries, b.entries) && a.folders == b.folders
}

fn same_opt_number(a: Option<Real>, b: Option<Real>) -> (r: bool)
    ensures
        r == alike_numbers(a, b),
{
    match (a, b) {
        (None, None) => true,
        (Some(x), Some(y)) => x.equals(y),
        _ => false,
    }
}

impl Setting {
    /// Whether two settings are the same.
    pub fn same(&self, other: &Setting) -> (r: bool)
        ensures
            r == alike_setting(self@, other@),
    {
        if self.rest != other.rest || self.numbers.len() != other.numbers.len() {
            return false;
        }
        let mut i: usize = 0;
        while i < self.numbers.len()
            invariant
                i <= self.numbers@.len(),
                self.numbers@.len() == other.numbers@.len(),
                forall|j: int|
                    0 <= j < i ==> same_number(#[trigger] self@.numbers[j], other@.numbers[j]),
            decreases self.numbers@.len() - i,
        {
            if !self.numbers[i].equals(other.numbers[i]) {
                assert(!same_number(self@.numbers[i as int], other@.numbers[i as int]));
                return false;
            }
            i += 1;
        }
        true
    }
}

fn same_opt_setting(a: &Option<Setting>, b: &Option<Setting>) -> (r: bool)
    ensures
        r == alike_opt_setting(opt_setting(*a), opt_setting(*b)),
{
    match (a, b) {
        (None, None) => true,
        (Some(x), Some(y)) => x.same(y),
        _ => false,
    }
}

/// Whether two lists are the same, one by one.
pub fn same_settings(a: &Vec<Setting>, b: &Vec<Setting>) -> (r: bool)
    ensures
        r == alike_settings(setting_views(a@), setting_views(b@)),
{
    if a.len() != b.len() {
        return false;
    }
    let mut i: usize = 0;
    while i < a.len()
        invariant
            i <= a@.len(),
            a@.len() == b@.len(),
            forall|j: int|
                0 <= j < i ==> #[trigger] alike_setting(setting_views(a@)[j], setting_views(b@)[j]),
        decreases a@.len() - i,
    {
        if !a[i].same(&b[i]) {
            assert(!alike_setting(setting_views(a@)[i as int], setting_views(b@)[i as int]));
            return false;
        }
        i += 1;
    }
    true
}

impl Mask {
    /// Whether two masks are the same.
    pub fn same(&self, other: &Mask) -> (r: bool)
        ensures
            r == alike_mask(self@, other@),
    {
        self.polygon_points == other.polygon_points && self.encoded.same(&other.encoded)
    }
}

/// Whether two lists are the same, one by one.
pub fn same_masks(a: &Vec<Mask>, b: &Vec<Mask>) -> (r: bool)
    ensures
        r == alike_masks(mask_views(a@), mask_views(b@)),
{
    if a.len() != b.len() {
        return false;
    }
    let mut i: usize = 0;
    while i < a.len()
        invariant
            i <= a@.len(),
            a@.len() == b@.len(),
            forall|j: int|
                0 <= j < i ==> #[trigger] alike_mask(mask_views(a@)[j], mask_views(b@)[j]),
        decreases a@.len() - i,
    {
        if !a[i].same(&b[i]) {
            assert(!alike_mask(mask_views(a@)[i as int], mask_views(b@)[i as int]));
            return false;
        }
        i += 1;
    }
    true
}

impl AnimPair {
    /// Whether two pairs of numbers are the same.
    pub fn same(&self, other: &AnimPair) -> (r: bool)
        ensures
            r == alike_values(*self, *other),
    {
        self.a.equals(other.a) && self.b.equals(other.b)
    }
}

impl Crop {
    /// Whether two crops are the same.
    pub fn same(&self, other: &Crop) -> (r: bool)
        ensures
            r == alike_insets(*self, *other),
    {
        self.left.equals(other.left) && self.top.equals(other.top) && self.right.equals(other.right)
            && self.bottom.equals(other.bottom)
    }
}

impl Transform {
    /// Whether two transforms are the same.
    pub fn same(&self, other: &Transform) -> (r: bool)
        ensures
            r == alike_transforms(*self, *other),
    {
        self.center_x.equals(other.center_x) && self.center_y.equals(other.center_y)
            && self.width.equals(other.width) && self.height.equals(other.height)
            && self.rotation.equals(other.rotation) && self.flip_horizontal
            == other.flip_horizontal && self.flip_vertical == other.flip_vertical
    }
}

/// Whether two optional scalar tracks hold the same keyframes.
pub fn same_scalar_track(
    a: &Option<KeyframeTrack<Real>>,
    b: &Option<KeyframeTrack<Real>>,
) -> (r: bool)
    ensures
        r == alike_scalars(opt_track(*a), opt_track(*b)),
{
    match (a, b) {
        (None, None) => true,
        (Some(x), Some(y)) => {
            if x.keyframes.len() != y.keyframes.len() {
                return false;
            }
            let mut i: usize = 0;
            while i < x.keyframes.len()
                invariant
                    i <= x.keyframes@.len(),
                    x.keyframes@.len() == y.keyframes@.len(),
                    opt_track(*a) == Some(x@),
                    opt_track(*b) == Some(y@),
                    forall|j: int| 0 <= j < i ==> #[trigger] alike_scalar(x@[j], y@[j]),
                decreases x.keyframes@.len() - i,
            {
                let p = x.keyframes[i];
                let q = y.keyframes[i];
                if p.frame != q.frame || !p.value.equals(q.value) || p.interpolation_out != q.interpolation_out {
                    assert(!alike_scalar(x@[i as int], y@[i as int]));
                    return false;
                }
                i += 1;
            }
            true
        },
        _ => false,
    }
}

/// Whether two optional pair tracks hold the same keyframes.
pub fn same_pair_track(
    a: &Option<KeyframeTrack<AnimPair>>,
    b: &Option<KeyframeTrack<AnimPair>>,
) -> (r: bool)
    ensures
        r == alike_pairs(opt_track(*a), opt_track(*b)),
{
    match (a, b) {
        (None, None) => true,
        (Some(x), Some(y)) => {
            if x.keyframes.len() != y.keyframes.len() {
                return false;
            }
            let mut i: usize = 0;
            while i < x.keyframes.len()
                invariant
                    i <= x.keyframes@.len(),
                    x.keyframes@.len() == y.keyframes@.len(),
                    opt_track(*a) == Some(x@),
                    opt_track(*b) == Some(y@),
                    forall|j: int| 0 <= j < i ==> #[trigger] alike_pair(x@[j], y@[j]),
                decreases x.keyframes@.len() - i,
            {
                let p = x.keyframes[i];
                let q = y.keyframes[i];
                if p.frame != q.frame || !p.value.same(&q.value) || p.interpolation_out != q.interpolation_out {
                    assert(!alike_pair(x@[i as int], y@[i as int]));
                    return false;
                }
                i += 1;
            }
            true
        },
        _ => false,
    }
}

/// Whether two optional crop tracks hold the same keyframes.
pub fn same_crop_track(
    a: &Option<KeyframeTrack<Crop>>,
    b: &Option<KeyframeTrack<Crop>>,
) -> (r: bool)
    ensures
        r == alike_crops(opt_track(*a), opt_track(*b)),
{
    match (a, b) {
        (None, None) => true,
        (Some(x), Some(y)) => {
            if x.keyframes.len() != y.keyframes.len() {
                return false;
            }
            let mut i: usize = 0;
            while i < x.keyframes.len()
                invariant
                    i <= x.keyframes@.len(),
                    x.keyframes@.len() == y.keyframes@.len(),
                    opt_track(*a) == Some(x@),
                    opt_track(*b) == Some(y@),
                    forall|j: int| 0 <= j < i ==> #[trigger] alike_crop(x@[j], y@[j]),
                decreases x.keyframes@.len() - i,
            {
                let p = x.keyframes[i];
                let q = y.keyframes[i];
                if p.frame != q.frame || !p.value.same(&q.value) || p.interpolation_out != q.interpolation_out {
                    assert(!alike_crop(x@[i as int], y@[i as int]));
                    return false;
                }
                i += 1;
            }
            true
        },
        _ => false,
    }
}

fn same_opt_stabilization(
    a: &Option<StabilizationTrack>,
    b: &Option<StabilizationTrack>,
) -> (r: bool)
    ensures
        r == alike_stabilizations(opt_stabilization_track(*a), opt_stabilization_track(*b)),
{
    match (a, b) {
        (None, None) => true,
        (Some(x), Some(y)) => x.source_identity == y.source_identity && x.strength.equals(
            y.strength,
        ) && x.crop_margin.equals(y.crop_margin) && x.encoded.same(&y.encoded),
        _ => false,
    }
}

impl Clip {
    /// Whether two clips are the same.
    pub fn same(&self, other: &Clip) -> (r: bool)
        ensures
            r == alike_clip(self@, other@),
    {
        self.id == other.id
            && self.media_ref == other.media_ref
            && self.media_type == other.media_type
            && self.source_clip_type == other.source_clip_type
            && self.start_frame == other.start_frame
            && self.duration_frames == other.duration_frames
            && self.trim_start_frame == other.trim_start_frame
            && self.trim_end_frame == other.trim_end_frame
            && self.speed.equals(other.speed)
            && self.volume.equals(other.volume)
            && self.opacity.equals(other.opacity)
            && self.fade_in_frames == other.fade_in_frames
            && self.fade_out_frames == other.fade_out_frames
            && self.fade_in_interpolation == other.fade_in_interpolation
            && self.fade_out_interpolation == other.fade_out_interpolation
            && self.transform.same(&other.transform)
            && self.crop.same(&other.crop)
            && same_opt(&self.link_group_id, &other.link_group_id)
            && same_opt(&self.caption_group_id, &other.caption_group_id)
            && same_opt(&self.text_content, &other.text_content)
            && same_opt_setting(&self.text_style, &other.text_style)
            && same_scalar_track(&self.opacity_track, &other.opacity_track)
            && same_pair_track(&self.position_track, &other.position_track)
            && same_pair_track(&self.scale_track, &other.scale_track)
            && same_scalar_track(&self.rotation_track, &other.rotation_track)
            && same_crop_track(&self.crop_track, &other.crop_track)
            && same_scalar_track(&self.volume_track, &other.volume_track)
            && same_opt_setting(&self.color_grade, &other.color_grade)
            && same_opt_setting(&self.color_match_input, &other.color_match_input)
            && same_opt_setting(&self.lut, &other.lut)
            && same_opt_setting(&self.chroma_key, &other.chroma_key)
            && same_masks(&self.masks, &other.masks)
            && same_settings(&self.effects, &other.effects)
            && same_opt_transition(&self.transition_out, &other.transition_out)
            && same_opt(&self.nested_sequence_id, &other.nested_sequence_id)
            && self.reversed == other.reversed
            && same_opt_setting(&self.loudness_normalization, &other.loudness_normalization)
            && same_opt_setting(&self.audio_denoise, &other.audio_denoise)
            && same_opt_stabilization(&self.stabilization, &other.stabilization)
            && same_opt_caption_translation_input(&self.caption_translation_input, &other.caption_translation_input)
    }
}

/// Whether two lists are the same, one by one.
pub fn same_clips(a: &Vec<Clip>, b: &Vec<Clip>) -> (r: bool)
    ensures
        r == alike_clips(clip_views(a@), clip_views(b@)),
{
    if a.len() != b.len() {
        return false;
    }
    let mut i: usize = 0;
    while i < a.len()
        invariant
            i <= a@.len(),
            a@.len() == b@.len(),
            forall|j: int|
                0 <= j < i ==> #[trigger] alike_clip(clip_views(a@)[j], clip_views(b@)[j]),
        decreases a@.len() - i,
    {
        if !a[i].same(&b[i]) {
            assert(!alike_clip(clip_views(a@)[i as int], clip_views(b@)[i as int]));
            return false;
        }
        i += 1;
    }
    true
}

impl Track {
    /// Whether two tracks are the same.
    pub fn same(&self, other: &Track) -> (r: bool)
        ensures
            r == alike_track(self@, other@),
    {
        self.id == other.id && self.kind == other.kind && self.muted == other.muted && self.hidden
            == other.hidden && self.sync_locked == other.sync_locked && same_clips(
            &self.clips,
            &other.clips,
        )
    }
}

/// Whether two lists are the same, one by one.
pub fn same_tracks(a: &Vec<Track>, b: &Vec<Track>) -> (r: bool)
    ensures
        r == alike_tracks(track_views(a@), track_views(b@)),
{
    if a.len() != b.len() {
        return false;
    }
    let mut i: usize = 0;
    while i < a.len()
        invariant
            i <= a@.len(),
            a@.len() == b@.len(),
            forall|j: int|
                0 <= j < i ==> #[trigger] alike_track(track_views(a@)[j], track_views(b@)[j]),
        decreases a@.len() - i,
    {
        if !a[i].same(&b[i]) {
            assert(!alike_track(track_views(a@)[i as int], track_views(b@)[i as int]));
            return false;
        }
        i += 1;
    }
    true
}

impl NestedSequence {
    /// Whether two nested sequences are the same.
    pub fn same(&self, other: &NestedSequence) -> (r: bool)
        ensures
            r == alike_sequence(self@, other@),
        decreases self,
    {
        self.id == other.id && self.name == other.name && self.timeline.same(&other.timeline)
    }
}

impl Timeline {
    /// Whether two timelines are the same, those nested in them too.
    pub fn same(&self, other: &Timeline) -> (r: bool)
        ensures
            r == alike(self@, other@),
        decreases self,
    {
        if self.nested_sequences.len() != other.nested_sequences.len() {
            return false;
        }
        let mut i: usize = 0;
        while i < self.nested_sequences.len()
            invariant
                i <= self.nested_sequences@.len(),
                self.nested_sequences@.len() == other.nested_sequences@.len(),
                forall|j: int|
                    0 <= j < i ==> alike_sequence(
                        #[trigger] self@.nested_sequences[j],
                        other@.nested_sequences[j],
                    ),
            decreases self.nested_sequences@.len() - i,
        {
            assert(self@.nested_sequences[i as int] == self.nested_sequences@[i as int]@);
            assert(other@.nested_sequences[i as int] == other.nested_sequences@[i as int]@);
            if !self.nested_sequences[i].same(&other.nested_sequences[i]) {
                assert(!alike_sequence(
                    self@.nested_sequences[i as int],
                    other@.nested_sequences[i as int],
                ));
                return false;
            }
            i += 1;
        }
        self.fps == other.fps && self.width == other.width && self.height == other.height
            && self.settings_configured == other.settings_configured && same_tracks(
            &self.tracks,
            &other.tracks,
        ) && same_script_assembly_plans(&self.script_assembly_plans, &other.script_assembly_plans)
            && same_voice_model_records(&self.voice_models, &other.voice_models)
    }
}

impl MediaManifestEntry {
    /// Whether two assets are the same.
    pub fn same(&self, other: &MediaManifestEntry) -> (r: bool)
        ensures
            r == alike_asset(self@, other@),
    {
        self.id == other.id
            && self.name == other.name
            && self.kind == other.kind
            && self.source == other.source
            && self.duration.equals(other.duration)
            && same_opt_setting(&self.generation_input, &other.generation_input)
            && self.source_width == other.source_width
            && self.source_height == other.source_height
            && same_opt_number(self.source_fps, other.source_fps)
            && self.has_audio == other.has_audio
            && same_opt(&self.color, &other.color)
            && same_opt(&self.proxy, &other.proxy)
            && same_opt(&self.folder_id, &other.folder_id)
            && self.favorite == other.favorite
            && same_opt(&self.global_favorite_id, &other.global_favorite_id)
            && same_opt(&self.cached_remote_url, &other.cached_remote_url)
            && same_opt_number(
            self.cached_remote_url_expires_at,
            other.cached_remote_url_expires_at,
        )
    }
}

/// Whether two lists are the same, one by one.
pub fn same_media_entries(a: &Vec<MediaManifestEntry>, b: &Vec<MediaManifestEntry>) -> (r: bool)
    ensures
        r == alike_assets(media_manifest_entry_views(a@), media_manifest_entry_views(b@)),
{
    if a.len() != b.len() {
        return false;
    }
    let mut i: usize = 0;
    while i < a.len()
        invariant
            i <= a@.len(),
            a@.len() == b@.len(),
            forall|j: int|
                0 <= j < i ==> #[trigger] alike_asset(media_manifest_entry_views(a@)[j], media_manifest_entry_views(b@)[j]),
        decreases a@.len() - i,
    {
        if !a[i].same(&b[i]) {
            assert(!alike_asset(media_manifest_entry_views(a@)[i as int], media_manifest_entry_views(b@)[i as int]));
            return false;
        }
        i += 1;
    }
    true
}

impl MediaManifest {
    /// Whether two media libraries are the same.
    pub fn same(&self, other: &MediaManifest) -> (r: bool)
        ensures
            r == alike_library(self@, other@),
    {
        same_media_entries(&self.entries, &other.entries)
            && same_media_folders(&self.folders, &other.folders)
    }
}

} // verus!
