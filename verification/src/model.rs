//! The document model: timeline, tracks, clips and the media manifest.
//!
//! Every type has a mathematical view (`@`) in which strings are sequences of
//! characters and vectors are sequences. A real number is held by its IEEE 754
//! binary64 encoding. A setting that the editing rules carry but never read (a text
//! style, a colour grade, an effect) is held as its numbers and, in an encoded form,
//! whatever else it says.

use crate::text::copy_opt;
use crate::text::opt_text;
use crate::text::same_opt;
use crate::text::same_text;
use crate::text::texts;
use vstd::prelude::*;

verus! {

/// A real number, held by its IEEE 754 binary64 encoding.
#[derive(Clone, Copy, PartialEq, Eq, Structural, Debug)]
pub struct Real {
    pub bits: u64,
}

/// What a clip or a media asset is made of.
#[derive(Clone, Copy, PartialEq, Eq, Structural, Debug)]
pub enum ClipType {
    Video,
    Audio,
    Image,
    Text,
    Lottie,
}

/// Whether a clip may stand on a track: audio only with audio, the visual kinds
/// with each other.
pub open spec fn compatible(media: ClipType, track: ClipType) -> bool {
    (media is Audio) == (track is Audio)
}

/// The name of a clip type.
pub open spec fn kind_name(kind: ClipType) -> Seq<char> {
    match kind {
        ClipType::Video => "Video"@,
        ClipType::Audio => "Audio"@,
        ClipType::Image => "Image"@,
        ClipType::Text => "Text"@,
        ClipType::Lottie => "Lottie"@,
    }
}

impl ClipType {
    /// Whether a clip of this type may stand on a track of type `track`.
    pub fn is_compatible(self, track: ClipType) -> (r: bool)
        ensures
            r == compatible(self, track),
    {
        (self == ClipType::Audio) == (track == ClipType::Audio)
    }

    /// The name of the type.
    pub fn name(self) -> (r: &'static str)
        ensures
            r@ == kind_name(self),
    {
        match self {
            ClipType::Video => "Video",
            ClipType::Audio => "Audio",
            ClipType::Image => "Image",
            ClipType::Text => "Text",
            ClipType::Lottie => "Lottie",
        }
    }
}

/// How a value runs from one keyframe to the next. `Other` numbers a curve that
/// the editing rules only carry.
#[derive(Clone, Copy, PartialEq, Eq, Structural, Debug)]
pub enum Interpolation {
    Linear,
    Smooth,
    Other(u8),
}

/// The look of a transition. `Other` numbers a look that the editing rules only
/// carry.
#[derive(Clone, Copy, PartialEq, Eq, Structural, Debug)]
pub enum TransitionKind {
    CrossDissolve,
    Other(u8),
}

/// Placement of a clip on the canvas, in canvas units.
#[derive(Clone, Copy, PartialEq, Eq, Structural, Debug)]
pub struct Transform {
    pub center_x: Real,
    pub center_y: Real,
    pub width: Real,
    pub height: Real,
    pub rotation: Real,
    pub flip_horizontal: bool,
    pub flip_vertical: bool,
}

/// Crop insets, each from 0 to 1.
#[derive(Clone, Copy, PartialEq, Eq, Structural, Debug)]
pub struct Crop {
    pub left: Real,
    pub top: Real,
    pub right: Real,
    pub bottom: Real,
}

/// A pair of animated numbers: a position or a size.
#[derive(Clone, Copy, PartialEq, Eq, Structural, Debug)]
pub struct AnimPair {
    pub a: Real,
    pub b: Real,
}

impl Real {
    /// The number 0.
    #[verifier::allow_in_spec]
    pub fn zero() -> Real
        returns
            (Real { bits: 0 }),
    {
        Real { bits: 0 }
    }

    /// The number 1.
    #[verifier::allow_in_spec]
    pub fn one() -> Real
        returns
            (Real { bits: 0x3FF0_0000_0000_0000 }),
    {
        Real { bits: 0x3FF0_0000_0000_0000 }
    }

    /// The number 1/2.
    #[verifier::allow_in_spec]
    pub fn half() -> Real
        returns
            (Real { bits: 0x3FE0_0000_0000_0000 }),
    {
        Real { bits: 0x3FE0_0000_0000_0000 }
    }
}

/// The transform that fills the canvas: centred, full size, upright, not flipped.
pub open spec fn full_canvas() -> Transform {
    Transform {
        center_x: Real { bits: 0x3FE0_0000_0000_0000 },
        center_y: Real { bits: 0x3FE0_0000_0000_0000 },
        width: Real { bits: 0x3FF0_0000_0000_0000 },
        height: Real { bits: 0x3FF0_0000_0000_0000 },
        rotation: Real { bits: 0 },
        flip_horizontal: false,
        flip_vertical: false,
    }
}

impl Transform {
    /// The transform that fills the canvas.
    pub fn identity() -> (r: Transform)
        ensures
            r == full_canvas(),
    {
        Transform {
            center_x: Real::half(),
            center_y: Real::half(),
            width: Real::one(),
            height: Real::one(),
            rotation: Real::zero(),
            flip_horizontal: false,
            flip_vertical: false,
        }
    }
}

/// The crop that cuts nothing off.
pub open spec fn no_crop() -> Crop {
    Crop {
        left: Real { bits: 0 },
        top: Real { bits: 0 },
        right: Real { bits: 0 },
        bottom: Real { bits: 0 },
    }
}

impl Crop {
    /// The crop that cuts nothing off.
    pub fn none() -> (r: Crop)
        ensures
            r == no_crop(),
    {
        Crop { left: Real::zero(), top: Real::zero(), right: Real::zero(), bottom: Real::zero() }
    }
}

/// A value at a frame, counted from the start of its clip.
#[derive(Debug)]
pub struct Keyframe<V> {
    pub frame: i32,
    pub value: V,
    pub interpolation_out: Interpolation,
}

impl<V: Copy> Clone for Keyframe<V> {
    fn clone(&self) -> (r: Self)
        ensures
            r == *self,
    {
        *self
    }
}

impl<V: Copy> Copy for Keyframe<V> {

}

/// The keyframes of one animated property.
#[derive(Debug)]
pub struct KeyframeTrack<V> {
    pub keyframes: Vec<Keyframe<V>>,
}

impl<V> View for KeyframeTrack<V> {
    type V = Seq<Keyframe<V>>;

    open spec fn view(&self) -> Seq<Keyframe<V>> {
        self.keyframes@
    }
}

/// The view of an optional keyframe track.
pub open spec fn opt_track<V>(o: Option<KeyframeTrack<V>>) -> Option<Seq<Keyframe<V>>> {
    match o {
        Some(t) => Some(t@),
        None => None,
    }
}

impl<V: Copy> Clone for KeyframeTrack<V> {
    fn clone(&self) -> (r: Self)
        ensures
            r@ == self@,
    {
        let mut keyframes: Vec<Keyframe<V>> = Vec::new();
        let mut i: usize = 0;
        while i < self.keyframes.len()
            invariant
                i <= self.keyframes@.len(),
                keyframes@ == self.keyframes@.take(i as int),
            decreases self.keyframes@.len() - i,
        {
            keyframes.push(self.keyframes[i]);
            assert(keyframes@ =~= self.keyframes@.take(i as int + 1));
            i += 1;
        }
        assert(keyframes@ =~= self.keyframes@);
        KeyframeTrack { keyframes }
    }
}

/// A copy of an optional keyframe track.
pub fn copy_track<V: Copy>(o: &Option<KeyframeTrack<V>>) -> (r: Option<KeyframeTrack<V>>)
    ensures
        opt_track(r) == opt_track(*o),
{
    match o {
        None => None,
        Some(t) => Some(t.clone()),
    }
}

/// Whether two lists of strings have the same contents.
pub fn same_texts(a: &Vec<String>, b: &Vec<String>) -> (r: bool)
    ensures
        r == (texts(a@) == texts(b@)),
{
    if a.len() != b.len() {
        assert(texts(a@).len() != texts(b@).len());
        return false;
    }
    let mut i: usize = 0;
    while i < a.len()
        invariant
            i <= a@.len(),
            a@.len() == b@.len(),
            forall|j: int| 0 <= j < i ==> (#[trigger] a@[j])@ == b@[j]@,
        decreases a@.len() - i,
    {
        if !same_text(a[i].as_str(), b[i].as_str()) {
            assert(texts(a@)[i as int] != texts(b@)[i as int]);
            return false;
        }
        i += 1;
    }
    assert(texts(a@) =~= texts(b@));
    true
}

/// A transition over the cut between two neighbouring clips.
#[derive(Debug)]
pub struct Transition {
    pub from_clip_id: String,
    pub to_clip_id: String,
    pub kind: TransitionKind,
    pub duration_frames: i32,
}

/// The view of a [`Transition`].
#[verifier::ext_equal]
pub struct TransitionView {
    pub from_clip_id: Seq<char>,
    pub to_clip_id: Seq<char>,
    pub kind: TransitionKind,
    pub duration_frames: i32,
}

impl View for Transition {
    type V = TransitionView;

    open spec fn view(&self) -> TransitionView {
        TransitionView {
            from_clip_id: self.from_clip_id@,
            to_clip_id: self.to_clip_id@,
            kind: self.kind,
            duration_frames: self.duration_frames,
        }
    }
}

impl Transition {
    /// A copy of the value.
    pub fn copy(&self) -> (r: Transition)
        ensures
            r@ == self@,
    {
        Transition {
            from_clip_id: self.from_clip_id.clone(),
            to_clip_id: self.to_clip_id.clone(),
            kind: self.kind,
            duration_frames: self.duration_frames,
        }
    }

    /// Whether two values have the same contents.
    pub fn same(&self, other: &Transition) -> (r: bool)
        ensures
            r == (self@ == other@),
    {
        self.from_clip_id == other.from_clip_id
            && self.to_clip_id == other.to_clip_id
            && self.kind == other.kind
            && self.duration_frames == other.duration_frames
    }
}

/// The view of an optional [`Transition`].
pub open spec fn opt_transition(o: Option<Transition>) -> Option<TransitionView> {
    match o {
        Some(x) => Some(x@),
        None => None,
    }
}

/// A copy of an optional [`Transition`].
pub fn copy_opt_transition(o: &Option<Transition>) -> (r: Option<Transition>)
    ensures
        opt_transition(r) == opt_transition(*o),
{
    match o {
        Some(x) => Some(x.copy()),
        None => None,
    }
}

/// Whether two optional values have the same contents.
pub fn same_opt_transition(a: &Option<Transition>, b: &Option<Transition>) -> (r: bool)
    ensures
        r == (opt_transition(*a) == opt_transition(*b)),
{
    match (a, b) {
        (Some(x), Some(y)) => x.same(y),
        (None, None) => true,
        _ => false,
    }
}

/// A setting that the editing rules carry and never read.
#[derive(Debug)]
pub struct Setting {
    /// Every real number in it, in a fixed order.
    pub numbers: Vec<Real>,
    /// Everything else that it says, in an encoded form.
    pub rest: String,
}

/// The view of a [`Setting`].
#[verifier::ext_equal]
pub struct SettingView {
    pub numbers: Seq<Real>,
    pub rest: Seq<char>,
}

impl View for Setting {
    type V = SettingView;

    open spec fn view(&self) -> SettingView {
        SettingView { numbers: self.numbers@, rest: self.rest@ }
    }
}

impl Clone for Setting {
    fn clone(&self) -> (r: Self)
        ensures
            r@ == self@,
    {
        let mut numbers: Vec<Real> = Vec::new();
        let mut i: usize = 0;
        while i < self.numbers.len()
            invariant
                i <= self.numbers@.len(),
                numbers@ == self.numbers@.take(i as int),
            decreases self.numbers@.len() - i,
        {
            numbers.push(self.numbers[i]);
            assert(numbers@ =~= self.numbers@.take(i as int + 1));
            i += 1;
        }
        assert(numbers@ =~= self.numbers@);
        Setting { numbers, rest: self.rest.clone() }
    }
}

/// The view of an optional [`Setting`].
pub open spec fn opt_setting(o: Option<Setting>) -> Option<SettingView> {
    match o {
        Some(x) => Some(x@),
        None => None,
    }
}

/// A copy of an optional [`Setting`].
pub fn copy_opt_setting(o: &Option<Setting>) -> (r: Option<Setting>)
    ensures
        opt_setting(r) == opt_setting(*o),
{
    match o {
        Some(x) => Some(x.clone()),
        None => None,
    }
}

/// The views of a list of [`Setting`].
pub open spec fn setting_views(v: Seq<Setting>) -> Seq<SettingView> {
    v.map_values(|x: Setting| x@)
}

/// A copy of a list.
pub fn copy_settings(v: &Vec<Setting>) -> (r: Vec<Setting>)
    ensures
        setting_views(r@) == setting_views(v@),
        r@.len() == v@.len(),
{
    let mut out: Vec<Setting> = Vec::new();
    let mut i: usize = 0;
    while i < v.len()
        invariant
            i <= v@.len(),
            out@.len() == i,
            forall|j: int| 0 <= j < i ==> (#[trigger] out@[j])@ == v@[j]@,
        decreases v@.len() - i,
    {
        out.push(v[i].clone());
        i += 1;
    }
    assert(setting_views(out@) =~= setting_views(v@));
    out
}

/// A mask on a clip.
#[derive(Debug)]
pub struct Mask {
    /// The number of corners where the mask is a polygon.
    pub polygon_points: Option<usize>,
    pub encoded: Setting,
}

/// The view of a [`Mask`].
#[verifier::ext_equal]
pub struct MaskView {
    pub polygon_points: Option<usize>,
    pub encoded: SettingView,
}

impl View for Mask {
    type V = MaskView;

    open spec fn view(&self) -> MaskView {
        MaskView {
            polygon_points: self.polygon_points,
            encoded: self.encoded@,
        }
    }
}

impl Mask {
    /// A copy of the value.
    pub fn copy(&self) -> (r: Mask)
        ensures
            r@ == self@,
    {
        Mask {
            polygon_points: self.polygon_points,
            encoded: self.encoded.clone(),
        }
    }
}

/// The views of a list of [`Mask`].
pub open spec fn mask_views(v: Seq<Mask>) -> Seq<MaskView> {
    v.map_values(|x: Mask| x@)
}

/// A copy of a list.
pub fn copy_masks(v: &Vec<Mask>) -> (r: Vec<Mask>)
    ensures
        mask_views(r@) == mask_views(v@),
        r@.len() == v@.len(),
{
    let mut out: Vec<Mask> = Vec::new();
    let mut i: usize = 0;
    while i < v.len()
        invariant
            i <= v@.len(),
            out@.len() == i,
            forall|j: int| 0 <= j < i ==> (#[trigger] out@[j])@ == v@[j]@,
        decreases v@.len() - i,
    {
        out.push(v[i].copy());
        i += 1;
    }
    assert(mask_views(out@) =~= mask_views(v@));
    out
}

/// A stabilization analysis bound to the media it was made from.
#[derive(Debug)]
pub struct StabilizationTrack {
    pub source_identity: String,
    pub strength: Real,
    pub crop_margin: Real,
    pub encoded: Setting,
}

/// The view of a [`StabilizationTrack`].
#[verifier::ext_equal]
pub struct StabilizationTrackView {
    pub source_identity: Seq<char>,
    pub strength: Real,
    pub crop_margin: Real,
    pub encoded: SettingView,
}

impl View for StabilizationTrack {
    type V = StabilizationTrackView;

    open spec fn view(&self) -> StabilizationTrackView {
        StabilizationTrackView {
            source_identity: self.source_identity@,
            strength: self.strength,
            crop_margin: self.crop_margin,
            encoded: self.encoded@,
        }
    }
}

impl StabilizationTrack {
    /// A copy of the value.
    pub fn copy(&self) -> (r: StabilizationTrack)
        ensures
            r@ == self@,
    {
        StabilizationTrack {
            source_identity: self.source_identity.clone(),
            strength: self.strength,
            crop_margin: self.crop_margin,
            encoded: self.encoded.clone(),
        }
    }
}

/// The view of an optional [`StabilizationTrack`].
pub open spec fn opt_stabilization_track(o: Option<StabilizationTrack>) -> Option<StabilizationTrackView> {
    match o {
        Some(x) => Some(x@),
        None => None,
    }
}

/// A copy of an optional [`StabilizationTrack`].
pub fn copy_opt_stabilization_track(o: &Option<StabilizationTrack>) -> (r: Option<StabilizationTrack>)
    ensures
        opt_stabilization_track(r) == opt_stabilization_track(*o),
{
    match o {
        Some(x) => Some(x.copy()),
        None => None,
    }
}

/// Where a translated caption came from.
#[derive(Debug)]
pub struct CaptionTranslationInput {
    pub source_text: String,
    pub encoded: String,
}

/// The view of a [`CaptionTranslationInput`].
#[verifier::ext_equal]
pub struct CaptionTranslationInputView {
    pub source_text: Seq<char>,
    pub encoded: Seq<char>,
}

impl View for CaptionTranslationInput {
    type V = CaptionTranslationInputView;

    open spec fn view(&self) -> CaptionTranslationInputView {
        CaptionTranslationInputView {
            source_text: self.source_text@,
            encoded: self.encoded@,
        }
    }
}

impl CaptionTranslationInput {
    /// A copy of the value.
    pub fn copy(&self) -> (r: CaptionTranslationInput)
        ensures
            r@ == self@,
    {
        CaptionTranslationInput {
            source_text: self.source_text.clone(),
            encoded: self.encoded.clone(),
        }
    }

    /// Whether two values have the same contents.
    pub fn same(&self, other: &CaptionTranslationInput) -> (r: bool)
        ensures
            r == (self@ == other@),
    {
        self.source_text == other.source_text
            && self.encoded == other.encoded
    }
}

/// The view of an optional [`CaptionTranslationInput`].
pub open spec fn opt_caption_translation_input(o: Option<CaptionTranslationInput>) -> Option<CaptionTranslationInputView> {
    match o {
        Some(x) => Some(x@),
        None => None,
    }
}

/// A copy of an optional [`CaptionTranslationInput`].
pub fn copy_opt_caption_translation_input(o: &Option<CaptionTranslationInput>) -> (r: Option<CaptionTranslationInput>)
    ensures
        opt_caption_translation_input(r) == opt_caption_translation_input(*o),
{
    match o {
        Some(x) => Some(x.copy()),
        None => None,
    }
}

/// Whether two optional values have the same contents.
pub fn same_opt_caption_translation_input(a: &Option<CaptionTranslationInput>, b: &Option<CaptionTranslationInput>) -> (r: bool)
    ensures
        r == (opt_caption_translation_input(*a) == opt_caption_translation_input(*b)),
{
    match (a, b) {
        (Some(x), Some(y)) => x.same(y),
        (None, None) => true,
        _ => false,
    }
}

/// One clip on a track.
#[derive(Debug)]
pub struct Clip {
    pub id: String,
    pub media_ref: String,
    pub media_type: ClipType,
    pub source_clip_type: ClipType,
    pub start_frame: i32,
    pub duration_frames: i32,
    pub trim_start_frame: i32,
    pub trim_end_frame: i32,
    pub speed: Real,
    pub volume: Real,
    pub opacity: Real,
    pub fade_in_frames: i32,
    pub fade_out_frames: i32,
    pub fade_in_interpolation: Interpolation,
    pub fade_out_interpolation: Interpolation,
    pub transform: Transform,
    pub crop: Crop,
    pub link_group_id: Option<String>,
    pub caption_group_id: Option<String>,
    pub text_content: Option<String>,
    pub text_style: Option<Setting>,
    pub opacity_track: Option<KeyframeTrack<Real>>,
    pub position_track: Option<KeyframeTrack<AnimPair>>,
    pub scale_track: Option<KeyframeTrack<AnimPair>>,
    pub rotation_track: Option<KeyframeTrack<Real>>,
    pub crop_track: Option<KeyframeTrack<Crop>>,
    pub volume_track: Option<KeyframeTrack<Real>>,
    pub color_grade: Option<Setting>,
    pub color_match_input: Option<Setting>,
    pub lut: Option<Setting>,
    pub chroma_key: Option<Setting>,
    pub masks: Vec<Mask>,
    pub effects: Vec<Setting>,
    pub transition_out: Option<Transition>,
    pub nested_sequence_id: Option<String>,
    pub reversed: bool,
    pub loudness_normalization: Option<Setting>,
    pub audio_denoise: Option<Setting>,
    pub stabilization: Option<StabilizationTrack>,
    pub caption_translation_input: Option<CaptionTranslationInput>,
}

/// The view of a [`Clip`].
#[verifier::ext_equal]
pub struct ClipView {
    pub id: Seq<char>,
    pub media_ref: Seq<char>,
    pub media_type: ClipType,
    pub source_clip_type: ClipType,
    pub start_frame: i32,
    pub duration_frames: i32,
    pub trim_start_frame: i32,
    pub trim_end_frame: i32,
    pub speed: Real,
    pub volume: Real,
    pub opacity: Real,
    pub fade_in_frames: i32,
    pub fade_out_frames: i32,
    pub fade_in_interpolation: Interpolation,
    pub fade_out_interpolation: Interpolation,
    pub transform: Transform,
    pub crop: Crop,
    pub link_group_id: Option<Seq<char>>,
    pub caption_group_id: Option<Seq<char>>,
    pub text_content: Option<Seq<char>>,
    pub text_style: Option<SettingView>,
    pub opacity_track: Option<Seq<Keyframe<Real>>>,
    pub position_track: Option<Seq<Keyframe<AnimPair>>>,
    pub scale_track: Option<Seq<Keyframe<AnimPair>>>,
    pub rotation_track: Option<Seq<Keyframe<Real>>>,
    pub crop_track: Option<Seq<Keyframe<Crop>>>,
    pub volume_track: Option<Seq<Keyframe<Real>>>,
    pub color_grade: Option<SettingView>,
    pub color_match_input: Option<SettingView>,
    pub lut: Option<SettingView>,
    pub chroma_key: Option<SettingView>,
    pub masks: Seq<MaskView>,
    pub effects: Seq<SettingView>,
    pub transition_out: Option<TransitionView>,
    pub nested_sequence_id: Option<Seq<char>>,
    pub reversed: bool,
    pub loudness_normalization: Option<SettingView>,
    pub audio_denoise: Option<SettingView>,
    pub stabilization: Option<StabilizationTrackView>,
    pub caption_translation_input: Option<CaptionTranslationInputView>,
}

impl View for Clip {
    type V = ClipView;

    open spec fn view(&self) -> ClipView {
        ClipView {
            id: self.id@,
            media_ref: self.media_ref@,
            media_type: self.media_type,
            source_clip_type: self.source_clip_type,
            start_frame: self.start_frame,
            duration_frames: self.duration_frames,
            trim_start_frame: self.trim_start_frame,
            trim_end_frame: self.trim_end_frame,
            speed: self.speed,
            volume: self.volume,
            opacity: self.opacity,
            fade_in_frames: self.fade_in_frames,
            fade_out_frames: self.fade_out_frames,
            fade_in_interpolation: self.fade_in_interpolation,
            fade_out_interpolation: self.fade_out_interpolation,
            transform: self.transform,
            crop: self.crop,
            link_group_id: opt_text(self.link_group_id),
            caption_group_id: opt_text(self.caption_group_id),
            text_content: opt_text(self.text_content),
            text_style: opt_setting(self.text_style),
            opacity_track: opt_track(self.opacity_track),
            position_track: opt_track(self.position_track),
            scale_track: opt_track(self.scale_track),
            rotation_track: opt_track(self.rotation_track),
            crop_track: opt_track(self.crop_track),
            volume_track: opt_track(self.volume_track),
            color_grade: opt_setting(self.color_grade),
            color_match_input: opt_setting(self.color_match_input),
            lut: opt_setting(self.lut),
            chroma_key: opt_setting(self.chroma_key),
            masks: mask_views(self.masks@),
            effects: setting_views(self.effects@),
            transition_out: opt_transition(self.transition_out),
            nested_sequence_id: opt_text(self.nested_sequence_id),
            reversed: self.reversed,
            loudness_normalization: opt_setting(self.loudness_normalization),
            audio_denoise: opt_setting(self.audio_denoise),
            stabilization: opt_stabilization_track(self.stabilization),
            caption_translation_input: opt_caption_translation_input(self.caption_translation_input),
        }
    }
}

impl Clip {
    /// A copy of the value.
    pub fn copy(&self) -> (r: Clip)
        ensures
            r@ == self@,
    {
        Clip {
            id: self.id.clone(),
            media_ref: self.media_ref.clone(),
            media_type: self.media_type,
            source_clip_type: self.source_clip_type,
            start_frame: self.start_frame,
            duration_frames: self.duration_frames,
            trim_start_frame: self.trim_start_frame,
            trim_end_frame: self.trim_end_frame,
            speed: self.speed,
            volume: self.volume,
            opacity: self.opacity,
            fade_in_frames: self.fade_in_frames,
            fade_out_frames: self.fade_out_frames,
            fade_in_interpolation: self.fade_in_interpolation,
            fade_out_interpolation: self.fade_out_interpolation,
            transform: self.transform,
            crop: self.crop,
            link_group_id: copy_opt(&self.link_group_id),
            caption_group_id: copy_opt(&self.caption_group_id),
            text_content: copy_opt(&self.text_content),
            text_style: copy_opt_setting(&self.text_style),
            opacity_track: copy_track(&self.opacity_track),
            position_track: copy_track(&self.position_track),
            scale_track: copy_track(&self.scale_track),
            rotation_track: copy_track(&self.rotation_track),
            crop_track: copy_track(&self.crop_track),
            volume_track: copy_track(&self.volume_track),
            color_grade: copy_opt_setting(&self.color_grade),
            color_match_input: copy_opt_setting(&self.color_match_input),
            lut: copy_opt_setting(&self.lut),
            chroma_key: copy_opt_setting(&self.chroma_key),
            masks: copy_masks(&self.masks),
            effects: copy_settings(&self.effects),
            transition_out: copy_opt_transition(&self.transition_out),
            nested_sequence_id: copy_opt(&self.nested_sequence_id),
            reversed: self.reversed,
            loudness_normalization: copy_opt_setting(&self.loudness_normalization),
            audio_denoise: copy_opt_setting(&self.audio_denoise),
            stabilization: copy_opt_stabilization_track(&self.stabilization),
            caption_translation_input: copy_opt_caption_translation_input(&self.caption_translation_input),
        }
    }
}

/// The views of a list of [`Clip`].
pub open spec fn clip_views(v: Seq<Clip>) -> Seq<ClipView> {
    v.map_values(|x: Clip| x@)
}

/// A copy of a list.
pub fn copy_clips(v: &Vec<Clip>) -> (r: Vec<Clip>)
    ensures
        clip_views(r@) == clip_views(v@),
        r@.len() == v@.len(),
{
    let mut out: Vec<Clip> = Vec::new();
    let mut i: usize = 0;
    while i < v.len()
        invariant
            i <= v@.len(),
            out@.len() == i,
            forall|j: int| 0 <= j < i ==> (#[trigger] out@[j])@ == v@[j]@,
        decreases v@.len() - i,
    {
        out.push(v[i].copy());
        i += 1;
    }
    assert(clip_views(out@) =~= clip_views(v@));
    out
}

/// One row of the timeline.
#[derive(Debug)]
pub struct Track {
    pub id: String,
    pub kind: ClipType,
    pub muted: bool,
    pub hidden: bool,
    pub sync_locked: bool,
    pub clips: Vec<Clip>,
}

/// The view of a [`Track`].
#[verifier::ext_equal]
pub struct TrackView {
    pub id: Seq<char>,
    pub kind: ClipType,
    pub muted: bool,
    pub hidden: bool,
    pub sync_locked: bool,
    pub clips: Seq<ClipView>,
}

impl View for Track {
    type V = TrackView;

    open spec fn view(&self) -> TrackView {
        TrackView {
            id: self.id@,
            kind: self.kind,
            muted: self.muted,
            hidden: self.hidden,
            sync_locked: self.sync_locked,
            clips: clip_views(self.clips@),
        }
    }
}

impl Track {
    /// A copy of the value.
    pub fn copy(&self) -> (r: Track)
        ensures
            r@ == self@,
    {
        Track {
            id: self.id.clone(),
            kind: self.kind,
            muted: self.muted,
            hidden: self.hidden,
            sync_locked: self.sync_locked,
            clips: copy_clips(&self.clips),
        }
    }
}

/// The views of a list of [`Track`].
pub open spec fn track_views(v: Seq<Track>) -> Seq<TrackView> {
    v.map_values(|x: Track| x@)
}

/// A copy of a list.
pub fn copy_tracks(v: &Vec<Track>) -> (r: Vec<Track>)
    ensures
        track_views(r@) == track_views(v@),
        r@.len() == v@.len(),
{
    let mut out: Vec<Track> = Vec::new();
    let mut i: usize = 0;
    while i < v.len()
        invariant
            i <= v@.len(),
            out@.len() == i,
            forall|j: int| 0 <= j < i ==> (#[trigger] out@[j])@ == v@[j]@,
        decreases v@.len() - i,
    {
        out.push(v[i].copy());
        i += 1;
    }
    assert(track_views(out@) =~= track_views(v@));
    out
}

/// One segment of a script assembly plan.
#[derive(Debug)]
pub struct ScriptSegment {
    pub script: String,
    pub media_ref: String,
    pub narration_media_ref: Option<String>,
    pub duration_frames: i32,
    pub transition: Option<TransitionKind>,
}

/// The view of a [`ScriptSegment`].
#[verifier::ext_equal]
pub struct ScriptSegmentView {
    pub script: Seq<char>,
    pub media_ref: Seq<char>,
    pub narration_media_ref: Option<Seq<char>>,
    pub duration_frames: i32,
    pub transition: Option<TransitionKind>,
}

impl View for ScriptSegment {
    type V = ScriptSegmentView;

    open spec fn view(&self) -> ScriptSegmentView {
        ScriptSegmentView {
            script: self.script@,
            media_ref: self.media_ref@,
            narration_media_ref: opt_text(self.narration_media_ref),
            duration_frames: self.duration_frames,
            transition: self.transition,
        }
    }
}

impl ScriptSegment {
    /// A copy of the value.
    pub fn copy(&self) -> (r: ScriptSegment)
        ensures
            r@ == self@,
    {
        ScriptSegment {
            script: self.script.clone(),
            media_ref: self.media_ref.clone(),
            narration_media_ref: copy_opt(&self.narration_media_ref),
            duration_frames: self.duration_frames,
            transition: self.transition,
        }
    }

    /// Whether two values have the same contents.
    pub fn same(&self, other: &ScriptSegment) -> (r: bool)
        ensures
            r == (self@ == other@),
    {
        self.script == other.script
            && self.media_ref == other.media_ref
            && same_opt(&self.narration_media_ref, &other.narration_media_ref)
            && self.duration_frames == other.duration_frames
            && self.transition == other.transition
    }
}

/// The views of a list of [`ScriptSegment`].
pub open spec fn script_segment_views(v: Seq<ScriptSegment>) -> Seq<ScriptSegmentView> {
    v.map_values(|x: ScriptSegment| x@)
}

/// A copy of a list.
pub fn copy_script_segments(v: &Vec<ScriptSegment>) -> (r: Vec<ScriptSegment>)
    ensures
        script_segment_views(r@) == script_segment_views(v@),
        r@.len() == v@.len(),
{
    let mut out: Vec<ScriptSegment> = Vec::new();
    let mut i: usize = 0;
    while i < v.len()
        invariant
            i <= v@.len(),
            out@.len() == i,
            forall|j: int| 0 <= j < i ==> (#[trigger] out@[j])@ == v@[j]@,
        decreases v@.len() - i,
    {
        out.push(v[i].copy());
        i += 1;
    }
    assert(script_segment_views(out@) =~= script_segment_views(v@));
    out
}

/// Whether two lists have the same contents.
pub fn same_script_segments(a: &Vec<ScriptSegment>, b: &Vec<ScriptSegment>) -> (r: bool)
    ensures
        r == (script_segment_views(a@) == script_segment_views(b@)),
{
    if a.len() != b.len() {
        assert(script_segment_views(a@).len() != script_segment_views(b@).len());
        return false;
    }
    let mut i: usize = 0;
    while i < a.len()
        invariant
            i <= a@.len(),
            a@.len() == b@.len(),
            forall|j: int| 0 <= j < i ==> (#[trigger] a@[j])@ == b@[j]@,
        decreases a@.len() - i,
    {
        if !a[i].same(&b[i]) {
            assert(script_segment_views(a@)[i as int] != script_segment_views(b@)[i as int]);
            return false;
        }
        i += 1;
    }
    assert(script_segment_views(a@) =~= script_segment_views(b@));
    true
}

/// A reviewable plan that turns a script into clips.
#[derive(Debug)]
pub struct ScriptAssemblyPlan {
    pub id: String,
    pub plan_hash: String,
    pub planner: String,
    pub planner_version: u32,
    pub start_frame: i32,
    pub segments: Vec<ScriptSegment>,
}

/// The view of a [`ScriptAssemblyPlan`].
#[verifier::ext_equal]
pub struct ScriptAssemblyPlanView {
    pub id: Seq<char>,
    pub plan_hash: Seq<char>,
    pub planner: Seq<char>,
    pub planner_version: u32,
    pub start_frame: i32,
    pub segments: Seq<ScriptSegmentView>,
}

impl View for ScriptAssemblyPlan {
    type V = ScriptAssemblyPlanView;

    open spec fn view(&self) -> ScriptAssemblyPlanView {
        ScriptAssemblyPlanView {
            id: self.id@,
            plan_hash: self.plan_hash@,
            planner: self.planner@,
            planner_version: self.planner_version,
            start_frame: self.start_frame,
            segments: script_segment_views(self.segments@),
        }
    }
}

impl ScriptAssemblyPlan {
    /// A copy of the value.
    pub fn copy(&self) -> (r: ScriptAssemblyPlan)
        ensures
            r@ == self@,
    {
        ScriptAssemblyPlan {
            id: self.id.clone(),
            plan_hash: self.plan_hash.clone(),
            planner: self.planner.clone(),
            planner_version: self.planner_version,
            start_frame: self.start_frame,
            segments: copy_script_segments(&self.segments),
        }
    }

    /// Whether two values have the same contents.
    pub fn same(&self, other: &ScriptAssemblyPlan) -> (r: bool)
        ensures
            r == (self@ == other@),
    {
        self.id == other.id
            && self.plan_hash == other.plan_hash
            && self.planner == other.planner
            && self.planner_version == other.planner_version
            && self.start_frame == other.start_frame
            && same_script_segments(&self.segments, &other.segments)
    }
}

/// The views of a list of [`ScriptAssemblyPlan`].
pub open spec fn script_assembly_plan_views(v: Seq<ScriptAssemblyPlan>) -> Seq<ScriptAssemblyPlanView> {
    v.map_values(|x: ScriptAssemblyPlan| x@)
}

/// A copy of a list.
pub fn copy_script_assembly_plans(v: &Vec<ScriptAssemblyPlan>) -> (r: Vec<ScriptAssemblyPlan>)
    ensures
        script_assembly_plan_views(r@) == script_assembly_plan_views(v@),
        r@.len() == v@.len(),
{
    let mut out: Vec<ScriptAssemblyPlan> = Vec::new();
    let mut i: usize = 0;
    while i < v.len()
        invariant
            i <= v@.len(),
            out@.len() == i,
            forall|j: int| 0 <= j < i ==> (#[trigger] out@[j])@ == v@[j]@,
        decreases v@.len() - i,
    {
        out.push(v[i].copy());
        i += 1;
    }
    assert(script_assembly_plan_views(out@) =~= script_assembly_plan_views(v@));
    out
}

/// Whether two lists have the same contents.
pub fn same_script_assembly_plans(a: &Vec<ScriptAssemblyPlan>, b: &Vec<ScriptAssemblyPlan>) -> (r: bool)
    ensures
        r == (script_assembly_plan_views(a@) == script_assembly_plan_views(b@)),
{
    if a.len() != b.len() {
        assert(script_assembly_plan_views(a@).len() != script_assembly_plan_views(b@).len());
        return false;
    }
    let mut i: usize = 0;
    while i < a.len()
        invariant
            i <= a@.len(),
            a@.len() == b@.len(),
            forall|j: int| 0 <= j < i ==> (#[trigger] a@[j])@ == b@[j]@,
        decreases a@.len() - i,
    {
        if !a[i].same(&b[i]) {
            assert(script_assembly_plan_views(a@)[i as int] != script_assembly_plan_views(b@)[i as int]);
            return false;
        }
        i += 1;
    }
    assert(script_assembly_plan_views(a@) =~= script_assembly_plan_views(b@));
    true
}

/// A cloned voice that its owner consented to.
#[derive(Debug)]
pub struct VoiceModelRecord {
    pub id: String,
    pub provider: String,
    pub provider_voice_id: String,
    pub model: String,
    pub consent_id: String,
    pub source_audio_asset_id: String,
    pub source_audio_sha256: String,
    pub request_hash: String,
    pub voice_name: String,
    pub revoked: bool,
}

/// The view of a [`VoiceModelRecord`].
#[verifier::ext_equal]
pub struct VoiceModelRecordView {
    pub id: Seq<char>,
    pub provider: Seq<char>,
    pub provider_voice_id: Seq<char>,
    pub model: Seq<char>,
    pub consent_id: Seq<char>,
    pub source_audio_asset_id: Seq<char>,
    pub source_audio_sha256: Seq<char>,
    pub request_hash: Seq<char>,
    pub voice_name: Seq<char>,
    pub revoked: bool,
}

impl View for VoiceModelRecord {
    type V = VoiceModelRecordView;

    open spec fn view(&self) -> VoiceModelRecordView {
        VoiceModelRecordView {
            id: self.id@,
            provider: self.provider@,
            provider_voice_id: self.provider_voice_id@,
            model: self.model@,
            consent_id: self.consent_id@,
            source_audio_asset_id: self.source_audio_asset_id@,
            source_audio_sha256: self.source_audio_sha256@,
            request_hash: self.request_hash@,
            voice_name: self.voice_name@,
            revoked: self.revoked,
        }
    }
}

impl VoiceModelRecord {
    /// A copy of the value.
    pub fn copy(&self) -> (r: VoiceModelRecord)
        ensures
            r@ == self@,
    {
        VoiceModelRecord {
            id: self.id.clone(),
            provider: self.provider.clone(),
            provider_voice_id: self.provider_voice_id.clone(),
            model: self.model.clone(),
            consent_id: self.consent_id.clone(),
            source_audio_asset_id: self.source_audio_asset_id.clone(),
            source_audio_sha256: self.source_audio_sha256.clone(),
            request_hash: self.request_hash.clone(),
            voice_name: self.voice_name.clone(),
            revoked: self.revoked,
        }
    }

    /// Whether two values have the same contents.
    pub fn same(&self, other: &VoiceModelRecord) -> (r: bool)
        ensures
            r == (self@ == other@),
    {
        self.id == other.id
            && self.provider == other.provider
            && self.provider_voice_id == other.provider_voice_id
            && self.model == other.model
            && self.consent_id == other.consent_id
            && self.source_audio_asset_id == other.source_audio_asset_id
            && self.source_audio_sha256 == other.source_audio_sha256
            && self.request_hash == other.request_hash
            && self.voice_name == other.voice_name
            && self.revoked == other.revoked
    }
}

/// The views of a list of [`VoiceModelRecord`].
pub open spec fn voice_model_record_views(v: Seq<VoiceModelRecord>) -> Seq<VoiceModelRecordView> {
    v.map_values(|x: VoiceModelRecord| x@)
}

/// A copy of a list.
pub fn copy_voice_model_records(v: &Vec<VoiceModelRecord>) -> (r: Vec<VoiceModelRecord>)
    ensures
        voice_model_record_views(r@) == voice_model_record_views(v@),
        r@.len() == v@.len(),
{
    let mut out: Vec<VoiceModelRecord> = Vec::new();
    let mut i: usize = 0;
    while i < v.len()
        invariant
            i <= v@.len(),
            out@.len() == i,
            forall|j: int| 0 <= j < i ==> (#[trigger] out@[j])@ == v@[j]@,
        decreases v@.len() - i,
    {
        out.push(v[i].copy());
        i += 1;
    }
    assert(voice_model_record_views(out@) =~= voice_model_record_views(v@));
    out
}

/// Whether two lists have the same contents.
pub fn same_voice_model_records(a: &Vec<VoiceModelRecord>, b: &Vec<VoiceModelRecord>) -> (r: bool)
    ensures
        r == (voice_model_record_views(a@) == voice_model_record_views(b@)),
{
    if a.len() != b.len() {
        assert(voice_model_record_views(a@).len() != voice_model_record_views(b@).len());
        return false;
    }
    let mut i: usize = 0;
    while i < a.len()
        invariant
            i <= a@.len(),
            a@.len() == b@.len(),
            forall|j: int| 0 <= j < i ==> (#[trigger] a@[j])@ == b@[j]@,
        decreases a@.len() - i,
    {
        if !a[i].same(&b[i]) {
            assert(voice_model_record_views(a@)[i as int] != voice_model_record_views(b@)[i as int]);
            return false;
        }
        i += 1;
    }
    assert(voice_model_record_views(a@) =~= voice_model_record_views(b@));
    true
}

/// The view of a [`Timeline`].
#[verifier::ext_equal]
pub struct TimelineView {
    pub fps: i32,
    pub width: i32,
    pub height: i32,
    pub settings_configured: bool,
    pub tracks: Seq<TrackView>,
    pub nested_sequences: Seq<NestedSequenceView>,
    pub script_assembly_plans: Seq<ScriptAssemblyPlanView>,
    pub voice_models: Seq<VoiceModelRecordView>,
}

/// The view of a [`NestedSequence`].
#[verifier::ext_equal]
pub struct NestedSequenceView {
    pub id: Seq<char>,
    pub name: Seq<char>,
    pub timeline: TimelineView,
}

/// A timeline: the root of a project, or the contents of a compound clip.
#[derive(Debug)]
pub struct Timeline {
    pub fps: i32,
    pub width: i32,
    pub height: i32,
    pub settings_configured: bool,
    pub tracks: Vec<Track>,
    pub nested_sequences: Vec<NestedSequence>,
    pub script_assembly_plans: Vec<ScriptAssemblyPlan>,
    pub voice_models: Vec<VoiceModelRecord>,
}

/// A named child timeline that compound clips refer to.
#[derive(Debug)]
pub struct NestedSequence {
    pub id: String,
    pub name: String,
    pub timeline: Timeline,
}

impl View for NestedSequence {
    type V = NestedSequenceView;

    open spec fn view(&self) -> NestedSequenceView {
        sequence_view(*self)
    }
}

impl View for Timeline {
    type V = TimelineView;

    open spec fn view(&self) -> TimelineView {
        timeline_view(*self)
    }
}

/// The view of a nested sequence.
pub open spec fn sequence_view(s: NestedSequence) -> NestedSequenceView
    decreases s,
{
    NestedSequenceView { id: s.id@, name: s.name@, timeline: timeline_view(s.timeline) }
}

/// The view of a timeline.
pub open spec fn timeline_view(t: Timeline) -> TimelineView
    decreases t,
{
    TimelineView {
        fps: t.fps,
        width: t.width,
        height: t.height,
        settings_configured: t.settings_configured,
        tracks: track_views(t.tracks@),
        nested_sequences: Seq::new(
            t.nested_sequences@.len(),
            |i: int|
                if 0 <= i < t.nested_sequences@.len() {
                    sequence_view(t.nested_sequences@[i])
                } else {
                    arbitrary()
                },
        ),
        script_assembly_plans: script_assembly_plan_views(t.script_assembly_plans@),
        voice_models: voice_model_record_views(t.voice_models@),
    }
}

/// The views of a list of [`NestedSequence`].
pub open spec fn nested_sequence_views(v: Seq<NestedSequence>) -> Seq<NestedSequenceView> {
    v.map_values(|x: NestedSequence| x@)
}

/// The nested sequences of a timeline, viewed one by one.
pub proof fn lemma_nested_views(t: Timeline)
    ensures
        t@.nested_sequences == nested_sequence_views(t.nested_sequences@),
{
    assert(t@.nested_sequences =~= nested_sequence_views(t.nested_sequences@));
}

impl NestedSequence {
    /// A copy of the value.
    pub fn copy(&self) -> (r: NestedSequence)
        ensures
            r@ == self@,
        decreases self,
    {
        NestedSequence { id: self.id.clone(), name: self.name.clone(), timeline: self.timeline.copy() }
    }
}

impl Timeline {
    /// A copy of the value.
    pub fn copy(&self) -> (r: Timeline)
        ensures
            r@ == self@,
        decreases self,
    {
        let mut nested: Vec<NestedSequence> = Vec::new();
        let mut i: usize = 0;
        while i < self.nested_sequences.len()
            invariant
                i <= self.nested_sequences@.len(),
                nested@.len() == i,
                forall|j: int|
                    0 <= j < i ==> (#[trigger] nested@[j])@ == self.nested_sequences@[j]@,
            decreases self.nested_sequences@.len() - i,
        {
            nested.push(self.nested_sequences[i].copy());
            i += 1;
        }
        let r = Timeline {
            fps: self.fps,
            width: self.width,
            height: self.height,
            settings_configured: self.settings_configured,
            tracks: copy_tracks(&self.tracks),
            nested_sequences: nested,
            script_assembly_plans: copy_script_assembly_plans(&self.script_assembly_plans),
            voice_models: copy_voice_model_records(&self.voice_models),
        };
        assert(r@.nested_sequences =~= self@.nested_sequences);
        r
    }
}

/// A folder of the media library.
#[derive(Debug)]
pub struct MediaFolder {
    pub id: String,
    pub name: String,
    pub parent_folder_id: Option<String>,
}

/// The view of a [`MediaFolder`].
#[verifier::ext_equal]
pub struct MediaFolderView {
    pub id: Seq<char>,
    pub name: Seq<char>,
    pub parent_folder_id: Option<Seq<char>>,
}

impl View for MediaFolder {
    type V = MediaFolderView;

    open spec fn view(&self) -> MediaFolderView {
        MediaFolderView {
            id: self.id@,
            name: self.name@,
            parent_folder_id: opt_text(self.parent_folder_id),
        }
    }
}

impl MediaFolder {
    /// A copy of the value.
    pub fn copy(&self) -> (r: MediaFolder)
        ensures
            r@ == self@,
    {
        MediaFolder {
            id: self.id.clone(),
            name: self.name.clone(),
            parent_folder_id: copy_opt(&self.parent_folder_id),
        }
    }

    /// Whether two values have the same contents.
    pub fn same(&self, other: &MediaFolder) -> (r: bool)
        ensures
            r == (self@ == other@),
    {
        self.id == other.id
            && self.name == other.name
            && same_opt(&self.parent_folder_id, &other.parent_folder_id)
    }
}

/// The views of a list of [`MediaFolder`].
pub open spec fn media_folder_views(v: Seq<MediaFolder>) -> Seq<MediaFolderView> {
    v.map_values(|x: MediaFolder| x@)
}

/// A copy of a list.
pub fn copy_media_folders(v: &Vec<MediaFolder>) -> (r: Vec<MediaFolder>)
    ensures
        media_folder_views(r@) == media_folder_views(v@),
        r@.len() == v@.len(),
{
    let mut out: Vec<MediaFolder> = Vec::new();
    let mut i: usize = 0;
    while i < v.len()
        invariant
            i <= v@.len(),
            out@.len() == i,
            forall|j: int| 0 <= j < i ==> (#[trigger] out@[j])@ == v@[j]@,
        decreases v@.len() - i,
    {
        out.push(v[i].copy());
        i += 1;
    }
    assert(media_folder_views(out@) =~= media_folder_views(v@));
    out
}

/// Whether two lists have the same contents.
pub fn same_media_folders(a: &Vec<MediaFolder>, b: &Vec<MediaFolder>) -> (r: bool)
    ensures
        r == (media_folder_views(a@) == media_folder_views(b@)),
{
    if a.len() != b.len() {
        assert(media_folder_views(a@).len() != media_folder_views(b@).len());
        return false;
    }
    let mut i: usize = 0;
    while i < a.len()
        invariant
            i <= a@.len(),
            a@.len() == b@.len(),
            forall|j: int| 0 <= j < i ==> (#[trigger] a@[j])@ == b@[j]@,
        decreases a@.len() - i,
    {
        if !a[i].same(&b[i]) {
            assert(media_folder_views(a@)[i as int] != media_folder_views(b@)[i as int]);
            return false;
        }
        i += 1;
    }
    assert(media_folder_views(a@) =~= media_folder_views(b@));
    true
}

/// One asset of the media library.
#[derive(Debug)]
pub struct MediaManifestEntry {
    pub id: String,
    pub name: String,
    pub kind: ClipType,
    /// Where the media lies, in its encoded form.
    pub source: String,
    /// The length in seconds.
    pub duration: Real,
    pub generation_input: Option<Setting>,
    pub source_width: Option<i32>,
    pub source_height: Option<i32>,
    pub source_fps: Option<Real>,
    pub has_audio: Option<bool>,
    pub color: Option<String>,
    pub proxy: Option<String>,
    pub folder_id: Option<String>,
    pub favorite: bool,
    pub global_favorite_id: Option<String>,
    pub cached_remote_url: Option<String>,
    pub cached_remote_url_expires_at: Option<Real>,
}

/// The view of a [`MediaManifestEntry`].
#[verifier::ext_equal]
pub struct MediaManifestEntryView {
    pub id: Seq<char>,
    pub name: Seq<char>,
    pub kind: ClipType,
    pub source: Seq<char>,
    pub duration: Real,
    pub generation_input: Option<SettingView>,
    pub source_width: Option<i32>,
    pub source_height: Option<i32>,
    pub source_fps: Option<Real>,
    pub has_audio: Option<bool>,
    pub color: Option<Seq<char>>,
    pub proxy: Option<Seq<char>>,
    pub folder_id: Option<Seq<char>>,
    pub favorite: bool,
    pub global_favorite_id: Option<Seq<char>>,
    pub cached_remote_url: Option<Seq<char>>,
    pub cached_remote_url_expires_at: Option<Real>,
}

impl View for MediaManifestEntry {
    type V = MediaManifestEntryView;

    open spec fn view(&self) -> MediaManifestEntryView {
        MediaManifestEntryView {
            id: self.id@,
            name: self.name@,
            kind: self.kind,
            source: self.source@,
            duration: self.duration,
            generation_input: opt_setting(self.generation_input),
            source_width: self.source_width,
            source_height: self.source_height,
            source_fps: self.source_fps,
            has_audio: self.has_audio,
            color: opt_text(self.color),
            proxy: opt_text(self.proxy),
            folder_id: opt_text(self.folder_id),
            favorite: self.favorite,
            global_favorite_id: opt_text(self.global_favorite_id),
            cached_remote_url: opt_text(self.cached_remote_url),
            cached_remote_url_expires_at: self.cached_remote_url_expires_at,
        }
    }
}

impl MediaManifestEntry {
    /// A copy of the value.
    pub fn copy(&self) -> (r: MediaManifestEntry)
        ensures
            r@ == self@,
    {
        MediaManifestEntry {
            id: self.id.clone(),
            name: self.name.clone(),
            kind: self.kind,
            source: self.source.clone(),
            duration: self.duration,
            generation_input: copy_opt_setting(&self.generation_input),
            source_width: self.source_width,
            source_height: self.source_height,
            source_fps: self.source_fps,
            has_audio: self.has_audio,
            color: copy_opt(&self.color),
            proxy: copy_opt(&self.proxy),
            folder_id: copy_opt(&self.folder_id),
            favorite: self.favorite,
            global_favorite_id: copy_opt(&self.global_favorite_id),
            cached_remote_url: copy_opt(&self.cached_remote_url),
            cached_remote_url_expires_at: self.cached_remote_url_expires_at,
        }
    }
}

/// The views of a list of [`MediaManifestEntry`].
pub open spec fn media_manifest_entry_views(v: Seq<MediaManifestEntry>) -> Seq<MediaManifestEntryView> {
    v.map_values(|x: MediaManifestEntry| x@)
}

/// A copy of a list.
pub fn copy_media_entries(v: &Vec<MediaManifestEntry>) -> (r: Vec<MediaManifestEntry>)
    ensures
        media_manifest_entry_views(r@) == media_manifest_entry_views(v@),
        r@.len() == v@.len(),
{
    let mut out: Vec<MediaManifestEntry> = Vec::new();
    let mut i: usize = 0;
    while i < v.len()
        invariant
            i <= v@.len(),
            out@.len() == i,
            forall|j: int| 0 <= j < i ==> (#[trigger] out@[j])@ == v@[j]@,
        decreases v@.len() - i,
    {
        out.push(v[i].copy());
        i += 1;
    }
    assert(media_manifest_entry_views(out@) =~= media_manifest_entry_views(v@));
    out
}

/// The media library of a project.
#[derive(Debug)]
pub struct MediaManifest {
    pub entries: Vec<MediaManifestEntry>,
    pub folders: Vec<MediaFolder>,
}

/// The view of a [`MediaManifest`].
#[verifier::ext_equal]
pub struct MediaManifestView {
    pub entries: Seq<MediaManifestEntryView>,
    pub folders: Seq<MediaFolderView>,
}

impl View for MediaManifest {
    type V = MediaManifestView;

    open spec fn view(&self) -> MediaManifestView {
        MediaManifestView {
            entries: media_manifest_entry_views(self.entries@),
            folders: media_folder_views(self.folders@),
        }
    }
}

impl MediaManifest {
    /// A copy of the value.
    pub fn copy(&self) -> (r: MediaManifest)
        ensures
            r@ == self@,
    {
        MediaManifest {
            entries: copy_media_entries(&self.entries),
            folders: copy_media_folders(&self.folders),
        }
    }
}

/// The views of a list of [`Timeline`].
pub open spec fn timeline_views(v: Seq<Timeline>) -> Seq<TimelineView> {
    v.map_values(|x: Timeline| x@)
}

} // verus!
