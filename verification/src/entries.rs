//! What commands are given: entries, targets and property bundles.

use crate::locate::track_index;
use crate::model::copy_opt_setting;
use crate::model::opt_setting;
use crate::model::CaptionTranslationInput;
use crate::model::CaptionTranslationInputView;
use crate::model::Clip;
use crate::model::ClipType;
use crate::model::ClipView;
use crate::model::Crop;
use crate::model::Interpolation;
use crate::model::Real;
use crate::model::Setting;
use crate::model::SettingView;
use crate::model::Transform;
use crate::text::copy_opt;
use crate::text::opt_text;
use vstd::prelude::*;

verus! {

/// Optional root settings applied when media is placed.
#[derive(Clone, Copy, PartialEq, Eq, Structural, Debug)]
pub struct ProjectTimelineSettings {
    pub fps: i32,
    pub width: i32,
    pub height: i32,
}

/// One authoritative new-track drag operation.
#[derive(Clone, Copy, PartialEq, Eq, Structural, Debug)]
pub enum NewTrackClipMode {
    Move,
    Duplicate,
}

/// One clip to add or insert.
#[derive(Debug)]
pub struct ClipEntry {
    pub media_ref: String,
    pub media_type: ClipType,
    pub source_clip_type: ClipType,
    pub track_index: usize,
    pub start_frame: i32,
    pub duration_frames: i32,
    pub trim_start_frame: Option<i32>,
    pub trim_end_frame: Option<i32>,
    pub has_audio: bool,
    pub add_linked_audio: bool,
    pub transform: Option<Transform>,
}

/// The view of a [`ClipEntry`].
#[verifier::ext_equal]
pub struct ClipEntryView {
    pub media_ref: Seq<char>,
    pub media_type: ClipType,
    pub source_clip_type: ClipType,
    pub track_index: usize,
    pub start_frame: i32,
    pub duration_frames: i32,
    pub trim_start_frame: Option<i32>,
    pub trim_end_frame: Option<i32>,
    pub has_audio: bool,
    pub add_linked_audio: bool,
    pub transform: Option<Transform>,
}

impl View for ClipEntry {
    type V = ClipEntryView;

    open spec fn view(&self) -> ClipEntryView {
        ClipEntryView {
            media_ref: self.media_ref@,
            media_type: self.media_type,
            source_clip_type: self.source_clip_type,
            track_index: self.track_index,
            start_frame: self.start_frame,
            duration_frames: self.duration_frames,
            trim_start_frame: self.trim_start_frame,
            trim_end_frame: self.trim_end_frame,
            has_audio: self.has_audio,
            add_linked_audio: self.add_linked_audio,
            transform: self.transform,
        }
    }
}

impl ClipEntry {
    /// A copy of the value.
    pub fn copy(&self) -> (r: ClipEntry)
        ensures
            r@ == self@,
    {
        ClipEntry {
            media_ref: self.media_ref.clone(),
            media_type: self.media_type,
            source_clip_type: self.source_clip_type,
            track_index: self.track_index,
            start_frame: self.start_frame,
            duration_frames: self.duration_frames,
            trim_start_frame: self.trim_start_frame,
            trim_end_frame: self.trim_end_frame,
            has_audio: self.has_audio,
            add_linked_audio: self.add_linked_audio,
            transform: self.transform,
        }
    }
}

/// The views of a list of [`ClipEntry`].
pub open spec fn clip_entry_views(v: Seq<ClipEntry>) -> Seq<ClipEntryView> {
    v.map_values(|x: ClipEntry| x@)
}

/// Media to place before a destination track has been resolved.
#[derive(Debug)]
pub struct UnplacedClipEntry {
    pub media_ref: String,
    pub media_type: ClipType,
    pub source_clip_type: ClipType,
    pub start_frame: i32,
    pub duration_frames: i32,
    pub trim_start_frame: Option<i32>,
    pub trim_end_frame: Option<i32>,
    pub has_audio: bool,
    pub add_linked_audio: bool,
    pub transform: Option<Transform>,
}

/// The view of a [`UnplacedClipEntry`].
#[verifier::ext_equal]
pub struct UnplacedClipEntryView {
    pub media_ref: Seq<char>,
    pub media_type: ClipType,
    pub source_clip_type: ClipType,
    pub start_frame: i32,
    pub duration_frames: i32,
    pub trim_start_frame: Option<i32>,
    pub trim_end_frame: Option<i32>,
    pub has_audio: bool,
    pub add_linked_audio: bool,
    pub transform: Option<Transform>,
}

impl View for UnplacedClipEntry {
    type V = UnplacedClipEntryView;

    open spec fn view(&self) -> UnplacedClipEntryView {
        UnplacedClipEntryView {
            media_ref: self.media_ref@,
            media_type: self.media_type,
            source_clip_type: self.source_clip_type,
            start_frame: self.start_frame,
            duration_frames: self.duration_frames,
            trim_start_frame: self.trim_start_frame,
            trim_end_frame: self.trim_end_frame,
            has_audio: self.has_audio,
            add_linked_audio: self.add_linked_audio,
            transform: self.transform,
        }
    }
}

impl UnplacedClipEntry {
    /// A copy of the value.
    pub fn copy(&self) -> (r: UnplacedClipEntry)
        ensures
            r@ == self@,
    {
        UnplacedClipEntry {
            media_ref: self.media_ref.clone(),
            media_type: self.media_type,
            source_clip_type: self.source_clip_type,
            start_frame: self.start_frame,
            duration_frames: self.duration_frames,
            trim_start_frame: self.trim_start_frame,
            trim_end_frame: self.trim_end_frame,
            has_audio: self.has_audio,
            add_linked_audio: self.add_linked_audio,
            transform: self.transform,
        }
    }
}

/// One clip snapshot to paste; its id is the source identity that transitions, link groups and caption groups are remapped by.
#[derive(Debug)]
pub struct PasteClipEntry {
    pub clip: Clip,
    pub target_track_id: String,
    pub start_frame: i32,
}

/// The view of a [`PasteClipEntry`].
#[verifier::ext_equal]
pub struct PasteClipEntryView {
    pub clip: ClipView,
    pub target_track_id: Seq<char>,
    pub start_frame: i32,
}

impl View for PasteClipEntry {
    type V = PasteClipEntryView;

    open spec fn view(&self) -> PasteClipEntryView {
        PasteClipEntryView {
            clip: self.clip@,
            target_track_id: self.target_track_id@,
            start_frame: self.start_frame,
        }
    }
}

impl PasteClipEntry {
    /// A copy of the value.
    pub fn copy(&self) -> (r: PasteClipEntry)
        ensures
            r@ == self@,
    {
        PasteClipEntry {
            clip: self.clip.copy(),
            target_track_id: self.target_track_id.clone(),
            start_frame: self.start_frame,
        }
    }
}

/// The views of a list of [`PasteClipEntry`].
pub open spec fn paste_clip_entry_views(v: Seq<PasteClipEntry>) -> Seq<PasteClipEntryView> {
    v.map_values(|x: PasteClipEntry| x@)
}

/// One id and its new name.
#[derive(Debug)]
pub struct RenameEntry {
    pub id: String,
    pub name: String,
}

/// The view of a [`RenameEntry`].
#[verifier::ext_equal]
pub struct RenameEntryView {
    pub id: Seq<char>,
    pub name: Seq<char>,
}

impl View for RenameEntry {
    type V = RenameEntryView;

    open spec fn view(&self) -> RenameEntryView {
        RenameEntryView {
            id: self.id@,
            name: self.name@,
        }
    }
}

impl RenameEntry {
    /// A copy of the value.
    pub fn copy(&self) -> (r: RenameEntry)
        ensures
            r@ == self@,
    {
        RenameEntry {
            id: self.id.clone(),
            name: self.name.clone(),
        }
    }
}

/// The views of a list of [`RenameEntry`].
pub open spec fn rename_entry_views(v: Seq<RenameEntry>) -> Seq<RenameEntryView> {
    v.map_values(|x: RenameEntry| x@)
}

/// A text overlay for a given track.
#[derive(Debug)]
pub struct TextEntry {
    pub track_index: usize,
    pub start_frame: i32,
    pub duration_frames: i32,
    pub content: String,
    pub text_style: Setting,
    pub transform: Transform,
}

/// The view of a [`TextEntry`].
#[verifier::ext_equal]
pub struct TextEntryView {
    pub track_index: usize,
    pub start_frame: i32,
    pub duration_frames: i32,
    pub content: Seq<char>,
    pub text_style: SettingView,
    pub transform: Transform,
}

impl View for TextEntry {
    type V = TextEntryView;

    open spec fn view(&self) -> TextEntryView {
        TextEntryView {
            track_index: self.track_index,
            start_frame: self.start_frame,
            duration_frames: self.duration_frames,
            content: self.content@,
            text_style: self.text_style@,
            transform: self.transform,
        }
    }
}

impl TextEntry {
    /// A copy of the value.
    pub fn copy(&self) -> (r: TextEntry)
        ensures
            r@ == self@,
    {
        TextEntry {
            track_index: self.track_index,
            start_frame: self.start_frame,
            duration_frames: self.duration_frames,
            content: self.content.clone(),
            text_style: self.text_style.clone(),
            transform: self.transform,
        }
    }
}

/// The views of a list of [`TextEntry`].
pub open spec fn text_entry_views(v: Seq<TextEntry>) -> Seq<TextEntryView> {
    v.map_values(|x: TextEntry| x@)
}

/// A text overlay for a fresh track.
#[derive(Debug)]
pub struct TextAutoTrackEntry {
    pub start_frame: i32,
    pub duration_frames: i32,
    pub content: String,
    pub text_style: Setting,
    pub transform: Transform,
}

/// The view of a [`TextAutoTrackEntry`].
#[verifier::ext_equal]
pub struct TextAutoTrackEntryView {
    pub start_frame: i32,
    pub duration_frames: i32,
    pub content: Seq<char>,
    pub text_style: SettingView,
    pub transform: Transform,
}

impl View for TextAutoTrackEntry {
    type V = TextAutoTrackEntryView;

    open spec fn view(&self) -> TextAutoTrackEntryView {
        TextAutoTrackEntryView {
            start_frame: self.start_frame,
            duration_frames: self.duration_frames,
            content: self.content@,
            text_style: self.text_style@,
            transform: self.transform,
        }
    }
}

impl TextAutoTrackEntry {
    /// A copy of the value.
    pub fn copy(&self) -> (r: TextAutoTrackEntry)
        ensures
            r@ == self@,
    {
        TextAutoTrackEntry {
            start_frame: self.start_frame,
            duration_frames: self.duration_frames,
            content: self.content.clone(),
            text_style: self.text_style.clone(),
            transform: self.transform,
        }
    }
}

/// The views of a list of [`TextAutoTrackEntry`].
pub open spec fn text_auto_track_entry_views(v: Seq<TextAutoTrackEntry>) -> Seq<TextAutoTrackEntryView> {
    v.map_values(|x: TextAutoTrackEntry| x@)
}

/// One built caption clip with the group that all captions of one run share.
#[derive(Debug)]
pub struct CaptionEntry {
    pub start_frame: i32,
    pub duration_frames: i32,
    pub content: String,
    pub text_style: Setting,
    pub transform: Transform,
    pub caption_group_id: String,
}

/// The view of a [`CaptionEntry`].
#[verifier::ext_equal]
pub struct CaptionEntryView {
    pub start_frame: i32,
    pub duration_frames: i32,
    pub content: Seq<char>,
    pub text_style: SettingView,
    pub transform: Transform,
    pub caption_group_id: Seq<char>,
}

impl View for CaptionEntry {
    type V = CaptionEntryView;

    open spec fn view(&self) -> CaptionEntryView {
        CaptionEntryView {
            start_frame: self.start_frame,
            duration_frames: self.duration_frames,
            content: self.content@,
            text_style: self.text_style@,
            transform: self.transform,
            caption_group_id: self.caption_group_id@,
        }
    }
}

impl CaptionEntry {
    /// A copy of the value.
    pub fn copy(&self) -> (r: CaptionEntry)
        ensures
            r@ == self@,
    {
        CaptionEntry {
            start_frame: self.start_frame,
            duration_frames: self.duration_frames,
            content: self.content.clone(),
            text_style: self.text_style.clone(),
            transform: self.transform,
            caption_group_id: self.caption_group_id.clone(),
        }
    }
}

/// The views of a list of [`CaptionEntry`].
pub open spec fn caption_entry_views(v: Seq<CaptionEntry>) -> Seq<CaptionEntryView> {
    v.map_values(|x: CaptionEntry| x@)
}

/// One reviewed caption text replacement.
#[derive(Debug)]
pub struct CaptionTranslationChange {
    pub clip_id: String,
    pub expected_source_text: String,
    pub translated_text: String,
    pub input: CaptionTranslationInput,
}

/// The view of a [`CaptionTranslationChange`].
#[verifier::ext_equal]
pub struct CaptionTranslationChangeView {
    pub clip_id: Seq<char>,
    pub expected_source_text: Seq<char>,
    pub translated_text: Seq<char>,
    pub input: CaptionTranslationInputView,
}

impl View for CaptionTranslationChange {
    type V = CaptionTranslationChangeView;

    open spec fn view(&self) -> CaptionTranslationChangeView {
        CaptionTranslationChangeView {
            clip_id: self.clip_id@,
            expected_source_text: self.expected_source_text@,
            translated_text: self.translated_text@,
            input: self.input@,
        }
    }
}

impl CaptionTranslationChange {
    /// A copy of the value.
    pub fn copy(&self) -> (r: CaptionTranslationChange)
        ensures
            r@ == self@,
    {
        CaptionTranslationChange {
            clip_id: self.clip_id.clone(),
            expected_source_text: self.expected_source_text.clone(),
            translated_text: self.translated_text.clone(),
            input: self.input.copy(),
        }
    }
}

/// The views of a list of [`CaptionTranslationChange`].
pub open spec fn caption_translation_change_views(v: Seq<CaptionTranslationChange>) -> Seq<CaptionTranslationChangeView> {
    v.map_values(|x: CaptionTranslationChange| x@)
}

/// Property assignments; `None` leaves a property unchanged.
#[derive(Debug)]
pub struct ClipProperties {
    pub duration_frames: Option<i32>,
    pub trim_start_frame: Option<i32>,
    pub trim_end_frame: Option<i32>,
    pub speed: Option<Real>,
    pub volume: Option<Real>,
    pub opacity: Option<Real>,
    pub transform: Option<Transform>,
    pub text_content: Option<String>,
    pub text_style: Option<Setting>,
    pub crop: Option<Crop>,
    pub fade_in_frames: Option<i32>,
    pub fade_out_frames: Option<i32>,
    pub fade_in_interpolation: Option<Interpolation>,
    pub fade_out_interpolation: Option<Interpolation>,
    pub flip_horizontal: Option<bool>,
    pub flip_vertical: Option<bool>,
    pub reversed: Option<bool>,
}

/// The view of a [`ClipProperties`].
#[verifier::ext_equal]
pub struct ClipPropertiesView {
    pub duration_frames: Option<i32>,
    pub trim_start_frame: Option<i32>,
    pub trim_end_frame: Option<i32>,
    pub speed: Option<Real>,
    pub volume: Option<Real>,
    pub opacity: Option<Real>,
    pub transform: Option<Transform>,
    pub text_content: Option<Seq<char>>,
    pub text_style: Option<SettingView>,
    pub crop: Option<Crop>,
    pub fade_in_frames: Option<i32>,
    pub fade_out_frames: Option<i32>,
    pub fade_in_interpolation: Option<Interpolation>,
    pub fade_out_interpolation: Option<Interpolation>,
    pub flip_horizontal: Option<bool>,
    pub flip_vertical: Option<bool>,
    pub reversed: Option<bool>,
}

impl View for ClipProperties {
    type V = ClipPropertiesView;

    open spec fn view(&self) -> ClipPropertiesView {
        ClipPropertiesView {
            duration_frames: self.duration_frames,
            trim_start_frame: self.trim_start_frame,
            trim_end_frame: self.trim_end_frame,
            speed: self.speed,
            volume: self.volume,
            opacity: self.opacity,
            transform: self.transform,
            text_content: opt_text(self.text_content),
            text_style: opt_setting(self.text_style),
            crop: self.crop,
            fade_in_frames: self.fade_in_frames,
            fade_out_frames: self.fade_out_frames,
            fade_in_interpolation: self.fade_in_interpolation,
            fade_out_interpolation: self.fade_out_interpolation,
            flip_horizontal: self.flip_horizontal,
            flip_vertical: self.flip_vertical,
            reversed: self.reversed,
        }
    }
}

impl ClipProperties {
    /// A copy of the value.
    pub fn copy(&self) -> (r: ClipProperties)
        ensures
            r@ == self@,
    {
        ClipProperties {
            duration_frames: self.duration_frames,
            trim_start_frame: self.trim_start_frame,
            trim_end_frame: self.trim_end_frame,
            speed: self.speed,
            volume: self.volume,
            opacity: self.opacity,
            transform: self.transform,
            text_content: copy_opt(&self.text_content),
            text_style: copy_opt_setting(&self.text_style),
            crop: self.crop,
            fade_in_frames: self.fade_in_frames,
            fade_out_frames: self.fade_out_frames,
            fade_in_interpolation: self.fade_in_interpolation,
            fade_out_interpolation: self.fade_out_interpolation,
            flip_horizontal: self.flip_horizontal,
            flip_vertical: self.flip_vertical,
            reversed: self.reversed,
        }
    }
}

/// Property assignments for one clip.
#[derive(Debug)]
pub struct ClipPropertyAssignment {
    pub clip_id: String,
    pub properties: ClipProperties,
}

/// The view of a [`ClipPropertyAssignment`].
#[verifier::ext_equal]
pub struct ClipPropertyAssignmentView {
    pub clip_id: Seq<char>,
    pub properties: ClipPropertiesView,
}

impl View for ClipPropertyAssignment {
    type V = ClipPropertyAssignmentView;

    open spec fn view(&self) -> ClipPropertyAssignmentView {
        ClipPropertyAssignmentView {
            clip_id: self.clip_id@,
            properties: self.properties@,
        }
    }
}

impl ClipPropertyAssignment {
    /// A copy of the value.
    pub fn copy(&self) -> (r: ClipPropertyAssignment)
        ensures
            r@ == self@,
    {
        ClipPropertyAssignment {
            clip_id: self.clip_id.clone(),
            properties: self.properties.copy(),
        }
    }
}

/// The views of a list of [`ClipPropertyAssignment`].
pub open spec fn clip_property_assignment_views(v: Seq<ClipPropertyAssignment>) -> Seq<ClipPropertyAssignmentView> {
    v.map_values(|x: ClipPropertyAssignment| x@)
}

/// Where a clip is to go.
#[derive(Debug)]
pub struct ClipMove {
    pub clip_id: String,
    pub to_track: usize,
    pub to_frame: i32,
}

/// The view of a [`ClipMove`].
#[verifier::ext_equal]
pub struct ClipMoveView {
    pub clip_id: Seq<char>,
    pub to_track: usize,
    pub to_frame: i32,
}

impl View for ClipMove {
    type V = ClipMoveView;

    open spec fn view(&self) -> ClipMoveView {
        ClipMoveView {
            clip_id: self.clip_id@,
            to_track: self.to_track,
            to_frame: self.to_frame,
        }
    }
}

impl ClipMove {
    /// A copy of the value.
    pub fn copy(&self) -> (r: ClipMove)
        ensures
            r@ == self@,
    {
        ClipMove {
            clip_id: self.clip_id.clone(),
            to_track: self.to_track,
            to_frame: self.to_frame,
        }
    }
}

/// The views of a list of [`ClipMove`].
pub open spec fn clip_move_views(v: Seq<ClipMove>) -> Seq<ClipMoveView> {
    v.map_values(|x: ClipMove| x@)
}

/// New source-frame trims for a clip.
#[derive(Debug)]
pub struct TrimEdit {
    pub clip_id: String,
    pub trim_start_frame: i32,
    pub trim_end_frame: i32,
}

/// The view of a [`TrimEdit`].
#[verifier::ext_equal]
pub struct TrimEditView {
    pub clip_id: Seq<char>,
    pub trim_start_frame: i32,
    pub trim_end_frame: i32,
}

impl View for TrimEdit {
    type V = TrimEditView;

    open spec fn view(&self) -> TrimEditView {
        TrimEditView {
            clip_id: self.clip_id@,
            trim_start_frame: self.trim_start_frame,
            trim_end_frame: self.trim_end_frame,
        }
    }
}

impl TrimEdit {
    /// A copy of the value.
    pub fn copy(&self) -> (r: TrimEdit)
        ensures
            r@ == self@,
    {
        TrimEdit {
            clip_id: self.clip_id.clone(),
            trim_start_frame: self.trim_start_frame,
            trim_end_frame: self.trim_end_frame,
        }
    }
}

/// The views of a list of [`TrimEdit`].
pub open spec fn trim_edit_views(v: Seq<TrimEdit>) -> Seq<TrimEditView> {
    v.map_values(|x: TrimEdit| x@)
}

/// A range of project frames, its end excluded.
#[derive(Debug)]
pub struct FrameRange {
    pub start: i32,
    pub end: i32,
}

/// The view of a [`FrameRange`].
#[verifier::ext_equal]
pub struct FrameRangeView {
    pub start: i32,
    pub end: i32,
}

impl View for FrameRange {
    type V = FrameRangeView;

    open spec fn view(&self) -> FrameRangeView {
        FrameRangeView {
            start: self.start,
            end: self.end,
        }
    }
}

impl FrameRange {
    /// A copy of the value.
    pub fn copy(&self) -> (r: FrameRange)
        ensures
            r@ == self@,
    {
        FrameRange {
            start: self.start,
            end: self.end,
        }
    }
}

/// The views of a list of [`FrameRange`].
pub open spec fn frame_range_views(v: Seq<FrameRange>) -> Seq<FrameRangeView> {
    v.map_values(|x: FrameRange| x@)
}

} // verus!
