//! The unified editing command. Every editing surface routes through it.

use crate::commands::effects::MaskLimits;
use crate::commands::keyframes::ClipSample;
use crate::commands::keyframes::KeyframePayload;
use crate::commands::keyframes::KeyframeProperty;
use crate::commands::keyframes::KeyframeValue;
use crate::commands::placement::PlaceMediaTarget;
use crate::commands::ripple::RippleOutcome;
use crate::entries::CaptionEntry;
use crate::entries::CaptionTranslationChange;
use crate::entries::ClipEntry;
use crate::entries::ClipMove;
use crate::entries::ClipProperties;
use crate::entries::ClipPropertyAssignment;
use crate::entries::FrameRange;
use crate::entries::NewTrackClipMode;
use crate::entries::PasteClipEntry;
use crate::entries::ProjectTimelineSettings;
use crate::entries::RenameEntry;
use crate::entries::TextAutoTrackEntry;
use crate::entries::TextEntry;
use crate::entries::TrimEdit;
use crate::entries::UnplacedClipEntry;
use crate::fresh::fresh_timeline;
use crate::locate::track_index;
use crate::model::no_crop;
use crate::model::AnimPair;
use crate::model::Clip;
use crate::model::ClipType;
use crate::model::Crop;
use crate::model::Interpolation;
use crate::model::Mask;
use crate::model::MediaManifestEntry;
use crate::model::Real;
use crate::model::ScriptAssemblyPlan;
use crate::model::Setting;
use crate::model::StabilizationTrack;
use crate::model::Timeline;
use crate::model::Transform;
use crate::model::TransitionKind;
use crate::model::VoiceModelRecord;
use crate::state::Placed;
use crate::state::PlacedView;
use vstd::prelude::*;

verus! {

/// The unified editing command.
#[derive(Debug)]
pub enum EditCommand {
    /// Registers an editable child timeline and places one compound clip that shows
    /// it.
    CreateNestedSequence {
        name: String,
        timeline: Timeline,
        track_index: usize,
        start_frame: i32,
        duration_frames: i32,
    },
    /// Turns selected root clips into one editable compound clip.
    CreateNestedSequenceFromClips { name: String, clip_ids: Vec<String> },
    /// Applies an ordinary edit command to a child timeline.
    EditNestedSequence { sequence_id: String, command: Box<EditCommand> },
    /// Replaces the editable contents of one existing nested sequence.
    SetNestedSequenceTimeline { sequence_id: String, timeline: Timeline },
    /// Renames a nested sequence without changing references.
    RenameNestedSequence { sequence_id: String, name: String },
    /// Replaces one compound clip with clipped copies of its child's tracks.
    DissolveNestedSequence { clip_id: String },
    /// Applies optional root settings, resolves one destination and places media.
    PlaceMedia {
        sequence_id: Option<String>,
        settings: Option<ProjectTimelineSettings>,
        target: PlaceMediaTarget,
        entry: UnplacedClipEntry,
    },
    /// Overwrite-places clips.
    AddClips { entries: Vec<ClipEntry> },
    /// Overwrite-places clips on fresh shared tracks chosen by media type.
    AddClipsAutoTrack { entries: Vec<ClipEntry> },
    /// Places each entry on its own fresh compatible track.
    AddClipsToSeparateAutoTracks { entries: Vec<ClipEntry> },
    /// Registers one medium and places it in the same undo step.
    RegisterMediaAndAddClip { media: MediaManifestEntry, entry: ClipEntry, auto_track: bool },
    /// Registers a newly made replacement and swaps an existing clip to it.
    RegisterMediaAndSwapClip { media: MediaManifestEntry, clip_id: String },
    /// As above, and removes the masks that were baked into the replacement.
    RegisterMediaAndSwapClipClearingMasks { media: MediaManifestEntry, clip_id: String },
    /// Registers one captured still and freezes the source clip to it.
    RegisterMediaAndFreezeFrame {
        media: MediaManifestEntry,
        clip_id: String,
        at_frame: i32,
        duration_frames: i32,
    },
    /// Ripple-inserts clips, pushing later clips right.
    InsertClips { track_index: usize, at_frame: i32, entries: Vec<ClipEntry> },
    /// Moves clips to new tracks and frames.
    MoveClips { moves: Vec<ClipMove> },
    /// Copies clips to new positions.
    DuplicateClips {
        clip_ids: Vec<String>,
        offset_frames: i32,
        target_track_indexes: Vec<usize>,
    },
    /// Inserts a destination track and moves or duplicates clips into it.
    MoveOrDuplicateClipsToNewTrack {
        clip_ids: Vec<String>,
        lead_clip_id: String,
        requested_frame_delta: i32,
        insert_at: usize,
        mode: NewTrackClipMode,
    },
    /// Pastes complete clip snapshots with fresh ids.
    PasteClips { entries: Vec<PasteClipEntry> },
    /// Removes clips, expanded to linked partners.
    RemoveClips { clip_ids: Vec<String> },
    /// Splits a clip at a frame.
    SplitClip { clip_id: String, at_frame: i32 },
    /// Splits every requested clip at one frame.
    SplitClips { clip_ids: Vec<String>, at_frame: i32 },
    /// Splits at a frame, then ripple-inserts a still.
    FreezeFrame { clip_id: String, at_frame: i32, duration_frames: i32, media_ref: String },
    /// Resizes clips in place from new source-frame trims.
    TrimClips { edits: Vec<TrimEdit> },
    /// Assigns clip properties; timing goes on to linked partners.
    SetClipProperties { clip_ids: Vec<String>, properties: Box<ClipProperties> },
    /// Assigns clip properties to the named clips alone.
    SetClipPropertiesDiverging { clip_ids: Vec<String>, properties: Box<ClipProperties> },
    /// Assigns clip-specific properties as one edit.
    SetClipPropertiesPerClip { assignments: Vec<ClipPropertyAssignment> },
    /// Commits one canvas transform at a timeline frame.
    SetTransformAtFrame { clip_id: String, frame: i32, transform: Transform },
    /// Replaces or clears a clip's keyframe track for one property.
    SetKeyframes { clip_id: String, property: KeyframeProperty, payload: KeyframePayload },
    /// Stamps a keyframe with the clip's current value.
    StampKeyframe { clip_id: String, property: KeyframeProperty, frame: i32 },
    /// Puts a keyframe with an explicit value.
    UpsertKeyframe {
        clip_id: String,
        property: KeyframeProperty,
        frame: i32,
        value: KeyframeValue,
    },
    /// Removes a keyframe.
    RemoveKeyframe { clip_id: String, property: KeyframeProperty, frame: i32 },
    /// Moves a keyframe; an occupied frame is refused.
    MoveKeyframe {
        clip_id: String,
        property: KeyframeProperty,
        from_frame: i32,
        to_frame: i32,
    },
    /// Changes the interpolation mode of a keyframe.
    SetKeyframeInterpolation {
        clip_id: String,
        property: KeyframeProperty,
        frame: i32,
        interpolation: Interpolation,
    },
    /// Sets or clears the colour grade of clips.
    SetColorGrade { clip_ids: Vec<String>, grade: Option<Setting> },
    /// Applies a sampled reference match and its provenance together.
    ApplyColorMatch { clip_id: String, grade: Setting, input: Setting },
    /// Sets or clears the LUT of clips.
    SetLut { clip_ids: Vec<String>, lut: Option<Setting> },
    /// Sets or clears the chroma key of clips.
    SetChromaKey { clip_ids: Vec<String>, chroma_key: Option<Setting> },
    /// Replaces the mask list of clips.
    SetMasks { clip_ids: Vec<String>, masks: Vec<Mask> },
    /// Replaces the effect chain of clips.
    SetEffects { clip_ids: Vec<String>, effects: Vec<Setting> },
    /// Applies or resets one loudness analysis.
    SetLoudnessNormalization { clip_id: String, normalization: Option<Setting> },
    /// Applies or resets denoise parameters.
    SetAudioDenoise { clip_id: String, denoise: Option<Setting> },
    /// Persists a stabilization analysis on one video clip.
    ApplyStabilization { clip_id: String, solution: StabilizationTrack },
    /// Changes stabilization strength and crop margin.
    AdjustStabilization {
        clip_id: String,
        strength: Option<Real>,
        crop_margin: Option<Real>,
    },
    /// Removes stabilization.
    ResetStabilization { clip_id: String },
    /// Sets or clears the transition at one clip boundary.
    SetTransition {
        from_clip_id: String,
        to_clip_id: String,
        kind: Option<TransitionKind>,
        duration_frames: i32,
    },
    /// Ripple-deletes project-frame ranges on a track.
    RippleDeleteRanges { track_index: usize, ranges: Vec<FrameRange> },
    /// Ripple-deletes selected clips.
    RippleDeleteClips { clip_ids: Vec<String> },
    /// Adds text overlays.
    AddTexts { entries: Vec<TextEntry> },
    /// Adds text overlays on one fresh video track.
    AddTextsAutoTrack { entries: Vec<TextAutoTrackEntry> },
    /// Places a batch of caption clips on one fresh video track.
    AddCaptions { entries: Vec<CaptionEntry> },
    /// Accepts a reviewed batch of translated captions.
    ApplyCaptionTranslations { changes: Vec<CaptionTranslationChange> },
    /// Persists a script assembly plan.
    SaveScriptAssemblyPlan { plan: ScriptAssemblyPlan },
    /// Builds a persisted plan on fresh tracks.
    ApplyScriptAssemblyPlan { plan_id: String },
    /// Persists one consent-bearing provider voice identity.
    SaveVoiceModel { record: VoiceModelRecord },
    /// Permanently marks a provider voice as revoked.
    RevokeVoiceModel { voice_model_id: String },
    /// Links clips into one group.
    Link { clip_ids: Vec<String> },
    /// Unlinks clips and their whole groups.
    Unlink { clip_ids: Vec<String> },
    /// Removes tracks by index.
    RemoveTracks { track_indexes: Vec<usize> },
    /// Swaps two same-kind tracks.
    SwapTracks { a: usize, b: usize },
    /// Swaps the positions of two clips.
    SwapClips { a: String, b: String },
    /// Inserts a new empty track.
    InsertTrack { kind: ClipType, at: Option<usize> },
    /// Toggles track-head properties.
    SetTrackProps {
        track_index: usize,
        muted: Option<bool>,
        hidden: Option<bool>,
        sync_locked: Option<bool>,
    },
    /// Creates a media-library folder.
    CreateFolder { name: String, parent_folder_id: Option<String> },
    /// Moves media assets into a folder.
    MoveToFolder { asset_ids: Vec<String>, folder_id: Option<String> },
    /// Renames media assets.
    RenameMedia { entries: Vec<RenameEntry> },
    /// Renames folders.
    RenameFolder { entries: Vec<RenameEntry> },
    /// Deletes media assets and the clips that show them.
    DeleteMedia { asset_ids: Vec<String> },
    /// Deletes folders with their contents.
    DeleteFolder { folder_ids: Vec<String> },
    /// Replaces the medium that a clip shows.
    SwapMedia { clip_id: String, media_ref: String },
    /// Resets the transform section back to defaults.
    ResetTransform { clip_ids: Vec<String> },
    /// Changes the frame rate and the size of the project.
    SetTimelineSettings { fps: i32, width: i32, height: i32 },
    /// Undoes the last committed command.
    Undo,
    /// Redoes the last undone command.
    Redo,
}

/// What the parts of the editor around the commands say and do for one command:
/// the checks of the nested-sequence registry and of settings, the placement and
/// ripple engines, and the sampling of animated properties.
#[derive(Debug)]
pub struct Outside {
    /// What the nested-sequence registry says against the edited root timeline.
    pub registry_fault: Option<String>,
    /// What it says against an edited child timeline.
    pub child_registry_fault: Option<String>,
    /// What a setting's own check says against the setting.
    pub setting_fault: Option<String>,
    /// What the ripple engine says against the edit before it starts.
    pub ripple_fault: Option<String>,
    /// What the placement engine made of the timeline. For a command that places what
    /// it brings itself, the timeline with the regions cleared.
    pub placed: Placed,
    /// Where regions are cleared in turn, each after the last was filled: the timeline
    /// that each clearing gave.
    pub cleared: Vec<Timeline>,
    /// Whether the trimming engine found the trims possible.
    pub trims_possible: bool,
    /// What a ripple delete came to.
    pub ripple: RippleOutcome,
    /// The clips that the splitter cannot split at the frame.
    pub unsplittable: Vec<String>,
    /// For each named clip, the linked clips that its timing goes on to.
    pub partners: Vec<Vec<String>>,
    /// Clips with their keyframes and fades fitted to their new length.
    pub fitted: Vec<Clip>,
    /// The values of the clip's animated properties at the frame.
    pub sample: ClipSample,
    /// The top left corner of the requested transform.
    pub top_left: AnimPair,
    /// How many masks, and points of one, a clip may have.
    pub mask_limits: MaskLimits,
}

/// Whether a command runs a transaction, on which the nested-sequence registry has the
/// last word. Stepping through the history and the ripple deletes do not, nor do the
/// consent records of voices.
pub open spec fn asks_registry(command: EditCommand) -> bool {
    !(command is Undo || command is Redo || command is RippleDeleteRanges
        || command is RippleDeleteClips || command is SaveVoiceModel
        || command is RevokeVoiceModel)
}

impl EditCommand {
    /// Whether the nested-sequence registry has the last word on the command.
    pub fn is_up_to_registry(&self) -> (r: bool)
        ensures
            r == asks_registry(*self),
    {
        match self {
            EditCommand::Undo => false,
            EditCommand::Redo => false,
            EditCommand::RippleDeleteRanges { .. } => false,
            EditCommand::RippleDeleteClips { .. } => false,
            EditCommand::SaveVoiceModel { .. } => false,
            EditCommand::RevokeVoiceModel { .. } => false,
            _ => true,
        }
    }
}

impl Outside {
    /// What goes with a command that needs no engine, and against which nothing but
    /// `registry_fault` is said.
    pub fn silent(registry_fault: Option<String>) -> (r: Outside)
        ensures
            r.registry_fault == registry_fault,
            r.child_registry_fault is None,
            r.setting_fault is None,
            r.ripple_fault is None,
            r.placed@ == (PlacedView { timeline: fresh_timeline(), affected: Seq::empty() }),
            r.cleared@ == Seq::<Timeline>::empty(),
            !r.trims_possible,
            r.ripple matches RippleOutcome::Refused(reason) && reason@ == Seq::<char>::empty(),
            r.unsplittable@ == Seq::<String>::empty(),
            r.partners@ == Seq::<Vec<String>>::empty(),
            r.fitted@ == Seq::<Clip>::empty(),
            r.sample == (ClipSample {
                opacity: Real::zero(),
                volume: Real::zero(),
                rotation: Real::zero(),
                position: AnimPair { a: Real::zero(), b: Real::zero() },
                scale: AnimPair { a: Real::zero(), b: Real::zero() },
                crop: no_crop(),
            }),
            r.top_left == (AnimPair { a: Real::zero(), b: Real::zero() }),
            r.mask_limits == (MaskLimits { per_clip: 0, polygon_points: 0 }),
    {
        let zero = AnimPair { a: Real::zero(), b: Real::zero() };
        let placed = Placed { timeline: Timeline::new(), affected: Vec::new() };
        assert(placed@.affected =~= Seq::empty());
        Outside {
            registry_fault,
            child_registry_fault: None,
            setting_fault: None,
            ripple_fault: None,
            placed,
            cleared: Vec::new(),
            trims_possible: false,
            ripple: RippleOutcome::Refused(String::new()),
            unsplittable: Vec::new(),
            partners: Vec::new(),
            fitted: Vec::new(),
            sample: ClipSample {
                opacity: Real::zero(),
                volume: Real::zero(),
                rotation: Real::zero(),
                position: zero,
                scale: zero,
                crop: Crop::none(),
            },
            top_left: zero,
            mask_limits: MaskLimits { per_clip: 0, polygon_points: 0 },
        }
    }
}

/// The linked clips that one assignment to several clips goes on to.
pub open spec fn first_partners(partners: Seq<Vec<String>>) -> Seq<Seq<char>> {
    if partners.len() > 0 {
        crate::text::texts(partners[0]@)
    } else {
        Seq::empty()
    }
}

impl EditCommand {
    /// Whether the command works on the root timeline, the media library or the
    /// project as a whole, and not on a child timeline.
    pub open spec fn for_root_only(self) -> bool {
        self is Undo || self is Redo || self is CreateNestedSequence
            || self is CreateNestedSequenceFromClips || self is EditNestedSequence
            || self is SetNestedSequenceTimeline || self is RenameNestedSequence
            || self is DissolveNestedSequence || self is PlaceMedia || self is CreateFolder
            || self is MoveToFolder || self is RenameMedia || self is RenameFolder
            || self is DeleteMedia || self is DeleteFolder || self is SetTimelineSettings
            || self is SaveScriptAssemblyPlan || self is ApplyScriptAssemblyPlan
            || self is SaveVoiceModel || self is RevokeVoiceModel
    }

    /// Whether the command works on the root timeline alone.
    pub fn is_for_root_only(&self) -> (r: bool)
        ensures
            r == self.for_root_only(),
    {
        match self {
            EditCommand::Undo => true,
            EditCommand::Redo => true,
            EditCommand::CreateNestedSequence { .. } => true,
            EditCommand::CreateNestedSequenceFromClips { .. } => true,
            EditCommand::EditNestedSequence { .. } => true,
            EditCommand::SetNestedSequenceTimeline { .. } => true,
            EditCommand::RenameNestedSequence { .. } => true,
            EditCommand::DissolveNestedSequence { .. } => true,
            EditCommand::PlaceMedia { .. } => true,
            EditCommand::CreateFolder { .. } => true,
            EditCommand::MoveToFolder { .. } => true,
            EditCommand::RenameMedia { .. } => true,
            EditCommand::RenameFolder { .. } => true,
            EditCommand::DeleteMedia { .. } => true,
            EditCommand::DeleteFolder { .. } => true,
            EditCommand::SetTimelineSettings { .. } => true,
            EditCommand::SaveScriptAssemblyPlan { .. } => true,
            EditCommand::ApplyScriptAssemblyPlan { .. } => true,
            EditCommand::SaveVoiceModel { .. } => true,
            EditCommand::RevokeVoiceModel { .. } => true,
            _ => false,
        }
    }
}

} // verus!
