//! Fresh timelines, tracks and clips.

use crate::model::full_canvas;
use crate::model::no_crop;
use crate::model::Clip;
use crate::model::ClipType;
use crate::model::ClipView;
use crate::model::Crop;
use crate::model::Interpolation;
use crate::model::MediaManifest;
use crate::model::MediaManifestView;
use crate::model::NestedSequence;
use crate::model::NestedSequenceView;
use crate::model::Real;
use crate::model::Timeline;
use crate::model::TimelineView;
use crate::model::Track;
use crate::model::TrackView;
use crate::model::Transform;
use crate::state::EditorState;
use crate::state::StateView;
use vstd::prelude::*;

verus! {

/// A video clip without edits.
pub open spec fn fresh_clip(
    id: Seq<char>,
    media_ref: Seq<char>,
    start_frame: i32,
    duration_frames: i32,
) -> ClipView {
    ClipView {
        id,
        media_ref,
        media_type: ClipType::Video,
        source_clip_type: ClipType::Video,
        start_frame,
        duration_frames,
        trim_start_frame: 0,
        trim_end_frame: 0,
        speed: Real::one(),
        volume: Real::one(),
        opacity: Real::one(),
        fade_in_frames: 0,
        fade_out_frames: 0,
        fade_in_interpolation: Interpolation::Linear,
        fade_out_interpolation: Interpolation::Linear,
        transform: full_canvas(),
        crop: no_crop(),
        link_group_id: None,
        caption_group_id: None,
        text_content: None,
        text_style: None,
        opacity_track: None,
        position_track: None,
        scale_track: None,
        rotation_track: None,
        crop_track: None,
        volume_track: None,
        color_grade: None,
        color_match_input: None,
        lut: None,
        chroma_key: None,
        masks: Seq::empty(),
        effects: Seq::empty(),
        transition_out: None,
        nested_sequence_id: None,
        reversed: false,
        loudness_normalization: None,
        audio_denoise: None,
        stabilization: None,
        caption_translation_input: None,
    }
}

/// A compound clip that shows a nested sequence from its start.
pub open spec fn fresh_compound(
    id: Seq<char>,
    sequence_id: Seq<char>,
    start_frame: i32,
    duration_frames: i32,
) -> ClipView {
    ClipView {
        nested_sequence_id: Some(sequence_id),
        ..fresh_clip(id, Seq::empty(), start_frame, duration_frames)
    }
}

/// An empty track, audible, visible and sync-locked.
pub open spec fn fresh_track(id: Seq<char>, kind: ClipType) -> TrackView {
    TrackView {
        id,
        kind,
        muted: false,
        hidden: false,
        sync_locked: true,
        clips: Seq::empty(),
    }
}

/// An empty timeline of 1920 by 1080 at 30 frames per second, whose settings were
/// not chosen yet.
pub open spec fn fresh_timeline() -> TimelineView {
    TimelineView {
        fps: 30,
        width: 1920,
        height: 1080,
        settings_configured: false,
        tracks: Seq::empty(),
        nested_sequences: Seq::empty(),
        script_assembly_plans: Seq::empty(),
        voice_models: Seq::empty(),
    }
}

/// A media library without media.
pub open spec fn fresh_manifest() -> MediaManifestView {
    MediaManifestView { entries: Seq::empty(), folders: Seq::empty() }
}

/// A state with an empty document and no history.
pub open spec fn fresh_state() -> StateView {
    StateView {
        timeline: fresh_timeline(),
        manifest: fresh_manifest(),
        undo_stack: Seq::empty(),
        redo_stack: Seq::empty(),
        version: 0,
    }
}

impl Clip {
    /// A video clip without edits.
    pub fn new(id: String, media_ref: String, start_frame: i32, duration_frames: i32) -> (r: Clip)
        ensures
            r@ == fresh_clip(id@, media_ref@, start_frame, duration_frames),
    {
        let r = Clip {
            id,
            media_ref,
            media_type: ClipType::Video,
            source_clip_type: ClipType::Video,
            start_frame,
            duration_frames,
            trim_start_frame: 0,
            trim_end_frame: 0,
            speed: Real::one(),
            volume: Real::one(),
            opacity: Real::one(),
            fade_in_frames: 0,
            fade_out_frames: 0,
            fade_in_interpolation: Interpolation::Linear,
            fade_out_interpolation: Interpolation::Linear,
            transform: Transform::identity(),
            crop: Crop::none(),
            link_group_id: None,
            caption_group_id: None,
            text_content: None,
            text_style: None,
            opacity_track: None,
            position_track: None,
            scale_track: None,
            rotation_track: None,
            crop_track: None,
            volume_track: None,
            color_grade: None,
            color_match_input: None,
            lut: None,
            chroma_key: None,
            masks: Vec::new(),
            effects: Vec::new(),
            transition_out: None,
            nested_sequence_id: None,
            reversed: false,
            loudness_normalization: None,
            audio_denoise: None,
            stabilization: None,
            caption_translation_input: None,
        };
        assert(r@.masks =~= Seq::empty());
        assert(r@.effects =~= Seq::empty());
        r
    }

    /// A compound clip that shows a nested sequence from its start.
    pub fn new_nested(
        id: String,
        sequence_id: String,
        start_frame: i32,
        duration_frames: i32,
    ) -> (r: Clip)
        ensures
            r@ == fresh_compound(id@, sequence_id@, start_frame, duration_frames),
    {
        let mut r = Clip::new(id, String::new(), start_frame, duration_frames);
        r.nested_sequence_id = Some(sequence_id);
        r
    }
}

impl Track {
    /// An empty track.
    pub fn new(id: String, kind: ClipType) -> (r: Track)
        ensures
            r@ == fresh_track(id@, kind),
    {
        let r = Track {
            id,
            kind,
            muted: false,
            hidden: false,
            sync_locked: true,
            clips: Vec::new(),
        };
        assert(r@.clips =~= Seq::empty());
        r
    }
}

impl NestedSequence {
    /// A named child timeline.
    pub fn new(id: String, name: String, timeline: Timeline) -> (r: NestedSequence)
        ensures
            r@ == (NestedSequenceView { id: id@, name: name@, timeline: timeline@ }),
    {
        NestedSequence { id, name, timeline }
    }
}

impl Timeline {
    /// An empty timeline.
    pub fn new() -> (r: Timeline)
        ensures
            r@ == fresh_timeline(),
    {
        let r = Timeline {
            fps: 30,
            width: 1920,
            height: 1080,
            settings_configured: false,
            tracks: Vec::new(),
            nested_sequences: Vec::new(),
            script_assembly_plans: Vec::new(),
            voice_models: Vec::new(),
        };
        assert(r@.tracks =~= Seq::empty());
        assert(r@.nested_sequences =~= Seq::empty());
        assert(r@.script_assembly_plans =~= Seq::empty());
        assert(r@.voice_models =~= Seq::empty());
        r
    }
}

impl MediaManifest {
    /// A media library without media.
    pub fn new() -> (r: MediaManifest)
        ensures
            r@ == fresh_manifest(),
    {
        let r = MediaManifest { entries: Vec::new(), folders: Vec::new() };
        assert(r@.entries =~= Seq::empty());
        assert(r@.folders =~= Seq::empty());
        r
    }
}

impl Default for EditorState {
    fn default() -> (r: EditorState)
        ensures
            r@ == fresh_state(),
    {
        EditorState::new(Timeline::new(), MediaManifest::new())
    }
}

} // verus!
