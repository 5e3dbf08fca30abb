//! Commands on documents: registration, settings of clips and tracks, keyframes.

use opentake::apply::apply;
use opentake::command::EditCommand;
use opentake::command::Outside;
use opentake::commands::effects::MaskLimits;
use opentake::commands::keyframes::ClipSample;
use opentake::commands::keyframes::KeyframeProperty;
use opentake::commands::keyframes::KeyframeValue;
use opentake::edit::EditError;
use opentake::edit::EditResult;
use opentake::entries::ClipEntry;
use opentake::entries::ClipProperties;
use opentake::ids::CoreIdGen;
use opentake::model::AnimPair;
use opentake::model::Clip;
use opentake::model::ClipType;
use opentake::model::Crop;
use opentake::model::Interpolation;
use opentake::model::Keyframe;
use opentake::model::KeyframeTrack;
use opentake::model::Mask;
use opentake::model::MediaFolder;
use opentake::model::MediaManifest;
use opentake::model::MediaManifestEntry;
use opentake::model::Real;
use opentake::model::Setting;
use opentake::model::Timeline;
use opentake::model::Track;
use opentake::model::Transform;
use opentake::state::transact;
use opentake::state::EditorState;
use opentake::state::Placed;
use opentake::state::Work;

fn num(x: f64) -> Real {
    Real { bits: x.to_bits() }
}

fn setting(rest: &str, numbers: &[f64]) -> Setting {
    Setting { numbers: numbers.iter().map(|x| num(*x)).collect(), rest: rest.to_string() }
}

fn holds(held: &Option<Setting>, expected: &Setting) -> bool {
    held.as_ref().is_some_and(|x| x.same(expected))
}

fn float(x: Real) -> f64 {
    f64::from_bits(x.bits)
}

fn ids() -> CoreIdGen {
    CoreIdGen::new("seq-")
}

fn plain() -> Outside {
    Outside::silent(None)
}

fn from_timeline(timeline: Timeline) -> EditorState {
    EditorState::new(timeline, MediaManifest::new())
}

fn new_clip(id: &str, media: &str, start: i32, duration: i32) -> Clip {
    Clip::new(id.to_string(), media.to_string(), start, duration)
}

fn new_track(id: &str, kind: ClipType) -> Track {
    Track::new(id.to_string(), kind)
}

fn run(state: &mut EditorState, ids: &mut CoreIdGen, command: EditCommand) -> Result<EditResult, EditError> {
    apply(state, command, ids, plain())
}

/// What placing the entries on fresh tracks, one for each, makes of a timeline. The
/// tracks get the ids that are minted first; the generator comes back as it stands after
/// the ids of the clips.
fn placed_on_new_tracks(
    timeline: &Timeline,
    ids: &CoreIdGen,
    entries: &[ClipEntry],
) -> (Outside, CoreIdGen) {
    let mut ids = ids.copy();
    let mut timeline = timeline.copy();
    let mut affected = Vec::new();
    let tracks: Vec<Track> =
        entries.iter().map(|e| new_track(&ids.next_id(), e.media_type)).collect();
    for (entry, mut track) in entries.iter().zip(tracks) {
        let mut clip = new_clip(
            &ids.next_id(),
            &entry.media_ref,
            entry.start_frame,
            entry.duration_frames,
        );
        clip.media_type = entry.media_type;
        clip.source_clip_type = entry.source_clip_type;
        affected.push(clip.id.clone());
        track.clips.push(clip);
        timeline.tracks.push(track);
    }
    (Outside { placed: Placed { timeline, affected }, ..plain() }, ids)
}

fn media(id: &str) -> MediaManifestEntry {
    MediaManifestEntry {
        id: id.to_string(),
        name: format!("{id}.mp4"),
        kind: ClipType::Video,
        source: format!("media/{id}.mp4"),
        duration: num(1.0),
        generation_input: None,
        source_width: Some(64),
        source_height: Some(36),
        source_fps: Some(num(30.0)),
        has_audio: Some(false),
        color: None,
        proxy: None,
        folder_id: None,
        favorite: false,
        global_favorite_id: None,
        cached_remote_url: None,
        cached_remote_url_expires_at: None,
    }
}

fn entry(media_ref: &str, track_index: usize) -> ClipEntry {
    ClipEntry {
        media_ref: media_ref.to_string(),
        media_type: ClipType::Video,
        source_clip_type: ClipType::Video,
        track_index,
        start_frame: 0,
        duration_frames: 30,
        trim_start_frame: None,
        trim_end_frame: None,
        has_audio: false,
        add_linked_audio: false,
        transform: None,
    }
}

/// A document in which a registered medium has been placed on a fresh track.
fn with_registered(state: &mut EditorState, ids: &mut CoreIdGen, id: &str) -> EditResult {
    let (outside, after) = placed_on_new_tracks(&state.timeline, ids, &[entry(id, 0)]);
    let result = apply(
        state,
        EditCommand::RegisterMediaAndAddClip {
            media: media(id),
            entry: entry(id, 0),
            auto_track: true,
        },
        ids,
        outside,
    )
    .unwrap();
    *ids = after;
    result
}

#[test]
fn register_and_add_is_one_undoable_document_transaction() {
    let mut state = EditorState::default();
    let mut ids = ids();
    let result = with_registered(&mut state, &mut ids, "motion-a");

    assert_eq!(result.action_name, "Add Motion Graphic");
    assert_eq!(state.manifest.entries.len(), 1);
    assert!(state.manifest.entries[0].same(&media("motion-a")));
    assert_eq!(state.timeline.tracks.len(), 1);
    assert_eq!(state.timeline.tracks[0].clips.len(), 1);
    assert_eq!(state.undo_depth(), 1);

    run(&mut state, &mut ids, EditCommand::Undo).unwrap();
    assert!(state.manifest.entries.is_empty());
    assert!(state.timeline.tracks.is_empty());
}

#[test]
fn failed_register_and_place_leaves_manifest_timeline_and_history_unchanged() {
    let mut state = EditorState::default();
    state.timeline.tracks.push(new_track("audio", ClipType::Audio));
    let before = state.copy();
    let error = run(
        &mut state,
        &mut ids(),
        EditCommand::RegisterMediaAndAddClip {
            media: media("motion-a"),
            entry: entry("motion-a", 0),
            auto_track: false,
        },
    )
    .unwrap_err();

    assert!(error.message().contains("not compatible"));
    assert!(state.timeline.same(&before.timeline));
    assert!(state.manifest.same(&before.manifest));
    assert_eq!(state.undo_depth(), before.undo_depth());
    assert_eq!(state.version(), before.version());
}

#[test]
fn register_and_swap_preserves_clip_identity_and_undo_restores_old_asset() {
    let mut state = EditorState::default();
    let mut ids = ids();
    let added = with_registered(&mut state, &mut ids, "motion-a");
    let clip_id = added.affected_clip_ids[0].clone();

    let edited = run(
        &mut state,
        &mut ids,
        EditCommand::RegisterMediaAndSwapClip {
            media: media("motion-b"),
            clip_id: clip_id.clone(),
        },
    )
    .unwrap();
    assert_eq!(edited.action_name, "Edit Motion Graphic");
    assert_eq!(edited.affected_clip_ids, vec![clip_id.clone()]);
    assert_eq!(state.manifest.entries.len(), 2);
    assert_eq!(state.timeline.tracks[0].clips[0].id, clip_id);
    assert_eq!(state.timeline.tracks[0].clips[0].media_ref, "motion-b");

    run(&mut state, &mut ids, EditCommand::Undo).unwrap();
    assert_eq!(state.manifest.entries.len(), 1);
    assert_eq!(state.timeline.tracks[0].clips[0].media_ref, "motion-a");
}

fn mask() -> Mask {
    Mask { polygon_points: None, encoded: setting("rectangle", &[]) }
}

#[test]
fn register_swap_and_clear_masks_is_one_reversible_transaction() {
    let mut state = EditorState::default();
    let mut ids = ids();
    let added = with_registered(&mut state, &mut ids, "source-a");
    let clip_id = added.affected_clip_ids[0].clone();
    state.timeline.tracks[0].clips[0].masks = vec![mask()];
    let undo_depth_before = state.undo_depth();

    let edited = run(
        &mut state,
        &mut ids,
        EditCommand::RegisterMediaAndSwapClipClearingMasks {
            media: media("object-removed-b"),
            clip_id: clip_id.clone(),
        },
    )
    .unwrap();

    assert_eq!(edited.action_name, "Remove Masked Object");
    assert_eq!(edited.affected_clip_ids, vec![clip_id]);
    assert_eq!(state.undo_depth(), undo_depth_before + 1);
    assert_eq!(state.manifest.entries.len(), 2);
    assert_eq!(state.timeline.tracks[0].clips[0].media_ref, "object-removed-b");
    assert!(state.timeline.tracks[0].clips[0].masks.is_empty());

    run(&mut state, &mut ids, EditCommand::Undo).unwrap();
    assert_eq!(state.manifest.entries.len(), 1);
    assert_eq!(state.timeline.tracks[0].clips[0].media_ref, "source-a");
    assert_eq!(state.timeline.tracks[0].clips[0].masks.len(), 1);
    assert!(state.timeline.tracks[0].clips[0].masks[0].same(&mask()));

    run(&mut state, &mut ids, EditCommand::Redo).unwrap();
    assert_eq!(state.manifest.entries.len(), 2);
    assert_eq!(state.timeline.tracks[0].clips[0].media_ref, "object-removed-b");
    assert!(state.timeline.tracks[0].clips[0].masks.is_empty());
}

#[test]
fn registering_wrong_media_is_refused() {
    let mut state = EditorState::default();
    let mut ids = ids();
    let mut other = entry("motion-a", 0);
    other.media_type = ClipType::Audio;
    let error = run(
        &mut state,
        &mut ids,
        EditCommand::RegisterMediaAndAddClip {
            media: media("motion-a"),
            entry: other,
            auto_track: true,
        },
    )
    .unwrap_err();
    assert_eq!(error.message(), "generated media type must match the placed clip type");
    let error = run(
        &mut state,
        &mut ids,
        EditCommand::RegisterMediaAndAddClip {
            media: media("motion-a"),
            entry: entry("motion-b", 0),
            auto_track: true,
        },
    )
    .unwrap_err();
    assert_eq!(error.message(), "placed clip must reference the generated media id");
}

#[test]
fn apply_color_match_is_one_undoable_edit_and_manual_grade_clears_provenance() {
    let mut state = EditorState::default();
    let mut ids = ids();
    run(&mut state, &mut ids, EditCommand::InsertTrack { kind: ClipType::Video, at: None }).unwrap();
    let clip_id = ids.next_id();
    state.timeline.tracks[0].clips.push(new_clip(&clip_id, "target", 10, 20));
    let undo_before = state.undo_depth();

    let grade = setting("temperature", &[0.2]);
    let input = setting(
        "reference 3 12 fixture-match 1",
        &[0.3, 0.2, 0.1, 0.1, 0.2, 0.3, 20.0, 1.0, 0.2, 0.2],
    );
    let result = run(
        &mut state,
        &mut ids,
        EditCommand::ApplyColorMatch {
            clip_id: clip_id.clone(),
            grade: grade.clone(),
            input: input.clone(),
        },
    )
    .unwrap();
    assert_eq!(result.action_name, "Match Color");
    assert_eq!(state.undo_depth(), undo_before + 1);
    assert!(holds(&state.timeline.tracks[0].clips[0].color_grade, &grade));
    assert!(holds(&state.timeline.tracks[0].clips[0].color_match_input, &input));

    run(&mut state, &mut ids, EditCommand::Undo).unwrap();
    assert!(state.timeline.tracks[0].clips[0].color_grade.is_none());
    assert!(state.timeline.tracks[0].clips[0].color_match_input.is_none());
    run(&mut state, &mut ids, EditCommand::Redo).unwrap();
    run(
        &mut state,
        &mut ids,
        EditCommand::SetColorGrade {
            clip_ids: vec![clip_id],
            grade: Some(setting("temperature", &[0.0])),
        },
    )
    .unwrap();
    assert!(state.timeline.tracks[0].clips[0].color_match_input.is_none());
}

#[test]
fn aligned_stems_use_separate_tracks_and_one_undo_entry() {
    let stem = |media_ref: &str| {
        let mut e = entry(media_ref, 0);
        e.media_type = ClipType::Audio;
        e.source_clip_type = ClipType::Audio;
        e.start_frame = 40;
        e.duration_frames = 100;
        e.has_audio = true;
        e
    };
    let mut state = EditorState::default();
    let mut ids = ids();
    let entries = vec![stem("vocals"), stem("accompaniment")];
    let (outside, _) = placed_on_new_tracks(&state.timeline, &ids, &entries);
    let result = apply(
        &mut state,
        EditCommand::AddClipsToSeparateAutoTracks { entries },
        &mut ids,
        outside,
    )
    .unwrap();
    assert_eq!(result.action_name, "Import Stems To Tracks");
    assert_eq!(result.affected_clip_ids.len(), 2);
    assert_eq!(state.timeline.tracks.len(), 2);
    assert!(state.timeline.tracks.iter().all(|track| {
        track.kind == ClipType::Audio
            && track.clips.len() == 1
            && track.clips[0].start_frame == 40
            && track.clips[0].duration_frames == 100
    }));
    assert_eq!(state.undo_depth(), 1);

    run(&mut state, &mut ids, EditCommand::Undo).unwrap();
    assert!(state.timeline.tracks.is_empty());
}

fn state_with_audio() -> EditorState {
    let mut timeline = Timeline::new();
    let mut track = new_track("a1", ClipType::Audio);
    let mut clip = new_clip("audio", "asset", 0, 90);
    clip.media_type = ClipType::Audio;
    clip.source_clip_type = ClipType::Audio;
    track.clips.push(clip);
    timeline.tracks.push(track);
    from_timeline(timeline)
}

#[test]
fn loudness_apply_reset_and_undo_are_one_step_operations() {
    let normalization = || setting("", &[-16.0, -1.0, -23.0, -8.0, 7.0, -16.0, -1.0]);
    let mut state = state_with_audio();
    let mut ids = ids();

    run(
        &mut state,
        &mut ids,
        EditCommand::SetLoudnessNormalization {
            clip_id: "audio".to_string(),
            normalization: Some(normalization()),
        },
    )
    .unwrap();
    assert!(holds(&state.timeline.tracks[0].clips[0].loudness_normalization, &normalization()));
    assert_eq!(state.undo_depth(), 1);

    run(&mut state, &mut ids, EditCommand::Undo).unwrap();
    assert!(state.timeline.tracks[0].clips[0].loudness_normalization.is_none());
    run(&mut state, &mut ids, EditCommand::Redo).unwrap();
    assert!(holds(&state.timeline.tracks[0].clips[0].loudness_normalization, &normalization()));

    run(
        &mut state,
        &mut ids,
        EditCommand::SetLoudnessNormalization { clip_id: "audio".to_string(), normalization: None },
    )
    .unwrap();
    assert!(state.timeline.tracks[0].clips[0].loudness_normalization.is_none());
    run(&mut state, &mut ids, EditCommand::Undo).unwrap();
    assert!(holds(&state.timeline.tracks[0].clips[0].loudness_normalization, &normalization()));
}

#[test]
fn denoise_apply_reset_and_undo_are_one_step_operations() {
    let config = || setting("voice preview", &[0.8]);
    let mut state = state_with_audio();

    run(
        &mut state,
        &mut ids(),
        EditCommand::SetAudioDenoise { clip_id: "audio".to_string(), denoise: Some(config()) },
    )
    .unwrap();
    assert!(holds(&state.timeline.tracks[0].clips[0].audio_denoise, &config()));
    assert_eq!(state.undo_depth(), 1);
    run(&mut state, &mut ids(), EditCommand::Undo).unwrap();
    assert!(state.timeline.tracks[0].clips[0].audio_denoise.is_none());
    run(&mut state, &mut ids(), EditCommand::Redo).unwrap();
    assert!(holds(&state.timeline.tracks[0].clips[0].audio_denoise, &config()));

    run(
        &mut state,
        &mut ids(),
        EditCommand::SetAudioDenoise { clip_id: "audio".to_string(), denoise: None },
    )
    .unwrap();
    assert!(state.timeline.tracks[0].clips[0].audio_denoise.is_none());
}

#[test]
fn a_setting_that_its_check_refuses_is_invalid() {
    let mut state = state_with_audio();
    let outside = Outside { setting_fault: Some("loudness out of range".to_string()), ..plain() };
    let error = apply(
        &mut state,
        EditCommand::SetLoudnessNormalization {
            clip_id: "audio".to_string(),
            normalization: Some(setting("", &[90.0])),
        },
        &mut ids(),
        outside,
    )
    .unwrap_err();
    assert!(matches!(error, EditError::Invalid(_)));
    assert!(state.timeline.tracks[0].clips[0].loudness_normalization.is_none());
}

#[test]
fn masks_are_limited_by_count_and_by_corners() {
    let mut state = from_timeline(Timeline::new());
    let mut track = new_track("v1", ClipType::Video);
    track.clips.push(new_clip("c1", "asset", 0, 30));
    state.timeline.tracks.push(track);
    let limits = || Outside {
        mask_limits: MaskLimits { per_clip: 1, polygon_points: 3 },
        ..plain()
    };
    let set = |masks: Vec<Mask>| EditCommand::SetMasks { clip_ids: vec!["c1".to_string()], masks };
    let polygon = |points: usize| Mask {
        polygon_points: Some(points),
        encoded: setting("polygon", &[]),
    };
    assert!(apply(&mut state, set(vec![mask(), mask()]), &mut ids(), limits()).is_err());
    assert!(apply(&mut state, set(vec![polygon(4)]), &mut ids(), limits()).is_err());
    assert!(apply(&mut state, set(vec![polygon(3)]), &mut ids(), limits()).unwrap().changed);
    assert_eq!(state.timeline.tracks[0].clips[0].masks.len(), 1);
}

#[test]
fn failed_transaction_restores_document_and_history() {
    let mut state = EditorState::default();
    let before = state.copy();

    let error = transact(
        &mut state,
        "Injected Failure",
        "",
        Err(EditError::Invalid("injected after mutation".to_string())),
        &None,
    )
    .unwrap_err();

    assert!(matches!(&error, EditError::Invalid(m) if m == "injected after mutation"));
    assert!(state.timeline.same(&before.timeline));
    assert!(state.manifest.same(&before.manifest));
    assert_eq!(state.version(), 0);
    assert!(!state.can_undo());
    assert!(!state.can_redo());

    // Work that fails the checks after it ran leaves no trace either.
    let mut timeline = state.timeline.copy();
    timeline.fps = 60;
    let mut manifest = state.manifest.copy();
    manifest.folders.push(MediaFolder {
        id: "partial-folder".to_string(),
        name: "Partial".to_string(),
        parent_folder_id: None,
    });
    let error = transact(
        &mut state,
        "Injected Failure",
        "",
        Ok(Work { timeline, manifest, affected: Vec::new() }),
        &Some("injected after mutation".to_string()),
    )
    .unwrap_err();
    assert_eq!(error.message(), "injected after mutation");
    assert!(state.timeline.same(&before.timeline));
    assert!(state.manifest.same(&before.manifest));
    assert_eq!(state.version(), 0);
}

fn overflowing_track() -> Track {
    let mut track = new_track("invalid", ClipType::Video);
    track.clips.push(new_clip("overflow", "asset", i32::MAX, 1));
    track
}

#[test]
fn undo_and_redo_refuse_invalid_history_snapshots_atomically() {
    let mut ids = CoreIdGen::new("history-preflight-");
    let fresh = format!("{:?}", ids);

    let mut undo_state = EditorState::default();
    let mut invalid = undo_state.timeline.copy();
    invalid.tracks.push(overflowing_track());
    let manifest = undo_state.manifest.copy();
    let valid = undo_state.timeline.copy();
    undo_state.timeline = invalid;
    undo_state.commit(valid, manifest, "Injected Invalid Undo");
    let before = undo_state.copy();

    assert!(run(&mut undo_state, &mut ids, EditCommand::Undo).is_err());
    assert!(undo_state.timeline.same(&before.timeline));
    assert!(undo_state.manifest.same(&before.manifest));
    assert_eq!(undo_state.version(), before.version());
    assert_eq!(undo_state.undo_depth(), before.undo_depth());
    assert_eq!(undo_state.can_redo(), before.can_redo());

    let mut redo_state = EditorState::default();
    let mut invalid = redo_state.timeline.copy();
    invalid.tracks.push(overflowing_track());
    let manifest = redo_state.manifest.copy();
    redo_state.commit(invalid, manifest, "Injected Invalid Redo");
    assert!(redo_state.undo());
    let before = redo_state.copy();

    assert!(run(&mut redo_state, &mut ids, EditCommand::Redo).is_err());
    assert!(redo_state.timeline.same(&before.timeline));
    assert!(redo_state.manifest.same(&before.manifest));
    assert_eq!(redo_state.version(), before.version());
    assert_eq!(redo_state.undo_depth(), before.undo_depth());
    assert_eq!(redo_state.can_redo(), before.can_redo());
    assert_eq!(format!("{:?}", ids), fresh);
}

#[test]
fn insert_track_on_empty_timeline_creates_compatible_track() {
    let mut state = EditorState::default();
    let mut ids = ids();
    assert_eq!(state.timeline.tracks.len(), 0);

    let res = run(&mut state, &mut ids, EditCommand::InsertTrack { kind: ClipType::Video, at: None })
        .unwrap();
    assert!(res.changed);
    assert_eq!(state.timeline.tracks.len(), 1);
    assert_eq!(state.timeline.tracks[0].kind, ClipType::Video);

    run(&mut state, &mut ids, EditCommand::InsertTrack { kind: ClipType::Audio, at: None }).unwrap();
    assert_eq!(state.timeline.tracks.len(), 2);
    assert_eq!(state.timeline.tracks[1].kind, ClipType::Audio);
}

#[test]
fn insert_track_honors_requested_index() {
    let mut state = EditorState::default();
    let mut ids = ids();

    run(&mut state, &mut ids, EditCommand::InsertTrack { kind: ClipType::Video, at: None }).unwrap();
    let first_id = state.timeline.tracks[0].id.clone();
    run(&mut state, &mut ids, EditCommand::InsertTrack { kind: ClipType::Audio, at: None }).unwrap();
    run(&mut state, &mut ids, EditCommand::InsertTrack { kind: ClipType::Video, at: Some(0) })
        .unwrap();

    assert_eq!(state.timeline.tracks[1].id, first_id);
    assert_eq!(state.timeline.tracks[0].kind, ClipType::Video);
    assert_eq!(state.timeline.tracks[2].kind, ClipType::Audio);
}

#[test]
fn set_track_props_toggles_only_given_fields() {
    let mut state = EditorState::default();
    let mut ids = ids();
    run(&mut state, &mut ids, EditCommand::InsertTrack { kind: ClipType::Audio, at: None }).unwrap();
    let prev_sync = state.timeline.tracks[0].sync_locked;
    let res = run(
        &mut state,
        &mut ids,
        EditCommand::SetTrackProps {
            track_index: 0,
            muted: Some(true),
            hidden: Some(true),
            sync_locked: None,
        },
    )
    .unwrap();
    assert!(res.changed);
    assert!(state.timeline.tracks[0].muted);
    assert!(state.timeline.tracks[0].hidden);
    assert_eq!(state.timeline.tracks[0].sync_locked, prev_sync);
}

#[test]
fn set_track_props_out_of_range_errors() {
    let mut state = EditorState::default();
    let err = run(
        &mut state,
        &mut ids(),
        EditCommand::SetTrackProps {
            track_index: 5,
            muted: Some(true),
            hidden: None,
            sync_locked: None,
        },
    );
    assert!(err.is_err());
}

/// A state with one video track and one clip at [100, 130).
fn make_state_with_clip() -> (EditorState, CoreIdGen, String) {
    let mut state = EditorState::default();
    let mut ids = ids();
    run(&mut state, &mut ids, EditCommand::InsertTrack { kind: ClipType::Video, at: None }).unwrap();
    let clip_id = ids.next_id();
    state.timeline.tracks[0].clips.push(new_clip(&clip_id, "asset1", 100, 30));
    (state, ids, clip_id)
}

fn kf(frame: i32, value: f64) -> Keyframe<Real> {
    Keyframe { frame, value: num(value), interpolation_out: Interpolation::Smooth }
}

fn clip_of<'a>(state: &'a EditorState, clip_id: &str) -> &'a Clip {
    state
        .timeline
        .tracks
        .iter()
        .flat_map(|track| &track.clips)
        .find(|clip| clip.id == clip_id)
        .unwrap()
}

fn set_opacity_track(state: &mut EditorState, keyframes: Vec<Keyframe<Real>>) {
    state.timeline.tracks[0].clips[0].opacity_track = Some(KeyframeTrack { keyframes });
}

fn opacity_track_kfs(state: &EditorState, clip_id: &str) -> Vec<(i32, f64, Interpolation)> {
    match &clip_of(state, clip_id).opacity_track {
        Some(t) => t
            .keyframes
            .iter()
            .map(|k| (k.frame, float(k.value), k.interpolation_out))
            .collect(),
        None => Vec::new(),
    }
}

/// The sample of a clip that is not animated.
fn unanimated() -> Outside {
    Outside {
        sample: ClipSample {
            opacity: num(1.0),
            volume: num(0.0),
            rotation: num(0.0),
            position: AnimPair { a: num(0.5), b: num(0.5) },
            scale: AnimPair { a: num(1.0), b: num(1.0) },
            crop: Crop::none(),
        },
        ..plain()
    }
}

fn stamp(clip_id: &str, frame: i32) -> EditCommand {
    EditCommand::StampKeyframe {
        clip_id: clip_id.to_string(),
        property: KeyframeProperty::Opacity,
        frame,
    }
}

#[test]
fn stamp_keyframe_creates_track_when_absent() {
    let (mut state, mut ids, clip_id) = make_state_with_clip();
    assert!(clip_of(&state, &clip_id).opacity_track.is_none());

    let res = apply(&mut state, stamp(&clip_id, 110), &mut ids, unanimated()).unwrap();
    assert!(res.changed);
    assert_eq!(res.affected_clip_ids, vec![clip_id.clone()]);

    let kfs = opacity_track_kfs(&state, &clip_id);
    assert_eq!(kfs.len(), 1);
    assert_eq!(kfs[0].0, 10);
    approx(kfs[0].1, 1.0);
}

#[test]
fn stamp_keyframe_upserts_existing() {
    let (mut state, mut ids, clip_id) = make_state_with_clip();
    set_opacity_track(&mut state, vec![kf(10, 0.5)]);
    apply(&mut state, stamp(&clip_id, 110), &mut ids, unanimated()).unwrap();
    let kfs = opacity_track_kfs(&state, &clip_id);
    assert_eq!(kfs.len(), 1);
    assert_eq!(kfs[0].0, 10);
}

#[test]
fn stamp_keyframe_clip_not_found() {
    let (mut state, mut ids, _clip_id) = make_state_with_clip();
    assert!(apply(&mut state, stamp("nonexistent", 110), &mut ids, unanimated()).is_err());
}

#[test]
fn stamp_keyframe_frame_outside_clip() {
    let (mut state, mut ids, clip_id) = make_state_with_clip();
    assert!(apply(&mut state, stamp(&clip_id, 200), &mut ids, unanimated()).is_err());
}

#[test]
fn remove_keyframe_deletes_and_clears_empty_track() {
    let (mut state, mut ids, clip_id) = make_state_with_clip();
    set_opacity_track(&mut state, vec![kf(10, 0.5)]);
    run(
        &mut state,
        &mut ids,
        EditCommand::RemoveKeyframe {
            clip_id: clip_id.clone(),
            property: KeyframeProperty::Opacity,
            frame: 110,
        },
    )
    .unwrap();
    assert!(clip_of(&state, &clip_id).opacity_track.is_none());
}

#[test]
fn remove_keyframe_not_found() {
    let (mut state, mut ids, clip_id) = make_state_with_clip();
    set_opacity_track(&mut state, vec![kf(0, 0.5)]);
    let err = run(
        &mut state,
        &mut ids,
        EditCommand::RemoveKeyframe { clip_id, property: KeyframeProperty::Opacity, frame: 110 },
    );
    assert!(err.is_err());
}

fn shift(clip_id: &str, from_frame: i32, to_frame: i32) -> EditCommand {
    EditCommand::MoveKeyframe {
        clip_id: clip_id.to_string(),
        property: KeyframeProperty::Opacity,
        from_frame,
        to_frame,
    }
}

#[test]
fn move_keyframe_to_empty() {
    let (mut state, mut ids, clip_id) = make_state_with_clip();
    set_opacity_track(&mut state, vec![kf(0, 0.5)]);
    run(&mut state, &mut ids, shift(&clip_id, 100, 110)).unwrap();
    let kfs = opacity_track_kfs(&state, &clip_id);
    assert_eq!(kfs.len(), 1);
    assert_eq!(kfs[0].0, 10);
}

#[test]
fn move_keyframe_target_occupied() {
    let (mut state, mut ids, clip_id) = make_state_with_clip();
    set_opacity_track(&mut state, vec![kf(0, 0.0), kf(10, 1.0)]);
    assert!(run(&mut state, &mut ids, shift(&clip_id, 100, 110)).is_err());
}

#[test]
fn move_keyframe_source_missing() {
    let (mut state, mut ids, clip_id) = make_state_with_clip();
    set_opacity_track(&mut state, vec![kf(0, 0.5)]);
    assert!(run(&mut state, &mut ids, shift(&clip_id, 115, 120)).is_err());
}

#[test]
fn move_keyframe_target_outside_clip() {
    let (mut state, mut ids, clip_id) = make_state_with_clip();
    set_opacity_track(&mut state, vec![kf(0, 0.5)]);
    assert!(run(&mut state, &mut ids, shift(&clip_id, 100, 200)).is_err());
}

#[test]
fn set_keyframe_interpolation_changes_mode() {
    let (mut state, mut ids, clip_id) = make_state_with_clip();
    set_opacity_track(&mut state, vec![kf(0, 0.5)]);
    assert_eq!(opacity_track_kfs(&state, &clip_id)[0].2, Interpolation::Smooth);
    run(
        &mut state,
        &mut ids,
        EditCommand::SetKeyframeInterpolation {
            clip_id: clip_id.clone(),
            property: KeyframeProperty::Opacity,
            frame: 100,
            interpolation: Interpolation::Linear,
        },
    )
    .unwrap();
    assert_eq!(opacity_track_kfs(&state, &clip_id)[0].2, Interpolation::Linear);
}

#[test]
fn set_keyframe_interpolation_kf_not_found() {
    let (mut state, mut ids, clip_id) = make_state_with_clip();
    set_opacity_track(&mut state, vec![kf(0, 0.5)]);
    let err = run(
        &mut state,
        &mut ids,
        EditCommand::SetKeyframeInterpolation {
            clip_id,
            property: KeyframeProperty::Opacity,
            frame: 115,
            interpolation: Interpolation::Linear,
        },
    );
    assert!(err.is_err());
}

fn upsert(clip_id: &str, property: KeyframeProperty, frame: i32, value: KeyframeValue) -> EditCommand {
    EditCommand::UpsertKeyframe { clip_id: clip_id.to_string(), property, frame, value }
}

#[test]
fn creates_track_on_clean_clip() {
    let (mut state, mut ids, clip_id) = make_state_with_clip();
    assert!(clip_of(&state, &clip_id).opacity_track.is_none());
    let res = run(
        &mut state,
        &mut ids,
        upsert(&clip_id, KeyframeProperty::Opacity, 110, KeyframeValue::Scalar(num(0.25))),
    )
    .unwrap();
    assert!(res.changed);
    assert_eq!(res.affected_clip_ids, vec![clip_id.clone()]);
    let kfs = opacity_track_kfs(&state, &clip_id);
    assert_eq!(kfs.len(), 1);
    assert_eq!((kfs[0].0, kfs[0].1), (10, 0.25));
}

#[test]
fn upsert_at_existing_rel_overwrites_value() {
    let (mut state, mut ids, clip_id) = make_state_with_clip();
    set_opacity_track(&mut state, vec![kf(10, 0.5)]);
    run(
        &mut state,
        &mut ids,
        upsert(&clip_id, KeyframeProperty::Opacity, 110, KeyframeValue::Scalar(num(0.9))),
    )
    .unwrap();
    let kfs = opacity_track_kfs(&state, &clip_id);
    assert_eq!(kfs.len(), 1);
    assert_eq!((kfs[0].0, kfs[0].1), (10, 0.9));
}

#[test]
fn wrong_value_variant_for_property_is_invalid() {
    let (mut state, mut ids, clip_id) = make_state_with_clip();
    let pair = KeyframeValue::Pair(AnimPair { a: num(0.0), b: num(0.0) });
    let err = run(&mut state, &mut ids, upsert(&clip_id, KeyframeProperty::Opacity, 110, pair));
    assert!(matches!(err, Err(EditError::Invalid(_))));
    let err = run(
        &mut state,
        &mut ids,
        upsert(&clip_id, KeyframeProperty::Position, 110, KeyframeValue::Scalar(num(1.0))),
    );
    assert!(matches!(err, Err(EditError::Invalid(_))));
    let err = run(
        &mut state,
        &mut ids,
        upsert(&clip_id, KeyframeProperty::Crop, 110, KeyframeValue::Scalar(num(1.0))),
    );
    assert!(matches!(err, Err(EditError::Invalid(_))));
}

#[test]
fn frame_outside_clip_range_is_invalid() {
    let (mut state, mut ids, clip_id) = make_state_with_clip();
    let err = run(
        &mut state,
        &mut ids,
        upsert(&clip_id, KeyframeProperty::Opacity, 200, KeyframeValue::Scalar(num(0.5))),
    );
    assert!(matches!(err, Err(EditError::Invalid(_))));
}

#[test]
fn clip_not_found_is_invalid() {
    let (mut state, mut ids, _clip_id) = make_state_with_clip();
    let err = run(
        &mut state,
        &mut ids,
        upsert("nonexistent", KeyframeProperty::Opacity, 110, KeyframeValue::Scalar(num(0.5))),
    );
    assert!(matches!(err, Err(EditError::Invalid(_))));
}

#[test]
fn rel_offset_computed_from_nonzero_start_frame_and_value_round_trips() {
    let (mut state, mut ids, clip_id) = make_state_with_clip();
    let pair = KeyframeValue::Pair(AnimPair { a: num(0.3), b: num(0.7) });
    run(&mut state, &mut ids, upsert(&clip_id, KeyframeProperty::Position, 115, pair)).unwrap();
    let track = clip_of(&state, &clip_id).position_track.as_ref().expect("position track");
    assert_eq!(track.keyframes.len(), 1);
    assert_eq!(track.keyframes[0].frame, 15);
    approx(float(track.keyframes[0].value.a), 0.3);
    approx(float(track.keyframes[0].value.b), 0.7);

    let crop = Crop { left: num(0.1), top: num(0.2), right: num(0.3), bottom: num(0.4) };
    run(
        &mut state,
        &mut ids,
        upsert(&clip_id, KeyframeProperty::Crop, 120, KeyframeValue::Crop(crop)),
    )
    .unwrap();
    let track = clip_of(&state, &clip_id).crop_track.as_ref().expect("crop track");
    assert_eq!(track.keyframes[0].frame, 20);
    assert_eq!(track.keyframes[0].value, crop);

    run(
        &mut state,
        &mut ids,
        upsert(&clip_id, KeyframeProperty::Volume, 125, KeyframeValue::Scalar(num(-6.0))),
    )
    .unwrap();
    let track = clip_of(&state, &clip_id).volume_track.as_ref().expect("volume track");
    assert_eq!(track.keyframes[0].frame, 25);
    approx(float(track.keyframes[0].value), -6.0);
}

fn approx(a: f64, b: f64) {
    assert!((a - b).abs() < 1e-9, "{a} != {b}");
}

fn no_properties() -> ClipProperties {
    ClipProperties {
        duration_frames: None,
        trim_start_frame: None,
        trim_end_frame: None,
        speed: None,
        volume: None,
        opacity: None,
        transform: None,
        text_content: None,
        text_style: None,
        crop: None,
        fade_in_frames: None,
        fade_out_frames: None,
        fade_in_interpolation: None,
        fade_out_interpolation: None,
        flip_horizontal: None,
        flip_vertical: None,
        reversed: None,
    }
}

fn state_with_text_clip() -> EditorState {
    let mut tl = Timeline::new();
    let mut t = new_track("v1", ClipType::Video);
    let mut clip = new_clip("c1", "", 0, 30);
    clip.media_type = ClipType::Text;
    clip.source_clip_type = ClipType::Text;
    clip.text_content = Some("Hi".to_string());
    clip.text_style = Some(setting("Helvetica-Bold", &[96.0]));
    t.clips.push(clip);
    tl.tracks.push(t);
    from_timeline(tl)
}

#[test]
fn set_text_style_replaces_clip_style_and_is_undoable() {
    let mut state = state_with_text_clip();
    let mut ids = ids();
    let version_before = state.version();
    let res = run(
        &mut state,
        &mut ids,
        EditCommand::SetClipProperties {
            clip_ids: vec!["c1".to_string()],
            properties: Box::new(ClipProperties {
                text_style: Some(setting("Times-Bold left", &[48.0])),
                ..no_properties()
            }),
        },
    )
    .unwrap();
    assert!(res.changed);
    let applied = &state.timeline.tracks[0].clips[0].text_style;
    assert!(holds(applied, &setting("Times-Bold left", &[48.0])));

    run(&mut state, &mut ids, EditCommand::Undo).unwrap();
    let restored = &state.timeline.tracks[0].clips[0].text_style;
    assert!(holds(restored, &setting("Helvetica-Bold", &[96.0])));
    assert_eq!(state.version(), version_before + 2);
}

#[test]
fn set_text_style_alongside_text_content() {
    let mut state = state_with_text_clip();
    run(
        &mut state,
        &mut ids(),
        EditCommand::SetClipProperties {
            clip_ids: vec!["c1".to_string()],
            properties: Box::new(ClipProperties {
                text_content: Some("Updated".to_string()),
                text_style: Some(setting("Helvetica-Bold", &[120.0])),
                ..no_properties()
            }),
        },
    )
    .unwrap();
    let clip = &state.timeline.tracks[0].clips[0];
    assert_eq!(clip.text_content.as_deref(), Some("Updated"));
    assert!(holds(&clip.text_style, &setting("Helvetica-Bold", &[120.0])));
}

#[test]
fn set_clip_properties_reversed_sets_only_requested_clip() {
    let mut tl = Timeline::new();
    let mut t = new_track("v1", ClipType::Video);
    t.clips.push(new_clip("c1", "asset", 0, 30));
    t.clips.push(new_clip("c2", "asset", 40, 30));
    tl.tracks.push(t);
    let mut state = from_timeline(tl);
    let before = state.timeline.copy();

    let result = run(
        &mut state,
        &mut ids(),
        EditCommand::SetClipProperties {
            clip_ids: vec!["c1".to_string()],
            properties: Box::new(ClipProperties { reversed: Some(true), ..no_properties() }),
        },
    )
    .unwrap();

    assert!(result.changed);
    assert!(clip_of(&state, "c1").reversed);
    assert!(!clip_of(&state, "c2").reversed);
    assert!(!state.timeline.same(&before));
}

fn make_state_with_animated_clip() -> (EditorState, CoreIdGen, String, String) {
    let mut state = EditorState::default();
    let mut ids = ids();
    run(&mut state, &mut ids, EditCommand::InsertTrack { kind: ClipType::Video, at: None }).unwrap();
    let clip_id = ids.next_id();
    let mut clip = new_clip(&clip_id, "asset1", 0, 30);
    clip.transform = Transform {
        center_x: num(0.25),
        center_y: num(0.75),
        width: num(2.0),
        height: num(3.0),
        rotation: num(45.0),
        flip_horizontal: true,
        flip_vertical: true,
    };
    clip.opacity = num(0.5);
    clip.opacity_track = Some(KeyframeTrack { keyframes: vec![kf(0, 0.2)] });
    let pair = |x: f64| KeyframeTrack {
        keyframes: vec![Keyframe {
            frame: 0,
            value: AnimPair { a: num(x), b: num(x) },
            interpolation_out: Interpolation::Smooth,
        }],
    };
    clip.position_track = Some(pair(0.1));
    clip.scale_track = Some(pair(1.5));
    clip.rotation_track = Some(KeyframeTrack { keyframes: vec![kf(0, 90.0)] });
    clip.crop = even_crop(0.1);
    clip.crop_track = Some(KeyframeTrack {
        keyframes: vec![Keyframe {
            frame: 0,
            value: even_crop(0.2),
            interpolation_out: Interpolation::Smooth,
        }],
    });
    clip.fade_in_frames = 10;
    clip.fade_out_frames = 10;
    clip.fade_in_interpolation = Interpolation::Smooth;
    clip.fade_out_interpolation = Interpolation::Smooth;
    state.timeline.tracks[0].clips.push(clip);

    let other_id = ids.next_id();
    let mut other = new_clip(&other_id, "asset2", 40, 30);
    other.transform.rotation = num(30.0);
    other.opacity = num(0.7);
    state.timeline.tracks[0].clips.push(other);
    (state, ids, clip_id, other_id)
}

fn even_crop(x: f64) -> Crop {
    Crop { left: num(x), top: num(x), right: num(x), bottom: num(x) }
}

#[test]
fn reset_transform_restores_defaults_and_clears_exactly_the_upstream_tracks() {
    let (mut state, mut ids, clip_id, _other_id) = make_state_with_animated_clip();
    let res = run(
        &mut state,
        &mut ids,
        EditCommand::ResetTransform { clip_ids: vec![clip_id.clone()] },
    )
    .unwrap();
    assert!(res.changed);
    assert_eq!(res.affected_clip_ids, vec![clip_id.clone()]);

    let clip = clip_of(&state, &clip_id);
    assert_eq!(clip.transform, Transform::identity());
    assert_eq!(float(clip.transform.center_x), 0.5);
    assert_eq!(float(clip.transform.center_y), 0.5);
    assert_eq!(float(clip.transform.width), 1.0);
    assert_eq!(float(clip.transform.height), 1.0);
    assert_eq!(float(clip.transform.rotation), 0.0);
    assert!(!clip.transform.flip_horizontal);
    assert!(!clip.transform.flip_vertical);

    assert_eq!(float(clip.opacity), 1.0);

    assert!(clip.opacity_track.is_none());
    assert!(clip.position_track.is_none());
    assert!(clip.scale_track.is_none());
    assert!(clip.rotation_track.is_none());

    assert_eq!(clip.fade_in_frames, 0);
    assert_eq!(clip.fade_out_frames, 0);
    assert_eq!(clip.fade_in_interpolation, Interpolation::Linear);
    assert_eq!(clip.fade_out_interpolation, Interpolation::Linear);

    assert_eq!(clip.crop, even_crop(0.1));
    assert!(clip.crop_track.is_some());
}

#[test]
fn reset_transform_leaves_other_clips_untouched() {
    let (mut state, mut ids, clip_id, other_id) = make_state_with_animated_clip();
    run(&mut state, &mut ids, EditCommand::ResetTransform { clip_ids: vec![clip_id] }).unwrap();
    let other = clip_of(&state, &other_id);
    assert_eq!(float(other.transform.rotation), 30.0);
    assert_eq!(float(other.opacity), 0.7);
}

#[test]
fn reset_transform_is_undoable() {
    let (mut state, mut ids, clip_id, _other_id) = make_state_with_animated_clip();
    let version_before = state.version();
    run(&mut state, &mut ids, EditCommand::ResetTransform { clip_ids: vec![clip_id.clone()] })
        .unwrap();
    run(&mut state, &mut ids, EditCommand::Undo).unwrap();
    let clip = clip_of(&state, &clip_id);
    assert_eq!(float(clip.transform.rotation), 45.0);
    assert_eq!(float(clip.opacity), 0.5);
    assert!(clip.opacity_track.is_some());
    assert_eq!(state.version(), version_before + 2);
}

#[test]
fn reset_transform_missing_clip_errors_with_no_change() {
    let mut state = EditorState::default();
    let version_before = state.version();
    let err = run(
        &mut state,
        &mut ids(),
        EditCommand::ResetTransform { clip_ids: vec!["does-not-exist".to_string()] },
    );
    assert!(err.is_err());
    assert_eq!(state.version(), version_before);
}

#[test]
fn reset_transform_empty_clip_ids_errors() {
    let mut state = EditorState::default();
    let err = run(&mut state, &mut ids(), EditCommand::ResetTransform { clip_ids: vec![] });
    assert!(err.is_err());
}

#[test]
fn reset_transform_noop_when_already_default_reports_unchanged() {
    let mut state = EditorState::default();
    let mut ids = ids();
    run(&mut state, &mut ids, EditCommand::InsertTrack { kind: ClipType::Video, at: None }).unwrap();
    let clip_id = ids.next_id();
    state.timeline.tracks[0].clips.push(new_clip(&clip_id, "asset1", 0, 30));
    let version_before = state.version();
    let res = run(&mut state, &mut ids, EditCommand::ResetTransform { clip_ids: vec![clip_id] })
        .unwrap();
    assert!(!res.changed);
    assert_eq!(state.version(), version_before);
}

/// Changes the settings of a timeline without clips, on which no frame is carried.
fn set_settings(
    state: &mut EditorState,
    ids: &mut CoreIdGen,
    fps: i32,
    width: i32,
    height: i32,
) -> Result<EditResult, EditError> {
    let outside = Outside {
        placed: Placed { timeline: state.timeline.copy(), affected: Vec::new() },
        ..plain()
    };
    apply(state, EditCommand::SetTimelineSettings { fps, width, height }, ids, outside)
}

#[test]
fn set_timeline_settings_changes_dims_and_bumps_version() {
    let mut state = EditorState::default();
    let version_before = state.version();
    let res = set_settings(&mut state, &mut ids(), 30, 1080, 1920).unwrap();
    assert!(res.changed);
    assert_eq!((state.timeline.width, state.timeline.height), (1080, 1920));
    assert!(state.timeline.settings_configured);
    assert_eq!(state.version(), version_before + 1);
}

#[test]
fn set_timeline_settings_is_undoable() {
    let mut state = EditorState::default();
    let mut ids = ids();
    let (w0, h0, fps0) = (state.timeline.width, state.timeline.height, state.timeline.fps);
    set_settings(&mut state, &mut ids, 60, 2560, 1080).unwrap();
    assert_eq!(state.timeline.width, 2560);
    let undo = run(&mut state, &mut ids, EditCommand::Undo).unwrap();
    assert!(undo.changed);
    assert_eq!(
        (state.timeline.width, state.timeline.height, state.timeline.fps),
        (w0, h0, fps0)
    );
}

#[test]
fn set_timeline_settings_rejects_nonpositive() {
    let mut state = EditorState::default();
    assert!(set_settings(&mut state, &mut ids(), 0, 1920, 1080).is_err());
}

#[test]
fn set_timeline_settings_noop_when_identical_and_configured() {
    let mut state = EditorState::default();
    let mut ids = ids();
    set_settings(&mut state, &mut ids, 30, 1920, 1080).unwrap();
    let version_before = state.version();
    let res = set_settings(&mut state, &mut ids, 30, 1920, 1080).unwrap();
    assert!(!res.changed);
    assert_eq!(state.version(), version_before);
}
