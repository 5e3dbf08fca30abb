//! Commands that put clips on the timeline: captions, texts, scripts, copies, stills.

use opentake::apply::apply;
use opentake::command::EditCommand;
use opentake::command::Outside;
use opentake::commands::captions::add_top_track;
use opentake::commands::captions::place_text;
use opentake::edit::EditError;
use opentake::edit::EditResult;
use opentake::entries::CaptionEntry;
use opentake::entries::CaptionTranslationChange;
use opentake::entries::ClipProperties;
use opentake::entries::TextAutoTrackEntry;
use opentake::ids::CoreIdGen;
use opentake::model::CaptionTranslationInput;
use opentake::model::Clip;
use opentake::model::ClipType;
use opentake::model::Interpolation;
use opentake::model::Keyframe;
use opentake::model::KeyframeTrack;
use opentake::model::MediaManifest;
use opentake::model::MediaManifestEntry;
use opentake::model::Real;
use opentake::model::Setting;
use opentake::model::ScriptAssemblyPlan;
use opentake::model::ScriptSegment;
use opentake::model::Timeline;
use opentake::model::Track;
use opentake::model::Transform;
use opentake::model::TransitionKind;
use opentake::state::EditorState;
use opentake::state::Placed;

fn num(x: f64) -> Real {
    Real { bits: x.to_bits() }
}

fn setting(rest: &str, numbers: &[f64]) -> Setting {
    Setting { numbers: numbers.iter().map(|x| num(*x)).collect(), rest: rest.to_string() }
}

fn plain() -> Outside {
    Outside::silent(None)
}

fn run(state: &mut EditorState, ids: &mut CoreIdGen, command: EditCommand) -> Result<EditResult, EditError> {
    apply(state, command, ids, plain())
}

fn new_clip(id: &str, media: &str, start: i32, duration: i32) -> Clip {
    Clip::new(id.to_string(), media.to_string(), start, duration)
}

fn new_track(id: &str, kind: ClipType) -> Track {
    Track::new(id.to_string(), kind)
}

fn end_frame(clip: &Clip) -> i32 {
    clip.start_frame + clip.duration_frames
}

fn state_with_video_and_audio() -> EditorState {
    let mut tl = Timeline::new();
    let mut v = new_track("v1", ClipType::Video);
    v.clips.push(new_clip("c1", "asset", 0, 300));
    tl.tracks.push(v);
    let mut a = new_track("a1", ClipType::Audio);
    let mut clip = new_clip("a-clip", "audio-asset", 0, 300);
    clip.media_type = ClipType::Audio;
    clip.source_clip_type = ClipType::Audio;
    a.clips.push(clip);
    tl.tracks.push(a);
    EditorState::new(tl, MediaManifest::new())
}

fn caption(content: &str, start: i32, dur: i32, group: &str) -> CaptionEntry {
    CaptionEntry {
        start_frame: start,
        duration_frames: dur,
        content: content.to_string(),
        text_style: setting("Helvetica-Bold", &[96.0]),
        transform: Transform::identity(),
        caption_group_id: group.to_string(),
    }
}

#[test]
fn add_captions_inserts_top_video_track_with_group_ids() {
    let mut state = state_with_video_and_audio();
    let mut ids = CoreIdGen::new("cap-");
    let res = run(
        &mut state,
        &mut ids,
        EditCommand::AddCaptions {
            entries: vec![caption("hello", 0, 21, "g1"), caption("world", 21, 21, "g1")],
        },
    )
    .unwrap();
    assert!(res.changed);
    assert_eq!(res.action_name, "Generate Captions");
    assert_eq!(res.affected_clip_ids.len(), 2);
    assert_eq!(state.timeline.tracks.len(), 3);
    let cap_track = &state.timeline.tracks[0];
    assert_eq!(cap_track.kind, ClipType::Video);
    assert_eq!(cap_track.clips.len(), 2);
    for clip in &cap_track.clips {
        assert_eq!(clip.media_type, ClipType::Text);
        assert_eq!(clip.caption_group_id.as_deref(), Some("g1"));
        assert!(clip.text_content.is_some());
        assert!(clip.text_style.is_some());
    }
    assert_eq!(state.timeline.tracks[1].id, "v1");
    assert_eq!(state.timeline.tracks[2].id, "a1");
}

#[test]
fn add_captions_is_one_undo_step() {
    let mut state = state_with_video_and_audio();
    let mut ids = CoreIdGen::new("cap-");
    let tracks_before = state.timeline.tracks.len();
    run(
        &mut state,
        &mut ids,
        EditCommand::AddCaptions { entries: vec![caption("a", 0, 30, "g")] },
    )
    .unwrap();
    assert_eq!(state.timeline.tracks.len(), tracks_before + 1);
    let undo = run(&mut state, &mut ids, EditCommand::Undo).unwrap();
    assert!(undo.changed);
    assert_eq!(state.timeline.tracks.len(), tracks_before);
}

#[test]
fn add_captions_empty_is_noop() {
    let mut state = state_with_video_and_audio();
    let version_before = state.version();
    let res = run(
        &mut state,
        &mut CoreIdGen::new("cap-"),
        EditCommand::AddCaptions { entries: vec![] },
    )
    .unwrap();
    assert!(!res.changed);
    assert_eq!(res.action_name, "Generate Captions");
    assert_eq!(state.version(), version_before);
    assert_eq!(state.timeline.tracks.len(), 2);
}

#[test]
fn add_captions_rejects_bad_duration() {
    let mut state = state_with_video_and_audio();
    let err = run(
        &mut state,
        &mut CoreIdGen::new("cap-"),
        EditCommand::AddCaptions { entries: vec![caption("x", 0, 0, "g")] },
    )
    .unwrap_err();
    assert!(matches!(err, EditError::Invalid(_)));
    assert_eq!(state.timeline.tracks.len(), 2);
}

fn change(clip_id: &str, source: &str, translated: &str) -> CaptionTranslationChange {
    CaptionTranslationChange {
        clip_id: clip_id.to_string(),
        expected_source_text: source.to_string(),
        translated_text: translated.to_string(),
        input: CaptionTranslationInput {
            source_text: source.to_string(),
            encoded: "en-US zh-CN mock mock-v1".to_string(),
        },
    }
}

#[test]
fn caption_translation_preserves_identity_timing_and_is_one_undo_step() {
    let mut state = state_with_video_and_audio();
    let mut ids = CoreIdGen::new("cap-");
    run(
        &mut state,
        &mut ids,
        EditCommand::AddCaptions {
            entries: vec![caption("Hello", 3, 17, "g"), caption("World", 25, 19, "g")],
        },
    )
    .unwrap();
    let captions: Vec<Clip> = state.timeline.tracks[0].clips.iter().map(|c| c.copy()).collect();
    let changes = captions
        .iter()
        .zip(["你好", "世界"])
        .map(|(clip, translated)| {
            change(&clip.id, clip.text_content.as_deref().unwrap(), translated)
        })
        .collect();
    let result = run(&mut state, &mut ids, EditCommand::ApplyCaptionTranslations { changes }).unwrap();
    assert_eq!(result.action_name, "Translate Captions");
    for (before, after) in captions.iter().zip(&state.timeline.tracks[0].clips) {
        assert_eq!(after.id, before.id);
        assert_eq!(after.start_frame, before.start_frame);
        assert_eq!(after.duration_frames, before.duration_frames);
        assert_eq!(after.caption_group_id, before.caption_group_id);
        assert_eq!(
            after.caption_translation_input.as_ref().unwrap().source_text,
            before.text_content.clone().unwrap()
        );
    }
    assert_eq!(state.timeline.tracks[0].clips[0].text_content.as_deref(), Some("你好"));
    run(&mut state, &mut ids, EditCommand::Undo).unwrap();
    let clips = &state.timeline.tracks[0].clips;
    assert_eq!(clips.len(), captions.len());
    assert!(clips.iter().zip(&captions).all(|(a, b)| a.same(b)));
}

#[test]
fn caption_translation_stale_batch_is_atomic_and_manual_edit_clears_provenance() {
    let mut state = state_with_video_and_audio();
    let mut ids = CoreIdGen::new("cap-");
    run(
        &mut state,
        &mut ids,
        EditCommand::AddCaptions {
            entries: vec![caption("One", 0, 10, "g"), caption("Two", 10, 10, "g")],
        },
    )
    .unwrap();
    let before = state.timeline.copy();
    let caption_ids: Vec<String> =
        state.timeline.tracks[0].clips.iter().map(|clip| clip.id.clone()).collect();
    assert!(run(
        &mut state,
        &mut ids,
        EditCommand::ApplyCaptionTranslations {
            changes: vec![
                change(&caption_ids[0], "One", "Un"),
                change(&caption_ids[1], "stale", "Deux"),
            ],
        },
    )
    .is_err());
    assert!(state.timeline.same(&before));

    run(
        &mut state,
        &mut ids,
        EditCommand::ApplyCaptionTranslations { changes: vec![change(&caption_ids[0], "One", "Un")] },
    )
    .unwrap();
    assert!(state.timeline.tracks[0].clips[0].caption_translation_input.is_some());
    run(
        &mut state,
        &mut ids,
        EditCommand::SetClipProperties {
            clip_ids: vec![caption_ids[0].clone()],
            properties: Box::new(ClipProperties {
                duration_frames: None,
                trim_start_frame: None,
                trim_end_frame: None,
                speed: None,
                volume: None,
                opacity: None,
                transform: None,
                text_content: Some("Edited".to_string()),
                text_style: None,
                crop: None,
                fade_in_frames: None,
                fade_out_frames: None,
                fade_in_interpolation: None,
                fade_out_interpolation: None,
                flip_horizontal: None,
                flip_vertical: None,
                reversed: None,
            }),
        },
    )
    .unwrap();
    assert!(state.timeline.tracks[0].clips[0].caption_translation_input.is_none());
}

fn script_media(id: &str, kind: ClipType, duration: f64, has_audio: bool) -> MediaManifestEntry {
    MediaManifestEntry {
        id: id.to_string(),
        name: id.to_string(),
        kind,
        source: format!("media/{id}"),
        duration: num(duration),
        generation_input: None,
        source_width: None,
        source_height: None,
        source_fps: None,
        has_audio: Some(has_audio),
        color: None,
        proxy: None,
        folder_id: None,
        favorite: false,
        global_favorite_id: None,
        cached_remote_url: None,
        cached_remote_url_expires_at: None,
    }
}

fn plan() -> ScriptAssemblyPlan {
    ScriptAssemblyPlan {
        id: "script-plan-test".to_string(),
        plan_hash: "a".repeat(64),
        planner: "test-planner".to_string(),
        planner_version: 1,
        start_frame: 0,
        segments: (0..3)
            .map(|index| ScriptSegment {
                script: format!("Scene {}", index + 1),
                media_ref: format!("visual-{index}"),
                narration_media_ref: Some(format!("voice-{index}")),
                duration_frames: 30,
                transition: if index < 2 { Some(TransitionKind::CrossDissolve) } else { None },
            })
            .collect(),
    }
}

fn script_state() -> EditorState {
    let mut state = EditorState::default();
    state.timeline.settings_configured = true;
    for index in 0..3 {
        state.manifest.entries.push(script_media(
            &format!("visual-{index}"),
            ClipType::Image,
            0.0,
            false,
        ));
        state.manifest.entries.push(script_media(
            &format!("voice-{index}"),
            ClipType::Audio,
            1.0,
            true,
        ));
    }
    state
}

fn only_plan(state: &EditorState) -> bool {
    state.timeline.script_assembly_plans.len() == 1
        && state.timeline.script_assembly_plans[0].same(&plan())
}

#[test]
fn reviewed_three_segment_plan_applies_tracks_sync_transitions_and_one_undo() {
    let mut state = script_state();
    let mut ids = CoreIdGen::new("script-");
    run(&mut state, &mut ids, EditCommand::SaveScriptAssemblyPlan { plan: plan() }).unwrap();
    assert!(state.timeline.tracks.is_empty());
    assert!(only_plan(&state));
    let undo_depth_before_apply = state.undo_depth();
    let result = run(
        &mut state,
        &mut ids,
        EditCommand::ApplyScriptAssemblyPlan { plan_id: "script-plan-test".to_string() },
    )
    .unwrap();
    assert_eq!(result.action_name, "Build Script Video");
    assert_eq!(state.undo_depth(), undo_depth_before_apply + 1);
    assert_eq!(state.timeline.tracks.len(), 2);
    let visual = &state.timeline.tracks[0];
    let narration = &state.timeline.tracks[1];
    assert_eq!(visual.kind, ClipType::Video);
    assert_eq!(narration.kind, ClipType::Audio);
    assert_eq!(visual.clips.len(), 3);
    assert_eq!(narration.clips.len(), 3);
    for index in 0..3 {
        assert_eq!(visual.clips[index].start_frame, index as i32 * 30);
        assert_eq!(narration.clips[index].start_frame, index as i32 * 30);
        assert_eq!(visual.clips[index].duration_frames, 30);
        assert_eq!(narration.clips[index].duration_frames, 30);
        assert_eq!(f64::from_bits(visual.clips[index].volume.bits), 0.0);
    }
    for index in 0..2 {
        let transition = visual.clips[index].transition_out.as_ref().unwrap();
        assert_eq!(transition.from_clip_id, visual.clips[index].id);
        assert_eq!(transition.to_clip_id, visual.clips[index + 1].id);
        assert_eq!(transition.kind, TransitionKind::CrossDissolve);
        assert_eq!(transition.duration_frames, 12);
    }
    assert!(visual.clips[2].transition_out.is_none());

    run(&mut state, &mut ids, EditCommand::Undo).unwrap();
    assert!(state.timeline.tracks.is_empty());
    assert!(only_plan(&state));
}

fn set_duration(state: &mut EditorState, id: &str, duration: f64) {
    let entry = state.manifest.entries.iter_mut().find(|entry| entry.id == id).unwrap();
    entry.duration = num(duration);
}

#[test]
fn missing_media_refuses_atomically_and_narration_must_match_within_one_frame() {
    let mut state = script_state();
    let mut ids = CoreIdGen::new("script-");
    let mut invalid = plan();
    invalid.id = "missing-plan".to_string();
    invalid.segments[1].media_ref = "missing".to_string();
    run(&mut state, &mut ids, EditCommand::SaveScriptAssemblyPlan { plan: invalid }).unwrap();
    let before = state.timeline.copy();
    assert!(run(
        &mut state,
        &mut ids,
        EditCommand::ApplyScriptAssemblyPlan { plan_id: "missing-plan".to_string() },
    )
    .is_err());
    assert!(state.timeline.same(&before));

    let mut mismatch = plan();
    mismatch.id = "mismatch-plan".to_string();
    set_duration(&mut state, "voice-0", 2.0);
    run(&mut state, &mut ids, EditCommand::SaveScriptAssemblyPlan { plan: mismatch }).unwrap();
    let before = state.timeline.copy();
    assert!(run(
        &mut state,
        &mut ids,
        EditCommand::ApplyScriptAssemblyPlan { plan_id: "mismatch-plan".to_string() },
    )
    .is_err());
    assert!(state.timeline.same(&before));
}

#[test]
fn script_span_and_media_duration_overflow_reject_before_ids_or_history() {
    let mut state = script_state();
    let mut ids = CoreIdGen::new("script-overflow-");
    let fresh = format!("{:?}", ids);

    let mut overflowing = plan();
    overflowing.start_frame = i32::MAX - 10;
    let before = state.copy();
    assert!(run(&mut state, &mut ids, EditCommand::SaveScriptAssemblyPlan { plan: overflowing })
        .is_err());
    assert!(state.timeline.same(&before.timeline));
    assert!(state.manifest.same(&before.manifest));
    assert_eq!(state.version(), 0);
    assert_eq!(state.undo_depth(), 0);
    assert_eq!(format!("{:?}", ids), fresh);

    run(&mut state, &mut ids, EditCommand::SaveScriptAssemblyPlan { plan: plan() }).unwrap();
    set_duration(&mut state, "voice-0", f64::INFINITY);
    let before = state.copy();
    let ids_before = format!("{:?}", ids);
    assert!(run(
        &mut state,
        &mut ids,
        EditCommand::ApplyScriptAssemblyPlan { plan_id: "script-plan-test".to_string() },
    )
    .is_err());
    assert!(state.timeline.same(&before.timeline));
    assert!(state.manifest.same(&before.manifest));
    assert_eq!(state.version(), before.version());
    assert_eq!(state.undo_depth(), before.undo_depth());
    assert_eq!(format!("{:?}", ids), ids_before);
}

fn state_with_existing_top_track() -> EditorState {
    let mut tl = Timeline::new();
    let mut v = new_track("existing-video", ClipType::Video);
    v.clips.push(new_clip("existing-clip", "asset", 0, 300));
    tl.tracks.push(v);
    EditorState::new(tl, MediaManifest::new())
}

fn text(content: &str, start: i32, dur: i32) -> TextAutoTrackEntry {
    TextAutoTrackEntry {
        start_frame: start,
        duration_frames: dur,
        content: content.to_string(),
        text_style: setting("Helvetica-Bold", &[96.0]),
        transform: Transform::identity(),
    }
}

/// The timelines that clearing the regions of texts on a fresh top track gives, each
/// after the texts before it have been placed.
fn texts_cleared(state: &EditorState, ids: &CoreIdGen, entries: &[TextAutoTrackEntry]) -> Outside {
    let mut ids = ids.copy();
    let mut timeline = state.timeline.copy();
    add_top_track(&mut timeline, &mut ids);
    let mut cleared = Vec::new();
    for entry in entries {
        for clip in &mut timeline.tracks[0].clips {
            if clip.start_frame < entry.start_frame && end_frame(clip) > entry.start_frame {
                clip.duration_frames = entry.start_frame - clip.start_frame;
            }
        }
        cleared.push(timeline.copy());
        place_text(
            &mut timeline,
            0,
            entry.start_frame,
            entry.duration_frames,
            &entry.content,
            &entry.text_style,
            entry.transform,
            &mut ids,
        );
    }
    Outside { cleared, ..plain() }
}

fn add_texts(
    state: &mut EditorState,
    ids: &mut CoreIdGen,
    entries: Vec<TextAutoTrackEntry>,
) -> Result<EditResult, EditError> {
    let outside = texts_cleared(state, ids, &entries);
    apply(state, EditCommand::AddTextsAutoTrack { entries }, ids, outside)
}

#[test]
fn creates_new_top_track_and_leaves_existing_track_untouched() {
    let mut state = state_with_existing_top_track();
    let mut ids = CoreIdGen::new("txt-");
    let res = add_texts(&mut state, &mut ids, vec![text("hello", 0, 30)]).unwrap();
    assert!(res.changed);
    assert_eq!(res.affected_clip_ids.len(), 1);

    assert_eq!(state.timeline.tracks.len(), 2);
    let new_track = &state.timeline.tracks[0];
    assert_eq!(new_track.kind, ClipType::Video);
    assert_eq!(new_track.clips.len(), 1);
    assert_eq!(new_track.clips[0].media_type, ClipType::Text);
    assert_eq!(new_track.clips[0].text_content.as_deref(), Some("hello"));

    let existing = &state.timeline.tracks[1];
    assert_eq!(existing.id, "existing-video");
    assert_eq!(existing.clips.len(), 1);
    assert_eq!(existing.clips[0].id, "existing-clip");
    assert_eq!(existing.clips[0].start_frame, 0);
    assert_eq!(existing.clips[0].duration_frames, 300);
}

#[test]
fn is_one_undo_step_including_the_new_track() {
    let mut state = state_with_existing_top_track();
    let mut ids = CoreIdGen::new("txt-");
    let tracks_before = state.timeline.tracks.len();
    add_texts(&mut state, &mut ids, vec![text("a", 0, 30), text("b", 30, 30)]).unwrap();
    assert_eq!(state.timeline.tracks.len(), tracks_before + 1);

    let undo = run(&mut state, &mut ids, EditCommand::Undo).unwrap();
    assert!(undo.changed);
    assert_eq!(state.timeline.tracks.len(), tracks_before);
    assert_eq!(state.timeline.tracks[0].id, "existing-video");
    assert_eq!(state.timeline.tracks[0].clips.len(), 1);
}

#[test]
fn empty_entries_is_an_error_not_a_noop() {
    let mut state = state_with_existing_top_track();
    let version_before = state.version();
    let err = add_texts(&mut state, &mut CoreIdGen::new("txt-"), vec![]).unwrap_err();
    assert!(matches!(err, EditError::Invalid(_)));
    assert_eq!(state.version(), version_before);
    assert_eq!(state.timeline.tracks.len(), 1);
}

#[test]
fn rejects_bad_duration_and_leaves_state_untouched() {
    let mut state = state_with_existing_top_track();
    let err = add_texts(&mut state, &mut CoreIdGen::new("txt-"), vec![text("x", 0, 0)]).unwrap_err();
    assert!(matches!(err, EditError::Invalid(_)));
    assert_eq!(state.timeline.tracks.len(), 1);
}

#[test]
fn rejects_negative_start_frame() {
    let mut state = state_with_existing_top_track();
    let err =
        add_texts(&mut state, &mut CoreIdGen::new("txt-"), vec![text("x", -1, 30)]).unwrap_err();
    assert!(matches!(err, EditError::Invalid(_)));
    assert_eq!(state.timeline.tracks.len(), 1);
}

#[test]
fn overlapping_entries_in_the_same_batch_overwrite_in_order() {
    let mut state = state_with_existing_top_track();
    let mut ids = CoreIdGen::new("txt-");
    let res =
        add_texts(&mut state, &mut ids, vec![text("first", 0, 60), text("second", 20, 60)]).unwrap();
    assert!(res.changed);
    let new_track = &state.timeline.tracks[0];
    let second = new_track
        .clips
        .iter()
        .find(|c| c.text_content.as_deref() == Some("second"))
        .expect("second clip survives at its full requested range");
    assert_eq!(second.start_frame, 20);
    assert_eq!(second.duration_frames, 60);
    for clip in &new_track.clips {
        if clip.text_content.as_deref() == Some("first") {
            assert!(clip.start_frame + clip.duration_frames <= 20);
        }
    }
}

fn state_with_clip() -> EditorState {
    let mut tl = Timeline::new();
    let mut t = new_track("v1", ClipType::Video);
    t.clips.push(new_clip("c1", "asset", 0, 30));
    tl.tracks.push(t);
    EditorState::new(tl, MediaManifest::new())
}

fn duplicate(clip_ids: &[&str], offset_frames: i32, targets: &[usize]) -> EditCommand {
    EditCommand::DuplicateClips {
        clip_ids: clip_ids.iter().map(|id| id.to_string()).collect(),
        offset_frames,
        target_track_indexes: targets.to_vec(),
    }
}

/// What putting an unlinked copy of the first clip further on its track makes of a
/// document.
fn copied(state: &EditorState, ids: &mut CoreIdGen, offset: i32) -> Outside {
    let mut timeline = state.timeline.copy();
    let mut copy = timeline.tracks[0].clips[0].copy();
    copy.id = ids.next_id();
    copy.start_frame += offset;
    copy.link_group_id = None;
    let affected = vec![copy.id.clone()];
    timeline.tracks[0].clips.push(copy);
    Outside {
        placed: Placed { timeline, affected },
        ..plain()
    }
}

fn duplicate_first(state: &mut EditorState, ids: &mut CoreIdGen, offset: i32) -> EditResult {
    let outside = copied(state, ids, offset);
    apply(state, duplicate(&["c1"], offset, &[0]), ids, outside).unwrap()
}

fn clip_of<'a>(state: &'a EditorState, id: &str) -> &'a Clip {
    state.timeline.tracks[0].clips.iter().find(|c| c.id == id).unwrap()
}

#[test]
fn duplicate_clips_creates_copy_with_new_id() {
    let mut state = state_with_clip();
    let mut ids = CoreIdGen::new("d-");
    let res = duplicate_first(&mut state, &mut ids, 100);
    assert!(res.changed);
    assert_eq!(res.action_name, "Duplicate Clip");
    assert_eq!(res.affected_clip_ids.len(), 1);
    assert!(state.timeline.tracks[0].clips.iter().any(|c| c.id == "c1"));
    let copy = clip_of(&state, &res.affected_clip_ids[0]);
    assert_eq!(copy.start_frame, 100);
    assert_ne!(copy.id, "c1");
}

#[test]
fn duplicate_clips_deep_copies_keyframe_tracks() {
    let mut state = state_with_clip();
    let kf = |frame: i32, value: f64| Keyframe {
        frame,
        value: num(value),
        interpolation_out: Interpolation::Smooth,
    };
    state.timeline.tracks[0].clips[0].opacity_track =
        Some(KeyframeTrack { keyframes: vec![kf(0, 0.0), kf(30, 1.0)] });
    let res = duplicate_first(&mut state, &mut CoreIdGen::new("d-"), 100);
    let op = clip_of(&state, &res.affected_clip_ids[0]).opacity_track.as_ref().unwrap();
    assert_eq!(op.keyframes.iter().map(|k| k.frame).collect::<Vec<_>>(), vec![0, 30]);
}

#[test]
fn duplicate_clips_clears_link_group_id() {
    let mut state = state_with_clip();
    state.timeline.tracks[0].clips[0].link_group_id = Some("grp".to_string());
    let res = duplicate_first(&mut state, &mut CoreIdGen::new("d-"), 50);
    assert!(clip_of(&state, &res.affected_clip_ids[0]).link_group_id.is_none());
}

#[test]
fn duplicate_clips_missing_clip_errors() {
    let mut state = state_with_clip();
    let err = run(&mut state, &mut CoreIdGen::new("d-"), duplicate(&["nope"], 100, &[0]));
    assert!(matches!(err, Err(EditError::Invalid(_))));
}

#[test]
fn duplicate_clips_length_mismatch_errors() {
    let mut state = state_with_clip();
    let err = run(&mut state, &mut CoreIdGen::new("d-"), duplicate(&["c1"], 100, &[0, 1]));
    assert!(matches!(err, Err(EditError::Invalid(_))));
}

#[test]
fn duplicate_clips_empty_ids_errors() {
    let mut state = state_with_clip();
    let err = run(&mut state, &mut CoreIdGen::new("d-"), duplicate(&[], 100, &[]));
    assert!(matches!(err, Err(EditError::Invalid(_))));
}

#[test]
fn duplicate_clips_is_undoable() {
    let mut state = state_with_clip();
    let mut ids = CoreIdGen::new("d-");
    let version_before = state.version();
    duplicate_first(&mut state, &mut ids, 100);
    assert_eq!(state.timeline.tracks[0].clips.len(), 2);
    assert!(state.can_undo());
    run(&mut state, &mut ids, EditCommand::Undo).unwrap();
    assert_eq!(state.timeline.tracks[0].clips.len(), 1);
    assert_eq!(state.timeline.tracks[0].clips[0].id, "c1");
    assert_eq!(state.version(), version_before + 2);
}

fn state_with_video_clip() -> EditorState {
    let mut state = EditorState::default();
    let mut t = new_track("v1", ClipType::Video);
    t.clips.push(new_clip("c1", "asset1", 100, 60));
    state.timeline.tracks.push(t);
    state
}

fn freeze(clip_id: &str, at_frame: i32, duration_frames: i32) -> EditCommand {
    EditCommand::FreezeFrame {
        clip_id: clip_id.to_string(),
        at_frame,
        duration_frames,
        media_ref: format!("freeze:{clip_id}:{at_frame}"),
    }
}

/// What splitting the first clip and inserting a still there makes of a document:
/// what comes after moves on.
fn frozen(
    timeline: &Timeline,
    ids: &mut CoreIdGen,
    at_frame: i32,
    duration: i32,
    media_ref: &str,
) -> Outside {
    let mut timeline = timeline.copy();
    let clips = &mut timeline.tracks[0].clips;
    let mut right = clips[0].copy();
    right.id = ids.next_id();
    right.start_frame = at_frame;
    right.duration_frames = end_frame(&clips[0]) - at_frame;
    right.trim_start_frame = at_frame - clips[0].start_frame;
    clips[0].duration_frames = at_frame - clips[0].start_frame;
    clips.insert(1, right);
    for clip in clips.iter_mut().skip(1) {
        clip.start_frame += duration;
    }
    let mut still = new_clip(&ids.next_id(), media_ref, at_frame, duration);
    still.media_type = ClipType::Image;
    still.source_clip_type = ClipType::Image;
    let affected = vec![still.id.clone()];
    clips.insert(1, still);
    Outside {
        placed: Placed { timeline, affected },
        ..plain()
    }
}

fn freeze_first(state: &mut EditorState, ids: &mut CoreIdGen) -> EditResult {
    let outside = frozen(&state.timeline, ids, 130, 30, "freeze:c1:130");
    apply(state, freeze("c1", 130, 30), ids, outside).unwrap()
}

fn still(id: &str) -> MediaManifestEntry {
    let mut entry = script_media(id, ClipType::Image, 0.0, false);
    entry.name = "Captured frame".to_string();
    entry.source = format!("/tmp/{id}.png");
    entry
}

#[test]
fn registered_freeze_frame_is_one_atomic_undo_unit() {
    let mut state = state_with_video_clip();
    let mut ids = CoreIdGen::new("f-");
    let before = state.copy();
    let outside = frozen(&state.timeline, &mut ids, 130, 30, "freeze-asset");
    let result = apply(
        &mut state,
        EditCommand::RegisterMediaAndFreezeFrame {
            media: still("freeze-asset"),
            clip_id: "c1".to_string(),
            at_frame: 130,
            duration_frames: 30,
        },
        &mut ids,
        outside,
    )
    .unwrap();

    assert!(result.timeline_changed);
    assert!(result.manifest_changed);
    assert_eq!(result.action_name, "Freeze Frame");
    assert_eq!(state.undo_depth(), before.undo_depth() + 1);
    assert_eq!(state.manifest.entries.len(), 1);
    assert_eq!(state.manifest.entries[0].id, "freeze-asset");
    assert_eq!(state.timeline.tracks[0].clips[1].media_ref, "freeze-asset");

    run(&mut state, &mut ids, EditCommand::Undo).unwrap();
    assert!(state.timeline.same(&before.timeline));
    assert!(state.manifest.same(&before.manifest));
}

#[test]
fn rejected_registered_freeze_leaves_manifest_and_history_unchanged() {
    let mut state = state_with_video_clip();
    let before = state.copy();
    run(
        &mut state,
        &mut CoreIdGen::new("f-"),
        EditCommand::RegisterMediaAndFreezeFrame {
            media: still("orphan"),
            clip_id: "missing".to_string(),
            at_frame: 130,
            duration_frames: 30,
        },
    )
    .expect_err("invalid source clip must reject the whole transaction");
    assert!(state.timeline.same(&before.timeline));
    assert!(state.manifest.same(&before.manifest));
    assert_eq!(state.undo_depth(), before.undo_depth());
    assert_eq!(state.version(), before.version());
}

#[test]
fn freeze_frame_splits_and_inserts_image_clip() {
    let mut state = state_with_video_clip();
    let res = freeze_first(&mut state, &mut CoreIdGen::new("f-"));
    assert!(res.changed);
    assert_eq!(res.action_name, "Freeze Frame");
    let track = &state.timeline.tracks[0];
    assert_eq!(track.clips.len(), 3);
    assert_eq!(track.clips[0].id, "c1");
    assert_eq!(track.clips[0].start_frame, 100);
    assert_eq!(end_frame(&track.clips[0]), 130);
    assert_eq!(track.clips[1].start_frame, 130);
    assert_eq!(track.clips[1].duration_frames, 30);
    assert_eq!(track.clips[1].media_type, ClipType::Image);
    assert_eq!(track.clips[1].media_ref, "freeze:c1:130");
    assert_eq!(track.clips[2].start_frame, 160);
    assert_eq!(end_frame(&track.clips[2]), 190);
}

#[test]
fn freeze_frame_preserves_real_media_ref() {
    let mut state = state_with_video_clip();
    let mut ids = CoreIdGen::new("f-");
    let outside = frozen(&state.timeline, &mut ids, 130, 15, "asset-xyz");
    apply(
        &mut state,
        EditCommand::FreezeFrame {
            clip_id: "c1".to_string(),
            at_frame: 130,
            duration_frames: 15,
            media_ref: "asset-xyz".to_string(),
        },
        &mut ids,
        outside,
    )
    .unwrap();
    assert_eq!(state.timeline.tracks[0].clips[1].media_ref, "asset-xyz");
}

#[test]
fn freeze_frame_at_start_endpoint_rejected() {
    let mut state = state_with_video_clip();
    assert!(run(&mut state, &mut CoreIdGen::new("f-"), freeze("c1", 100, 30)).is_err());
    assert_eq!(state.timeline.tracks[0].clips.len(), 1);
}

#[test]
fn freeze_frame_at_end_endpoint_rejected() {
    let mut state = state_with_video_clip();
    assert!(run(&mut state, &mut CoreIdGen::new("f-"), freeze("c1", 160, 30)).is_err());
    assert_eq!(state.timeline.tracks[0].clips.len(), 1);
}

#[test]
fn freeze_frame_zero_duration_rejected() {
    let mut state = state_with_video_clip();
    assert!(run(&mut state, &mut CoreIdGen::new("f-"), freeze("c1", 130, 0)).is_err());
    assert_eq!(state.timeline.tracks[0].clips.len(), 1);
}

#[test]
fn freeze_frame_audio_clip_rejected() {
    let mut state = EditorState::default();
    let mut t = new_track("a1", ClipType::Audio);
    let mut c = new_clip("ac", "asset", 100, 60);
    c.media_type = ClipType::Audio;
    c.source_clip_type = ClipType::Audio;
    t.clips.push(c);
    state.timeline.tracks.push(t);
    assert!(run(&mut state, &mut CoreIdGen::new("f-"), freeze("ac", 130, 30)).is_err());
}

#[test]
fn freeze_frame_text_clip_rejected() {
    let mut state = EditorState::default();
    let mut t = new_track("t1", ClipType::Text);
    let mut c = new_clip("tc", "asset", 100, 60);
    c.media_type = ClipType::Text;
    t.clips.push(c);
    state.timeline.tracks.push(t);
    assert!(run(&mut state, &mut CoreIdGen::new("f-"), freeze("tc", 130, 30)).is_err());
}

#[test]
fn freeze_frame_missing_clip_rejected() {
    let mut state = state_with_video_clip();
    assert!(run(&mut state, &mut CoreIdGen::new("f-"), freeze("nope", 130, 30)).is_err());
}

#[test]
fn freeze_frame_undo_restores_original_in_one_step() {
    let mut state = state_with_video_clip();
    let mut ids = CoreIdGen::new("f-");
    let before = state.timeline.copy();
    freeze_first(&mut state, &mut ids);
    assert_eq!(state.undo_depth(), 1);
    run(&mut state, &mut ids, EditCommand::Undo).unwrap();
    assert!(state.timeline.same(&before));
}

#[test]
fn freeze_frame_shifts_a_follower_on_same_track() {
    let mut state = state_with_video_clip();
    state.timeline.tracks[0].clips.push(new_clip("c2", "asset2", 160, 60));
    freeze_first(&mut state, &mut CoreIdGen::new("f-"));
    let c2 = clip_of(&state, "c2");
    assert_eq!(c2.start_frame, 190);
    assert_eq!(end_frame(c2), 250);
}
