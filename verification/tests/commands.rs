//! The commands one by one: what each does to a small document, and what it refuses.

use opentake::alike::same_settings;
use opentake::apply::apply;
use opentake::apply::enter_sequence;
use opentake::command::EditCommand;
use opentake::command::Outside;
use opentake::commands::captions::add_top_track;
use opentake::commands::captions::place_text;
use opentake::commands::keyframes::KeyframePayload;
use opentake::commands::keyframes::KeyframeProperty;
use opentake::commands::nested::place_compound;
use opentake::commands::new_track::plan_new_track;
use opentake::commands::placement::add_own_track;
use opentake::commands::placement::add_shared_tracks;
use opentake::commands::placement::plan_shared_tracks;
use opentake::commands::placement::resolve_destination;
use opentake::commands::placement::PlaceMediaTarget;
use opentake::commands::ripple::plan_freeze;
use opentake::commands::ripple::track_display_label;
use opentake::commands::ripple::RippleOutcome;
use opentake::edit::EditError;
use opentake::edit::EditResult;
use opentake::entries::ClipEntry;
use opentake::entries::ClipMove;
use opentake::entries::ClipProperties;
use opentake::entries::ClipPropertyAssignment;
use opentake::entries::FrameRange;
use opentake::entries::NewTrackClipMode;
use opentake::entries::PasteClipEntry;
use opentake::entries::ProjectTimelineSettings;
use opentake::entries::RenameEntry;
use opentake::entries::TextEntry;
use opentake::entries::TrimEdit;
use opentake::entries::UnplacedClipEntry;
use opentake::ids::CoreIdGen;
use opentake::model::AnimPair;
use opentake::model::Clip;
use opentake::model::ClipType;
use opentake::model::Interpolation;
use opentake::model::Keyframe;
use opentake::model::KeyframeTrack;
use opentake::model::MediaManifest;
use opentake::model::MediaManifestEntry;
use opentake::model::NestedSequence;
use opentake::model::Real;
use opentake::model::Setting;
use opentake::model::StabilizationTrack;
use opentake::model::Timeline;
use opentake::model::Track;
use opentake::model::Transform;
use opentake::model::TransitionKind;
use opentake::model::VoiceModelRecord;
use opentake::state::EditorState;
use opentake::state::Placed;

fn num(x: f64) -> Real {
    Real { bits: x.to_bits() }
}

fn setting(rest: &str, numbers: &[f64]) -> Setting {
    Setting { numbers: numbers.iter().map(|x| num(*x)).collect(), rest: rest.to_string() }
}

fn holds(held: &Option<Setting>, expected: &Setting) -> bool {
    held.as_ref().is_some_and(|x| x.same(expected))
}

fn texts(v: &[&str]) -> Vec<String> {
    v.iter().map(|x| x.to_string()).collect()
}

fn plain() -> Outside {
    Outside::silent(None)
}

fn run_with(state: &mut EditorState, command: EditCommand, outside: Outside) -> Result<EditResult, EditError> {
    apply(state, command, &mut CoreIdGen::new("n-"), outside)
}

fn run(state: &mut EditorState, command: EditCommand) -> Result<EditResult, EditError> {
    run_with(state, command, plain())
}

fn refusal(r: Result<EditResult, EditError>) -> String {
    match r {
        Ok(_) => panic!("the command was carried out"),
        Err(EditError::Invalid(text)) => text,
        Err(EditError::Refused(text)) => format!("refused: {text}"),
    }
}

fn new_clip(id: &str, start: i32, duration: i32) -> Clip {
    Clip::new(id.to_string(), "m".to_string(), start, duration)
}

fn new_track(id: &str, kind: ClipType, clips: Vec<Clip>) -> Track {
    let mut track = Track::new(id.to_string(), kind);
    track.clips = clips;
    track
}

fn sound(id: &str, start: i32, duration: i32) -> Clip {
    let mut clip = new_clip(id, start, duration);
    clip.media_type = ClipType::Audio;
    clip.source_clip_type = ClipType::Audio;
    clip
}

/// Two pictures that meet at frame 30, a third after a gap, and sound under the first.
fn document() -> EditorState {
    let mut timeline = Timeline::new();
    timeline.tracks.push(new_track(
        "v1",
        ClipType::Video,
        vec![new_clip("a", 0, 30), new_clip("b", 30, 40), new_clip("c", 100, 10)],
    ));
    timeline.tracks.push(new_track("a1", ClipType::Audio, vec![sound("s", 0, 30)]));
    EditorState::new(timeline, MediaManifest::new())
}

fn linked() -> EditorState {
    let mut state = document();
    state.timeline.tracks[0].clips[0].link_group_id = Some("g".to_string());
    state.timeline.tracks[1].clips[0].link_group_id = Some("g".to_string());
    state
}

fn clip_of<'a>(state: &'a EditorState, id: &str) -> &'a Clip {
    state.timeline.tracks.iter().flat_map(|t| &t.clips).find(|c| c.id == id).unwrap()
}

fn clip_ids(track: &Track) -> Vec<&str> {
    track.clips.iter().map(|c| c.id.as_str()).collect()
}

fn with_timeline(timeline: Timeline, affected: &[&str]) -> Outside {
    Outside { placed: Placed { timeline, affected: texts(affected) }, ..plain() }
}

fn join(state: &mut EditorState, duration_frames: i32) -> Result<EditResult, EditError> {
    run(
        state,
        EditCommand::SetTransition {
            from_clip_id: "a".to_string(),
            to_clip_id: "b".to_string(),
            kind: Some(TransitionKind::CrossDissolve),
            duration_frames,
        },
    )
}

fn bridge(state: &mut EditorState, from: &str, to: &str) -> String {
    refusal(run(
        state,
        EditCommand::SetTransition {
            from_clip_id: from.to_string(),
            to_clip_id: to.to_string(),
            kind: Some(TransitionKind::CrossDissolve),
            duration_frames: 1,
        },
    ))
}

#[test]
fn a_transition_stands_on_a_cut() {
    let mut state = document();
    let r = join(&mut state, 10).unwrap();
    assert_eq!(r.action_name, "Set Transition");
    assert_eq!(r.summary, "Set transition from a to b");
    let transition = clip_of(&state, "a").transition_out.as_ref().unwrap();
    assert_eq!(transition.from_clip_id, "a");
    assert_eq!(transition.to_clip_id, "b");
    assert_eq!(transition.duration_frames, 10);
    let r = run(
        &mut state,
        EditCommand::SetTransition {
            from_clip_id: "a".to_string(),
            to_clip_id: "b".to_string(),
            kind: None,
            duration_frames: 0,
        },
    )
    .unwrap();
    assert_eq!(r.action_name, "Remove Transition");
    assert!(clip_of(&state, "a").transition_out.is_none());
}

#[test]
fn a_transition_without_a_cut_is_refused() {
    let mut state = document();
    assert_eq!(refusal(join(&mut state, 0)), "durationFrames must be >= 1 (got 0)");
    assert!(refusal(join(&mut state, 1000))
        .starts_with("durationFrames exceeds the available transition handle (1000 > "));
    assert_eq!(
        bridge(&mut state, "b", "c"),
        "A transition requires an exact adjacent clip boundary"
    );
    assert_eq!(
        bridge(&mut state, "a", "s"),
        "A transition requires clips on the same track"
    );
    assert_eq!(bridge(&mut state, "a", "z"), "Clip not found: z");
    assert_eq!(state.version(), 0);
}

#[test]
fn a_transition_whose_cut_is_gone_is_dropped() {
    let mut state = document();
    join(&mut state, 10).unwrap();
    let mut moved = state.timeline.copy();
    moved.tracks[0].clips[1].start_frame = 50;
    let outside = with_timeline(moved, &[]);
    let r = run_with(
        &mut state,
        EditCommand::MoveClips {
            moves: vec![ClipMove { clip_id: "b".to_string(), to_track: 0, to_frame: 50 }],
        },
        outside,
    )
    .unwrap();
    assert_eq!(r.action_name, "Move Clip");
    assert_eq!(r.summary, "Moved 1 clip(s)");
    assert_eq!(clip_of(&state, "b").start_frame, 50);
    assert!(clip_of(&state, "a").transition_out.is_none());
    run(&mut state, EditCommand::Undo).unwrap();
    assert!(clip_of(&state, "a").transition_out.is_some());
}

fn move_one(state: &mut EditorState, id: &str, to_track: usize, to_frame: i32) -> String {
    refusal(run(
        state,
        EditCommand::MoveClips {
            moves: vec![ClipMove { clip_id: id.to_string(), to_track, to_frame }],
        },
    ))
}

#[test]
fn moves_that_cannot_be_are_refused() {
    let mut state = document();
    assert_eq!(
        refusal(run(&mut state, EditCommand::MoveClips { moves: vec![] })),
        "Missing or empty 'moves' array"
    );
    assert_eq!(move_one(&mut state, "z", 0, 0), "Clip not found: z");
    assert_eq!(move_one(&mut state, "a", 7, 0), "moves[0]: target track index 7 out of range");
    assert_eq!(
        move_one(&mut state, "a", 1, 0),
        "moves[0]: clip is incompatible with destination track"
    );
    assert_eq!(
        move_one(&mut state, "a", 0, i32::MAX),
        "moves[0]: destination end overflows"
    );
    assert_eq!(state.version(), 0);
}

#[test]
fn removing_a_clip_takes_its_partner_and_empty_tracks() {
    let mut state = linked();
    let r = run(&mut state, EditCommand::RemoveClips { clip_ids: texts(&["a"]) }).unwrap();
    assert_eq!(r.action_name, "Remove Clips");
    assert_eq!(r.summary, "Removed 2 clip(s)");
    assert_eq!(r.affected_clip_ids, texts(&["a", "s"]));
    assert_eq!(state.timeline.tracks.len(), 1);
    assert_eq!(clip_ids(&state.timeline.tracks[0]), ["b", "c"]);
    let r = run(&mut state, EditCommand::RemoveClips { clip_ids: texts(&["b"]) }).unwrap();
    assert_eq!(r.action_name, "Remove Clip");
    assert_eq!(
        refusal(run(&mut state, EditCommand::RemoveClips { clip_ids: vec![] })),
        "Missing or empty 'clipIds' array"
    );
}

#[test]
fn linking_and_unlinking_work_on_whole_groups() {
    let mut state = document();
    let r = run(&mut state, EditCommand::Link { clip_ids: texts(&["a", "s", "b"]) }).unwrap();
    assert_eq!(r.action_name, "Link");
    for id in ["a", "s", "b"] {
        assert_eq!(clip_of(&state, id).link_group_id.as_deref(), Some("n-1"));
    }
    assert_eq!(clip_of(&state, "c").link_group_id, None);
    let r = run(&mut state, EditCommand::Unlink { clip_ids: texts(&["s"]) }).unwrap();
    let mut affected = r.affected_clip_ids;
    affected.sort();
    assert_eq!(affected, texts(&["a", "b", "s"]));
    for id in ["a", "s", "b"] {
        assert_eq!(clip_of(&state, id).link_group_id, None);
    }
    assert_eq!(
        refusal(run(&mut state, EditCommand::Link { clip_ids: texts(&["a"]) })),
        "Link requires at least 2 clips"
    );
    assert_eq!(
        refusal(run(&mut state, EditCommand::Unlink { clip_ids: vec![] })),
        "Missing or empty 'clipIds' array"
    );
}

#[test]
fn tracks_of_a_kind_change_places() {
    let mut state = document();
    state.timeline.tracks.insert(0, new_track("v0", ClipType::Video, vec![]));
    let r = run(&mut state, EditCommand::SwapTracks { a: 0, b: 1 }).unwrap();
    assert_eq!(r.summary, "Swapped tracks 0 and 1");
    assert_eq!(state.timeline.tracks[0].id, "v1");
    assert_eq!(state.timeline.tracks[1].id, "v0");
    run(&mut state, EditCommand::SwapTracks { a: 0, b: 1 }).unwrap();
    assert_eq!(state.timeline.tracks[0].id, "v0");
    let r = run(&mut state, EditCommand::SwapTracks { a: 0, b: 2 }).unwrap();
    assert!(!r.changed);
    assert_eq!(
        refusal(run(&mut state, EditCommand::SwapTracks { a: 0, b: 9 })),
        "track index out of range: a=0, b=9, timeline has 3 track(s)"
    );
}

#[test]
fn tracks_are_removed_by_index() {
    let mut state = document();
    let r = run(&mut state, EditCommand::RemoveTracks { track_indexes: vec![1] }).unwrap();
    assert_eq!(r.action_name, "Remove Track");
    assert_eq!(state.timeline.tracks.len(), 1);
    assert_eq!(
        refusal(run(&mut state, EditCommand::RemoveTracks { track_indexes: vec![4] })),
        "track index 4 out of range (timeline has 1 tracks)"
    );
    assert_eq!(
        refusal(run(&mut state, EditCommand::RemoveTracks { track_indexes: vec![] })),
        "trackIndexes must be a non-empty array"
    );
}

#[test]
fn tracks_are_labelled_from_the_middle() {
    let mut timeline = Timeline::new();
    for (id, kind) in [
        ("x", ClipType::Video),
        ("y", ClipType::Video),
        ("z", ClipType::Audio),
        ("w", ClipType::Audio),
    ] {
        timeline.tracks.push(new_track(id, kind, vec![]));
    }
    assert_eq!(track_display_label(&timeline, 0), "V2");
    assert_eq!(track_display_label(&timeline, 1), "V1");
    assert_eq!(track_display_label(&timeline, 2), "A1");
    assert_eq!(track_display_label(&timeline, 3), "A2");
    assert_eq!(track_display_label(&timeline, 4), "");
}

#[test]
fn a_split_takes_what_the_splitter_made() {
    let mut state = document();
    let mut halves = state.timeline.copy();
    halves.tracks[0].clips[0].duration_frames = 10;
    halves.tracks[0].clips.insert(1, new_clip("r", 10, 20));
    let outside = with_timeline(halves, &["r"]);
    let r = run_with(
        &mut state,
        EditCommand::SplitClip { clip_id: "a".to_string(), at_frame: 10 },
        outside,
    )
    .unwrap();
    assert_eq!(r.action_name, "Split Clip");
    assert_eq!(r.summary, "Split at 10 -> r");
    assert_eq!(clip_of(&state, "r").start_frame, 10);
    assert_eq!(
        refusal(run(
            &mut state,
            EditCommand::SplitClip { clip_id: "a".to_string(), at_frame: 10 }
        )),
        "Frame 10 is outside clip range (0..10)"
    );
}

#[test]
fn clips_are_split_together_or_not_at_all() {
    let mut state = linked();
    let split = |ids: &[&str]| EditCommand::SplitClips { clip_ids: texts(ids), at_frame: 10 };
    assert_eq!(refusal(run(&mut state, split(&[]))), "Missing or empty 'clipIds' array");
    assert_eq!(
        refusal(run(&mut state, split(&["a", "c"]))),
        "Frame 10 is outside clip range (100..110)"
    );
    let stuck = Outside { unsplittable: texts(&["s"]), ..plain() };
    assert_eq!(
        refusal(run_with(&mut state, split(&["a"]), stuck)),
        "Clip s cannot be split at frame 10"
    );
    assert_eq!(state.version(), 0);
    let mut halves = state.timeline.copy();
    halves.tracks[0].clips[0].duration_frames = 10;
    halves.tracks[1].clips[0].duration_frames = 10;
    halves.tracks[0].clips.insert(1, new_clip("r", 10, 20));
    halves.tracks[1].clips.push(sound("q", 10, 20));
    let outside = with_timeline(halves, &["r", "q"]);
    let r = run_with(&mut state, split(&["a", "s"]), outside).unwrap();
    assert_eq!(r.summary, "Split at 10 -> r, q");
}

#[test]
fn clips_are_trimmed_where_the_trims_are_possible() {
    let mut state = document();
    let edits = || vec![TrimEdit { clip_id: "b".to_string(), trim_start_frame: 5, trim_end_frame: 0 }];
    assert_eq!(
        refusal(run(&mut state, EditCommand::TrimClips { edits: edits() })),
        "trim edits produce invalid or overflowing frame arithmetic"
    );
    let mut trimmed = state.timeline.copy();
    trimmed.tracks[0].clips[1].trim_start_frame = 5;
    let outside = Outside { trims_possible: true, ..with_timeline(trimmed, &[]) };
    let r = run_with(&mut state, EditCommand::TrimClips { edits: edits() }, outside).unwrap();
    assert_eq!(r.action_name, "Trim Clip");
    assert_eq!(r.affected_clip_ids, texts(&["b"]));
    assert_eq!(clip_of(&state, "b").trim_start_frame, 5);
    assert_eq!(
        refusal(run(&mut state, EditCommand::TrimClips { edits: vec![] })),
        "Missing or empty trim edits"
    );
}

#[test]
fn ripple_deletes_close_gaps_or_are_refused() {
    let mut state = document();
    let ranges = || EditCommand::RippleDeleteRanges {
        track_index: 0,
        ranges: vec![FrameRange { start: 70, end: 100 }],
    };
    let kept = Outside { ripple: RippleOutcome::Refused("sync".to_string()), ..plain() };
    assert_eq!(refusal(run_with(&mut state, ranges(), kept)), "refused: sync");
    let mut closed = state.timeline.copy();
    closed.tracks[0].clips[2].start_frame = 70;
    let done = Outside {
        ripple: RippleOutcome::Done {
            timeline: closed,
            removed_frames: 30,
            cleared_tracks: 1,
            shifted_clips: 1,
            resulting_fragments: vec![],
        },
        ..plain()
    };
    let r = run_with(&mut state, ranges(), done).unwrap();
    assert_eq!(r.action_name, "Ripple Delete");
    assert_eq!(r.summary, "Removed 30 frame(s) across 1 track(s), shifted 1 clip(s)");
    assert_eq!(clip_of(&state, "c").start_frame, 70);
    assert_eq!(
        refusal(run(
            &mut state,
            EditCommand::RippleDeleteRanges { track_index: 0, ranges: vec![] }
        )),
        "Missing or empty 'ranges' array"
    );
    assert_eq!(
        refusal(run(
            &mut state,
            EditCommand::RippleDeleteClips { clip_ids: texts(&["z"]) }
        )),
        "Clip not found: z"
    );
    let mut without = state.timeline.copy();
    without.tracks[0].clips.remove(2);
    let done = Outside {
        ripple: RippleOutcome::Done {
            timeline: without,
            removed_frames: 10,
            cleared_tracks: 1,
            shifted_clips: 0,
            resulting_fragments: vec![],
        },
        ..plain()
    };
    let command = EditCommand::RippleDeleteClips { clip_ids: texts(&["c"]) };
    let r = run_with(&mut state, command, done).unwrap();
    assert_eq!(r.summary, "Ripple-deleted 1 clip(s)");
    assert_eq!(clip_ids(&state.timeline.tracks[0]), ["a", "b"]);
}

/// The document with its first two pictures moved into a compound clip.
fn compounded() -> EditorState {
    let mut state = document();
    run(
        &mut state,
        EditCommand::CreateNestedSequenceFromClips {
            name: "  Scene  ".to_string(),
            clip_ids: texts(&["b", "a"]),
        },
    )
    .unwrap();
    state
}

#[test]
fn clips_move_into_a_compound_and_come_out_of_it() {
    let mut state = compounded();
    assert_eq!(clip_ids(&state.timeline.tracks[0]), ["n-3", "c"]);
    let compound = clip_of(&state, "n-3");
    assert_eq!((compound.start_frame, compound.duration_frames), (0, 70));
    assert_eq!(compound.nested_sequence_id.as_deref(), Some("n-2"));
    let sequence = &state.timeline.nested_sequences[0];
    assert_eq!(sequence.name, "Scene");
    assert_eq!(sequence.timeline.tracks[0].id, "n-1");
    assert_eq!(clip_ids(&sequence.timeline.tracks[0]), ["a", "b"]);
    let command = EditCommand::DissolveNestedSequence { clip_id: "n-3".to_string() };
    let r = run(&mut state, command).unwrap();
    assert_eq!(r.action_name, "Dissolve Compound Clip");
    assert_eq!(r.summary, "Dissolved compound into 2 clip(s)");
    assert_eq!(r.affected_clip_ids, texts(&["n-1", "n-2"]));
    let (first, second) = (clip_of(&state, "n-1"), clip_of(&state, "n-2"));
    assert_eq!((first.start_frame, first.duration_frames), (0, 30));
    assert_eq!((second.start_frame, second.duration_frames), (30, 40));
    assert_eq!((second.trim_start_frame, second.trim_end_frame), (0, 0));
}

#[test]
fn a_trimmed_compound_dissolves_into_what_it_shows() {
    let mut state = compounded();
    let compound = &mut state.timeline.tracks[0].clips[0];
    compound.trim_start_frame = 10;
    compound.duration_frames = 30;
    let command = EditCommand::DissolveNestedSequence { clip_id: "n-3".to_string() };
    run(&mut state, command).unwrap();
    let (first, second) = (clip_of(&state, "n-1"), clip_of(&state, "n-2"));
    assert_eq!((first.start_frame, first.duration_frames, first.trim_start_frame), (0, 20, 10));
    assert_eq!((second.start_frame, second.duration_frames, second.trim_end_frame), (20, 10, 30));
}

#[test]
fn compounds_that_cannot_be_are_refused() {
    let mut state = document();
    let compound = |name: &str, ids: &[&str]| EditCommand::CreateNestedSequenceFromClips {
        name: name.to_string(),
        clip_ids: texts(ids),
    };
    assert_eq!(
        refusal(run(&mut state, compound(" ", &["a"]))),
        "nested sequence name must not be empty"
    );
    assert_eq!(
        refusal(run(&mut state, compound("x", &[]))),
        "at least one clip is required to create a compound"
    );
    assert_eq!(
        refusal(run(&mut state, compound("x", &["a", "a"]))),
        "compound clip selection contains duplicate ids"
    );
    assert_eq!(
        refusal(run(&mut state, compound("x", &["z"]))),
        "one or more clips selected for the compound no longer exist"
    );
    assert_eq!(
        refusal(run(&mut state, compound("x", &["s"]))),
        "a compound clip requires at least one visual clip"
    );
    assert_eq!(
        refusal(run(&mut state, compound("x", &["a", "c"]))),
        "compound selection span overlaps an unselected clip on its destination track"
    );
    let dissolve = |id: &str| EditCommand::DissolveNestedSequence { clip_id: id.to_string() };
    assert_eq!(refusal(run(&mut state, dissolve("a"))), "Clip is not a compound clip: a");
    let mut state = compounded();
    state.timeline.tracks[0].clips[0].fade_in_frames = 3;
    assert_eq!(
        refusal(run(&mut state, dissolve("n-3"))),
        "compound clips with parent-level edits must be normalized before dissolve"
    );
    state.timeline.tracks[0].clips[0].reversed = true;
    assert_eq!(
        refusal(run(&mut state, dissolve("n-3"))),
        "retimed or reversed compound clips must be normalized before dissolve"
    );
}

#[test]
fn a_nested_sequence_is_edited_renamed_and_replaced() {
    let mut state = compounded();
    let inner = EditCommand::RemoveClips { clip_ids: texts(&["b"]) };
    let r = run(
        &mut state,
        EditCommand::EditNestedSequence {
            sequence_id: "n-2".to_string(),
            command: Box::new(inner),
        },
    )
    .unwrap();
    assert!(r.changed);
    let child = |state: &EditorState| state.timeline.nested_sequences[0].timeline.copy();
    assert_eq!(clip_ids(&child(&state).tracks[0]), ["a"]);
    let rename = |id: &str, name: &str| EditCommand::RenameNestedSequence {
        sequence_id: id.to_string(),
        name: name.to_string(),
    };
    run(&mut state, rename("n-2", " Act ")).unwrap();
    assert_eq!(state.timeline.nested_sequences[0].name, "Act");
    assert_eq!(
        refusal(run(&mut state, rename("n-2", "  "))),
        "nested sequence name must not be empty"
    );
    assert!(refusal(run(&mut state, rename("none", "x"))).contains("none"));
    let command = EditCommand::SetNestedSequenceTimeline {
        sequence_id: "n-2".to_string(),
        timeline: Timeline::new(),
    };
    let r = run(&mut state, command).unwrap();
    assert_eq!(r.summary, "Edited nested sequence n-2");
    assert_eq!(child(&state).tracks.len(), 0);
    run(&mut state, EditCommand::Undo).unwrap();
    assert_eq!(clip_ids(&child(&state).tracks[0]), ["a"]);
}

#[test]
fn a_compound_over_a_given_timeline_is_checked() {
    let mut state = document();
    let nested = |name: &str, track_index: usize, start_frame: i32| EditCommand::CreateNestedSequence {
        name: name.to_string(),
        timeline: Timeline::new(),
        track_index,
        start_frame,
        duration_frames: 5,
    };
    assert_eq!(
        refusal(run(&mut state, nested("", 0, 0))),
        "nested sequence name must not be empty"
    );
    assert_eq!(refusal(run(&mut state, nested("x", 5, 0))), "track index out of range: 5");
    assert_eq!(
        refusal(run(&mut state, nested("x", 1, 0))),
        "a compound clip requires a visual track"
    );
    assert_eq!(
        refusal(run(&mut state, nested("x", 0, -1))),
        "compound: startFrame must be >= 0 and durationFrames >= 1"
    );
    let mut cleared = state.timeline.copy();
    cleared.tracks[0].clips[2].duration_frames = 5;
    let outside = with_timeline(cleared, &[]);
    let r = run_with(&mut state, nested(" x ", 0, 105), outside).unwrap();
    assert_eq!(r.summary, "Created compound clip n-2");
    assert_eq!(r.affected_clip_ids, texts(&["n-2"]));
    assert_eq!(clip_ids(&state.timeline.tracks[0]), ["a", "b", "c", "n-2"]);
    assert_eq!(clip_of(&state, "c").duration_frames, 5);
    let compound = clip_of(&state, "n-2");
    assert_eq!((compound.start_frame, compound.duration_frames), (105, 5));
    assert_eq!(compound.nested_sequence_id.as_deref(), Some("n-1"));
    let sequence = &state.timeline.nested_sequences[0];
    assert_eq!((sequence.id.as_str(), sequence.name.as_str()), ("n-1", "x"));
    assert_eq!(state.undo_action_name().as_deref(), Some("Create Compound Clip"));
}

#[test]
fn a_clearing_that_lost_a_track_is_refused() {
    let lost = "clearing lost a destination track";
    let mut state = library();
    let version = state.version();
    let mut without = state.timeline.copy();
    without.tracks.remove(0);
    let nested = EditCommand::CreateNestedSequence {
        name: "x".to_string(),
        timeline: Timeline::new(),
        track_index: 0,
        start_frame: 200,
        duration_frames: 5,
    };
    let outside = with_timeline(without.copy(), &[]);
    assert_eq!(refusal(run_with(&mut state, nested, outside)), lost);
    let paste = EditCommand::PasteClips { entries: vec![pasted(new_clip("x", 0, 10), 200)] };
    let outside = with_timeline(without.copy(), &[]);
    assert_eq!(refusal(run_with(&mut state, paste, outside)), lost);
    let outside = Outside { cleared: vec![without], ..plain() };
    assert_eq!(refusal(run_with(&mut state, write_texts(&[(0, 200, 10)]), outside)), lost);
    let none_cleared = run(&mut state, write_texts(&[(0, 200, 10)]));
    assert_eq!(refusal(none_cleared), lost);
    assert_eq!(state.version(), version);
    assert_eq!(clip_ids(&state.timeline.tracks[0]), ["a", "b", "c"]);
}

fn to_new_track(ids: &[&str], lead: &str, delta: i32, mode: NewTrackClipMode) -> EditCommand {
    EditCommand::MoveOrDuplicateClipsToNewTrack {
        clip_ids: texts(ids),
        lead_clip_id: lead.to_string(),
        requested_frame_delta: delta,
        insert_at: 0,
        mode,
    }
}

#[test]
fn clips_go_to_a_new_track() {
    let mut state = document();
    let gesture = |ids: &[&str], lead: &str| to_new_track(ids, lead, 0, NewTrackClipMode::Move);
    assert_eq!(refusal(run(&mut state, gesture(&[], "a"))), "Missing or empty 'clipIds' array");
    assert_eq!(refusal(run(&mut state, gesture(&["a", "a"], "a"))), "clipIds must be unique");
    assert_eq!(
        refusal(run(&mut state, gesture(&["a"], "b"))),
        "leadClipId must be present in clipIds"
    );
    assert_eq!(refusal(run(&mut state, gesture(&["z"], "z"))), "Clip not found: z");
    assert_eq!(
        refusal(run(
            &mut state,
            to_new_track(&["c"], "c", i32::MAX, NewTrackClipMode::Move)
        )),
        "clip c: destination start overflows"
    );
    let mut moved = state.timeline.copy();
    let clip = moved.tracks[0].clips.remove(2);
    moved.tracks.insert(0, new_track("n-1", ClipType::Video, vec![clip]));
    let outside = with_timeline(state.timeline.copy(), &[]);
    assert_eq!(
        refusal(run_with(&mut state, gesture(&["c"], "c"), outside)),
        "clearing lost a destination track"
    );
    let outside = with_timeline(moved, &[]);
    let r = run_with(&mut state, gesture(&["c"], "c"), outside).unwrap();
    assert_eq!(r.action_name, "Move Clips To New Track");
    assert_eq!(r.summary, "Move Clips To New Track: 1 clip(s)");
    assert_eq!(r.affected_clip_ids, texts(&["c"]));
    assert_eq!(clip_ids(&state.timeline.tracks[0]), ["c"]);
}

fn pasted(clip: Clip, start_frame: i32) -> PasteClipEntry {
    PasteClipEntry { clip, target_track_id: "v1".to_string(), start_frame }
}

fn medium(id: &str, kind: ClipType) -> MediaManifestEntry {
    MediaManifestEntry {
        id: id.to_string(),
        name: id.to_string(),
        kind,
        source: format!("/abs/{id}"),
        duration: num(1.0),
        generation_input: None,
        source_width: None,
        source_height: None,
        source_fps: None,
        has_audio: Some(kind == ClipType::Audio),
        color: None,
        proxy: None,
        folder_id: None,
        favorite: false,
        global_favorite_id: None,
        cached_remote_url: None,
        cached_remote_url_expires_at: None,
    }
}

fn library() -> EditorState {
    let mut state = document();
    state.manifest.entries.push(medium("m", ClipType::Video));
    state.manifest.entries.push(medium("voice", ClipType::Audio));
    state
}

#[test]
fn pasted_clips_keep_to_each_other() {
    let mut state = library();
    let mut first = new_clip("x", 0, 10);
    first.link_group_id = Some("old".to_string());
    let mut second = new_clip("y", 10, 10);
    second.link_group_id = Some("old".to_string());
    let third = new_clip("w", 20, 10);
    let outside = with_timeline(state.timeline.copy(), &[]);
    let r = run_with(
        &mut state,
        EditCommand::PasteClips {
            entries: vec![pasted(first, 200), pasted(second, 210), pasted(third, 220)],
        },
        outside,
    )
    .unwrap();
    assert_eq!(r.summary, "Pasted 3 clip(s)");
    assert_eq!(r.affected_clip_ids, texts(&["n-1", "n-2", "n-3"]));
    assert_eq!(clip_of(&state, "n-1").link_group_id.as_deref(), Some("n-4"));
    assert_eq!(clip_of(&state, "n-2").link_group_id.as_deref(), Some("n-4"));
    assert_eq!(clip_of(&state, "n-3").link_group_id, None);
    assert_eq!(clip_of(&state, "n-2").start_frame, 210);
    assert_eq!(clip_ids(&state.timeline.tracks[0]), ["a", "b", "c", "n-1", "n-2", "n-3"]);
}

#[test]
fn clips_that_cannot_be_pasted_are_refused() {
    let mut state = library();
    let mut paste = |entry: PasteClipEntry| {
        refusal(run(&mut state, EditCommand::PasteClips { entries: vec![entry] }))
    };
    assert_eq!(
        paste(pasted(new_clip("", 0, 10), 0)),
        "entries[0]: source clip ids must be non-empty and unique"
    );
    let mut elsewhere = pasted(new_clip("x", 0, 10), 0);
    elsewhere.target_track_id = "gone".to_string();
    assert_eq!(paste(elsewhere), "Track not found: gone");
    let mut unknown = new_clip("x", 0, 10);
    unknown.media_ref = "gone".to_string();
    assert_eq!(paste(pasted(unknown, 0)), "Media not found in manifest: gone");
    let mut aloud = pasted(new_clip("x", 0, 10), 0);
    aloud.target_track_id = "a1".to_string();
    assert_eq!(paste(aloud), "entries[0]: clip is incompatible with destination track");
    assert_eq!(
        refusal(run(&mut state, EditCommand::PasteClips { entries: vec![] })),
        "Missing or empty 'entries' array"
    );
}

#[test]
fn clips_are_exchanged() {
    let mut state = document();
    let swap = |a: &str, b: &str| EditCommand::SwapClips { a: a.to_string(), b: b.to_string() };
    assert_eq!(refusal(run(&mut state, swap("a", "z"))), "Clip not found: z");
    assert_eq!(refusal(run(&mut state, swap("z", "a"))), "Clip not found: z");
    let mut swapped = state.timeline.copy();
    swapped.tracks[0].clips[0].start_frame = 100;
    swapped.tracks[0].clips[2].start_frame = 0;
    let outside = with_timeline(swapped, &[]);
    let r = run_with(&mut state, swap("a", "c"), outside).unwrap();
    assert_eq!(r.summary, "Swapped clip positions");
    assert_eq!(clip_of(&state, "a").start_frame, 100);
    assert_eq!(clip_of(&state, "c").start_frame, 0);
}

#[test]
fn media_go_into_folders_and_out_of_the_library() {
    let mut state = library();
    let folder = |name: &str, parent: Option<&str>| EditCommand::CreateFolder {
        name: name.to_string(),
        parent_folder_id: parent.map(|p| p.to_string()),
    };
    let mut ids = CoreIdGen::new("f-");
    apply(&mut state, folder("outer", None), &mut ids, plain()).unwrap();
    apply(&mut state, folder("inner", Some("f-1")), &mut ids, plain()).unwrap();
    let into = |asset: &str, folder: Option<&str>| EditCommand::MoveToFolder {
        asset_ids: texts(&[asset]),
        folder_id: folder.map(|f| f.to_string()),
    };
    let r = run(&mut state, into("m", Some("f-2"))).unwrap();
    assert_eq!(r.summary, "Moved 1 asset(s)");
    assert_eq!(state.manifest.entries[0].folder_id.as_deref(), Some("f-2"));
    assert_eq!(refusal(run(&mut state, folder("", None))), "folder name is required");
    let r = run(&mut state, EditCommand::DeleteFolder { folder_ids: texts(&["f-1"]) }).unwrap();
    assert_eq!(r.action_name, "Delete Folder");
    assert_eq!(state.manifest.folders.len(), 0);
    assert_eq!(state.manifest.entries.len(), 1);
    assert_eq!(state.manifest.entries[0].id, "voice");
    assert!(state.timeline.tracks.iter().all(|t| t.clips.iter().all(|c| c.media_ref != "m")));
    run(&mut state, EditCommand::Undo).unwrap();
    assert_eq!(state.manifest.folders.len(), 2);
    assert_eq!(clip_of(&state, "a").media_ref, "m");
    assert_eq!(
        refusal(run(&mut state, EditCommand::DeleteFolder { folder_ids: vec![] })),
        "folderIds is required"
    );
    assert_eq!(
        refusal(run(&mut state, EditCommand::DeleteFolder { folder_ids: texts(&["z"]) })),
        "folderId not found: z"
    );
}

#[test]
fn deleted_media_leave_the_timeline() {
    let mut state = library();
    let r = run(&mut state, EditCommand::DeleteMedia { asset_ids: texts(&["m"]) }).unwrap();
    assert_eq!(
        r.summary,
        "Deleted 1 asset(s). Any clips referencing them were removed from the timeline."
    );
    assert_eq!(state.manifest.entries.len(), 1);
    assert!(state.timeline.tracks.iter().all(|t| t.clips.is_empty()));
    assert_eq!(
        refusal(run(&mut state, EditCommand::DeleteMedia { asset_ids: vec![] })),
        "assetIds is required"
    );
    assert_eq!(
        refusal(run(&mut state, EditCommand::DeleteMedia { asset_ids: texts(&["m"]) })),
        "Media asset not found: m"
    );
}

#[test]
fn media_and_folders_are_renamed() {
    let mut state = library();
    let named = |id: &str, name: &str| RenameEntry { id: id.to_string(), name: name.to_string() };
    let command = EditCommand::RenameMedia { entries: vec![named("m", "Opening")] };
    let r = run(&mut state, command).unwrap();
    assert_eq!(r.action_name, "Rename Asset");
    assert_eq!(r.summary, "Renamed m to 'Opening'");
    assert_eq!(state.manifest.entries[0].name, "Opening");
    assert_eq!(
        refusal(run(&mut state, EditCommand::RenameMedia { entries: vec![] })),
        "rename_media: no entries to rename"
    );
    let command = EditCommand::RenameMedia { entries: vec![named("z", "x")] };
    assert_eq!(refusal(run(&mut state, command)), "Media asset not found: z");
    let command = EditCommand::CreateFolder { name: "F".to_string(), parent_folder_id: None };
    run(&mut state, command).unwrap();
    let command = EditCommand::RenameFolder { entries: vec![named("n-1", "G")] };
    let r = run(&mut state, command).unwrap();
    assert_eq!(r.summary, "Renamed folder n-1 to 'G'");
    assert_eq!(state.manifest.folders[0].name, "G");
    assert_eq!(
        refusal(run(&mut state, EditCommand::RenameFolder { entries: vec![] })),
        "rename_folder: no entries to rename"
    );
}

fn voice(id: &str) -> VoiceModelRecord {
    VoiceModelRecord {
        id: id.to_string(),
        provider: "provider".to_string(),
        provider_voice_id: format!("voice-{id}"),
        model: "model".to_string(),
        consent_id: "consent".to_string(),
        source_audio_asset_id: "voice".to_string(),
        source_audio_sha256: "a".repeat(64),
        request_hash: "b".repeat(64),
        voice_name: "Narrator".to_string(),
        revoked: false,
    }
}

#[test]
fn a_revoked_voice_stays_revoked() {
    let mut state = library();
    let revoke = || EditCommand::RevokeVoiceModel { voice_model_id: "v".to_string() };
    assert_eq!(refusal(run(&mut state, revoke())), "voice model not found");
    let r = run(&mut state, EditCommand::SaveVoiceModel { record: voice("v") }).unwrap();
    assert_eq!(r.summary, "Enrolled voice clone v");
    assert_eq!(
        refusal(run(&mut state, EditCommand::SaveVoiceModel { record: voice("v") })),
        "provider voice identity is already registered"
    );
    let r = run(&mut state, revoke()).unwrap();
    assert_eq!(r.summary, "Revoked voice clone v");
    assert!(state.timeline.voice_models[0].revoked);
    let r = run(&mut state, revoke()).unwrap();
    assert!(!r.changed);
    assert_eq!(r.summary, "Voice clone was already revoked");
    run(&mut state, EditCommand::Undo).ok();
    assert!(state.timeline.voice_models[0].revoked);
}

#[test]
fn voices_need_consent_and_their_audio() {
    let mut state = library();
    let mut enroll = |record: VoiceModelRecord| {
        refusal(run(&mut state, EditCommand::SaveVoiceModel { record }))
    };
    let mut bad = voice("v");
    bad.request_hash = "short".to_string();
    assert_eq!(enroll(bad), "invalid cloned voice metadata");
    let mut gone = voice("v");
    gone.source_audio_asset_id = "gone".to_string();
    assert_eq!(enroll(gone), "voice reference audio does not exist");
    let mut seen = voice("v");
    seen.source_audio_asset_id = "m".to_string();
    assert_eq!(enroll(seen), "voice reference must be an audio asset");
}

#[test]
fn pixel_effects_are_set_and_cleared() {
    let mut state = document();
    let ids = || texts(&["a", "b"]);
    let lut = |lut: Option<&str>| EditCommand::SetLut {
        clip_ids: ids(),
        lut: lut.map(|x| setting(x, &[0.5])),
    };
    let r = run(&mut state, lut(Some("film"))).unwrap();
    assert_eq!((r.action_name.as_str(), r.summary.as_str()), ("Set LUT", "Updated 2 clip(s)"));
    assert!(holds(&clip_of(&state, "b").lut, &setting("film", &[0.5])));
    assert!(!run(&mut state, lut(Some("film"))).unwrap().changed);
    let faulty = Outside { setting_fault: Some("no file".to_string()), ..plain() };
    assert_eq!(
        refusal(run_with(&mut state, lut(Some("x")), faulty)),
        "invalid LUT reference: no file"
    );
    run(&mut state, lut(None)).unwrap();
    assert!(clip_of(&state, "b").lut.is_none());
    let green = || setting("green", &[0.4, 0.1]);
    let key = EditCommand::SetChromaKey { clip_ids: ids(), chroma_key: Some(green()) };
    run(&mut state, key).unwrap();
    assert!(holds(&clip_of(&state, "a").chroma_key, &green()));
    let effects = || vec![setting("blur", &[2.0]), setting("glow", &[])];
    let chain = EditCommand::SetEffects { clip_ids: ids(), effects: effects() };
    let r = run(&mut state, chain).unwrap();
    assert_eq!(r.action_name, "Set Effects");
    assert!(same_settings(&clip_of(&state, "a").effects, &effects()));
    assert!(clip_of(&state, "c").effects.is_empty());
    let mut state = compounded();
    let command = EditCommand::SetEffects { clip_ids: texts(&["n-3"]), effects: effects() };
    assert_eq!(
        refusal(run(&mut state, command)),
        "compound clip n-3 does not support direct pixel effects"
    );
}

fn solution(source: &str) -> StabilizationTrack {
    StabilizationTrack {
        source_identity: source.to_string(),
        strength: num(0.5),
        crop_margin: num(0.1),
        encoded: setting("path", &[]),
    }
}

#[test]
fn a_clip_is_stabilized_and_released() {
    let mut state = document();
    let stabilize = |id: &str, source: &str| EditCommand::ApplyStabilization {
        clip_id: id.to_string(),
        solution: solution(source),
    };
    let adjust = |strength: Option<f64>, margin: Option<f64>| EditCommand::AdjustStabilization {
        clip_id: "a".to_string(),
        strength: strength.map(num),
        crop_margin: margin.map(num),
    };
    assert_eq!(
        refusal(run(&mut state, adjust(Some(1.0), None))),
        "Clip has no stabilization analysis: a"
    );
    assert_eq!(
        refusal(run(&mut state, stabilize("s", "m"))),
        "stabilization requires an ordinary video clip: s"
    );
    assert_eq!(
        refusal(run(&mut state, stabilize("a", "other"))),
        "stabilization source identity other does not match clip source m"
    );
    run(&mut state, stabilize("a", "m")).unwrap();
    assert_eq!(refusal(run(&mut state, adjust(None, None))), "strength or cropMargin is required");
    assert_eq!(
        refusal(run(&mut state, adjust(Some(1.5), None))),
        "stabilization strength must be finite and within 0..=1"
    );
    assert_eq!(
        refusal(run(&mut state, adjust(None, Some(0.6)))),
        "stabilization crop margin must be finite and within 0..=0.5"
    );
    run(&mut state, adjust(Some(1.0), None)).unwrap();
    let track = clip_of(&state, "a").stabilization.as_ref().unwrap();
    assert_eq!((track.strength, track.crop_margin), (num(1.0), num(0.1)));
    run(&mut state, EditCommand::ResetStabilization { clip_id: "a".to_string() }).unwrap();
    assert!(clip_of(&state, "a").stabilization.is_none());
}

fn no_properties() -> ClipProperties {
    ClipProperties {
        duration_frames: None,
        trim_start_frame: None,
        trim_end_frame: None,
        speed: None,
        volume: None,
        opacity: None,
        transform: None,
        text_content: None,
        text_style: None,
        crop: None,
        fade_in_frames: None,
        fade_out_frames: None,
        fade_in_interpolation: None,
        fade_out_interpolation: None,
        flip_horizontal: None,
        flip_vertical: None,
        reversed: None,
    }
}

fn faster(state: &EditorState, id: &str, duration: i32) -> Outside {
    let mut fitted = clip_of(state, id).copy();
    fitted.speed = num(2.0);
    fitted.duration_frames = duration;
    Outside { fitted: vec![fitted], ..plain() }
}

#[test]
fn properties_diverge_on_request() {
    let mut state = linked();
    let loud = || Box::new(ClipProperties { volume: Some(num(0.5)), ..no_properties() });
    let command = EditCommand::SetClipPropertiesDiverging {
        clip_ids: texts(&["a"]),
        properties: loud(),
    };
    let r = run(&mut state, command).unwrap();
    assert_eq!(r.action_name, "Set Clip Property");
    assert_eq!(clip_of(&state, "a").volume, num(0.5));
    assert_eq!(clip_of(&state, "s").volume, num(1.0));
    let command = EditCommand::SetClipPropertiesDiverging {
        clip_ids: texts(&[]),
        properties: loud(),
    };
    assert_eq!(refusal(run(&mut state, command)), "Missing or empty 'clipIds' array");
}

#[test]
fn twice_the_speed_is_half_the_length() {
    let mut state = document();
    let fast = |speed: f64| EditCommand::SetClipPropertiesDiverging {
        clip_ids: texts(&["a"]),
        properties: Box::new(ClipProperties { speed: Some(num(speed)), ..no_properties() }),
    };
    let outside = faster(&state, "a", 15);
    run_with(&mut state, fast(2.0), outside).unwrap();
    assert_eq!(clip_of(&state, "a").duration_frames, 15);
    assert_eq!(clip_of(&state, "a").speed, num(2.0));
    assert_eq!(refusal(run(&mut state, fast(0.0))), "clip a: speed must be finite and > 0");
}

#[test]
fn properties_are_assigned_clip_by_clip() {
    let mut state = document();
    let assign = |id: &str, opacity: f64| ClipPropertyAssignment {
        clip_id: id.to_string(),
        properties: ClipProperties { opacity: Some(num(opacity)), ..no_properties() },
    };
    let command = EditCommand::SetClipPropertiesPerClip {
        assignments: vec![assign("a", 0.25), assign("b", 0.75)],
    };
    let r = run(&mut state, command).unwrap();
    assert_eq!(r.action_name, "Set Clip Properties");
    assert_eq!(clip_of(&state, "a").opacity, num(0.25));
    assert_eq!(clip_of(&state, "b").opacity, num(0.75));
    let command = EditCommand::SetClipPropertiesPerClip {
        assignments: vec![assign("a", 0.25), assign("a", 0.75)],
    };
    assert_eq!(refusal(run(&mut state, command)), "Duplicate clip property assignment: a");
    let command = EditCommand::SetClipPropertiesPerClip { assignments: vec![] };
    assert_eq!(
        refusal(run(&mut state, command)),
        "Missing or empty clip property assignments"
    );
}

fn scalar_track(frames: &[(i32, f64)]) -> KeyframeTrack<Real> {
    KeyframeTrack {
        keyframes: frames
            .iter()
            .map(|&(frame, value)| Keyframe {
                frame,
                value: num(value),
                interpolation_out: Interpolation::Linear,
            })
            .collect(),
    }
}

#[test]
fn a_keyframe_track_is_replaced_whole() {
    let mut state = document();
    let set = |property: KeyframeProperty, payload: KeyframePayload| EditCommand::SetKeyframes {
        clip_id: "a".to_string(),
        property,
        payload,
    };
    let track = KeyframePayload::Scalar(scalar_track(&[(0, 0.0), (10, 1.0)]));
    let r = run(&mut state, set(KeyframeProperty::Opacity, track)).unwrap();
    assert_eq!(r.summary, "Set keyframes on a");
    let track = clip_of(&state, "a").opacity_track.as_ref().unwrap();
    assert_eq!(track.keyframes.len(), 2);
    let track = KeyframePayload::Scalar(scalar_track(&[(0, 0.0)]));
    assert_eq!(
        refusal(run(&mut state, set(KeyframeProperty::Position, track))),
        "keyframe payload type does not match property"
    );
    let none = KeyframePayload::Scalar(scalar_track(&[]));
    run(&mut state, set(KeyframeProperty::Opacity, none)).unwrap();
    assert!(clip_of(&state, "a").opacity_track.is_none());
}

#[test]
fn a_transform_goes_to_keyframes_where_it_is_animated() {
    let mut state = document();
    let place = |frame: i32, rotation: f64| EditCommand::SetTransformAtFrame {
        clip_id: "b".to_string(),
        frame,
        transform: Transform { rotation: num(rotation), ..Transform::identity() },
    };
    let corner = || Outside { top_left: AnimPair { a: num(0.0), b: num(0.0) }, ..plain() };
    run_with(&mut state, place(-5, 90.0), corner()).unwrap();
    assert_eq!(clip_of(&state, "b").transform.rotation, num(90.0));
    state.timeline.tracks[0].clips[1].rotation_track = Some(scalar_track(&[(0, 0.0)]));
    run_with(&mut state, place(40, 45.0), corner()).unwrap();
    let turned = clip_of(&state, "b");
    assert_eq!(turned.transform.rotation, num(90.0));
    let track = turned.rotation_track.as_ref().unwrap();
    assert_eq!((track.keyframes[1].frame, track.keyframes[1].value), (10, num(45.0)));
    assert_eq!(
        refusal(run_with(&mut state, place(5, 45.0), corner())),
        "Frame 5 is outside clip range (30..70)"
    );
    assert_eq!(
        refusal(run_with(&mut state, place(40, f64::NAN), corner())),
        "Transform values must all be finite"
    );
}

fn entry(track_index: usize, start_frame: i32) -> ClipEntry {
    ClipEntry {
        media_ref: "m".to_string(),
        media_type: ClipType::Video,
        source_clip_type: ClipType::Video,
        track_index,
        start_frame,
        duration_frames: 10,
        trim_start_frame: None,
        trim_end_frame: None,
        has_audio: false,
        add_linked_audio: false,
        transform: None,
    }
}

#[test]
fn inserted_clips_push_the_later_ones_on() {
    let mut state = document();
    let insert = |track_index: usize, at_frame: i32, entries: Vec<ClipEntry>| {
        EditCommand::InsertClips { track_index, at_frame, entries }
    };
    assert_eq!(
        refusal(run(&mut state, insert(0, 0, vec![]))),
        "Missing or empty 'entries' array"
    );
    assert_eq!(
        refusal(run(&mut state, insert(9, 0, vec![entry(0, 0)]))),
        "trackIndex 9 out of range"
    );
    assert_eq!(
        refusal(run(&mut state, insert(0, -1, vec![entry(0, 0)]))),
        "atFrame must be >= 0 (got -1)"
    );
    assert_eq!(
        refusal(run(&mut state, insert(1, 0, vec![entry(1, 0)]))),
        "entries[0]: asset type is not compatible with the target track"
    );
    let mut pushed = state.timeline.copy();
    pushed.tracks[0].clips[2].start_frame = 110;
    pushed.tracks[0].clips.insert(2, new_clip("i", 70, 10));
    let outside = with_timeline(pushed, &["i"]);
    let r = run_with(&mut state, insert(0, 70, vec![entry(0, 70)]), outside).unwrap();
    assert_eq!(r.action_name, "Ripple Insert Clip");
    assert_eq!(r.summary, "Inserted 1 clip(s): i");
}

#[test]
fn clips_are_placed_on_tracks_of_their_own() {
    let mut state = document();
    let command = EditCommand::AddClipsAutoTrack { entries: vec![] };
    assert_eq!(refusal(run(&mut state, command)), "Missing or empty 'entries' array");
    let command = || EditCommand::AddClipsAutoTrack { entries: vec![entry(0, 0)] };
    let fresh = || new_track("n-1", ClipType::Video, vec![new_clip("p", 0, 10)]);
    let mut hidden = state.timeline.copy();
    hidden.tracks.push(fresh());
    let outside = with_timeline(hidden, &["p"]);
    assert_eq!(
        refusal(run_with(&mut state, command(), outside)),
        "clearing lost a destination track"
    );
    let mut placed = state.timeline.copy();
    placed.tracks.insert(0, fresh());
    let outside = with_timeline(placed, &["p"]);
    let mut ids = CoreIdGen::new("n-");
    let r = apply(&mut state, command(), &mut ids, outside).unwrap();
    assert_eq!(r.summary, "Added 1 clip(s): p");
    assert_eq!(state.timeline.tracks.len(), 3);
    assert_eq!(ids.next_id(), "n-2");
}

#[test]
fn tracks_left_empty_by_added_clips_go() {
    let mut state = document();
    let mut placed = state.timeline.copy();
    placed.tracks[1].clips.clear();
    placed.tracks[0].clips.push(new_clip("p", 200, 10));
    let outside = with_timeline(placed, &["p"]);
    let command = EditCommand::AddClips { entries: vec![entry(0, 200)] };
    run_with(&mut state, command, outside).unwrap();
    assert_eq!(state.timeline.tracks.len(), 1);
    assert_eq!(clip_ids(&state.timeline.tracks[0]), ["a", "b", "c", "p"]);
}

#[test]
fn media_placed_on_a_fresh_track_brings_its_settings() {
    let mut state = library();
    let place = || EditCommand::PlaceMedia {
        sequence_id: None,
        settings: Some(ProjectTimelineSettings { fps: 25, width: 640, height: 360 }),
        target: PlaceMediaTarget::NewTrack { kind: ClipType::Video, at: None },
        entry: unplaced("m", ClipType::Video),
    };
    let mut placed = state.timeline.copy();
    placed.tracks.insert(1, new_track("n-1", ClipType::Video, vec![new_clip("p", 200, 10)]));
    placed.tracks.push(new_track("empty", ClipType::Audio, vec![]));
    let outside = with_timeline(placed, &["p"]);
    run_with(&mut state, place(), outside).unwrap();
    let tracks: Vec<&str> = state.timeline.tracks.iter().map(|t| t.id.as_str()).collect();
    assert_eq!(tracks, ["v1", "n-1", "a1"]);
    let timeline = &state.timeline;
    assert_eq!((timeline.fps, timeline.width, timeline.height), (25, 640, 360));
    assert!(timeline.settings_configured);
    let outside = with_timeline(library().timeline, &[]);
    assert_eq!(
        refusal(run_with(&mut state, place(), outside)),
        "clearing lost a destination track"
    );
}

fn unplaced(media_ref: &str, kind: ClipType) -> UnplacedClipEntry {
    UnplacedClipEntry {
        media_ref: media_ref.to_string(),
        media_type: kind,
        source_clip_type: kind,
        start_frame: 200,
        duration_frames: 10,
        trim_start_frame: None,
        trim_end_frame: None,
        has_audio: kind == ClipType::Audio,
        add_linked_audio: false,
        transform: None,
    }
}

#[test]
fn media_are_placed_as_the_library_knows_them() {
    let mut state = library();
    let place = |track: &str, entry: UnplacedClipEntry| EditCommand::PlaceMedia {
        sequence_id: None,
        settings: None,
        target: PlaceMediaTarget::ExistingTrack { track_id: track.to_string() },
        entry,
    };
    assert_eq!(
        refusal(run(&mut state, place("v1", unplaced("gone", ClipType::Video)))),
        "Media not found in manifest: gone"
    );
    assert_eq!(
        refusal(run(&mut state, place("none", unplaced("m", ClipType::Video)))),
        "Track not found: none"
    );
    assert_eq!(
        refusal(run(&mut state, place("a1", unplaced("m", ClipType::Video)))),
        "media is not compatible with the destination track"
    );
    let mut placed = state.timeline.copy();
    placed.tracks[0].clips.push(new_clip("p", 200, 10));
    let outside = with_timeline(placed, &["p"]);
    let command = place("v1", unplaced("m", ClipType::Video));
    let r = run_with(&mut state, command, outside).unwrap();
    assert_eq!(r.action_name, "Place Media");
    assert_eq!(r.summary, "Placed media as 1 clip(s)");
}

#[test]
fn a_clip_shows_other_media() {
    let mut state = library();
    let mut other = medium("other", ClipType::Video);
    other.duration = num(10.0);
    state.manifest.entries.push(other);
    let swap = |id: &str, media: &str| EditCommand::SwapMedia {
        clip_id: id.to_string(),
        media_ref: media.to_string(),
    };
    run(&mut state, swap("a", "other")).unwrap();
    let clip = clip_of(&state, "a");
    assert_eq!(clip.media_ref, "other");
    assert_eq!((clip.id.as_str(), clip.start_frame, clip.duration_frames), ("a", 0, 30));
    assert_eq!(refusal(run(&mut state, swap("z", "other"))), "Clip not found: z");
    assert!(refusal(run(&mut state, swap("a", "gone"))).contains("gone"));
}

fn write_texts(places: &[(usize, i32, i32)]) -> EditCommand {
    let entry = |&(track_index, start_frame, duration_frames): &(usize, i32, i32)| TextEntry {
        track_index,
        start_frame,
        duration_frames,
        content: format!("at {start_frame}"),
        text_style: setting("bold", &[24.0]),
        transform: Transform::identity(),
    };
    EditCommand::AddTexts { entries: places.iter().map(entry).collect() }
}

#[test]
fn texts_need_a_visual_track() {
    let mut state = document();
    let write = |track_index: usize| write_texts(&[(track_index, 200, 10)]);
    assert_eq!(
        refusal(run(&mut state, write(9))),
        "entries[0]: track index 9 out of range"
    );
    assert_eq!(
        refusal(run(&mut state, write(1))),
        "entries[0]: track 1 is an audio track; text requires a visual track"
    );
    let outside = Outside { cleared: vec![state.timeline.copy()], ..plain() };
    let r = run_with(&mut state, write(0), outside).unwrap();
    assert_eq!(
        (r.action_name.as_str(), r.summary.as_str()),
        ("Add Text", "Added 1 text clip(s): n-1")
    );
    assert_eq!(clip_ids(&state.timeline.tracks[0]), ["a", "b", "c", "n-1"]);
}

#[test]
fn each_text_goes_on_what_clearing_its_region_gave() {
    let mut state = document();
    let first = state.timeline.copy();
    let mut second = first.copy();
    second.tracks[0].clips.push(new_clip("n-1", 200, 5));
    second.tracks[0].clips[2].duration_frames = 4;
    let outside = Outside { cleared: vec![first, second], ..plain() };
    let command = write_texts(&[(0, 200, 10), (0, 205, 10)]);
    let r = run_with(&mut state, command, outside).unwrap();
    assert_eq!(r.action_name, "Add Texts");
    assert_eq!(r.affected_clip_ids, texts(&["n-1", "n-2"]));
    assert_eq!(clip_ids(&state.timeline.tracks[0]), ["a", "b", "c", "n-1", "n-2"]);
    assert_eq!(clip_of(&state, "c").duration_frames, 4);
    assert_eq!(clip_of(&state, "n-1").duration_frames, 5);
    let last = clip_of(&state, "n-2");
    assert_eq!((last.start_frame, last.duration_frames), (205, 10));
    assert_eq!(last.text_content.as_deref(), Some("at 205"));
    assert_eq!(last.media_type, ClipType::Text);
}

#[test]
fn removing_clips_is_undone_under_the_label_that_was_reported() {
    let mut state = document();
    let remove = |ids: &[&str]| EditCommand::RemoveClips { clip_ids: texts(ids) };
    let r = run(&mut state, remove(&["a", "b"])).unwrap();
    assert_eq!(r.action_name, "Remove Clips");
    assert_eq!(state.undo_action_name(), Some(r.action_name));
    let r = run(&mut state, remove(&["c"])).unwrap();
    assert_eq!(r.action_name, "Remove Clip");
    assert_eq!(state.undo_action_name(), Some(r.action_name));
}

#[test]
fn the_two_zeros_are_the_same_number_and_a_nan_is_none() {
    let negative = 0x8000_0000_0000_0000;
    let mut state = document();
    state.timeline.tracks[0].clips[0].volume = Real { bits: 0 };
    let mut other = state.timeline.copy();
    other.tracks[0].clips[0].volume = Real { bits: negative };
    assert!(state.timeline.same(&other));
    let outside = with_timeline(other, &[]);
    let swap = EditCommand::SwapClips { a: "a".to_string(), b: "c".to_string() };
    let r = run_with(&mut state, swap, outside).unwrap();
    assert!(!r.changed);
    assert_eq!((state.version(), state.undo_depth()), (0, 0));
    assert_eq!(clip_of(&state, "a").volume.bits, negative);
    let mut unlike = state.timeline.copy();
    unlike.tracks[0].clips[0].volume = Real { bits: 0x7FF8_0000_0000_0000 };
    assert!(!unlike.same(&unlike.copy()));
    let outside = with_timeline(unlike.copy(), &[]);
    let swap = EditCommand::SwapClips { a: "a".to_string(), b: "c".to_string() };
    assert!(run_with(&mut state, swap, outside).unwrap().changed);
    let outside = with_timeline(unlike, &[]);
    let swap = EditCommand::SwapClips { a: "a".to_string(), b: "c".to_string() };
    assert!(run_with(&mut state, swap, outside).unwrap().changed);
    assert_eq!(state.version(), 2);
}

#[test]
fn settings_compare_by_their_numbers() {
    let mut state = document();
    let grade = |x: f64| EditCommand::SetColorGrade {
        clip_ids: texts(&["a"]),
        grade: Some(setting("exposure", &[x, 1.0])),
    };
    assert!(run(&mut state, grade(0.0)).unwrap().changed);
    assert!(!run(&mut state, grade(-0.0)).unwrap().changed);
    assert_eq!((state.version(), state.undo_depth()), (1, 1));
    let held = clip_of(&state, "a").color_grade.as_ref().unwrap();
    assert_eq!(held.numbers[0].bits, (-0.0f64).to_bits());
    assert!(run(&mut state, grade(0.5)).unwrap().changed);
    assert!(run(&mut state, grade(f64::NAN)).unwrap().changed);
    assert!(run(&mut state, grade(f64::NAN)).unwrap().changed);
    assert_eq!(state.version(), 4);
    let plain = setting("exposure", &[1.0]);
    assert!(!plain.same(&setting("exposure", &[1.0, 1.0])));
    assert!(!plain.same(&setting("contrast", &[1.0])));
}

#[test]
fn a_ripple_delete_compares_the_library_too() {
    let leaving = |state: &EditorState| Outside {
        ripple: RippleOutcome::Done {
            timeline: state.timeline.copy(),
            removed_frames: 0,
            cleared_tracks: 0,
            shifted_clips: 0,
            resulting_fragments: texts(&[]),
        },
        ..plain()
    };
    let delete = || EditCommand::RippleDeleteClips { clip_ids: texts(&["c"]) };
    let mut state = library();
    let outside = leaving(&state);
    assert!(!run_with(&mut state, delete(), outside).unwrap().changed);
    assert_eq!(state.version(), 0);
    state.manifest.entries[0].duration = num(f64::NAN);
    let outside = leaving(&state);
    let r = run_with(&mut state, delete(), outside).unwrap();
    assert!(r.changed && r.timeline_changed && !r.manifest_changed);
    assert_eq!((state.version(), state.undo_depth()), (1, 1));
}

#[test]
fn freezing_a_frame_is_planned() {
    let state = document();
    let plan = |id: &str, at: i32, duration: i32| {
        plan_freeze(&state, &id.to_string(), at, duration, &"still".to_string())
    };
    let still = plan("b", 40, 12).unwrap();
    assert_eq!((still.media_ref.as_str(), still.track_index), ("still", 0));
    assert_eq!((still.media_type, still.source_clip_type), (ClipType::Image, ClipType::Image));
    assert_eq!((still.start_frame, still.duration_frames), (40, 12));
    assert!(!still.has_audio && !still.add_linked_audio);
    let message = |r: Result<ClipEntry, EditError>| r.unwrap_err().message();
    assert_eq!(message(plan("z", 40, 12)), "Clip not found: z");
    assert!(message(plan("b", 30, 12)).contains("strictly inside clip range (30..70)"));
    assert_eq!(message(plan("b", 40, 0)), "durationFrames must be >= 1 (got 0)");
    assert!(message(plan("s", 10, 12)).contains("requires a video or image clip"));
}

#[test]
fn clips_for_automatic_tracks_get_the_tracks_that_they_share() {
    let mut heard = entry(0, 0);
    heard.media_type = ClipType::Audio;
    heard.source_clip_type = ClipType::Audio;
    let mut timeline = document().timeline;
    let mut ids = CoreIdGen::new("n-");
    let entries = vec![heard.copy(), entry(0, 0), heard.copy()];
    let planned = plan_shared_tracks(&mut timeline, &entries, &mut ids);
    let tracks: Vec<usize> = planned.iter().map(|e| e.track_index).collect();
    assert_eq!(tracks, [3, 0, 3]);
    assert_eq!(timeline.tracks.len(), 4);
    assert_eq!(timeline.tracks[3].kind, ClipType::Audio);
    assert_eq!(ids.next_id(), "n-3");
    let mut timeline = document().timeline;
    let planned = plan_shared_tracks(&mut timeline, &vec![heard], &mut ids);
    assert_eq!((planned[0].track_index, timeline.tracks.len()), (2, 3));
}

#[test]
fn a_nested_sequence_is_entered_with_the_others_at_hand() {
    let state = compounded();
    let child = enter_sequence(&state, "n-2").unwrap();
    assert_eq!(clip_ids(&child.timeline.tracks[0]), ["a", "b"]);
    assert_eq!(child.timeline.nested_sequences.len(), 1);
    assert!(enter_sequence(&state, "none").is_none());
}

#[test]
fn the_registry_is_asked_of_transactions_alone() {
    assert!(!EditCommand::Undo.is_up_to_registry());
    assert!(!EditCommand::Redo.is_up_to_registry());
    let ripple = EditCommand::RippleDeleteClips { clip_ids: texts(&["a"]) };
    assert!(!ripple.is_up_to_registry());
    let mut state = document();
    let command = EditCommand::RemoveClips { clip_ids: texts(&["a"]) };
    assert!(command.is_up_to_registry());
    let complaint = Outside::silent(Some("registry".to_string()));
    assert_eq!(refusal(run_with(&mut state, command, complaint)), "registry");
    assert_eq!((state.version(), clip_ids(&state.timeline.tracks[0]).len()), (0, 3));
}

#[test]
fn a_text_is_put_on_a_cleared_track() {
    let mut timeline = document().timeline;
    let mut ids = CoreIdGen::new("n-");
    add_top_track(&mut timeline, &mut ids);
    assert_eq!(timeline.tracks.len(), 3);
    assert_eq!((timeline.tracks[0].id.as_str(), timeline.tracks[0].kind), ("n-1", ClipType::Video));
    let id = place_text(
        &mut timeline,
        0,
        5,
        10,
        &"Hi".to_string(),
        &setting("bold", &[24.0]),
        Transform::identity(),
        &mut ids,
    );
    assert_eq!(id, "n-2");
    let clip = &timeline.tracks[0].clips[0];
    assert_eq!((clip.media_type, clip.source_clip_type), (ClipType::Text, ClipType::Text));
    assert_eq!((clip.start_frame, clip.duration_frames), (5, 10));
    assert_eq!(clip.text_content.as_deref(), Some("Hi"));
    assert!(holds(&clip.text_style, &setting("bold", &[24.0])));
}

#[test]
fn tracks_are_added_for_what_is_placed() {
    let mut heard = entry(0, 0);
    heard.media_type = ClipType::Audio;
    heard.source_clip_type = ClipType::Audio;
    let mut timeline = document().timeline;
    let mut ids = CoreIdGen::new("n-");
    let places = add_shared_tracks(&mut timeline, &vec![entry(0, 0), heard], &mut ids);
    assert_eq!(places, (Some(0), Some(3)));
    let kinds: Vec<ClipType> = timeline.tracks.iter().map(|t| t.kind).collect();
    assert_eq!(kinds, [ClipType::Video, ClipType::Video, ClipType::Audio, ClipType::Audio]);
    assert_eq!(add_shared_tracks(&mut timeline, &vec![], &mut ids), (None, None));
    assert_eq!(add_own_track(&mut timeline, ClipType::Image, &mut ids), 2);
    assert_eq!(timeline.tracks[2].kind, ClipType::Video);
    assert_eq!(add_own_track(&mut timeline, ClipType::Audio, &mut ids), 5);
}

#[test]
fn a_destination_is_found_or_made() {
    let mut timeline = document().timeline;
    let mut ids = CoreIdGen::new("n-");
    let known = PlaceMediaTarget::ExistingTrack { track_id: "a1".to_string() };
    assert_eq!(resolve_destination(&mut timeline, &known, &mut ids), Some(1));
    let unknown = PlaceMediaTarget::ExistingTrack { track_id: "z".to_string() };
    assert_eq!(resolve_destination(&mut timeline, &unknown, &mut ids), None);
    let fresh = PlaceMediaTarget::NewTrack { kind: ClipType::Video, at: Some(0) };
    assert_eq!(resolve_destination(&mut timeline, &fresh, &mut ids), Some(0));
    assert_eq!(timeline.tracks[0].id, "n-1");
    let settled = unplaced("m", ClipType::Video).at_track(4);
    assert_eq!((settled.track_index, settled.start_frame, settled.duration_frames), (4, 200, 10));
}

#[test]
fn a_gesture_is_planned_from_its_lead() {
    let state = linked();
    let plan = |ids: &[&str], delta: i32, mode: NewTrackClipMode| {
        plan_new_track(
            &state,
            &texts(ids),
            &"a".to_string(),
            delta,
            0,
            mode,
            &mut CoreIdGen::new("n-"),
        )
        .unwrap()
    };
    let moved = plan(&["a", "s"], 12, NewTrackClipMode::Move);
    assert_eq!(moved.timeline.tracks.len(), 3);
    assert_eq!(moved.timeline.tracks[0].id, "n-1");
    assert_eq!(moved.plans[0].to_track_id, "n-1");
    assert_eq!((moved.plans[0].to_frame, moved.plans[0].to_end_frame), (12, 42));
    assert_eq!(moved.plans[1].to_track_id, "a1");
    let held = plan(&["a", "b"], -50, NewTrackClipMode::Move);
    assert_eq!((held.plans[0].to_frame, held.plans[1].to_frame), (0, 30));
    let copied = plan(&["a", "s"], 0, NewTrackClipMode::Duplicate);
    assert_eq!(copied.plans[1].to_track_id, "n-2");
    assert_eq!(copied.timeline.tracks.len(), 4);
}

#[test]
fn a_compound_shows_the_sequence_registered_with_it() {
    let mut timeline = document().timeline;
    let sequence = NestedSequence {
        id: "seq".to_string(),
        name: "Scene".to_string(),
        timeline: Timeline::new(),
    };
    place_compound(&mut timeline, sequence, 0, 80, 10, &"k".to_string());
    assert_eq!(clip_ids(&timeline.tracks[0]), ["a", "b", "k", "c"]);
    assert_eq!(timeline.tracks[0].clips[2].nested_sequence_id.as_deref(), Some("seq"));
    assert_eq!(timeline.nested_sequences[0].id, "seq");
}
