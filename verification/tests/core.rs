//! The shared core: revisions, events, saving and reopening, imports, generated media.

use opentake::app_core::batch::PreparedMediaFolderRef;
use opentake::app_core::batch::PreparedMediaImportOp;
use opentake::app_core::generated::generated_command;
use opentake::app_core::generated::GeneratedFile;
use opentake::app_core::generated::MotionPlacement;
use opentake::app_core::generation::GenerationState;
use opentake::app_core::imports::ImportCommitWarning;
use opentake::app_core::lifecycle::announce_after_save;
use opentake::app_core::lifecycle::announce_before_save;
use opentake::app_core::lifecycle::SaveTarget;
use opentake::app_core::lifecycle::SavedProject;
use opentake::app_core::AppCore;
use opentake::app_core::OwnedUndoResult;
use opentake::app_core::ProjectAssetAuthority;
use opentake::app_core::ProjectRevision;
use opentake::app_core::ProjectRuntimeSnapshot;
use opentake::command::EditCommand;
use opentake::command::Outside;
use opentake::entries::ClipEntry;
use opentake::events::CoreError;
use opentake::events::DeferredCoreEvents;
use opentake::ids::CoreIdGen;
use opentake::model::Clip;
use opentake::model::ClipType;
use opentake::model::MediaManifest;
use opentake::model::MediaManifestEntry;
use opentake::model::Real;
use opentake::model::Setting;
use opentake::model::Timeline;
use opentake::model::Track;
use opentake::session::EditorSession;
use opentake::session::ProbedMedia;
use opentake::state::EditorState;
use opentake::state::Placed;

fn num(x: f64) -> Real {
    Real { bits: x.to_bits() }
}

fn setting(rest: &str, numbers: &[f64]) -> Setting {
    Setting { numbers: numbers.iter().map(|x| num(*x)).collect(), rest: rest.to_string() }
}

fn plain() -> Outside {
    Outside::silent(None)
}

/// What the core has told since it was last asked.
fn told(core: &mut AppCore) -> Vec<String> {
    core.take_events().iter().map(|event| format!("{:?}", event)).collect()
}

fn timeline_changed(project_epoch: u64, version: u64) -> String {
    format!("TimelineChanged {{ project_epoch: {project_epoch}, version: {version} }}")
}

fn media_changed(project_epoch: u64, count: usize) -> String {
    format!("MediaChanged {{ project_epoch: {project_epoch}, count: {count} }}")
}

fn project_saved(path: &str, project_epoch: u64) -> String {
    format!("ProjectSaved {{ path: {path:?}, project_epoch: {project_epoch} }}")
}

fn project_opened(path: &str, project_epoch: u64, version: u64) -> String {
    format!(
        "ProjectOpened {{ path: {path:?}, project_epoch: {project_epoch}, version: {version} }}"
    )
}

fn new_track(id: &str) -> Track {
    Track::new(id.to_string(), ClipType::Video)
}

/// A core whose session has one empty video track.
fn core_with_track() -> AppCore {
    let mut core = AppCore::new();
    core.editor.state.timeline.tracks.push(new_track("t1"));
    core
}

fn add_one_clip() -> EditCommand {
    EditCommand::AddClips {
        entries: vec![ClipEntry {
            media_ref: "asset-1".to_string(),
            media_type: ClipType::Video,
            source_clip_type: ClipType::Video,
            track_index: 0,
            start_frame: 0,
            duration_frames: 30,
            trim_start_frame: None,
            trim_end_frame: None,
            has_audio: false,
            add_linked_audio: false,
            transform: None,
        }],
    }
}

/// The document of a core with one clip more on its first track.
fn one_clip_placed(core: &AppCore, id: &str, media: &str) -> Placed {
    let mut timeline = core.editor.state.timeline.copy();
    timeline.tracks[0].clips.push(Clip::new(id.to_string(), media.to_string(), 0, 30));
    Placed { timeline, affected: vec![id.to_string()] }
}

fn placing(core: &AppCore) -> Outside {
    Outside { placed: one_clip_placed(core, "clip-1", "asset-1"), ..plain() }
}

fn place_one(core: &mut AppCore) -> opentake::edit::EditResult {
    let outside = placing(core);
    core.apply(add_one_clip(), outside).unwrap()
}

fn medium(name: &str) -> MediaManifestEntry {
    MediaManifestEntry {
        id: String::new(),
        name: name.to_string(),
        kind: ClipType::Video,
        source: format!("/abs/{name}.mp4"),
        duration: num(0.0),
        generation_input: None,
        source_width: None,
        source_height: None,
        source_fps: None,
        has_audio: Some(false),
        color: None,
        proxy: None,
        folder_id: None,
        favorite: false,
        global_favorite_id: None,
        cached_remote_url: None,
        cached_remote_url_expires_at: None,
    }
}

fn save_to(core: &mut AppCore, path: &str) {
    let saved = SavedProject { path: path.to_string(), root_identity: Some(format!("root of {path}")) };
    core.save_project(Ok(saved)).unwrap();
}

/// The session that opening a bundle gives: a track and a medium named by a label.
fn bundle(label: &str, path: &str) -> EditorSession {
    let mut session = EditorSession::new_project();
    let mut timeline = Timeline::new();
    timeline.tracks.push(new_track(&format!("{label}-track")));
    let mut manifest = MediaManifest::new();
    manifest.entries.push(medium(label));
    session.state = EditorState::new(timeline, manifest);
    session.project_dir = Some(path.to_string());
    session
}

fn same_document(a: &ProjectRuntimeSnapshot, b: &ProjectRuntimeSnapshot) -> bool {
    a.project_epoch == b.project_epoch
        && a.version == b.version
        && a.timeline.same(&b.timeline)
        && a.media.same(&b.media)
}

#[test]
fn app_core_is_send_and_sync() {
    fn assert_send_sync<T: Send + Sync>() {}
    assert_send_sync::<AppCore>();
}

#[test]
fn core_id_gen_is_monotonic_from_one() {
    let mut g = CoreIdGen::new("c-");
    assert_eq!(g.next_id(), "c-1");
    assert_eq!(g.next_id(), "c-2");
}

#[test]
fn ids_do_not_repeat() {
    let mut g = CoreIdGen::default();
    let minted: Vec<String> = (0..1200).map(|_| g.next_id()).collect();
    assert_eq!(minted[0], "id-1");
    assert_eq!(minted[999], "id-1000");
    for (i, id) in minted.iter().enumerate() {
        assert!(!minted[i + 1..].contains(id));
    }
}

#[test]
fn apply_bumps_version_and_emits_once() {
    let mut core = core_with_track();
    let res = place_one(&mut core);
    assert!(res.changed);
    assert!(res.timeline_changed);
    assert!(!res.manifest_changed);
    assert_eq!(res.timeline_version, 1);
    assert_eq!(core.version(), 1);
    assert_eq!(told(&mut core), vec![timeline_changed(0, 1)]);
}

#[test]
fn deferred_apply_rejects_version_and_project_drift_without_mutation() {
    let mut version_drift = core_with_track();
    let expected = version_drift.project_revision();
    place_one(&mut version_drift);
    let before = version_drift.runtime_snapshot();
    let outside = placing(&version_drift);
    let error = version_drift
        .apply_at_revision(expected, add_one_clip(), outside)
        .expect_err("stale document version must reject deferred edit");
    assert_eq!(error.message(), "project changed while preparing a deferred edit");
    assert!(same_document(&version_drift.runtime_snapshot(), &before));

    let mut project_drift = core_with_track();
    let expected = project_drift.project_revision();
    project_drift.new_project();
    let before = project_drift.runtime_snapshot();
    let error = project_drift
        .apply_at_revision(expected, add_one_clip(), plain())
        .expect_err("stale project epoch must reject deferred edit");
    assert_eq!(error.message(), "project changed while preparing a deferred edit");
    assert!(same_document(&project_drift.runtime_snapshot(), &before));
}

#[test]
fn ipc_edit_revision_rejects_save_as_path_drift_without_mutation() {
    let mut core = core_with_track();
    save_to(&mut core, "first.opentake");
    let expected = core.project_revision();

    save_to(&mut core, "second.opentake");
    assert_eq!(core.project_revision(), expected, "Save As keeps the session revision");
    let before = core.runtime_snapshot();
    let outside = placing(&core);
    let error = core
        .apply_at_project_revision(expected, Some("first.opentake"), add_one_clip(), outside)
        .expect_err("an edit captured before Save As must not target the new bundle path");

    assert!(matches!(error, CoreError::StaleProject));
    let after = core.runtime_snapshot();
    assert_eq!(after.project_dir.as_deref(), Some("second.opentake"));
    assert!(same_document(&after, &before));
}

fn registered_freeze(media: MediaManifestEntry, clip_id: &str) -> EditCommand {
    EditCommand::RegisterMediaAndFreezeFrame {
        media,
        clip_id: clip_id.to_string(),
        at_frame: 130,
        duration_frames: 30,
    }
}

#[test]
fn registered_freeze_rejects_version_drift_without_manifest_or_events() {
    let mut core = core_with_track();
    let added = place_one(&mut core);
    let clip_id = added.affected_clip_ids[0].clone();
    let expected = core.project_revision();
    let media = core.prepare_media_file_entry(Ok(medium("Freeze"))).unwrap();
    core.apply(
        EditCommand::CreateFolder { name: "version drift".to_string(), parent_folder_id: None },
        plain(),
    )
    .unwrap();
    let before = core.runtime_snapshot();
    core.take_events();

    let error = core
        .apply_at_project_revision(expected, None, registered_freeze(media, &clip_id), plain())
        .expect_err("a capture prepared before another edit must be rejected");

    assert!(matches!(error, CoreError::StaleProject));
    assert!(same_document(&core.runtime_snapshot(), &before));
    assert!(told(&mut core).is_empty());
}

fn seed_same_video_clip(core: &mut AppCore, clip_id: &str) {
    let mut track = new_track("same-track");
    track.clips.push(Clip::new(clip_id.to_string(), "source-asset".to_string(), 100, 60));
    core.editor.state.timeline.tracks = vec![track];
}

#[test]
fn registered_freeze_rejects_project_drift_even_with_same_clip_id() {
    let mut core = AppCore::new();
    seed_same_video_clip(&mut core, "same-clip");
    let expected = core.project_revision();
    let media = core.prepare_media_file_entry(Ok(medium("Freeze"))).unwrap();

    core.new_project();
    seed_same_video_clip(&mut core, "same-clip");
    let before = core.runtime_snapshot();
    core.take_events();

    let error = core
        .apply_at_project_revision(expected, None, registered_freeze(media, "same-clip"), plain())
        .expect_err("the replacement project must not accept an old capture");

    assert!(matches!(error, CoreError::StaleProject));
    assert!(same_document(&core.runtime_snapshot(), &before));
    assert!(told(&mut core).is_empty());
}

#[test]
fn manifest_edit_and_undo_emit_media_changed() {
    let mut core = core_with_track();
    let created = core
        .apply(
            EditCommand::CreateFolder { name: "Review".to_string(), parent_folder_id: None },
            plain(),
        )
        .unwrap();
    assert!(created.changed);
    assert!(!created.timeline_changed);
    assert!(created.manifest_changed);
    assert_eq!(core.media().folders.len(), 1);

    let undone = core.undo().unwrap();
    assert!(undone.changed);
    assert!(!undone.timeline_changed);
    assert!(undone.manifest_changed);
    assert!(core.media().folders.is_empty());

    assert_eq!(
        told(&mut core),
        vec![
            timeline_changed(0, 1),
            media_changed(0, 0),
            timeline_changed(0, 2),
            media_changed(0, 0),
        ]
    );
}

#[test]
fn unchanged_command_does_not_emit_or_bump() {
    let mut core = core_with_track();
    let res = core.undo().unwrap();
    assert!(!res.changed);
    assert!(!res.timeline_changed);
    assert!(!res.manifest_changed);
    assert_eq!(core.version(), 0);
    assert!(told(&mut core).is_empty());
}

#[test]
fn undo_redo_through_core_bumps_version_and_emits() {
    let mut core = core_with_track();
    place_one(&mut core);
    core.undo().unwrap();
    assert_eq!(core.get_timeline().timeline.tracks[0].clips.len(), 0);
    core.redo().unwrap();
    assert_eq!(core.get_timeline().timeline.tracks[0].clips.len(), 1);
    assert_eq!(
        told(&mut core),
        vec![timeline_changed(0, 1), timeline_changed(0, 2), timeline_changed(0, 3)]
    );
}

#[test]
fn rejected_command_returns_err_without_emitting() {
    let mut core = core_with_track();
    let err = core.apply(EditCommand::AddClips { entries: vec![] }, plain());
    assert!(err.is_err());
    assert_eq!(core.version(), 0);
    assert!(told(&mut core).is_empty());
}

#[test]
fn opening_two_projects_produces_distinct_epochs_at_version_zero() {
    let mut core = AppCore::new();
    let first = core.open_project("/p/first".to_string(), Ok(bundle("first", "/p/first"))).unwrap();
    let second =
        core.open_project("/p/second".to_string(), Ok(bundle("second", "/p/second"))).unwrap();
    assert_eq!(first.version, 0);
    assert_eq!(second.version, 0);
    assert_ne!(first.project_epoch, second.project_epoch);
}

#[test]
fn new_project_advances_epoch_even_when_versions_collide() {
    let mut core = AppCore::new();
    let before = core.project_revision();
    core.new_project();
    let after = core.project_revision();
    assert_eq!(before.version, 0);
    assert_eq!(after.version, 0);
    assert!(after.project_epoch > before.project_epoch);
}

#[test]
fn runtime_snapshot_never_mixes_timeline_media_and_project_dir() {
    let mut core = AppCore::new();
    core.open_project("/p/first".to_string(), Ok(bundle("first", "/p/first"))).unwrap();
    let initial_epoch = core.project_revision().project_epoch;
    for step in 0..200u64 {
        let label = if step % 2 == 0 { "first" } else { "second" };
        let snapshot = core.runtime_snapshot();
        assert_eq!(snapshot.version, 0);
        assert_eq!(snapshot.project_dir, Some(format!("/p/{label}")));
        assert_eq!(snapshot.timeline.tracks.len(), 1);
        assert_eq!(snapshot.timeline.tracks[0].id, format!("{label}-track"));
        assert_eq!(snapshot.media.entries.len(), 1);
        assert_eq!(snapshot.media.entries[0].name, label);
        assert_eq!(snapshot.project_epoch, initial_epoch + step);
        let next = if label == "first" { "second" } else { "first" };
        let path = format!("/p/{next}");
        core.open_project(path.clone(), Ok(bundle(next, &path))).unwrap();
    }
}

#[test]
fn new_project_resets_and_emits_project_opened() {
    let mut core = core_with_track();
    place_one(&mut core);
    assert_eq!(core.version(), 1);
    core.take_events();

    let snapshot = core.new_project();
    assert_eq!(core.version(), 0);
    assert_eq!(snapshot.project_epoch, 1);
    assert!(core.get_timeline().timeline.tracks.is_empty());
    assert_eq!(told(&mut core), vec![project_opened("", 1, 0)]);
}

#[test]
fn open_save_roundtrip_through_core_emits_lifecycle_events() {
    let mut core = core_with_track();
    place_one(&mut core);
    let before = core.get_timeline().timeline;
    core.take_events();
    save_to(&mut core, "/p/a.opentake");

    let mut reopened = EditorSession::new_project();
    reopened.state = EditorState::new(before.copy(), MediaManifest::new());
    reopened.project_dir = Some("/p/a.opentake".to_string());
    let mut core2 = AppCore::new();
    let snap = core2.open_project("/p/a.opentake".to_string(), Ok(reopened)).unwrap();
    assert!(snap.timeline.same(&before));
    assert_eq!(snap.project_epoch, 1);
    assert_eq!(snap.version, 0);
    assert_eq!(told(&mut core2), vec![project_opened("/p/a.opentake", 1, 0)]);

    assert_eq!(told(&mut core), vec![project_saved("/p/a.opentake", 0)]);
}

#[test]
fn a_project_that_does_not_open_replaces_nothing() {
    let mut core = core_with_track();
    let before = core.runtime_snapshot();
    let error = core
        .open_project("/p/gone".to_string(), Err(CoreError::Storage("no such bundle".to_string())))
        .unwrap_err();
    assert!(matches!(&error, CoreError::Storage(_)));
    assert!(same_document(&core.runtime_snapshot(), &before));
    assert!(told(&mut core).is_empty());
}

#[test]
fn identity_bound_save_never_writes_a_replacement_project_to_the_old_request_target() {
    let mut core = AppCore::new();
    core.open_project("/p/first".to_string(), Ok(bundle("first", "/p/first"))).unwrap();
    let expected = core.runtime_snapshot();
    core.open_project("/p/second".to_string(), Ok(bundle("second", "/p/second"))).unwrap();
    let error = core
        .save_project_with_thumbnail_for_project(
            expected.project_epoch,
            expected.project_dir,
            Ok(SavedProject { path: "/p/destination".to_string(), root_identity: None }),
        )
        .expect_err("replacement project must reject the stale save");
    assert!(matches!(error, CoreError::StaleProject));
    assert_eq!(core.runtime_snapshot().project_dir.as_deref(), Some("/p/second"));
}

#[test]
fn a_stale_or_withdrawn_save_changes_nothing() {
    let mut core = core_with_track();
    save_to(&mut core, "/p/a");
    core.take_events();
    let saved = || Ok(SavedProject { path: "/p/b".to_string(), root_identity: None });
    assert!(core
        .save_project_with_thumbnail_update_for_project_if(0, Some("/p/a".to_string()), false, saved())
        .is_err());
    assert_eq!(core.project_dir().as_deref(), Some("/p/a"));
    assert!(told(&mut core).is_empty());
    let path = core
        .save_project_with_thumbnail_update_for_project_if(0, Some("/p/a".to_string()), true, saved())
        .unwrap();
    assert_eq!(path, "/p/b");
    assert_eq!(core.project_dir().as_deref(), Some("/p/b"));
    assert_eq!(told(&mut core), vec![project_saved("/p/b", 0)]);
}

#[test]
fn import_media_mints_id_appends_and_emits_media_changed() {
    let mut core = AppCore::new();
    let mut candidate = medium("a");
    candidate.duration = num(3.0);
    candidate.source_width = Some(640);
    candidate.source_height = Some(480);
    candidate.source_fps = Some(num(24.0));
    let entry = core.import_media_file(Ok(candidate)).unwrap();
    assert_eq!(entry.id, "id-1");
    assert_eq!(core.media().entries.len(), 1);
    assert_eq!(core.version(), 0);
    assert_eq!(told(&mut core), vec![media_changed(0, 1)]);
}

#[test]
fn import_media_unsupported_errors_and_emits_nothing() {
    let mut core = AppCore::new();
    let err = core.import_media_file(Err(CoreError::Media("unsupported file: a.txt".to_string())));
    assert!(err.is_err());
    assert!(core.media().entries.is_empty());
    assert!(told(&mut core).is_empty());
}

/// A core that has gone on from project A to project B.
fn moved_on() -> (AppCore, u64) {
    let mut core = AppCore::new();
    save_to(&mut core, "/p/A.opentake");
    let expected_epoch = core.runtime_snapshot().project_epoch;
    core.open_project("/p/B.opentake".to_string(), Ok(bundle("b", "/p/B.opentake"))).unwrap();
    core.take_events();
    (core, expected_epoch)
}

#[test]
fn import_media_for_project_rejects_replacement_without_mutating_manifest() {
    let (mut core, expected_epoch) = moved_on();
    let before = core.media();
    let error = core
        .import_media_file_for_project(expected_epoch, "/p/A.opentake", Ok(medium("rendered.wav")))
        .expect_err("stale project import must be rejected");
    assert_eq!(error.message(), "project changed while saving media");
    assert!(core.media().same(&before));
}

#[test]
fn project_scoped_media_mutations_reject_a_replacement_project() {
    let (mut core, expected_epoch) = moved_on();
    let a = "/p/A.opentake";
    let before = core.media();
    assert!(core
        .set_media_global_favorite_for_project(
            expected_epoch,
            a,
            "id-1".to_string(),
            Some("content-hash".to_string()),
            None,
        )
        .is_err());
    assert!(core
        .import_media_file_for_project(expected_epoch, a, Ok(medium("rendered")))
        .is_err());
    assert!(core
        .import_library_media_for_project(
            expected_epoch,
            a,
            Ok(medium("library")),
            "content-hash",
            Ok(()),
        )
        .is_err());
    assert!(core
        .save_media_manifest_for_project(expected_epoch, a, Ok(a.to_string()))
        .is_err());
    assert!(core.media().same(&before));
    assert!(told(&mut core).is_empty());
}

fn plan(label: &str) -> Vec<PreparedMediaImportOp> {
    vec![
        PreparedMediaImportOp::CreateFolder { key: 0, name: label.to_string(), parent: None },
        PreparedMediaImportOp::ImportFile {
            path: format!("/abs/{label}.mp4"),
            candidate: Ok(medium(label)),
            folder: Some(PreparedMediaFolderRef::Planned(0)),
        },
    ]
}

#[test]
fn prepared_media_batch_rejects_project_replacement_without_pollution() {
    let (mut core, expected_epoch) = moved_on();
    let before_b = core.media();
    let error = core
        .import_media_batch_for_project_persisted(
            expected_epoch,
            "/p/A.opentake",
            plan("stale"),
            &None,
            Ok("/p/A.opentake".to_string()),
        )
        .expect_err("stale batch must be rejected");
    assert!(error.message().contains("project changed"));
    assert!(core.media().same(&before_b));
}

#[test]
fn prepared_media_batch_writer_failure_restores_full_editor_state() {
    let project = "/p/Rollback.opentake";
    let mut core = AppCore::new();
    save_to(&mut core, project);
    core.apply(
        EditCommand::CreateFolder { name: "existing".to_string(), parent_folder_id: None },
        plain(),
    )
    .unwrap();
    core.undo().unwrap();
    let epoch = core.runtime_snapshot().project_epoch;
    core.save_media_manifest_for_project(epoch, project, Ok(project.to_string())).unwrap();
    let before_media = core.media();
    let before_version = core.version();
    let before_can_undo = core.can_undo();
    let before_can_redo = core.can_redo();
    core.take_events();

    let error = core
        .import_media_batch_for_project_persisted(
            epoch,
            project,
            plan("candidate"),
            &None,
            Err(CoreError::Media("injected manifest write failure".to_string())),
        )
        .expect_err("writer failure must abort the batch");

    assert_eq!(error.message(), "injected manifest write failure");
    assert!(core.media().same(&before_media));
    assert_eq!(core.version(), before_version);
    assert_eq!(core.can_undo(), before_can_undo);
    assert_eq!(core.can_redo(), before_can_redo);
    assert!(told(&mut core).is_empty());
}

#[test]
fn prepared_media_batch_commits_folders_and_files() {
    let project = "/p/Batch.opentake";
    let mut core = AppCore::new();
    save_to(&mut core, project);
    core.take_events();
    let imports = core
        .import_media_batch_for_project_persisted(
            0,
            project,
            plan("candidate"),
            &None,
            Ok(project.to_string()),
        )
        .unwrap();
    assert_eq!(imports.len(), 1);
    assert_eq!(imports[0].path, "/abs/candidate.mp4");
    let media = core.media();
    assert_eq!(media.folders.len(), 1);
    assert_eq!(media.folders[0].name, "candidate");
    assert_eq!(media.entries.len(), 1);
    assert_eq!(media.entries[0].folder_id.as_deref(), Some(media.folders[0].id.as_str()));
    let events = told(&mut core);
    assert_eq!(events.last().unwrap(), &project_saved(project, 0));
    assert!(events.contains(&media_changed(0, 1)));
}

#[test]
fn a_batch_waits_for_its_condition() {
    let project = "/p/Batch.opentake";
    let mut core = AppCore::new();
    save_to(&mut core, project);
    let error = core
        .import_media_batch_for_project_persisted_checked(
            0,
            project,
            plan("candidate"),
            &None,
            Err(CoreError::Media("source moved".to_string())),
            Ok(project.to_string()),
        )
        .unwrap_err();
    assert_eq!(error.message(), "source moved");
    assert!(core.media().entries.is_empty() && core.media().folders.is_empty());
}

#[test]
fn global_favorite_interfaces_emit_media_changed_only_on_change() {
    let mut core = AppCore::new();
    let entry = core.import_media_file(Ok(medium("a"))).unwrap();
    core.take_events();

    assert!(core
        .set_media_global_favorite(entry.id.clone(), Some("content-hash".to_string()), None)
        .unwrap());
    assert!(!core
        .set_media_global_favorite(entry.id.clone(), Some("content-hash".to_string()), None)
        .unwrap());
    assert_eq!(
        core.clear_media_global_favorite_id("content-hash".to_string(), None).unwrap(),
        1
    );
    assert_eq!(told(&mut core), vec![media_changed(0, 1), media_changed(0, 1)]);
}

#[test]
fn favorites_are_counted_by_change() {
    let mut core = AppCore::new();
    let a = core.import_media_file(Ok(medium("a"))).unwrap();
    let b = core.import_media_file(Ok(medium("b"))).unwrap();
    core.take_events();
    let ids = vec![a.id.clone(), b.id.clone(), a.id.clone()];
    assert_eq!(core.set_media_favorite(ids.clone(), true, None).unwrap(), 2);
    assert_eq!(core.set_media_favorite(ids, true, None).unwrap(), 0);
    assert!(core.media().entries.iter().all(|e| e.favorite));
    assert_eq!(told(&mut core), vec![media_changed(0, 2)]);
    let refused = CoreError::Media("library is locked".to_string());
    assert!(core.set_media_favorite(vec![a.id], false, Some(refused)).is_err());
    assert!(core.media().entries[0].favorite);
}

fn generated(path: &str) -> GeneratedFile {
    GeneratedFile {
        path: path.to_string(),
        source: "media/motion-a.mp4".to_string(),
        name: "Motion A".to_string(),
        kind: ClipType::Video,
        probe: ProbedMedia {
            duration_secs: num(1.0),
            width: Some(64),
            height: Some(36),
            fps: Some(num(30.0)),
            has_audio: false,
            color: None,
        },
        provenance: setting("title-card opentake.motion-canvas 30 64:36 opentake-motion", &[]),
    }
}

fn add_at_start(duration_frames: i32) -> MotionPlacement {
    MotionPlacement::Add { start_frame: 0, duration_frames, track_index: Some(0) }
}

/// The timeline of a core with a clip placed that shows a generated medium.
fn motion_placed(core: &AppCore, id: &str) -> Outside {
    Outside { placed: one_clip_placed(core, "motion-clip", id), ..plain() }
}

fn motion_core() -> AppCore {
    let mut core = AppCore::new();
    core.open_project("/p/motion".to_string(), Ok(bundle("motion", "/p/motion"))).unwrap();
    core.take_events();
    core
}

#[test]
fn motion_media_commit_is_durable_atomic_and_one_step_undoable() {
    let mut core = motion_core();
    let snapshot = core.runtime_snapshot();
    let outside = motion_placed(&core, "id-1");
    let committed = core
        .commit_motion_media_for_project(
            snapshot.project_epoch,
            snapshot.version,
            "/p/motion",
            generated("/p/motion/media/motion-a.mp4"),
            &Ok(true),
            add_at_start(30),
            outside,
            Ok("/p/motion".to_string()),
        )
        .unwrap();
    assert_eq!(committed.edit.action_name, "Add Motion Graphic");
    assert_eq!(committed.media.id, "id-1");
    assert_eq!(core.media().entries.len(), 2);
    assert_eq!(core.get_timeline().timeline.tracks[0].clips.len(), 1);
    assert_eq!(
        told(&mut core),
        vec![timeline_changed(1, 1), media_changed(1, 2), project_saved("/p/motion", 1)]
    );

    core.undo().unwrap();
    assert_eq!(core.media().entries.len(), 1);
    assert!(core.get_timeline().timeline.tracks[0].clips.is_empty());
}

#[test]
fn a_generated_file_is_registered_as_planned_and_undone_under_its_label() {
    let mut core = motion_core();
    let snapshot = core.runtime_snapshot();
    let file = generated("/p/motion/media/motion-a.mp4");
    let (planned, mut ids) = core.plan_generated(&file);
    assert_eq!(planned.id, "id-1");
    assert_eq!(ids.next_id(), "id-2");
    let command = generated_command(&file, planned.copy(), &add_at_start(30));
    assert!(matches!(
        command,
        EditCommand::RegisterMediaAndAddClip { auto_track: false, .. }
    ));
    let outside = motion_placed(&core, &planned.id);
    let committed = core
        .commit_generated_media_for_project(
            snapshot.project_epoch,
            snapshot.version,
            "/p/motion",
            &file,
            &Ok(true),
            add_at_start(30),
            "Add Narration",
            outside,
            Ok("/p/motion".to_string()),
        )
        .unwrap();
    assert_eq!(committed.edit.action_name, "Add Narration");
    assert_eq!(core.undo_action_name().as_deref(), Some("Add Narration"));
    assert!(committed.media.same(&planned));
    assert!(core.media().entries.last().unwrap().same(&planned));
    let version = core.undo_transaction_version().unwrap();
    let revision = core.project_revision();
    let undone = core
        .undo_if_owned(revision, Some("/p/motion"), "Add Narration", version)
        .unwrap();
    assert!(matches!(undone, OwnedUndoResult::Undone(_)));
    assert_eq!(core.media().entries.len(), 1);
}

#[test]
fn an_edit_that_the_registry_complains_of_is_taken_back() {
    let mut core = core_with_track();
    let before = core.runtime_snapshot();
    let kept = core.checkpoint();
    place_one(&mut core);
    core.heed_registry(kept, None).unwrap();
    assert_eq!(core.version(), before.version + 1);
    core.undo().unwrap();
    core.take_events();
    let before = core.runtime_snapshot();
    let kept = core.checkpoint();
    place_one(&mut core);
    let error = core.heed_registry(kept, Some("cycle".to_string())).unwrap_err();
    assert_eq!(error.message(), "cycle");
    assert!(same_document(&core.runtime_snapshot(), &before));
    assert!(told(&mut core).is_empty());
}

#[test]
fn those_who_follow_the_project_hear_of_a_save_elsewhere_to_its_end() {
    let elsewhere = Some("/p/other".to_string());
    let failed = Err(CoreError::Storage("disk full".to_string()));
    let saved = Ok("/p/other".to_string());
    assert_eq!(announce_before_save(&elsewhere), Some(true));
    assert_eq!(announce_after_save(&elsewhere, &saved), Some(false));
    assert_eq!(announce_after_save(&elsewhere, &failed), Some(false));
    assert_eq!(announce_before_save(&None), None);
    assert_eq!(announce_after_save(&None, &saved), None);
    assert_eq!(announce_after_save(&None, &failed), None);
}

#[test]
fn generated_media_commit_refuses_version_drift_without_mutation() {
    let mut core = motion_core();
    let stale = core.runtime_snapshot();
    let outside = Outside {
        placed: Placed { timeline: core.editor.state.timeline.copy(), affected: Vec::new() },
        ..plain()
    };
    core.apply(EditCommand::SetTimelineSettings { fps: 24, width: 1280, height: 720 }, outside)
        .unwrap();
    let before_commit = core.runtime_snapshot();

    let outside = motion_placed(&core, "id-1");
    let error = core
        .commit_motion_media_for_project(
            stale.project_epoch,
            stale.version,
            "/p/motion",
            generated("/p/motion/media/stale-render.mp4"),
            &Ok(true),
            add_at_start(1),
            outside,
            Ok("/p/motion".to_string()),
        )
        .unwrap_err();
    assert!(error.message().contains("project changed while preparing a generated-media edit"));
    assert!(same_document(&core.runtime_snapshot(), &before_commit));
}

/// Tries to commit a file, which must fail and leave the document alone.
fn refused_commit(path: &str, regular: Result<bool, String>, saved: Result<String, CoreError>) -> String {
    let mut core = motion_core();
    let before = core.runtime_snapshot();
    let outside = motion_placed(&core, "id-1");
    let error = core
        .commit_motion_media_for_project(
            before.project_epoch,
            before.version,
            "/p/motion",
            generated(path),
            &regular,
            add_at_start(1),
            outside,
            saved,
        )
        .unwrap_err();
    assert!(same_document(&core.runtime_snapshot(), &before));
    assert!(!core.can_undo());
    assert!(told(&mut core).is_empty());
    error.message()
}

#[test]
fn motion_media_commit_rejects_output_outside_active_bundle_without_mutation() {
    let saved = || Ok("/p/motion".to_string());
    assert!(refused_commit("/tmp/outside.mp4", Ok(true), saved()).contains("active project media"));
    assert!(refused_commit("/p/motion/media/deep/a.mp4", Ok(true), saved())
        .contains("active project media"));
}

#[test]
fn motion_media_commit_rejects_symlink_without_mutation() {
    let saved = Ok("/p/motion".to_string());
    assert!(refused_commit("/p/motion/media/motion-linked.mp4", Ok(false), saved)
        .contains("regular non-symlink"));
}

#[test]
fn a_generated_file_that_cannot_be_saved_leaves_nothing() {
    let path = "/p/motion/media/motion-a.mp4";
    let message = refused_commit(path, Ok(true), Err(CoreError::Storage("disk full".to_string())));
    assert!(message.contains("disk full"));
    let message = refused_commit(path, Err("gone".to_string()), Ok("/p/motion".to_string()));
    assert_eq!(message, "motion output metadata failed: gone");
}

#[test]
fn motion_media_commit_defers_events_until_bundle_publication_releases() {
    let mut core = motion_core();
    let snapshot = core.runtime_snapshot();
    let outside = motion_placed(&core, "id-1");
    let mut events = DeferredCoreEvents::default();
    core.commit_motion_media_for_project_deferred(
        snapshot.project_epoch,
        snapshot.version,
        "/p/motion",
        generated("/p/motion/media/motion-deferred.mp4"),
        &Ok(true),
        add_at_start(1),
        outside,
        Ok("/p/motion".to_string()),
        &mut events,
    )
    .unwrap();
    assert!(told(&mut core).is_empty());
    core.emit_deferred(events);
    assert_eq!(told(&mut core).len(), 3);
}

#[test]
fn an_edit_that_cannot_be_saved_leaves_nothing() {
    let mut core = core_with_track();
    let before = core.runtime_snapshot();
    let outside = placing(&core);
    let expected = core.project_revision();
    let error = core
        .apply_at_revision_persisted(
            expected,
            add_one_clip(),
            outside,
            Err(CoreError::Storage("disk full".to_string())),
        )
        .unwrap_err();
    assert!(matches!(error, CoreError::Storage(_)));
    assert!(same_document(&core.runtime_snapshot(), &before));
    assert!(!core.can_undo());
    assert!(told(&mut core).is_empty());
}

#[test]
fn undo_takes_back_the_owners_edit_only() {
    let mut core = core_with_track();
    let at = |core: &AppCore| ProjectRevision {
        project_epoch: core.project_revision().project_epoch,
        version: core.project_revision().version,
    };
    let revision = at(&core);
    assert!(matches!(
        core.undo_if_owned(revision, None, "Add Clips", 1),
        Ok(OwnedUndoResult::NoHistory)
    ));
    place_one(&mut core);
    let owned = core.project_undo_snapshot().unwrap();
    let revision = at(&core);
    assert!(matches!(
        core.undo_if_owned(revision, None, "Move Clips", owned.transaction_version),
        Ok(OwnedUndoResult::Conflict { .. })
    ));
    assert_eq!(core.get_timeline().timeline.tracks[0].clips.len(), 1);
    let stale = ProjectRevision { project_epoch: 7, version: 1 };
    assert!(matches!(
        core.undo_if_owned(stale, None, &owned.action_name, owned.transaction_version),
        Err(CoreError::StaleProject)
    ));
    assert!(matches!(
        core.undo_if_owned(revision, None, &owned.action_name, owned.transaction_version),
        Ok(OwnedUndoResult::Undone(_))
    ));
    assert_eq!(core.get_timeline().timeline.tracks[0].clips.len(), 0);
}

#[test]
fn a_generation_step_that_cannot_be_written_leaves_nothing() {
    let mut core = AppCore::new();
    save_to(&mut core, "/p/gen");
    core.take_events();
    let step = || {
        let mut media = MediaManifest::new();
        media.entries.push(medium("pending"));
        Ok((GenerationState { media, log: "job 1: queued".to_string() }, 17))
    };
    let error = core
        .begin_generation_job_for_project(
            0,
            "/p/gen",
            step(),
            Err(CoreError::Storage("disk full".to_string())),
        )
        .unwrap_err();
    assert!(matches!(error, CoreError::Storage(_)));
    assert!(core.media().entries.is_empty());
    assert_eq!(core.generation_log(), AppCore::new().generation_log());

    let job = core
        .begin_generation_job_for_project(0, "/p/gen", step(), Ok("/p/gen".to_string()))
        .unwrap();
    assert_eq!(job, 17);
    assert_eq!(core.media().entries.len(), 1);
    assert_eq!(core.generation_log(), "job 1: queued");
}

#[test]
fn a_read_only_project_is_not_changed() {
    let mut session = bundle("old", "/p/old");
    session.read_only = Some("written by a newer version".to_string());
    let mut core = AppCore::new();
    core.open_project("/p/old".to_string(), Ok(session)).unwrap();
    let error = core.ensure_project_mutable().unwrap_err();
    assert!(matches!(&error, CoreError::Unsupported(_)));
    assert!(error.message().contains("written by a newer version"));
}

/// Versions and events, stale edits, undo in the media library, coherent snapshots,
/// saving and reopening, and batches that fail.
#[test]
fn cross_cutting_runtime_acceptance() {
    apply_bumps_version_and_emits_once();
    deferred_apply_rejects_version_and_project_drift_without_mutation();
    manifest_edit_and_undo_emit_media_changed();
    undo_redo_through_core_bumps_version_and_emits();
    runtime_snapshot_never_mixes_timeline_media_and_project_dir();
    open_save_roundtrip_through_core_emits_lifecycle_events();
    prepared_media_batch_writer_failure_restores_full_editor_state();
}

#[test]
fn work_that_could_not_be_written_is_rolled_back() {
    let mut core = core_with_track();
    let before = core.runtime_snapshot();
    let checkpoint = core.checkpoint();
    place_one(&mut core);
    assert_eq!(core.get_timeline().version, 1);
    core.roll_back(checkpoint);
    assert!(same_document(&core.runtime_snapshot(), &before));
    assert_eq!(core.get_timeline().version, 0);
    assert!(!core.can_undo());
    assert!(told(&mut core).is_empty());
}

#[test]
fn a_project_is_the_same_however_its_path_is_written() {
    let mut core = core_with_track();
    save_to(&mut core, "/p/A.opentake");
    let target = |path: &str| {
        Some(SaveTarget { project_epoch: 0, project_path: Some(path.to_string()) })
    };
    for path in ["/p/A.opentake", "/p/A.opentake/", "/p//A.opentake", "/p/./A.opentake"] {
        assert!(core.check_save(&target(path), true).is_ok(), "{path}");
    }
    for path in ["/p/B.opentake", "p/A.opentake", "/p/../p/A.opentake"] {
        assert!(matches!(core.check_save(&target(path), true), Err(CoreError::StaleProject)));
    }
    assert!(core.check_save(&target("/p/A.opentake"), false).is_err());
    assert!(core.check_save(&None, true).is_ok());
}

/// A core at a path, with one medium in its library.
fn library_core(path: &str) -> AppCore {
    let mut core = AppCore::new();
    save_to(&mut core, path);
    core.import_media_file(Ok(medium("a"))).unwrap();
    core.take_events();
    core
}

fn disk_full<T>() -> Result<T, CoreError> {
    Err(CoreError::Storage("disk full".to_string()))
}

fn queue() -> DeferredCoreEvents {
    DeferredCoreEvents::default()
}

#[test]
fn ids_come_from_the_generator_in_place() {
    let mut core = AppCore::new();
    core.set_id_gen(CoreIdGen::new("x-"));
    assert_eq!(core.import_media_file(Ok(medium("a"))).unwrap().id, "x-1");
    assert_eq!(core.import_media_file(Ok(medium("b"))).unwrap().id, "x-2");
}

#[test]
fn authority_over_assets_ends_with_the_project() {
    let mut core = AppCore::new();
    assert!(core.project_asset_authority().is_none());
    save_to(&mut core, "/p/a");
    let held = core.project_asset_authority().unwrap();
    assert!(core.project_asset_authority_matches(&held));
    let other = ProjectAssetAuthority {
        project_epoch: held.project_epoch,
        project_path: held.project_path.clone(),
        root_identity: "another root".to_string(),
    };
    assert!(!core.project_asset_authority_matches(&other));
    core.new_project();
    assert!(!core.project_asset_authority_matches(&held));
}

#[test]
fn snapshots_are_taken_of_the_expected_project() {
    let core = library_core("/p/a");
    let snapshot = core.mutable_runtime_snapshot_for_project(0, "/p/a").unwrap();
    assert_eq!(snapshot.project_dir.as_deref(), Some("/p/a"));
    assert_eq!(
        core.mutable_runtime_snapshot_for_project(0, "/p/b").unwrap_err().message(),
        "project changed during global library workflow"
    );
    let export = core.bundle_export_snapshot();
    assert_eq!(export.manifest.entries.len(), 1);
    assert_eq!(export.project_path.as_deref(), Some("/p/a"));
    assert_eq!((export.project_epoch, export.compatibility), (0, None));
}

#[test]
fn a_prepared_project_knows_its_directory() {
    let mut session = bundle("x", "/p/x");
    session.root_identity = Some("inode 7".to_string());
    let prepared = AppCore::prepare_project_open("/p/x".to_string(), Ok(session)).unwrap();
    assert!(prepared.is_current_namespace(&Some("inode 7".to_string())));
    assert!(!prepared.is_current_namespace(&Some("inode 8".to_string())));
    assert!(!prepared.is_current_namespace(&None));
}

#[test]
fn marks_wait_in_the_queue_of_their_caller() {
    let mut core = library_core("/p/a");
    let id = core.media().entries[0].id.clone();
    let mut events = queue();
    let changed = core
        .set_media_favorite_for_project_deferred(0, "/p/a", vec![id.clone()], true, None, &mut events)
        .unwrap();
    assert_eq!(changed, 1);
    assert!(core.media().entries[0].favorite);
    assert_eq!(events.events.len(), 1);
    assert!(told(&mut core).is_empty());
    assert_eq!(
        core.set_media_favorite_for_project(0, "/p/a", vec![id.clone()], true, None).unwrap(),
        0
    );
    assert!(core
        .set_media_global_favorite_for_project_deferred(
            0,
            "/p/a",
            id.clone(),
            Some("hash".to_string()),
            None,
            &mut events,
        )
        .unwrap());
    assert_eq!(events.events.len(), 2);
    assert_eq!(
        core.clear_media_global_favorite_id_for_project_deferred(
            0,
            "/p/a",
            "hash".to_string(),
            None,
            &mut events,
        )
        .unwrap(),
        1
    );
    assert_eq!(events.events.len(), 3);
    assert_eq!(
        core.clear_media_global_favorite_id_for_project(0, "/p/a", "hash".to_string(), None)
            .unwrap(),
        0
    );
    assert_eq!(
        core.set_media_favorite_for_project(1, "/p/a", vec![id], false, None)
            .unwrap_err()
            .message(),
        "project changed during global library workflow"
    );
    assert!(told(&mut core).is_empty());
}

#[test]
fn generation_outputs_are_finished_failed_and_cancelled() {
    let mut core = library_core("/p/a");
    let step = |log: &str| {
        Ok((GenerationState { media: MediaManifest::new(), log: log.to_string() }, ()))
    };
    let written = || Ok("/p/a".to_string());
    core.fail_generation_output_for_project(0, "/p/a", step("failed"), written()).unwrap();
    assert_eq!(core.generation_log(), "failed");
    core.cancel_generation_output_for_project(0, "/p/a", step("cancelled"), written()).unwrap();
    assert_eq!(core.generation_log(), "cancelled");
    core.finalize_generation_output_for_project(0, "/p/a", step("done"), written()).unwrap();
    assert_eq!(core.generation_log(), "done");
    let error = core
        .finalize_generation_output_with_media_for_project(
            0,
            "/p/a",
            "media/x.mp4",
            "y.mp4",
            step("wrong"),
            written(),
        )
        .unwrap_err();
    assert_eq!(error.message(), "generation output path does not match its media leaf");
    core.finalize_generation_output_with_media_for_project(
        0,
        "/p/a",
        "media/x.mp4",
        "x.mp4",
        step("with media"),
        written(),
    )
    .unwrap();
    assert_eq!(core.generation_log(), "with media");
    let jobs = core
        .update_generation_job_for_project(
            0,
            "/p/a",
            Ok((GenerationState { media: MediaManifest::new(), log: "two".to_string() }, 2)),
            written(),
        )
        .unwrap();
    assert_eq!(jobs, 2);
    assert!(core
        .fail_generation_output_for_project(9, "/p/a", step("stale"), written())
        .is_err());
    assert_eq!(core.generation_log(), "two");
}

#[test]
fn a_library_import_is_taken_back_with_its_write() {
    let mut core = library_core("/p/a");
    let mut events = queue();
    assert!(core
        .import_library_media_for_project_deferred(
            0,
            "/p/a",
            Ok(medium("b")),
            "lib",
            disk_full(),
            &mut events,
        )
        .is_err());
    assert_eq!((core.media().entries.len(), events.events.len()), (1, 0));
    let entry = core
        .import_library_media_for_project_deferred(
            0,
            "/p/a",
            Ok(medium("b")),
            "lib",
            Ok(()),
            &mut events,
        )
        .unwrap();
    assert_eq!(entry.id, core.media().entries[1].id);
    assert_eq!(core.media().entries[1].global_favorite_id.as_deref(), Some("lib"));
    assert_eq!((core.media().entries.len(), events.events.len()), (2, 2));
}

#[test]
fn an_import_whose_condition_fails_stands_only_if_it_cannot_be_taken_back() {
    let mut core = library_core("/p/a");
    let mut events = queue();
    let mut import = |core: &mut AppCore, condition: Result<(), CoreError>, back: Result<(), CoreError>| {
        core.import_library_media_for_project_deferred_with_manifest_writer(
            0,
            "/p/a",
            Ok(medium("b")),
            "lib",
            Ok(()),
            condition,
            back,
            &mut events,
        )
    };
    let moved = || Err(CoreError::Media("source moved".to_string()));
    assert_eq!(import(&mut core, moved(), Ok(())).unwrap_err().message(), "source moved");
    assert_eq!(core.media().entries.len(), 1);
    let stands = import(&mut core, moved(), disk_full()).unwrap();
    assert!(matches!(
        stands.warning,
        Some(ImportCommitWarning::PostconditionRollbackFailed { postcondition, .. })
            if postcondition == "source moved"
    ));
    assert_eq!(core.media().entries.len(), 2);
    assert!(import(&mut core, Ok(()), Ok(())).unwrap().warning.is_none());
    assert_eq!(core.media().entries.len(), 3);
}

#[test]
fn a_retained_file_goes_into_a_known_folder() {
    let mut core = library_core("/p/a");
    core.apply(
        EditCommand::CreateFolder { name: "f".to_string(), parent_folder_id: None },
        plain(),
    )
    .unwrap();
    let folder = core.media().folders[0].id.clone();
    let mut events = queue();
    let mut keep = |core: &mut AppCore, folder: Option<&str>, write: Result<(), CoreError>| {
        core.import_retained_media_for_project_deferred_with_manifest_writer(
            0,
            "/p/a",
            Ok(medium("b")),
            folder,
            Ok(()),
            write,
            &mut events,
        )
    };
    assert_eq!(
        keep(&mut core, Some("none"), Ok(())).unwrap_err().message(),
        "folderId not found: none"
    );
    assert!(keep(&mut core, Some(&folder), disk_full()).is_err());
    assert_eq!(core.media().entries.len(), 1);
    let kept = keep(&mut core, Some(&folder), Ok(())).unwrap();
    assert_eq!(kept.entry.folder_id.as_deref(), Some(folder.as_str()));
    assert_eq!(core.media().entries[1].folder_id.as_deref(), Some(folder.as_str()));
}

#[test]
fn proxies_and_relinked_files_are_written_or_not_there() {
    let mut core = library_core("/p/a");
    let id = core.media().entries[0].id.clone();
    let proxy = || Some("proxy.mp4".to_string());
    assert!(core.set_media_proxy_for_project(0, "/p/a", &id, proxy(), disk_full()).is_err());
    assert_eq!(core.media().entries[0].proxy, None);
    core.set_media_proxy_for_project(0, "/p/a", &id, proxy(), Ok("/p/a".to_string())).unwrap();
    assert_eq!(core.media().entries[0].proxy, proxy());
    assert_eq!(
        core.set_media_proxy_for_project(0, "/p/a", "none", proxy(), Ok("/p/a".to_string()))
            .unwrap_err()
            .message(),
        "Media asset not found: none"
    );
    assert!(core.relink_media_file(&id, Ok(medium("new")), disk_full()).is_err());
    assert_eq!(core.media().entries[0].name, "a");
    let healed = core.relink_media_file(&id, Ok(medium("new")), Ok("/p/a".to_string())).unwrap();
    assert_eq!((healed.id, healed.name.as_str()), (id, "new"));
    assert_eq!(core.media().entries[0].source, "/abs/new.mp4");
}

#[test]
fn a_former_library_is_put_back() {
    let mut core = library_core("/p/a");
    let former = || MediaManifest::new();
    let mut events = queue();
    assert!(core
        .restore_media_manifest_for_project_deferred_with_manifest_writer(
            0,
            "/p/a",
            former(),
            &mut events,
            disk_full(),
        )
        .is_err());
    assert_eq!(core.media().entries.len(), 1);
    core.restore_media_manifest_for_project_deferred_with_manifest_writer(
        0,
        "/p/a",
        former(),
        &mut events,
        Ok(()),
    )
    .unwrap();
    assert_eq!(core.media().entries.len(), 0);
    let mut core = library_core("/p/a");
    assert!(core
        .restore_media_manifest_for_project_deferred(0, "/p/b", former(), Ok(()), &mut events)
        .is_err());
    assert_eq!(core.media().entries.len(), 1);
    core.restore_media_manifest_for_project_deferred(0, "/p/a", former(), Ok(()), &mut events)
        .unwrap();
    assert_eq!(core.media().entries.len(), 0);
}
