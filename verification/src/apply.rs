//! Applying commands: the one door through which a document is edited.

use crate::alike::alike;
use crate::alike::alike_library;
use crate::command::first_partners;
use crate::command::EditCommand;
use crate::command::Outside;
use crate::commands::captions::add_captions;
use crate::commands::captions::add_captions_spec;
use crate::commands::captions::add_texts;
use crate::commands::captions::add_texts_auto_track;
use crate::commands::captions::add_texts_auto_track_spec;
use crate::commands::captions::add_texts_spec;
use crate::commands::captions::apply_caption_translations;
use crate::commands::captions::apply_caption_translations_spec;
use crate::commands::captions::auto_texts_fault;
use crate::commands::captions::captions_fault;
use crate::commands::captions::text_entries_fault;
use crate::commands::compound::create_nested_sequence_from_clips;
use crate::commands::compound::create_nested_sequence_from_clips_spec;
use crate::commands::compound::selection_fault;
use crate::commands::compound::selection_rows;
use crate::commands::dissolve::dissolve_fault;
use crate::commands::dissolve::dissolve_nested_sequence;
use crate::commands::dissolve::dissolve_nested_sequence_spec;
use crate::commands::dissolve::dissolved;
use crate::commands::effects::adjust_stabilization;
use crate::commands::effects::adjust_stabilization_spec;
use crate::commands::effects::apply_color_match;
use crate::commands::effects::apply_color_match_spec;
use crate::commands::effects::apply_stabilization;
use crate::commands::effects::apply_stabilization_spec;
use crate::commands::effects::missing_clip;
use crate::commands::effects::reset_stabilization;
use crate::commands::effects::reset_stabilization_spec;
use crate::commands::effects::reset_transform;
use crate::commands::effects::set_audio_denoise;
use crate::commands::effects::set_audio_denoise_spec;
use crate::commands::effects::set_chroma_key;
use crate::commands::effects::set_chroma_key_spec;
use crate::commands::effects::set_color_grade;
use crate::commands::effects::set_color_grade_spec;
use crate::commands::effects::set_effects;
use crate::commands::effects::set_effects_spec;
use crate::commands::effects::set_field_spec;
use crate::commands::effects::set_loudness_normalization;
use crate::commands::effects::set_loudness_normalization_spec;
use crate::commands::effects::set_lut;
use crate::commands::effects::set_lut_spec;
use crate::commands::effects::set_masks;
use crate::commands::effects::set_masks_spec;
use crate::commands::effects::ClipChangeView;
use crate::commands::keyframes::move_keyframe;
use crate::commands::keyframes::move_keyframe_spec;
use crate::commands::keyframes::remove_keyframe;
use crate::commands::keyframes::remove_keyframe_spec;
use crate::commands::keyframes::sample_of;
use crate::commands::keyframes::set_keyframe_interpolation;
use crate::commands::keyframes::set_keyframe_interpolation_spec;
use crate::commands::keyframes::set_keyframes;
use crate::commands::keyframes::set_keyframes_spec;
use crate::commands::keyframes::set_transform_at_frame;
use crate::commands::keyframes::set_transform_at_frame_spec;
use crate::commands::keyframes::stamp_keyframe;
use crate::commands::keyframes::upsert_keyframe;
use crate::commands::keyframes::write_keyframe_spec;
use crate::commands::library::create_folder;
use crate::commands::library::create_folder_spec;
use crate::commands::library::move_to_folder;
use crate::commands::library::move_to_folder_spec;
use crate::commands::library::rename_folder;
use crate::commands::library::rename_folder_spec;
use crate::commands::library::rename_media;
use crate::commands::library::rename_media_spec;
use crate::commands::moving::duplicate_clips_cmd;
use crate::commands::moving::duplicate_clips_spec;
use crate::commands::moving::move_clips;
use crate::commands::moving::move_clips_spec;
use crate::commands::moving::swap_clips;
use crate::commands::moving::swap_clips_spec;
use crate::commands::nested::create_nested_sequence;
use crate::commands::nested::create_nested_sequence_spec;
use crate::commands::nested::find_sequence;
use crate::commands::nested::lemma_sequence_replaced;
use crate::commands::nested::new_compound_fault;
use crate::commands::nested::rename_nested_sequence;
use crate::commands::nested::rename_nested_sequence_spec;
use crate::commands::nested::require_sequence;
use crate::commands::nested::sequence_index;
use crate::commands::nested::sequence_not_found;
use crate::commands::nested::set_nested_sequence_timeline;
use crate::commands::nested::set_nested_sequence_timeline_spec;
use crate::commands::nested::with_sequence;
use crate::commands::new_track::gesture_ids;
use crate::commands::new_track::move_or_duplicate_clips_to_new_track;
use crate::commands::new_track::move_or_duplicate_spec;
use crate::commands::paste::groups_met;
use crate::commands::paste::paste_clips;
use crate::commands::paste::paste_clips_spec;
use crate::commands::paste::paste_fault;
use crate::commands::placement::add_clips;
use crate::commands::placement::add_clips_auto_fault;
use crate::commands::placement::add_clips_auto_track;
use crate::commands::placement::add_clips_auto_track_spec;
use crate::commands::placement::add_clips_spec;
use crate::commands::placement::add_clips_to_separate_auto_tracks;
use crate::commands::placement::add_clips_to_separate_auto_tracks_spec;
use crate::commands::placement::insert_clips;
use crate::commands::placement::insert_clips_spec;
use crate::commands::placement::place_media;
use crate::commands::placement::place_media_spec;
use crate::commands::placement::placing_ids;
use crate::commands::placement::shared_ids;
use crate::commands::properties::set_clip_properties;
use crate::commands::properties::set_clip_properties_per_clip;
use crate::commands::properties::set_clip_properties_per_clip_spec;
use crate::commands::properties::set_clip_properties_spec;
use crate::commands::properties::text_lists;
use crate::commands::registration::register_media_and_add_clip;
use crate::commands::registration::register_media_and_add_clip_spec;
use crate::commands::registration::register_media_and_freeze_frame;
use crate::commands::registration::register_media_and_freeze_frame_spec;
use crate::commands::registration::register_media_and_swap_clip;
use crate::commands::registration::register_media_and_swap_clip_spec;
use crate::commands::registration::registering_ids;
use crate::commands::registration::swap_media;
use crate::commands::registration::swap_media_spec;
use crate::commands::removal::delete_folder;
use crate::commands::removal::delete_folder_spec;
use crate::commands::removal::delete_media;
use crate::commands::removal::delete_media_spec;
use crate::commands::removal::remove_clips;
use crate::commands::removal::remove_clips_spec;
use crate::commands::ripple::freeze_frame;
use crate::commands::ripple::freeze_frame_spec;
use crate::commands::ripple::opt_timeline;
use crate::commands::ripple::ripple_delete_clips;
use crate::commands::ripple::ripple_delete_clips_spec;
use crate::commands::ripple::ripple_delete_ranges;
use crate::commands::ripple::ripple_delete_ranges_spec;
use crate::commands::ripple::ripple_settled;
use crate::commands::ripple::ripple_view;
use crate::commands::ripple::trim;
use crate::commands::ripple::trim_spec;
use crate::commands::ripple::RippleOutcome;
use crate::commands::ripple::RippleView;
use crate::commands::script::apply_script_assembly_plan;
use crate::commands::script::apply_script_assembly_plan_spec;
use crate::commands::script::buildable;
use crate::commands::script::ids_before;
use crate::commands::script::save_script_assembly_plan;
use crate::commands::script::save_script_assembly_plan_spec;
use crate::commands::script::saved_segments;
use crate::commands::settings::set_timeline_settings_cmd;
use crate::commands::settings::set_timeline_settings_spec;
use crate::commands::splitting::split;
use crate::commands::splitting::split_clips;
use crate::commands::splitting::split_clips_spec;
use crate::commands::splitting::split_spec;
use crate::commands::tracks::insert_track_cmd;
use crate::commands::tracks::insert_track_spec;
use crate::commands::tracks::link;
use crate::commands::tracks::link_spec;
use crate::commands::tracks::remove_tracks;
use crate::commands::tracks::remove_tracks_spec;
use crate::commands::tracks::set_track_props;
use crate::commands::tracks::set_track_props_spec;
use crate::commands::tracks::swap_tracks;
use crate::commands::tracks::swap_tracks_spec;
use crate::commands::tracks::unlink;
use crate::commands::tracks::unlink_spec;
use crate::commands::transition::set_transition;
use crate::commands::transition::set_transition_spec;
use crate::commands::voice::revoke_voice_model;
use crate::commands::voice::revoke_voice_model_spec;
use crate::commands::voice::save_voice_model;
use crate::commands::voice::save_voice_model_spec;
use crate::edit::invalid;
use crate::edit::outcome;
use crate::edit::EditError;
use crate::edit::EditResult;
use crate::edit::EditResultView;
use crate::edit::Fault;
use crate::entries::caption_entry_views;
use crate::entries::caption_translation_change_views;
use crate::entries::clip_entry_views;
use crate::entries::clip_move_views;
use crate::entries::clip_property_assignment_views;
use crate::entries::paste_clip_entry_views;
use crate::entries::rename_entry_views;
use crate::entries::text_auto_track_entry_views;
use crate::entries::text_entry_views;
use crate::entries::trim_edit_views;
use crate::frames::timeline_fault;
use crate::frames::validate_timeline_frame_arithmetic;
use crate::fresh::fresh_timeline;
use crate::ids::ids_after;
use crate::ids::CoreIdGen;
use crate::ids::IdsView;
use crate::links::link_expanded;
use crate::locate::track_index;
use crate::model::clip_views;
use crate::model::lemma_nested_views;
use crate::model::mask_views;
use crate::model::opt_setting;
use crate::model::setting_views;
use crate::model::timeline_views;
use crate::model::Clip;
use crate::model::Keyframe;
use crate::model::NestedSequenceView;
use crate::model::Timeline;
use crate::model::TimelineView;
use crate::model::Transform;
use crate::state::ids_spent;
use crate::state::law_undo_restores_and_redo_repeats;
use crate::state::law_undo_restores_what_a_transaction_changed;
use crate::state::redone;
use crate::state::report;
use crate::state::result;
use crate::state::transact;
use crate::state::transacted;
use crate::state::undone;
use crate::state::EditorState;
use crate::state::Placed;
use crate::state::StateView;
use crate::state::Work;
use crate::state::WorkView;
use crate::text::cat2;
use crate::text::copy_texts;
use crate::text::opt_text;
use crate::text::texts;
use crate::text::trimmed;
use crate::transitions::law_pruning_is_stable;
use crate::transitions::lemma_pruned_sound;
use crate::transitions::lemma_timeline_sound;
use crate::transitions::pruned;
use vstd::prelude::*;

verus! {

/// The timeline that the trims came to, where they were possible.
pub open spec fn trims(o: Outside) -> Option<TimelineView> {
    if o.trims_possible {
        Some(o.placed@.timeline)
    } else {
        None
    }
}

fn take_trims(possible: bool, placed: Placed) -> (r: Option<Timeline>)
    ensures
        opt_timeline(r) == (if possible {
            Some(placed@.timeline)
        } else {
            None
        }),
{
    if possible {
        Some(placed.timeline)
    } else {
        None
    }
}

/// The timeline that a ripple delete came to, or its reason for refusing.
pub open spec fn rippled(r: RippleView) -> Result<TimelineView, Seq<char>> {
    match r {
        RippleView::Refused(reason) => Err(reason),
        RippleView::Done { timeline, .. } => Ok(timeline),
    }
}

fn take_ripple(ripple: RippleOutcome) -> (r: Result<Timeline, String>)
    ensures
        ripple_view(r) == rippled(ripple@),
{
    match ripple {
        RippleOutcome::Refused(reason) => Err(reason),
        RippleOutcome::Done { timeline, .. } => Ok(timeline),
    }
}

fn take_first(partners: &Vec<Vec<String>>) -> (r: Vec<String>)
    ensures
        texts(r@) == first_partners(partners@),
{
    if partners.len() > 0 {
        copy_texts(&partners[0])
    } else {
        let none: Vec<String> = Vec::new();
        assert(texts(none@) =~= Seq::empty());
        none
    }
}

/// The complaint against a command that does not work on a child timeline.
pub open spec fn root_only() -> Fault {
    Fault::Invalid(
        "nested-sequence, media-library, and project-settings commands must target the root timeline"@,
    )
}

/// Taking one step back.
pub open spec fn undo_spec(s: StateView) -> (Result<EditResultView, Fault>, StateView) {
    let next = undone(s);
    let stepped = s.undo_stack.len() > 0;
    match timeline_fault(next.timeline, "undo timeline"@) {
        Some(m) => (Err(Fault::Invalid(m)), s),
        None => (
            Ok(
                report(
                    stepped && !alike(s.timeline, next.timeline),
                    stepped && !alike_library(s.manifest, next.manifest),
                    "Undo"@,
                    Seq::empty(),
                    next.version,
                    if stepped {
                        "Undid last edit"@
                    } else {
                        "Nothing to undo"@
                    },
                ),
            ),
            next,
        ),
    }
}

/// Taking one step forward.
pub open spec fn redo_spec(s: StateView) -> (Result<EditResultView, Fault>, StateView) {
    let next = redone(s);
    let stepped = s.redo_stack.len() > 0;
    match timeline_fault(next.timeline, "redo timeline"@) {
        Some(m) => (Err(Fault::Invalid(m)), s),
        None => (
            Ok(
                report(
                    stepped && !alike(s.timeline, next.timeline),
                    stepped && !alike_library(s.manifest, next.manifest),
                    "Redo"@,
                    Seq::empty(),
                    next.version,
                    if stepped {
                        "Redid last edit"@
                    } else {
                        "Nothing to redo"@
                    },
                ),
            ),
            next,
        ),
    }
}

/// Takes one step back, if the document it leads to is in order.
pub fn undo_command(state: &mut EditorState) -> (r: Result<EditResult, EditError>)
    requires
        old(state)@.version < u64::MAX,
    ensures
        (outcome(r), final(state)@) == undo_spec(old(state)@),
{
    let mut candidate = state.copy();
    let stepped = candidate.undo();
    match validate_timeline_frame_arithmetic(&candidate.timeline, "undo timeline") {
        Ok(()) => {},
        Err(e) => return Err(e),
    }
    let timeline_changed = stepped && !state.timeline.same(&candidate.timeline);
    let manifest_changed = stepped && !state.manifest.same(&candidate.manifest);
    *state = candidate;
    let affected: Vec<String> = Vec::new();
    assert(texts(affected@) =~= Seq::empty());
    Ok(
        result(
            state,
            timeline_changed,
            manifest_changed,
            "Undo",
            affected,
            if stepped {
                "Undid last edit"
            } else {
                "Nothing to undo"
            },
        ),
    )
}

/// Takes one step forward, if the document it leads to is in order.
pub fn redo_command(state: &mut EditorState) -> (r: Result<EditResult, EditError>)
    requires
        old(state)@.version < u64::MAX,
    ensures
        (outcome(r), final(state)@) == redo_spec(old(state)@),
{
    let mut candidate = state.copy();
    let stepped = candidate.redo();
    match validate_timeline_frame_arithmetic(&candidate.timeline, "redo timeline") {
        Ok(()) => {},
        Err(e) => return Err(e),
    }
    let timeline_changed = stepped && !state.timeline.same(&candidate.timeline);
    let manifest_changed = stepped && !state.manifest.same(&candidate.manifest);
    *state = candidate;
    let affected: Vec<String> = Vec::new();
    assert(texts(affected@) =~= Seq::empty());
    Ok(
        result(
            state,
            timeline_changed,
            manifest_changed,
            "Redo",
            affected,
            if stepped {
                "Redid last edit"
            } else {
                "Nothing to redo"
            },
        ),
    )
}

/// What a command comes to on a timeline in order. A command for a nested sequence
/// is not among these: it stands for another command on a child timeline.
#[verifier::opaque]
pub open spec fn dispatched(s: StateView, command: EditCommand, ids: IdsView, o: Outside) -> (
    Result<EditResultView, Fault>,
    StateView,
) {
    match command {
        EditCommand::Undo => undo_spec(s),
        EditCommand::Redo => redo_spec(s),
        EditCommand::EditNestedSequence { .. } => (Err(root_only()), s),
        EditCommand::CreateNestedSequence {
            name,
            timeline,
            track_index,
            start_frame,
            duration_frames,
        } => create_nested_sequence_spec(
            s,
            name@,
            timeline@,
            track_index as int,
            start_frame,
            duration_frames,
            ids,
            o.placed@.timeline,
            opt_text(o.registry_fault),
        ),
        EditCommand::CreateNestedSequenceFromClips { name, clip_ids } => create_nested_sequence_from_clips_spec(
            s,
            name@,
            texts(clip_ids@),
            ids,
            opt_text(o.registry_fault),
        ),
        EditCommand::SetNestedSequenceTimeline { sequence_id, timeline } => set_nested_sequence_timeline_spec(s, sequence_id@, timeline@, opt_text(o.registry_fault)),
        EditCommand::RenameNestedSequence { sequence_id, name } => rename_nested_sequence_spec(s, sequence_id@, name@, opt_text(o.registry_fault)),
        EditCommand::DissolveNestedSequence { clip_id } => dissolve_nested_sequence_spec(s, clip_id@, ids, opt_text(o.registry_fault)),
        EditCommand::PlaceMedia { sequence_id, settings, target, entry } => place_media_spec(
            s,
            opt_text(sequence_id),
            settings,
            target@,
            entry@,
            ids,
            o.placed@,
            opt_text(o.registry_fault),
        ),
        EditCommand::AddClips { entries } => add_clips_spec(s, clip_entry_views(entries@), o.placed@, opt_text(o.registry_fault)),
        EditCommand::AddClipsAutoTrack { entries } => add_clips_auto_track_spec(
            s,
            clip_entry_views(entries@),
            ids,
            o.placed@,
            opt_text(o.registry_fault),
        ),
        EditCommand::AddClipsToSeparateAutoTracks { entries } => add_clips_to_separate_auto_tracks_spec(
            s,
            clip_entry_views(entries@),
            ids,
            o.placed@,
            opt_text(o.registry_fault),
        ),
        EditCommand::RegisterMediaAndAddClip { media, entry, auto_track } => register_media_and_add_clip_spec(
            s,
            media@,
            entry@,
            auto_track,
            ids,
            o.placed@,
            opt_text(o.registry_fault),
        ),
        EditCommand::RegisterMediaAndSwapClip { media, clip_id } => register_media_and_swap_clip_spec(s, media@, clip_id@, false, opt_text(o.registry_fault)),
        EditCommand::RegisterMediaAndSwapClipClearingMasks { media, clip_id } => register_media_and_swap_clip_spec(s, media@, clip_id@, true, opt_text(o.registry_fault)),
        EditCommand::RegisterMediaAndFreezeFrame {
            media,
            clip_id,
            at_frame,
            duration_frames,
        } => register_media_and_freeze_frame_spec(
            s,
            media@,
            clip_id@,
            at_frame as int,
            duration_frames as int,
            opt_text(o.ripple_fault),
            o.placed@,
            opt_text(o.registry_fault),
        ),
        EditCommand::InsertClips { track_index, at_frame, entries } => insert_clips_spec(
            s,
            track_index as int,
            at_frame as int,
            clip_entry_views(entries@),
            opt_text(o.ripple_fault),
            o.placed@,
            opt_text(o.registry_fault),
        ),
        EditCommand::MoveClips { moves } => move_clips_spec(s, clip_move_views(moves@), o.placed@.timeline, opt_text(o.registry_fault)),
        EditCommand::DuplicateClips { clip_ids, offset_frames, target_track_indexes } => duplicate_clips_spec(
            s,
            texts(clip_ids@),
            offset_frames as int,
            target_track_indexes@,
            o.placed@,
            opt_text(o.registry_fault),
        ),
        EditCommand::MoveOrDuplicateClipsToNewTrack {
            clip_ids,
            lead_clip_id,
            requested_frame_delta,
            insert_at,
            mode,
        } => move_or_duplicate_spec(
            s,
            texts(clip_ids@),
            lead_clip_id@,
            requested_frame_delta as int,
            insert_at as int,
            mode,
            ids,
            o.placed@,
            opt_text(o.registry_fault),
        ),
        EditCommand::PasteClips { entries } => paste_clips_spec(
            s,
            paste_clip_entry_views(entries@),
            ids,
            o.placed@.timeline,
            opt_text(o.registry_fault),
        ),
        EditCommand::RemoveClips { clip_ids } => remove_clips_spec(s, texts(clip_ids@), opt_text(o.registry_fault)),
        EditCommand::SplitClip { clip_id, at_frame } => split_spec(s, clip_id@, at_frame as int, o.placed@, opt_text(o.registry_fault)),
        EditCommand::SplitClips { clip_ids, at_frame } => split_clips_spec(
            s,
            texts(clip_ids@),
            at_frame as int,
            texts(o.unsplittable@),
            o.placed@,
            opt_text(o.registry_fault),
        ),
        EditCommand::FreezeFrame { clip_id, at_frame, duration_frames, .. } => freeze_frame_spec(
            s,
            clip_id@,
            at_frame as int,
            duration_frames as int,
            opt_text(o.ripple_fault),
            o.placed@,
            opt_text(o.registry_fault),
        ),
        EditCommand::TrimClips { edits } => trim_spec(s, trim_edit_views(edits@), trims(o), opt_text(o.registry_fault)),
        EditCommand::SetClipProperties { clip_ids, properties } => set_clip_properties_spec(
            s,
            texts(clip_ids@),
            (*properties)@,
            true,
            first_partners(o.partners@),
            clip_views(o.fitted@),
            opt_text(o.registry_fault),
        ),
        EditCommand::SetClipPropertiesDiverging { clip_ids, properties } => set_clip_properties_spec(
            s,
            texts(clip_ids@),
            (*properties)@,
            false,
            first_partners(o.partners@),
            clip_views(o.fitted@),
            opt_text(o.registry_fault),
        ),
        EditCommand::SetClipPropertiesPerClip { assignments } => set_clip_properties_per_clip_spec(
            s,
            clip_property_assignment_views(assignments@),
            text_lists(o.partners@),
            clip_views(o.fitted@),
            opt_text(o.registry_fault),
        ),
        EditCommand::SetTransformAtFrame { clip_id, frame, transform } => set_transform_at_frame_spec(
            s,
            clip_id@,
            frame,
            transform,
            o.top_left,
            opt_text(o.registry_fault),
        ),
        EditCommand::SetKeyframes { clip_id, property, payload } => set_keyframes_spec(s, clip_id@, property, payload@, opt_text(o.registry_fault)),
        EditCommand::StampKeyframe { clip_id, property, frame } => write_keyframe_spec(
            s,
            clip_id@,
            property,
            frame,
            sample_of(o.sample, property),
            "Stamp Keyframe"@,
            "Stamp keyframe on "@,
            opt_text(o.registry_fault),
        ),
        EditCommand::UpsertKeyframe { clip_id, property, frame, value } => write_keyframe_spec(
            s,
            clip_id@,
            property,
            frame,
            value,
            "Set Keyframe"@,
            "Set keyframe on "@,
            opt_text(o.registry_fault),
        ),
        EditCommand::RemoveKeyframe { clip_id, property, frame } => remove_keyframe_spec(s, clip_id@, property, frame, opt_text(o.registry_fault)),
        EditCommand::MoveKeyframe { clip_id, property, from_frame, to_frame } => move_keyframe_spec(s, clip_id@, property, from_frame, to_frame, opt_text(o.registry_fault)),
        EditCommand::SetKeyframeInterpolation { clip_id, property, frame, interpolation } => set_keyframe_interpolation_spec(
            s,
            clip_id@,
            property,
            frame,
            interpolation,
            opt_text(o.registry_fault),
        ),
        EditCommand::SetColorGrade { clip_ids, grade } => set_color_grade_spec(
            s,
            texts(clip_ids@),
            opt_setting(grade),
            opt_text(o.setting_fault),
            opt_text(o.registry_fault),
        ),
        EditCommand::ApplyColorMatch { clip_id, grade, input } => apply_color_match_spec(
            s,
            clip_id@,
            grade@,
            input@,
            opt_text(o.setting_fault),
            opt_text(o.registry_fault),
        ),
        EditCommand::SetLut { clip_ids, lut } => set_lut_spec(
            s,
            texts(clip_ids@),
            opt_setting(lut),
            opt_text(o.setting_fault),
            opt_text(o.registry_fault),
        ),
        EditCommand::SetChromaKey { clip_ids, chroma_key } => set_chroma_key_spec(s, texts(clip_ids@), opt_setting(chroma_key), opt_text(o.registry_fault)),
        EditCommand::SetMasks { clip_ids, masks } => set_masks_spec(
            s,
            texts(clip_ids@),
            mask_views(masks@),
            o.mask_limits,
            opt_text(o.registry_fault),
        ),
        EditCommand::SetEffects { clip_ids, effects } => set_effects_spec(
            s,
            texts(clip_ids@),
            setting_views(effects@),
            opt_text(o.setting_fault),
            opt_text(o.registry_fault),
        ),
        EditCommand::SetLoudnessNormalization { clip_id, normalization } => set_loudness_normalization_spec(
            s,
            clip_id@,
            opt_setting(normalization),
            opt_text(o.setting_fault),
            opt_text(o.registry_fault),
        ),
        EditCommand::SetAudioDenoise { clip_id, denoise } => set_audio_denoise_spec(
            s,
            clip_id@,
            opt_setting(denoise),
            opt_text(o.setting_fault),
            opt_text(o.registry_fault),
        ),
        EditCommand::ApplyStabilization { clip_id, solution } => apply_stabilization_spec(
            s,
            clip_id@,
            solution@,
            opt_text(o.setting_fault),
            opt_text(o.registry_fault),
        ),
        EditCommand::AdjustStabilization { clip_id, strength, crop_margin } => adjust_stabilization_spec(s, clip_id@, strength, crop_margin, opt_text(o.registry_fault)),
        EditCommand::ResetStabilization { clip_id } => reset_stabilization_spec(s, clip_id@, opt_text(o.registry_fault)),
        EditCommand::SetTransition { from_clip_id, to_clip_id, kind, duration_frames } => set_transition_spec(
            s,
            from_clip_id@,
            to_clip_id@,
            kind,
            duration_frames,
            opt_text(o.registry_fault),
        ),
        EditCommand::RippleDeleteRanges { track_index, ranges } => ripple_delete_ranges_spec(
            s,
            track_index as int,
            ranges@.len(),
            opt_text(o.ripple_fault),
            o.ripple@,
        ),
        EditCommand::RippleDeleteClips { clip_ids } => ripple_delete_clips_spec(s, texts(clip_ids@), rippled(o.ripple@)),
        EditCommand::AddTexts { entries } => add_texts_spec(
            s,
            text_entry_views(entries@),
            ids,
            timeline_views(o.cleared@),
            opt_text(o.registry_fault),
        ),
        EditCommand::AddTextsAutoTrack { entries } => add_texts_auto_track_spec(
            s,
            text_auto_track_entry_views(entries@),
            ids,
            timeline_views(o.cleared@),
            opt_text(o.registry_fault),
        ),
        EditCommand::AddCaptions { entries } => add_captions_spec(s, caption_entry_views(entries@), ids, opt_text(o.registry_fault)),
        EditCommand::ApplyCaptionTranslations { changes } => apply_caption_translations_spec(
            s,
            caption_translation_change_views(changes@),
            opt_text(o.registry_fault),
        ),
        EditCommand::SaveScriptAssemblyPlan { plan } => save_script_assembly_plan_spec(s, plan@, opt_text(o.registry_fault)),
        EditCommand::ApplyScriptAssemblyPlan { plan_id } => apply_script_assembly_plan_spec(s, plan_id@, ids, opt_text(o.registry_fault)),
        EditCommand::SaveVoiceModel { record } => save_voice_model_spec(s, record@),
        EditCommand::RevokeVoiceModel { voice_model_id } => revoke_voice_model_spec(s, voice_model_id@),
        EditCommand::Link { clip_ids } => link_spec(s, texts(clip_ids@), ids, opt_text(o.registry_fault)),
        EditCommand::Unlink { clip_ids } => unlink_spec(s, texts(clip_ids@), opt_text(o.registry_fault)),
        EditCommand::RemoveTracks { track_indexes } => remove_tracks_spec(s, track_indexes@, opt_text(o.registry_fault)),
        EditCommand::SwapTracks { a, b } => swap_tracks_spec(s, a, b, opt_text(o.registry_fault)),
        EditCommand::SwapClips { a, b } => swap_clips_spec(s, a@, b@, o.placed@.timeline, opt_text(o.registry_fault)),
        EditCommand::InsertTrack { kind, at } => insert_track_spec(s, kind, at, ids, opt_text(o.registry_fault)),
        EditCommand::SetTrackProps { track_index, muted, hidden, sync_locked } => set_track_props_spec(
            s,
            track_index,
            muted,
            hidden,
            sync_locked,
            opt_text(o.registry_fault),
        ),
        EditCommand::CreateFolder { name, parent_folder_id } => create_folder_spec(s, name@, opt_text(parent_folder_id), ids, opt_text(o.registry_fault)),
        EditCommand::MoveToFolder { asset_ids, folder_id } => move_to_folder_spec(s, texts(asset_ids@), opt_text(folder_id), opt_text(o.registry_fault)),
        EditCommand::RenameMedia { entries } => rename_media_spec(s, rename_entry_views(entries@), opt_text(o.registry_fault)),
        EditCommand::RenameFolder { entries } => rename_folder_spec(s, rename_entry_views(entries@), opt_text(o.registry_fault)),
        EditCommand::DeleteMedia { asset_ids } => delete_media_spec(s, texts(asset_ids@), opt_text(o.registry_fault)),
        EditCommand::DeleteFolder { folder_ids } => delete_folder_spec(s, texts(folder_ids@), opt_text(o.registry_fault)),
        EditCommand::SwapMedia { clip_id, media_ref } => swap_media_spec(s, clip_id@, media_ref@, opt_text(o.registry_fault)),
        EditCommand::ResetTransform { clip_ids } => set_field_spec(
            s,
            texts(clip_ids@),
            "Reset Transform"@,
            ClipChangeView::TransformReset,
            opt_text(o.registry_fault),
        ),
        EditCommand::SetTimelineSettings { fps, width, height } => set_timeline_settings_spec(
            s,
            fps,
            width,
            height,
            o.placed@.timeline,
            opt_text(o.registry_fault),
        ),
    }
}

/// The id generator after the command.
pub open spec fn ids_dispatched(s: StateView, command: EditCommand, ids: IdsView) -> IdsView {
    match command {
        EditCommand::CreateNestedSequence {
            name,
            timeline,
            track_index,
            start_frame,
            duration_frames,
        } => if new_compound_fault(
            s.timeline,
            name@,
            timeline@,
            track_index as int,
            start_frame as int,
            duration_frames as int,
        ) is Some {
            ids
        } else {
            ids_spent(s, ids, 2)
        },
        EditCommand::AddTexts { entries } => if entries@.len() == 0 || text_entries_fault(
            s.timeline,
            text_entry_views(entries@),
            0,
        ) is Some {
            ids
        } else {
            ids_spent(s, ids, entries@.len() as int)
        },
        EditCommand::AddTextsAutoTrack { entries } => if entries@.len() == 0 || auto_texts_fault(
            text_auto_track_entry_views(entries@),
            0,
        ) is Some {
            ids
        } else {
            ids_spent(s, ids, entries@.len() as int + 1)
        },
        EditCommand::CreateNestedSequenceFromClips { name, clip_ids } => if selection_fault(
            s.timeline,
            name@,
            texts(clip_ids@),
        ) is Some {
            ids
        } else {
            ids_after(
                ids,
                selection_rows(s.timeline, link_expanded(s.timeline, texts(clip_ids@))).len()
                    as int + 2,
            )
        },
        EditCommand::DissolveNestedSequence { clip_id } => if dissolve_fault(
            s.timeline,
            clip_id@,
        ) is Some {
            ids
        } else {
            ids_after(ids, dissolved(s.timeline, clip_id@, ids).minted)
        },
        EditCommand::PasteClips { entries } => if paste_fault(
            s,
            paste_clip_entry_views(entries@),
        ) is Some {
            ids
        } else {
            ids_after(
                ids,
                groups_met(
                    paste_clip_entry_views(entries@),
                    ids,
                    entries@.len() as int,
                ).minted,
            )
        },
        EditCommand::AddCaptions { entries } => if entries@.len() > 0 && captions_fault(
            caption_entry_views(entries@),
            0,
        ) is None {
            ids_spent(s, ids, entries@.len() as int + 1)
        } else {
            ids
        },
        EditCommand::ApplyScriptAssemblyPlan { plan_id } => if buildable(s, plan_id@) {
            ids_spent(
                s,
                ids,
                ids_before(
                    saved_segments(s, plan_id@),
                    saved_segments(s, plan_id@).len() as int,
                ),
            )
        } else {
            ids
        },
        EditCommand::Link { clip_ids } => if clip_ids@.len() < 2 || missing_clip(
            s.timeline,
            texts(clip_ids@),
            0,
        ) is Some {
            ids
        } else {
            ids_spent(s, ids, 1)
        },
        EditCommand::InsertTrack { .. } => ids_spent(s, ids, 1),
        EditCommand::PlaceMedia { sequence_id, settings, target, entry } => placing_ids(
            s,
            opt_text(sequence_id),
            settings,
            target@,
            entry@,
            ids,
        ),
        EditCommand::AddClipsAutoTrack { entries } => shared_ids(
            s,
            clip_entry_views(entries@),
            ids,
        ),
        EditCommand::AddClipsToSeparateAutoTracks { entries } => if add_clips_auto_fault(
            clip_entry_views(entries@),
        ) is Some {
            ids
        } else {
            ids_spent(s, ids, entries@.len() as int)
        },
        EditCommand::RegisterMediaAndAddClip { media, entry, auto_track } => registering_ids(
            s,
            media@,
            entry@,
            auto_track,
            ids,
        ),
        EditCommand::MoveOrDuplicateClipsToNewTrack {
            clip_ids,
            lead_clip_id,
            requested_frame_delta,
            insert_at,
            mode,
        } => gesture_ids(
            s,
            texts(clip_ids@),
            lead_clip_id@,
            requested_frame_delta as int,
            insert_at as int,
            mode,
            ids,
        ),
        EditCommand::CreateFolder { name, .. } => if name@.len() == 0 {
            ids
        } else {
            ids_spent(s, ids, 1)
        },
        _ => ids,
    }
}

fn dispatch(
    state: &mut EditorState,
    command: EditCommand,
    ids: &mut CoreIdGen,
    outside: Outside,
) -> (r: Result<EditResult, EditError>)
    requires
        old(state)@.version < u64::MAX,
    ensures
        (outcome(r), final(state)@) == dispatched(old(state)@, command, old(ids)@, outside),
        final(ids)@ == ids_dispatched(old(state)@, command, old(ids)@),
{
    proof {
        reveal(dispatched);
    }
    match command {
        EditCommand::Undo => undo_command(state),
        EditCommand::Redo => redo_command(state),
        EditCommand::EditNestedSequence { .. } => Err(
            invalid(
                "nested-sequence, media-library, and project-settings commands must target the root timeline",
            ),
        ),
        EditCommand::CreateNestedSequence {
            name,
            timeline,
            track_index,
            start_frame,
            duration_frames,
        } => create_nested_sequence(
            state,
            name,
            timeline,
            track_index,
            start_frame,
            duration_frames,
            ids,
            outside.placed.timeline,
            &outside.registry_fault,
        ),
        EditCommand::CreateNestedSequenceFromClips { name, clip_ids } => create_nested_sequence_from_clips(state, name, clip_ids, ids, &outside.registry_fault),
        EditCommand::SetNestedSequenceTimeline { sequence_id, timeline } => set_nested_sequence_timeline(state, sequence_id, timeline, &outside.registry_fault),
        EditCommand::RenameNestedSequence { sequence_id, name } => rename_nested_sequence(state, sequence_id, name, &outside.registry_fault),
        EditCommand::DissolveNestedSequence { clip_id } => dissolve_nested_sequence(state, clip_id, ids, &outside.registry_fault),
        EditCommand::PlaceMedia { sequence_id, settings, target, entry } => place_media(
            state,
            sequence_id,
            settings,
            target,
            entry,
            ids,
            outside.placed,
            &outside.registry_fault,
        ),
        EditCommand::AddClips { entries } => add_clips(state, entries, outside.placed, &outside.registry_fault),
        EditCommand::AddClipsAutoTrack { entries } => add_clips_auto_track(state, entries, ids, outside.placed, &outside.registry_fault),
        EditCommand::AddClipsToSeparateAutoTracks { entries } => add_clips_to_separate_auto_tracks(state, entries, ids, outside.placed, &outside.registry_fault),
        EditCommand::RegisterMediaAndAddClip { media, entry, auto_track } => register_media_and_add_clip(
            state,
            media,
            entry,
            auto_track,
            ids,
            outside.placed,
            &outside.registry_fault,
        ),
        EditCommand::RegisterMediaAndSwapClip { media, clip_id } => register_media_and_swap_clip(state, media, clip_id, false, &outside.registry_fault),
        EditCommand::RegisterMediaAndSwapClipClearingMasks { media, clip_id } => register_media_and_swap_clip(state, media, clip_id, true, &outside.registry_fault),
        EditCommand::RegisterMediaAndFreezeFrame {
            media,
            clip_id,
            at_frame,
            duration_frames,
        } => register_media_and_freeze_frame(
            state,
            media,
            clip_id,
            at_frame,
            duration_frames,
            &outside.ripple_fault,
            outside.placed,
            &outside.registry_fault,
        ),
        EditCommand::InsertClips { track_index, at_frame, entries } => insert_clips(
            state,
            track_index,
            at_frame,
            entries,
            &outside.ripple_fault,
            outside.placed,
            &outside.registry_fault,
        ),
        EditCommand::MoveClips { moves } => move_clips(state, moves, outside.placed.timeline, &outside.registry_fault),
        EditCommand::DuplicateClips { clip_ids, offset_frames, target_track_indexes } => duplicate_clips_cmd(
            state,
            clip_ids,
            offset_frames,
            target_track_indexes,
            outside.placed,
            &outside.registry_fault,
        ),
        EditCommand::MoveOrDuplicateClipsToNewTrack {
            clip_ids,
            lead_clip_id,
            requested_frame_delta,
            insert_at,
            mode,
        } => move_or_duplicate_clips_to_new_track(
            state,
            clip_ids,
            lead_clip_id,
            requested_frame_delta,
            insert_at,
            mode,
            ids,
            outside.placed,
            &outside.registry_fault,
        ),
        EditCommand::PasteClips { entries } => paste_clips(state, entries, ids, outside.placed.timeline, &outside.registry_fault),
        EditCommand::RemoveClips { clip_ids } => remove_clips(state, clip_ids, &outside.registry_fault),
        EditCommand::SplitClip { clip_id, at_frame } => split(state, clip_id, at_frame, outside.placed, &outside.registry_fault),
        EditCommand::SplitClips { clip_ids, at_frame } => split_clips(
            state,
            clip_ids,
            at_frame,
            &outside.unsplittable,
            outside.placed,
            &outside.registry_fault,
        ),
        EditCommand::FreezeFrame { clip_id, at_frame, duration_frames, .. } => freeze_frame(
            state,
            clip_id,
            at_frame,
            duration_frames,
            &outside.ripple_fault,
            outside.placed,
            &outside.registry_fault,
        ),
        EditCommand::TrimClips { edits } => {
            let trimmed = take_trims(outside.trims_possible, outside.placed);
            trim(state, edits, trimmed, &outside.registry_fault)
        },
        EditCommand::SetClipProperties { clip_ids, properties } => {
            let partners = take_first(&outside.partners);
            set_clip_properties(
                state,
                clip_ids,
                *properties,
                true,
                &partners,
                &outside.fitted,
                &outside.registry_fault,
            )
        },
        EditCommand::SetClipPropertiesDiverging { clip_ids, properties } => {
            let partners = take_first(&outside.partners);
            set_clip_properties(
                state,
                clip_ids,
                *properties,
                false,
                &partners,
                &outside.fitted,
                &outside.registry_fault,
            )
        },
        EditCommand::SetClipPropertiesPerClip { assignments } => set_clip_properties_per_clip(
            state,
            assignments,
            &outside.partners,
            &outside.fitted,
            &outside.registry_fault,
        ),
        EditCommand::SetTransformAtFrame { clip_id, frame, transform } => set_transform_at_frame(
            state,
            clip_id,
            frame,
            transform,
            outside.top_left,
            &outside.registry_fault,
        ),
        EditCommand::SetKeyframes { clip_id, property, payload } => set_keyframes(state, clip_id, property, payload, &outside.registry_fault),
        EditCommand::StampKeyframe { clip_id, property, frame } => stamp_keyframe(state, clip_id, property, frame, &outside.sample, &outside.registry_fault),
        EditCommand::UpsertKeyframe { clip_id, property, frame, value } => upsert_keyframe(state, clip_id, property, frame, value, &outside.registry_fault),
        EditCommand::RemoveKeyframe { clip_id, property, frame } => remove_keyframe(state, clip_id, property, frame, &outside.registry_fault),
        EditCommand::MoveKeyframe { clip_id, property, from_frame, to_frame } => move_keyframe(state, clip_id, property, from_frame, to_frame, &outside.registry_fault),
        EditCommand::SetKeyframeInterpolation { clip_id, property, frame, interpolation } => set_keyframe_interpolation(
            state,
            clip_id,
            property,
            frame,
            interpolation,
            &outside.registry_fault,
        ),
        EditCommand::SetColorGrade { clip_ids, grade } => set_color_grade(state, clip_ids, grade, &outside.setting_fault, &outside.registry_fault),
        EditCommand::ApplyColorMatch { clip_id, grade, input } => apply_color_match(
            state,
            clip_id,
            grade,
            input,
            &outside.setting_fault,
            &outside.registry_fault,
        ),
        EditCommand::SetLut { clip_ids, lut } => set_lut(state, clip_ids, lut, &outside.setting_fault, &outside.registry_fault),
        EditCommand::SetChromaKey { clip_ids, chroma_key } => set_chroma_key(state, clip_ids, chroma_key, &outside.registry_fault),
        EditCommand::SetMasks { clip_ids, masks } => set_masks(state, clip_ids, masks, outside.mask_limits, &outside.registry_fault),
        EditCommand::SetEffects { clip_ids, effects } => set_effects(state, clip_ids, effects, &outside.setting_fault, &outside.registry_fault),
        EditCommand::SetLoudnessNormalization { clip_id, normalization } => set_loudness_normalization(
            state,
            clip_id,
            normalization,
            &outside.setting_fault,
            &outside.registry_fault,
        ),
        EditCommand::SetAudioDenoise { clip_id, denoise } => set_audio_denoise(state, clip_id, denoise, &outside.setting_fault, &outside.registry_fault),
        EditCommand::ApplyStabilization { clip_id, solution } => apply_stabilization(
            state,
            clip_id,
            solution,
            &outside.setting_fault,
            &outside.registry_fault,
        ),
        EditCommand::AdjustStabilization { clip_id, strength, crop_margin } => adjust_stabilization(state, clip_id, strength, crop_margin, &outside.registry_fault),
        EditCommand::ResetStabilization { clip_id } => reset_stabilization(state, clip_id, &outside.registry_fault),
        EditCommand::SetTransition { from_clip_id, to_clip_id, kind, duration_frames } => set_transition(
            state,
            from_clip_id,
            to_clip_id,
            kind,
            duration_frames,
            &outside.registry_fault,
        ),
        EditCommand::RippleDeleteRanges { track_index, ranges } => ripple_delete_ranges(state, track_index, ranges, &outside.ripple_fault, outside.ripple),
        EditCommand::RippleDeleteClips { clip_ids } => {
            let ripple = take_ripple(outside.ripple);
            ripple_delete_clips(state, clip_ids, ripple)
        },
        EditCommand::AddTexts { entries } => add_texts(state, entries, ids, &outside.cleared, &outside.registry_fault),
        EditCommand::AddTextsAutoTrack { entries } => add_texts_auto_track(state, entries, ids, &outside.cleared, &outside.registry_fault),
        EditCommand::AddCaptions { entries } => add_captions(state, entries, ids, &outside.registry_fault),
        EditCommand::ApplyCaptionTranslations { changes } => apply_caption_translations(state, changes, &outside.registry_fault),
        EditCommand::SaveScriptAssemblyPlan { plan } => save_script_assembly_plan(state, plan, &outside.registry_fault),
        EditCommand::ApplyScriptAssemblyPlan { plan_id } => apply_script_assembly_plan(state, plan_id, ids, &outside.registry_fault),
        EditCommand::SaveVoiceModel { record } => save_voice_model(state, record),
        EditCommand::RevokeVoiceModel { voice_model_id } => revoke_voice_model(state, voice_model_id),
        EditCommand::Link { clip_ids } => link(state, clip_ids, ids, &outside.registry_fault),
        EditCommand::Unlink { clip_ids } => unlink(state, clip_ids, &outside.registry_fault),
        EditCommand::RemoveTracks { track_indexes } => remove_tracks(state, track_indexes, &outside.registry_fault),
        EditCommand::SwapTracks { a, b } => swap_tracks(state, a, b, &outside.registry_fault),
        EditCommand::SwapClips { a, b } => swap_clips(state, a, b, outside.placed.timeline, &outside.registry_fault),
        EditCommand::InsertTrack { kind, at } => insert_track_cmd(state, kind, at, ids, &outside.registry_fault),
        EditCommand::SetTrackProps { track_index, muted, hidden, sync_locked } => set_track_props(state, track_index, muted, hidden, sync_locked, &outside.registry_fault),
        EditCommand::CreateFolder { name, parent_folder_id } => create_folder(state, name, parent_folder_id, ids, &outside.registry_fault),
        EditCommand::MoveToFolder { asset_ids, folder_id } => move_to_folder(state, asset_ids, folder_id, &outside.registry_fault),
        EditCommand::RenameMedia { entries } => rename_media(state, entries, &outside.registry_fault),
        EditCommand::RenameFolder { entries } => rename_folder(state, entries, &outside.registry_fault),
        EditCommand::DeleteMedia { asset_ids } => delete_media(state, asset_ids, &outside.registry_fault),
        EditCommand::DeleteFolder { folder_ids } => delete_folder(state, folder_ids, &outside.registry_fault),
        EditCommand::SwapMedia { clip_id, media_ref } => swap_media(state, clip_id, media_ref, &outside.registry_fault),
        EditCommand::ResetTransform { clip_ids } => reset_transform(state, clip_ids, &outside.registry_fault),
        EditCommand::SetTimelineSettings { fps, width, height } => set_timeline_settings_cmd(
            state,
            fps,
            width,
            height,
            outside.placed.timeline,
            &outside.registry_fault,
        ),
    }
}

/// What a command comes to on any timeline: a malformed one is refused first.
pub open spec fn plainly_applied(s: StateView, command: EditCommand, ids: IdsView, o: Outside) -> (
    Result<EditResultView, Fault>,
    StateView,
) {
    match timeline_fault(s.timeline, "timeline"@) {
        Some(m) => (Err(Fault::Invalid(m)), s),
        None => dispatched(s, command, ids, o),
    }
}

/// The id generator after the command on any timeline.
pub open spec fn ids_plainly_applied(s: StateView, command: EditCommand, ids: IdsView) -> IdsView {
    if timeline_fault(s.timeline, "timeline"@) is Some {
        ids
    } else {
        ids_dispatched(s, command, ids)
    }
}

fn apply_plainly(
    state: &mut EditorState,
    command: EditCommand,
    ids: &mut CoreIdGen,
    outside: Outside,
) -> (r: Result<EditResult, EditError>)
    requires
        old(state)@.version < u64::MAX,
    ensures
        (outcome(r), final(state)@) == plainly_applied(old(state)@, command, old(ids)@, outside),
        final(ids)@ == ids_plainly_applied(old(state)@, command, old(ids)@),
{
    match validate_timeline_frame_arithmetic(&state.timeline, "timeline") {
        Ok(()) => {},
        Err(e) => return Err(e),
    }
    dispatch(state, command, ids, outside)
}

/// The state that a command on the `i`-th nested sequence works on: the child
/// timeline with the registry of the root, in which the child itself stands empty,
/// and no history.
pub open spec fn child_state(s: StateView, i: int) -> StateView {
    let sequence = s.timeline.nested_sequences[i];
    StateView {
        timeline: TimelineView {
            nested_sequences: s.timeline.nested_sequences.update(
                i,
                NestedSequenceView { timeline: fresh_timeline(), ..sequence },
            ),
            ..sequence.timeline
        },
        manifest: s.manifest,
        undo_stack: Seq::empty(),
        redo_stack: Seq::empty(),
        version: 0,
    }
}

/// What is said and done for the command on the child.
pub open spec fn outside_of_child(o: Outside) -> Outside {
    Outside { registry_fault: o.child_registry_fault, child_registry_fault: None, ..o }
}

/// The document with an edited child put back in its place.
pub open spec fn child_put_back(
    s: StateView,
    i: int,
    inner: (Result<EditResultView, Fault>, StateView),
) -> Result<WorkView, Fault> {
    match inner.0 {
        Err(f) => Err(f),
        Ok(e) => Ok(
            WorkView {
                timeline: with_sequence(
                    s.timeline,
                    i,
                    NestedSequenceView {
                        timeline: TimelineView {
                            nested_sequences: Seq::empty(),
                            ..inner.1.timeline
                        },
                        ..s.timeline.nested_sequences[i]
                    },
                ),
                manifest: inner.1.manifest,
                affected: e.affected_clip_ids,
            },
        ),
    }
}

/// Applying a command to a nested sequence, as one edit of the root.
pub open spec fn edit_nested_sequence_spec(
    s: StateView,
    sequence_id: Seq<char>,
    command: EditCommand,
    ids: IdsView,
    o: Outside,
) -> (Result<EditResultView, Fault>, StateView) {
    if command.for_root_only() {
        (Err(root_only()), s)
    } else {
        match sequence_index(s.timeline.nested_sequences, sequence_id, 0) {
            None => (Err(sequence_not_found(sequence_id)), s),
            Some(i) => transacted(
                s,
                "Edit Compound Clip"@,
                "Edited nested sequence "@ + sequence_id,
                child_put_back(
                    s,
                    i,
                    plainly_applied(child_state(s, i), command, ids, outside_of_child(o)),
                ),
                opt_text(o.registry_fault),
            ),
        }
    }
}

/// The id generator after the command on the nested sequence.
pub open spec fn ids_nested(
    s: StateView,
    sequence_id: Seq<char>,
    command: EditCommand,
    ids: IdsView,
) -> IdsView {
    match sequence_index(s.timeline.nested_sequences, sequence_id, 0) {
        Some(i) if !command.for_root_only() => ids_plainly_applied(
            child_state(s, i),
            command,
            ids,
        ),
        _ => ids,
    }
}

fn child_editor(state: &EditorState, i: usize) -> (r: EditorState)
    requires
        i < state.timeline.nested_sequences@.len(),
    ensures
        r@ == child_state(state@, i as int),
{
    let ghost root = state.timeline;
    let mut registry = state.timeline.copy();
    proof {
        lemma_nested_views(root);
        lemma_nested_views(registry);
        assert(registry@.nested_sequences.len() == registry.nested_sequences@.len());
        assert(root@.nested_sequences.len() == root.nested_sequences@.len());
    }
    let mut editable = Timeline::new();
    std::mem::swap(&mut editable, &mut registry.nested_sequences[i].timeline);
    proof {
        lemma_nested_views(registry);
    }
    let ghost own = editable;
    editable.nested_sequences = registry.nested_sequences;
    proof {
        lemma_nested_views(own);
        lemma_nested_views(editable);
        assert(editable@.nested_sequences =~= child_state(state@, i as int).timeline.nested_sequences);
    }
    let r = EditorState::new(editable, state.manifest.copy());
    r
}

/// A nested sequence as a document of its own, the other sequences of the root at hand.
pub fn enter_sequence(state: &EditorState, sequence_id: &str) -> (r: Option<EditorState>)
    ensures
        match sequence_index(state@.timeline.nested_sequences, sequence_id@, 0) {
            Some(i) => r matches Some(child) && child@ == child_state(state@, i),
            None => r is None,
        },
{
    match find_sequence(&state.timeline, sequence_id) {
        Some(i) => Some(child_editor(state, i)),
        None => None,
    }
}

fn put_child_back(root: &Timeline, i: usize, child: Timeline) -> (r: Timeline)
    requires
        i < root.nested_sequences@.len(),
    ensures
        r@ == with_sequence(
            root@,
            i as int,
            NestedSequenceView {
                timeline: TimelineView { nested_sequences: Seq::empty(), ..child@ },
                ..root@.nested_sequences[i as int]
            },
        ),
{
    let mut child = child;
    let ghost edited = child;
    child.nested_sequences = Vec::new();
    let mut r = root.copy();
    let ghost before = r;
    proof {
        lemma_nested_views(edited);
        lemma_nested_views(child);
        lemma_nested_views(*root);
        lemma_nested_views(before);
        assert(child@.nested_sequences =~= Seq::empty());
        assert(before@.nested_sequences.len() == before.nested_sequences@.len());
        assert(root@.nested_sequences.len() == root.nested_sequences@.len());
    }
    r.nested_sequences[i].timeline = child;
    proof {
        lemma_sequence_replaced(before, r, i as int);
    }
    r
}

/// Applies an ordinary edit command to one nested sequence. The root keeps the only
/// history.
pub fn edit_nested_sequence(
    state: &mut EditorState,
    sequence_id: String,
    command: EditCommand,
    ids: &mut CoreIdGen,
    outside: Outside,
) -> (r: Result<EditResult, EditError>)
    requires
        old(state)@.version < u64::MAX,
        timeline_fault(old(state)@.timeline, "timeline"@) is None,
    ensures
        (outcome(r), final(state)@) == edit_nested_sequence_spec(
            old(state)@,
            sequence_id@,
            command,
            old(ids)@,
            outside,
        ),
        final(ids)@ == ids_nested(old(state)@, sequence_id@, command, old(ids)@),
{
    if command.is_for_root_only() {
        return Err(
            invalid(
                "nested-sequence, media-library, and project-settings commands must target the root timeline",
            ),
        );
    }
    let i = match require_sequence(&state.timeline, sequence_id.as_str()) {
        Ok(i) => i,
        Err(e) => return Err(e),
    };
    let registry_fault = outside.registry_fault;
    let inside = Outside {
        registry_fault: outside.child_registry_fault,
        child_registry_fault: None,
        setting_fault: outside.setting_fault,
        ripple_fault: outside.ripple_fault,
        placed: outside.placed,
        cleared: outside.cleared,
        trims_possible: outside.trims_possible,
        ripple: outside.ripple,
        unsplittable: outside.unsplittable,
        partners: outside.partners,
        fitted: outside.fitted,
        sample: outside.sample,
        top_left: outside.top_left,
        mask_limits: outside.mask_limits,
    };
    let mut child = child_editor(state, i);
    let inner = apply_plainly(&mut child, command, ids, inside);
    let work = match inner {
        Err(e) => Err(e),
        Ok(done) => Ok(
            Work {
                timeline: put_child_back(&state.timeline, i, child.timeline),
                manifest: child.manifest,
                affected: done.affected_clip_ids,
            },
        ),
    };
    let summary = cat2("Edited nested sequence ", sequence_id.as_str());
    transact(state, "Edit Compound Clip", summary.as_str(), work, &registry_fault)
}

/// What a command comes to: what it returns and the state it leaves.
pub open spec fn applied(s: StateView, command: EditCommand, ids: IdsView, o: Outside) -> (
    Result<EditResultView, Fault>,
    StateView,
) {
    match command {
        EditCommand::EditNestedSequence { sequence_id, command: inner } => match timeline_fault(
            s.timeline,
            "timeline"@,
        ) {
            Some(m) => (Err(Fault::Invalid(m)), s),
            None => edit_nested_sequence_spec(s, sequence_id@, *inner, ids, o),
        },
        _ => plainly_applied(s, command, ids, o),
    }
}

/// The id generator after a command.
pub open spec fn ids_applied(s: StateView, command: EditCommand, ids: IdsView) -> IdsView {
    match command {
        EditCommand::EditNestedSequence { sequence_id, command: inner } => if timeline_fault(
            s.timeline,
            "timeline"@,
        ) is Some {
            ids
        } else {
            ids_nested(s, sequence_id@, *inner, ids)
        },
        _ => ids_plainly_applied(s, command, ids),
    }
}

/// Applies one editing command to the editor state. `outside` is what the parts of
/// the editor around the commands say and do for this command.
pub fn apply(
    state: &mut EditorState,
    command: EditCommand,
    ids: &mut CoreIdGen,
    outside: Outside,
) -> (r: Result<EditResult, EditError>)
    requires
        old(state)@.version < u64::MAX,
    ensures
        (outcome(r), final(state)@) == applied(old(state)@, command, old(ids)@, outside),
        final(ids)@ == ids_applied(old(state)@, command, old(ids)@),
{
    match command {
        EditCommand::EditNestedSequence { sequence_id, command: inner } => {
            match validate_timeline_frame_arithmetic(&state.timeline, "timeline") {
                Ok(()) => {},
                Err(e) => return Err(e),
            }
            edit_nested_sequence(state, sequence_id, *inner, ids, outside)
        },
        other => apply_plainly(state, other, ids, outside),
    }
}

/// What an edit keeps to: a failed one leaves the state as it was; one that
/// succeeds reports truly what changed and at which version; what it changed one undo
/// brings back, under the label that was reported, and where nothing changed history and
/// version stay as they were.
pub open spec fn faithful(
    s: StateView,
    done: (Result<EditResultView, Fault>, StateView),
) -> bool {
    match done.0 {
        Err(_) => done.1 == s,
        Ok(e) => {
            &&& if e.timeline_changed {
                !alike(s.timeline, done.1.timeline) || !alike_library(s.manifest, s.manifest)
            } else {
                alike(s.timeline, done.1.timeline) || done.1.timeline == s.timeline
            }
            &&& if e.manifest_changed {
                !alike_library(s.manifest, done.1.manifest)
            } else {
                alike_library(s.manifest, done.1.manifest) || done.1.manifest == s.manifest
            }
            &&& e.changed == (e.timeline_changed || e.manifest_changed)
            &&& e.timeline_version == done.1.version
            &&& if e.changed {
                &&& done.1.version == s.version + 1
                &&& done.1.undo_stack.len() == s.undo_stack.len() + 1
                &&& done.1.undo_stack.last().action_name == e.action_name
                &&& done.1.undo_stack.last().transaction_version == done.1.version
                &&& undone(done.1).timeline == s.timeline
                &&& undone(done.1).manifest == s.manifest
                &&& undone(done.1).undo_stack == s.undo_stack
            } else {
                done.1 == StateView {
                    timeline: done.1.timeline,
                    manifest: done.1.manifest,
                    ..s
                }
            }
        },
    }
}

/// What an edit leaves behind: a timeline in order, if it found one.
pub open spec fn in_order(s: StateView, done: (Result<EditResultView, Fault>, StateView)) -> bool {
    done.0 is Ok && timeline_fault(s.timeline, "timeline"@) is None ==> timeline_fault(
        done.1.timeline,
        "timeline"@,
    ) is None
}

/// Whether an edit that changed something left no transition off its cut.
pub open spec fn on_cuts(done: (Result<EditResultView, Fault>, StateView)) -> bool {
    done.0 matches Ok(e) ==> e.changed ==> pruned(done.1.timeline) == done.1.timeline
}

/// Pruning keeps a timeline in order.
proof fn lemma_pruned_in_order(t: TimelineView)
    ensures
        timeline_fault(t, "timeline"@) is None ==> timeline_fault(pruned(t), "timeline"@) is None,
{
    lemma_timeline_sound(t, "timeline"@);
    lemma_timeline_sound(pruned(t), "timeline"@);
    lemma_pruned_sound(t);
}

proof fn lemma_transactions_are_faithful(s: StateView)
    requires
        s.version < u64::MAX,
    ensures
        forall|
            action: Seq<char>,
            summary: Seq<char>,
            work: Result<WorkView, Fault>,
            registry_fault: Option<Seq<char>>,
        |
            {
                let done = #[trigger] transacted(s, action, summary, work, registry_fault);
                faithful(s, done) && in_order(s, done) && on_cuts(done)
            },
{
    assert forall|
        action: Seq<char>,
        summary: Seq<char>,
        work: Result<WorkView, Fault>,
        registry_fault: Option<Seq<char>>,
    |
        {
            let done = #[trigger] transacted(s, action, summary, work, registry_fault);
            faithful(s, done) && in_order(s, done) && on_cuts(done)
        } by {
        if work is Ok {
            law_pruning_is_stable(work->Ok_0.timeline);
            lemma_pruned_in_order(work->Ok_0.timeline);
        }
        let done = transacted(s, action, summary, work, registry_fault);
        if done.0 is Ok && done.0->Ok_0.changed {
            law_undo_restores_what_a_transaction_changed(
                s,
                action,
                summary,
                work,
                registry_fault,
            );
        }
    }
}

proof fn lemma_ripples_are_faithful(s: StateView)
    requires
        s.version < u64::MAX,
    ensures
        forall|t: TimelineView, affected: Seq<Seq<char>>, summary: Seq<char>|
            {
                let done = #[trigger] ripple_settled(s, t, affected, summary);
                faithful(s, done) && in_order(s, done)
            },
{
    assert forall|t: TimelineView, affected: Seq<Seq<char>>, summary: Seq<char>|
        {
            let done = #[trigger] ripple_settled(s, t, affected, summary);
            faithful(s, done) && in_order(s, done)
        } by {
        law_undo_restores_and_redo_repeats(s, t, s.manifest, "Ripple Delete"@);
    }
}

proof fn lemma_nested_is_faithful(s: StateView, command: EditCommand, ids: IdsView, o: Outside)
    requires
        s.version < u64::MAX,
        command is CreateNestedSequence || command is SetNestedSequenceTimeline
            || command is RenameNestedSequence,
    ensures
        faithful(s, dispatched(s, command, ids, o)),
        in_order(s, dispatched(s, command, ids, o)),
        on_cuts(dispatched(s, command, ids, o)),
{
    reveal(dispatched);
    lemma_transactions_are_faithful(s);
}

proof fn lemma_compound_is_faithful(s: StateView, command: EditCommand, ids: IdsView, o: Outside)
    requires
        s.version < u64::MAX,
        command is CreateNestedSequenceFromClips,
    ensures
        faithful(s, dispatched(s, command, ids, o)),
        in_order(s, dispatched(s, command, ids, o)),
        on_cuts(dispatched(s, command, ids, o)),
{
    reveal(dispatched);
    lemma_transactions_are_faithful(s);
}

proof fn lemma_dissolve_is_faithful(s: StateView, command: EditCommand, ids: IdsView, o: Outside)
    requires
        s.version < u64::MAX,
        command is DissolveNestedSequence,
    ensures
        faithful(s, dispatched(s, command, ids, o)),
        in_order(s, dispatched(s, command, ids, o)),
        on_cuts(dispatched(s, command, ids, o)),
{
    reveal(dispatched);
    lemma_transactions_are_faithful(s);
}

proof fn lemma_placement_is_faithful(s: StateView, command: EditCommand, ids: IdsView, o: Outside)
    requires
        s.version < u64::MAX,
        command is PlaceMedia || command is AddClips || command is AddClipsAutoTrack
            || command is AddClipsToSeparateAutoTracks || command is InsertClips,
    ensures
        faithful(s, dispatched(s, command, ids, o)),
        in_order(s, dispatched(s, command, ids, o)),
        on_cuts(dispatched(s, command, ids, o)),
{
    reveal(dispatched);
    lemma_transactions_are_faithful(s);
}

proof fn lemma_registration_is_faithful(s: StateView, command: EditCommand, ids: IdsView, o: Outside)
    requires
        s.version < u64::MAX,
        command is RegisterMediaAndAddClip || command is RegisterMediaAndSwapClip
            || command is RegisterMediaAndSwapClipClearingMasks
            || command is RegisterMediaAndFreezeFrame || command is SwapMedia,
    ensures
        faithful(s, dispatched(s, command, ids, o)),
        in_order(s, dispatched(s, command, ids, o)),
        on_cuts(dispatched(s, command, ids, o)),
{
    reveal(dispatched);
    lemma_transactions_are_faithful(s);
}

proof fn lemma_moving_is_faithful(s: StateView, command: EditCommand, ids: IdsView, o: Outside)
    requires
        s.version < u64::MAX,
        command is MoveClips || command is DuplicateClips || command is SwapClips,
    ensures
        faithful(s, dispatched(s, command, ids, o)),
        in_order(s, dispatched(s, command, ids, o)),
        on_cuts(dispatched(s, command, ids, o)),
{
    reveal(dispatched);
    lemma_transactions_are_faithful(s);
}

proof fn lemma_new_track_is_faithful(s: StateView, command: EditCommand, ids: IdsView, o: Outside)
    requires
        s.version < u64::MAX,
        command is MoveOrDuplicateClipsToNewTrack,
    ensures
        faithful(s, dispatched(s, command, ids, o)),
        in_order(s, dispatched(s, command, ids, o)),
        on_cuts(dispatched(s, command, ids, o)),
{
    reveal(dispatched);
    lemma_transactions_are_faithful(s);
}

proof fn lemma_paste_is_faithful(s: StateView, command: EditCommand, ids: IdsView, o: Outside)
    requires
        s.version < u64::MAX,
        command is PasteClips,
    ensures
        faithful(s, dispatched(s, command, ids, o)),
        in_order(s, dispatched(s, command, ids, o)),
        on_cuts(dispatched(s, command, ids, o)),
{
    reveal(dispatched);
    lemma_transactions_are_faithful(s);
}

proof fn lemma_removal_is_faithful(s: StateView, command: EditCommand, ids: IdsView, o: Outside)
    requires
        s.version < u64::MAX,
        command is RemoveClips || command is DeleteMedia || command is DeleteFolder,
    ensures
        faithful(s, dispatched(s, command, ids, o)),
        in_order(s, dispatched(s, command, ids, o)),
        on_cuts(dispatched(s, command, ids, o)),
{
    reveal(dispatched);
    lemma_transactions_are_faithful(s);
}

proof fn lemma_splitting_is_faithful(s: StateView, command: EditCommand, ids: IdsView, o: Outside)
    requires
        s.version < u64::MAX,
        command is SplitClip || command is SplitClips,
    ensures
        faithful(s, dispatched(s, command, ids, o)),
        in_order(s, dispatched(s, command, ids, o)),
        on_cuts(dispatched(s, command, ids, o)),
{
    reveal(dispatched);
    lemma_transactions_are_faithful(s);
}

proof fn lemma_ripple_is_faithful(s: StateView, command: EditCommand, ids: IdsView, o: Outside)
    requires
        s.version < u64::MAX,
        command is FreezeFrame || command is TrimClips || command is RippleDeleteRanges
            || command is RippleDeleteClips,
    ensures
        faithful(s, dispatched(s, command, ids, o)),
        in_order(s, dispatched(s, command, ids, o)),
        !(command is RippleDeleteRanges || command is RippleDeleteClips) ==> on_cuts(
            dispatched(s, command, ids, o),
        ),
{
    reveal(dispatched);
    lemma_transactions_are_faithful(s);
    lemma_ripples_are_faithful(s);
}

proof fn lemma_properties_is_faithful(s: StateView, command: EditCommand, ids: IdsView, o: Outside)
    requires
        s.version < u64::MAX,
        command is SetClipProperties || command is SetClipPropertiesDiverging
            || command is SetClipPropertiesPerClip,
    ensures
        faithful(s, dispatched(s, command, ids, o)),
        in_order(s, dispatched(s, command, ids, o)),
        on_cuts(dispatched(s, command, ids, o)),
{
    reveal(dispatched);
    lemma_transactions_are_faithful(s);
}

proof fn lemma_keyframes_is_faithful(s: StateView, command: EditCommand, ids: IdsView, o: Outside)
    requires
        s.version < u64::MAX,
        command is SetTransformAtFrame || command is SetKeyframes || command is StampKeyframe
            || command is UpsertKeyframe || command is RemoveKeyframe
            || command is MoveKeyframe || command is SetKeyframeInterpolation,
    ensures
        faithful(s, dispatched(s, command, ids, o)),
        in_order(s, dispatched(s, command, ids, o)),
        on_cuts(dispatched(s, command, ids, o)),
{
    reveal(dispatched);
    lemma_transactions_are_faithful(s);
}

proof fn lemma_effects_is_faithful(s: StateView, command: EditCommand, ids: IdsView, o: Outside)
    requires
        s.version < u64::MAX,
        command is SetColorGrade || command is ApplyColorMatch || command is SetLut
            || command is SetChromaKey || command is SetMasks || command is SetEffects
            || command is SetLoudnessNormalization || command is SetAudioDenoise
            || command is ApplyStabilization || command is AdjustStabilization
            || command is ResetStabilization || command is ResetTransform,
    ensures
        faithful(s, dispatched(s, command, ids, o)),
        in_order(s, dispatched(s, command, ids, o)),
        on_cuts(dispatched(s, command, ids, o)),
{
    reveal(dispatched);
    lemma_transactions_are_faithful(s);
}

proof fn lemma_transition_is_faithful(s: StateView, command: EditCommand, ids: IdsView, o: Outside)
    requires
        s.version < u64::MAX,
        command is SetTransition,
    ensures
        faithful(s, dispatched(s, command, ids, o)),
        in_order(s, dispatched(s, command, ids, o)),
        on_cuts(dispatched(s, command, ids, o)),
{
    reveal(dispatched);
    lemma_transactions_are_faithful(s);
}

proof fn lemma_captions_is_faithful(s: StateView, command: EditCommand, ids: IdsView, o: Outside)
    requires
        s.version < u64::MAX,
        command is AddTexts || command is AddTextsAutoTrack || command is AddCaptions
            || command is ApplyCaptionTranslations,
    ensures
        faithful(s, dispatched(s, command, ids, o)),
        in_order(s, dispatched(s, command, ids, o)),
        on_cuts(dispatched(s, command, ids, o)),
{
    reveal(dispatched);
    lemma_transactions_are_faithful(s);
}

proof fn lemma_script_is_faithful(s: StateView, command: EditCommand, ids: IdsView, o: Outside)
    requires
        s.version < u64::MAX,
        command is SaveScriptAssemblyPlan || command is ApplyScriptAssemblyPlan,
    ensures
        faithful(s, dispatched(s, command, ids, o)),
        in_order(s, dispatched(s, command, ids, o)),
        on_cuts(dispatched(s, command, ids, o)),
{
    reveal(dispatched);
    lemma_transactions_are_faithful(s);
}

proof fn lemma_tracks_is_faithful(s: StateView, command: EditCommand, ids: IdsView, o: Outside)
    requires
        s.version < u64::MAX,
        command is Link || command is Unlink || command is RemoveTracks
            || command is SwapTracks || command is InsertTrack || command is SetTrackProps,
    ensures
        faithful(s, dispatched(s, command, ids, o)),
        in_order(s, dispatched(s, command, ids, o)),
        on_cuts(dispatched(s, command, ids, o)),
{
    reveal(dispatched);
    lemma_transactions_are_faithful(s);
}

proof fn lemma_library_is_faithful(s: StateView, command: EditCommand, ids: IdsView, o: Outside)
    requires
        s.version < u64::MAX,
        command is CreateFolder || command is MoveToFolder || command is RenameMedia
            || command is RenameFolder,
    ensures
        faithful(s, dispatched(s, command, ids, o)),
        in_order(s, dispatched(s, command, ids, o)),
        on_cuts(dispatched(s, command, ids, o)),
{
    reveal(dispatched);
    lemma_transactions_are_faithful(s);
}

proof fn lemma_settings_is_faithful(s: StateView, command: EditCommand, ids: IdsView, o: Outside)
    requires
        s.version < u64::MAX,
        command is SetTimelineSettings,
    ensures
        faithful(s, dispatched(s, command, ids, o)),
        in_order(s, dispatched(s, command, ids, o)),
        on_cuts(dispatched(s, command, ids, o)),
{
    reveal(dispatched);
    lemma_transactions_are_faithful(s);
}

proof fn lemma_plain_edits_are_faithful(s: StateView, command: EditCommand, ids: IdsView, o: Outside)
    requires
        s.version < u64::MAX,
        !(command is Undo),
        !(command is Redo),
        !(command is SaveVoiceModel),
        !(command is RevokeVoiceModel),
        !(command is EditNestedSequence),
    ensures
        faithful(s, dispatched(s, command, ids, o)),
        in_order(s, dispatched(s, command, ids, o)),
        !(command is RippleDeleteRanges || command is RippleDeleteClips) ==> on_cuts(
            dispatched(s, command, ids, o),
        ),
{
    match command {
        EditCommand::Undo | EditCommand::Redo | EditCommand::EditNestedSequence { .. }
        | EditCommand::SaveVoiceModel { .. } | EditCommand::RevokeVoiceModel { .. } => {},
        EditCommand::CreateNestedSequence { .. }
        | EditCommand::SetNestedSequenceTimeline { .. }
        | EditCommand::RenameNestedSequence { .. } => {
            lemma_nested_is_faithful(s, command, ids, o);
        },
        EditCommand::CreateNestedSequenceFromClips { .. } => {
            lemma_compound_is_faithful(s, command, ids, o);
        },
        EditCommand::DissolveNestedSequence { .. } => {
            lemma_dissolve_is_faithful(s, command, ids, o);
        },
        EditCommand::PlaceMedia { .. } | EditCommand::AddClips { .. }
        | EditCommand::AddClipsAutoTrack { .. }
        | EditCommand::AddClipsToSeparateAutoTracks { .. } | EditCommand::InsertClips { .. } => {
            lemma_placement_is_faithful(s, command, ids, o);
        },
        EditCommand::RegisterMediaAndAddClip { .. }
        | EditCommand::RegisterMediaAndSwapClip { .. }
        | EditCommand::RegisterMediaAndSwapClipClearingMasks { .. }
        | EditCommand::RegisterMediaAndFreezeFrame { .. } | EditCommand::SwapMedia { .. } => {
            lemma_registration_is_faithful(s, command, ids, o);
        },
        EditCommand::MoveClips { .. } | EditCommand::DuplicateClips { .. }
        | EditCommand::SwapClips { .. } => {
            lemma_moving_is_faithful(s, command, ids, o);
        },
        EditCommand::MoveOrDuplicateClipsToNewTrack { .. } => {
            lemma_new_track_is_faithful(s, command, ids, o);
        },
        EditCommand::PasteClips { .. } => {
            lemma_paste_is_faithful(s, command, ids, o);
        },
        EditCommand::RemoveClips { .. } | EditCommand::DeleteMedia { .. }
        | EditCommand::DeleteFolder { .. } => {
            lemma_removal_is_faithful(s, command, ids, o);
        },
        EditCommand::SplitClip { .. } | EditCommand::SplitClips { .. } => {
            lemma_splitting_is_faithful(s, command, ids, o);
        },
        EditCommand::FreezeFrame { .. } | EditCommand::TrimClips { .. }
        | EditCommand::RippleDeleteRanges { .. } | EditCommand::RippleDeleteClips { .. } => {
            lemma_ripple_is_faithful(s, command, ids, o);
        },
        EditCommand::SetClipProperties { .. }
        | EditCommand::SetClipPropertiesDiverging { .. }
        | EditCommand::SetClipPropertiesPerClip { .. } => {
            lemma_properties_is_faithful(s, command, ids, o);
        },
        EditCommand::SetTransformAtFrame { .. } | EditCommand::SetKeyframes { .. }
        | EditCommand::StampKeyframe { .. } | EditCommand::UpsertKeyframe { .. }
        | EditCommand::RemoveKeyframe { .. } | EditCommand::MoveKeyframe { .. }
        | EditCommand::SetKeyframeInterpolation { .. } => {
            lemma_keyframes_is_faithful(s, command, ids, o);
        },
        EditCommand::SetColorGrade { .. } | EditCommand::ApplyColorMatch { .. }
        | EditCommand::SetLut { .. } | EditCommand::SetChromaKey { .. }
        | EditCommand::SetMasks { .. } | EditCommand::SetEffects { .. }
        | EditCommand::SetLoudnessNormalization { .. } | EditCommand::SetAudioDenoise { .. }
        | EditCommand::ApplyStabilization { .. } | EditCommand::AdjustStabilization { .. }
        | EditCommand::ResetStabilization { .. } | EditCommand::ResetTransform { .. } => {
            lemma_effects_is_faithful(s, command, ids, o);
        },
        EditCommand::SetTransition { .. } => {
            lemma_transition_is_faithful(s, command, ids, o);
        },
        EditCommand::AddTexts { .. } | EditCommand::AddTextsAutoTrack { .. }
        | EditCommand::AddCaptions { .. } | EditCommand::ApplyCaptionTranslations { .. } => {
            lemma_captions_is_faithful(s, command, ids, o);
        },
        EditCommand::SaveScriptAssemblyPlan { .. }
        | EditCommand::ApplyScriptAssemblyPlan { .. } => {
            lemma_script_is_faithful(s, command, ids, o);
        },
        EditCommand::Link { .. } | EditCommand::Unlink { .. }
        | EditCommand::RemoveTracks { .. } | EditCommand::SwapTracks { .. }
        | EditCommand::InsertTrack { .. } | EditCommand::SetTrackProps { .. } => {
            lemma_tracks_is_faithful(s, command, ids, o);
        },
        EditCommand::CreateFolder { .. } | EditCommand::MoveToFolder { .. }
        | EditCommand::RenameMedia { .. } | EditCommand::RenameFolder { .. } => {
            lemma_library_is_faithful(s, command, ids, o);
        },
        EditCommand::SetTimelineSettings { .. } => {
            lemma_settings_is_faithful(s, command, ids, o);
        },
    }
}

/// Every edit is faithful, on the root timeline or on a nested sequence. Stepping
/// through the history is no edit, and the consent records of voices are kept out
/// of the history.
pub proof fn law_edits_are_faithful(
    s: StateView,
    command: EditCommand,
    ids: IdsView,
    o: Outside,
)
    requires
        s.version < u64::MAX,
        !(command is Undo),
        !(command is Redo),
        !(command is SaveVoiceModel),
        !(command is RevokeVoiceModel),
    ensures
        faithful(s, applied(s, command, ids, o)),
{
    lemma_transactions_are_faithful(s);
    if !(command is EditNestedSequence) {
        lemma_plain_edits_are_faithful(s, command, ids, o);
    }
}

/// No edit leaves a transition that does not stand on a cut, on the root timeline or on
/// a nested sequence. Stepping through the history is no edit, the consent records of
/// voices touch no clip, and a ripple delete leaves transitions as its engine does.
pub proof fn law_edits_leave_transitions_on_cuts(
    s: StateView,
    command: EditCommand,
    ids: IdsView,
    o: Outside,
)
    requires
        s.version < u64::MAX,
        !(command is Undo),
        !(command is Redo),
        !(command is SaveVoiceModel),
        !(command is RevokeVoiceModel),
        !(command is RippleDeleteRanges),
        !(command is RippleDeleteClips),
    ensures
        on_cuts(applied(s, command, ids, o)),
{
    lemma_transactions_are_faithful(s);
    if !(command is EditNestedSequence) {
        lemma_plain_edits_are_faithful(s, command, ids, o);
    }
}

/// Whatever the command, the timeline it leaves is in order: every clip of it and of
/// the sequences nested in it starts at a frame, lasts one at least and stays within
/// the numbers that frames have.
pub proof fn law_commands_leave_timelines_in_order(
    s: StateView,
    command: EditCommand,
    ids: IdsView,
    o: Outside,
)
    requires
        s.version < u64::MAX,
        applied(s, command, ids, o).0 is Ok,
    ensures
        timeline_fault(applied(s, command, ids, o).1.timeline, "timeline"@) is None,
{
    lemma_transactions_are_faithful(s);
    let next = applied(s, command, ids, o).1.timeline;
    if command is Undo || command is Redo {
        reveal(dispatched);
        lemma_timeline_sound(next, "timeline"@);
        lemma_timeline_sound(next, "undo timeline"@);
        lemma_timeline_sound(next, "redo timeline"@);
    } else if command is SaveVoiceModel || command is RevokeVoiceModel {
        reveal(dispatched);
        lemma_timeline_sound(s.timeline, "timeline"@);
        lemma_timeline_sound(next, "timeline"@);
    } else if !(command is EditNestedSequence) {
        lemma_plain_edits_are_faithful(s, command, ids, o);
    }
}

/// A command that fails leaves document, history and version as they were, whatever
/// the command.
pub proof fn law_failed_command_changes_nothing(
    s: StateView,
    command: EditCommand,
    ids: IdsView,
    o: Outside,
)
    requires
        s.version < u64::MAX,
        applied(s, command, ids, o).0 is Err,
    ensures
        applied(s, command, ids, o).1 == s,
{
    reveal(dispatched);
    if !(command is Undo || command is Redo || command is SaveVoiceModel
        || command is RevokeVoiceModel) {
        law_edits_are_faithful(s, command, ids, o);
    }
}

/// No command works on a timeline with a malformed clip: it is refused before
/// anything is read off it.
pub proof fn law_malformed_timeline_is_refused(
    s: StateView,
    command: EditCommand,
    ids: IdsView,
    o: Outside,
)
    requires
        timeline_fault(s.timeline, "timeline"@) is Some,
    ensures
        applied(s, command, ids, o) == (
            Err::<EditResultView, Fault>(
                Fault::Invalid(timeline_fault(s.timeline, "timeline"@)->0),
            ),
            s,
        ),
        ids_applied(s, command, ids) == ids,
{
}

/// A redo after an undo brings the edit's document back.
pub proof fn law_undo_then_redo_repeats_an_edit(
    s: StateView,
    command: EditCommand,
    ids: IdsView,
    o: Outside,
)
    requires
        s.version < u64::MAX,
        !(command is Undo),
        !(command is Redo),
        !(command is SaveVoiceModel),
        !(command is RevokeVoiceModel),
        applied(s, command, ids, o).0 matches Ok(e) && e.changed,
    ensures
        ({
            let after = applied(s, command, ids, o).1;
            let again = redone(undone(after));
            &&& again.timeline == after.timeline
            &&& again.manifest == after.manifest
            &&& again.undo_stack == after.undo_stack
        }),
{
    law_edits_are_faithful(s, command, ids, o);
    let after = applied(s, command, ids, o).1;
    assert(undone(after).redo_stack.last().timeline == after.timeline);
    assert(redone(undone(after)).undo_stack =~= after.undo_stack);
}

} // verus!
