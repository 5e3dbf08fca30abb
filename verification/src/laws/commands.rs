//! Which work each command sets going.

use crate::apply::applied;
use crate::apply::dispatched;
use crate::apply::edit_nested_sequence_spec;
use crate::apply::redo_spec;
use crate::apply::rippled;
use crate::apply::trims;
use crate::apply::undo_spec;
use crate::command::EditCommand;
use crate::command::Outside;
use crate::command::first_partners;
use crate::commands::captions::add_captions_spec;
use crate::commands::captions::add_texts_auto_track_spec;
use crate::commands::captions::add_texts_spec;
use crate::commands::captions::apply_caption_translations_spec;
use crate::commands::compound::create_nested_sequence_from_clips_spec;
use crate::commands::dissolve::dissolve_nested_sequence_spec;
use crate::commands::effects::ClipChangeView;
use crate::commands::effects::adjust_stabilization_spec;
use crate::commands::effects::apply_color_match_spec;
use crate::commands::effects::apply_stabilization_spec;
use crate::commands::effects::reset_stabilization_spec;
use crate::commands::effects::set_audio_denoise_spec;
use crate::commands::effects::set_chroma_key_spec;
use crate::commands::effects::set_color_grade_spec;
use crate::commands::effects::set_effects_spec;
use crate::commands::effects::set_field_spec;
use crate::commands::effects::set_loudness_normalization_spec;
use crate::commands::effects::set_lut_spec;
use crate::commands::effects::set_masks_spec;
use crate::commands::keyframes::move_keyframe_spec;
use crate::commands::keyframes::remove_keyframe_spec;
use crate::commands::keyframes::sample_of;
use crate::commands::keyframes::set_keyframe_interpolation_spec;
use crate::commands::keyframes::set_keyframes_spec;
use crate::commands::keyframes::set_transform_at_frame_spec;
use crate::commands::keyframes::write_keyframe_spec;
use crate::commands::library::create_folder_spec;
use crate::commands::library::move_to_folder_spec;
use crate::commands::library::rename_folder_spec;
use crate::commands::library::rename_media_spec;
use crate::commands::moving::duplicate_clips_spec;
use crate::commands::moving::move_clips_spec;
use crate::commands::moving::swap_clips_spec;
use crate::commands::nested::create_nested_sequence_spec;
use crate::commands::nested::rename_nested_sequence_spec;
use crate::commands::nested::set_nested_sequence_timeline_spec;
use crate::commands::new_track::move_or_duplicate_spec;
use crate::commands::paste::paste_clips_spec;
use crate::commands::placement::add_clips_auto_track_spec;
use crate::commands::placement::add_clips_spec;
use crate::commands::placement::add_clips_to_separate_auto_tracks_spec;
use crate::commands::placement::insert_clips_spec;
use crate::commands::placement::place_media_spec;
use crate::commands::properties::set_clip_properties_per_clip_spec;
use crate::commands::properties::set_clip_properties_spec;
use crate::commands::properties::text_lists;
use crate::commands::registration::register_media_and_add_clip_spec;
use crate::commands::registration::register_media_and_freeze_frame_spec;
use crate::commands::registration::register_media_and_swap_clip_spec;
use crate::commands::registration::swap_media_spec;
use crate::commands::removal::delete_folder_spec;
use crate::commands::removal::delete_media_spec;
use crate::commands::removal::remove_clips_spec;
use crate::commands::ripple::freeze_frame_spec;
use crate::commands::ripple::ripple_delete_clips_spec;
use crate::commands::ripple::ripple_delete_ranges_spec;
use crate::commands::ripple::trim_spec;
use crate::commands::script::apply_script_assembly_plan_spec;
use crate::commands::script::save_script_assembly_plan_spec;
use crate::commands::settings::set_timeline_settings_spec;
use crate::commands::splitting::split_clips_spec;
use crate::commands::splitting::split_spec;
use crate::commands::tracks::insert_track_spec;
use crate::commands::tracks::link_spec;
use crate::commands::tracks::remove_tracks_spec;
use crate::commands::tracks::set_track_props_spec;
use crate::commands::tracks::swap_tracks_spec;
use crate::commands::tracks::unlink_spec;
use crate::commands::transition::set_transition_spec;
use crate::commands::voice::revoke_voice_model_spec;
use crate::commands::voice::save_voice_model_spec;
use crate::entries::caption_entry_views;
use crate::entries::caption_translation_change_views;
use crate::entries::clip_entry_views;
use crate::entries::clip_move_views;
use crate::entries::clip_property_assignment_views;
use crate::entries::paste_clip_entry_views;
use crate::entries::rename_entry_views;
use crate::entries::text_auto_track_entry_views;
use crate::entries::text_entry_views;
use crate::entries::trim_edit_views;
use crate::ids::IdsView;
use crate::laws::frames::law_timelines_are_checked;
use crate::laws::frames::timeline_holds;
use crate::model::Keyframe;
use crate::model::Transform;
use crate::model::clip_views;
use crate::model::mask_views;
use crate::model::opt_setting;
use crate::model::setting_views;
use crate::model::timeline_views;
use crate::state::StateView;
use crate::text::opt_text;
use crate::text::texts;
use vstd::prelude::*;

verus! {

/// No command does anything to a timeline whose frame numbers do not hold.
pub proof fn law_commands_need_a_timeline_that_holds(
    s: StateView,
    command: EditCommand,
    ids: IdsView,
    o: Outside,
)
    requires
        !timeline_holds(s.timeline),
    ensures
        applied(s, command, ids, o).0 is Err,
        applied(s, command, ids, o).1 == s,
{
    law_timelines_are_checked(s.timeline, "timeline"@);
}

/// Steps back and forward, and edits inside a sequence, are what their commands do.
pub proof fn law_steps_and_inner_edits_are_made(
    s: StateView,
    command: EditCommand,
    ids: IdsView,
    o: Outside,
)
    requires
        timeline_holds(s.timeline),
    ensures
        command is Undo ==> applied(s, command, ids, o) == undo_spec(s),
        command is Redo ==> applied(s, command, ids, o) == redo_spec(s),
        command matches EditCommand::EditNestedSequence { sequence_id, command: inner }
            ==> applied(s, command, ids, o) == edit_nested_sequence_spec(
            s,
            sequence_id@,
            *inner,
            ids,
            o,
        ),
{
    reveal(dispatched);
    law_timelines_are_checked(s.timeline, "timeline"@);
}

/// Commands that bring clips in, take them out or arrange them do so to the clips, tracks
/// and frames they name.
pub proof fn law_commands_on_clips_do_their_work(
    s: StateView,
    command: EditCommand,
    ids: IdsView,
    o: Outside,
)
    requires
        timeline_holds(s.timeline),
    ensures
        command matches EditCommand::AddClips { entries } ==> applied(
            s,
            command,
            ids,
            o,
        ) == add_clips_spec(s, clip_entry_views(entries@), o.placed@, opt_text(o.registry_fault)),
        command matches EditCommand::AddClipsAutoTrack { entries } ==> applied(
            s,
            command,
            ids,
            o,
        ) == add_clips_auto_track_spec(
            s,
            clip_entry_views(entries@),
            ids,
            o.placed@,
            opt_text(o.registry_fault),
        ),
        command matches EditCommand::AddClipsToSeparateAutoTracks { entries } ==> applied(
            s,
            command,
            ids,
            o,
        ) == add_clips_to_separate_auto_tracks_spec(
            s,
            clip_entry_views(entries@),
            ids,
            o.placed@,
            opt_text(o.registry_fault),
        ),
        command matches EditCommand::InsertClips { track_index, at_frame, entries } ==> applied(
            s,
            command,
            ids,
            o,
        ) == insert_clips_spec(
            s,
            track_index as int,
            at_frame as int,
            clip_entry_views(entries@),
            opt_text(o.ripple_fault),
            o.placed@,
            opt_text(o.registry_fault),
        ),
        command matches EditCommand::PlaceMedia { sequence_id, settings, target, entry } ==> applied(
            s,
            command,
            ids,
            o,
        ) == place_media_spec(
            s,
            opt_text(sequence_id),
            settings,
            target@,
            entry@,
            ids,
            o.placed@,
            opt_text(o.registry_fault),
        ),
        command matches EditCommand::MoveClips { moves } ==> applied(
            s,
            command,
            ids,
            o,
        ) == move_clips_spec(
            s,
            clip_move_views(moves@),
            o.placed@.timeline,
            opt_text(o.registry_fault),
        ),
        command matches EditCommand::DuplicateClips { clip_ids, offset_frames, target_track_indexes } ==> applied(
            s,
            command,
            ids,
            o,
        ) == duplicate_clips_spec(
            s,
            texts(clip_ids@),
            offset_frames as int,
            target_track_indexes@,
            o.placed@,
            opt_text(o.registry_fault),
        ),
        command matches EditCommand::MoveOrDuplicateClipsToNewTrack { clip_ids, lead_clip_id, requested_frame_delta, insert_at, mode } ==> applied(
            s,
            command,
            ids,
            o,
        ) == move_or_duplicate_spec(
            s,
            texts(clip_ids@),
            lead_clip_id@,
            requested_frame_delta as int,
            insert_at as int,
            mode,
            ids,
            o.placed@,
            opt_text(o.registry_fault),
        ),
        command matches EditCommand::PasteClips { entries } ==> applied(
            s,
            command,
            ids,
            o,
        ) == paste_clips_spec(
            s,
            paste_clip_entry_views(entries@),
            ids,
            o.placed@.timeline,
            opt_text(o.registry_fault),
        ),
        command matches EditCommand::RemoveClips { clip_ids } ==> applied(
            s,
            command,
            ids,
            o,
        ) == remove_clips_spec(s, texts(clip_ids@), opt_text(o.registry_fault)),
        command matches EditCommand::SwapClips { a, b } ==> applied(
            s,
            command,
            ids,
            o,
        ) == swap_clips_spec(s, a@, b@, o.placed@.timeline, opt_text(o.registry_fault)),
        command matches EditCommand::Link { clip_ids } ==> applied(
            s,
            command,
            ids,
            o,
        ) == link_spec(s, texts(clip_ids@), ids, opt_text(o.registry_fault)),
        command matches EditCommand::Unlink { clip_ids } ==> applied(
            s,
            command,
            ids,
            o,
        ) == unlink_spec(s, texts(clip_ids@), opt_text(o.registry_fault)),
{
    reveal(dispatched);
    law_timelines_are_checked(s.timeline, "timeline"@);
}

/// Commands that cut clips, or take them out and close the gap, do so to the clips, tracks
/// and frames they name.
pub proof fn law_commands_on_cuts_do_their_work(
    s: StateView,
    command: EditCommand,
    ids: IdsView,
    o: Outside,
)
    requires
        timeline_holds(s.timeline),
    ensures
        command matches EditCommand::SplitClip { clip_id, at_frame } ==> applied(
            s,
            command,
            ids,
            o,
        ) == split_spec(s, clip_id@, at_frame as int, o.placed@, opt_text(o.registry_fault)),
        command matches EditCommand::SplitClips { clip_ids, at_frame } ==> applied(
            s,
            command,
            ids,
            o,
        ) == split_clips_spec(
            s,
            texts(clip_ids@),
            at_frame as int,
            texts(o.unsplittable@),
            o.placed@,
            opt_text(o.registry_fault),
        ),
        command matches EditCommand::FreezeFrame { clip_id, at_frame, duration_frames, .. } ==> applied(
            s,
            command,
            ids,
            o,
        ) == freeze_frame_spec(
            s,
            clip_id@,
            at_frame as int,
            duration_frames as int,
            opt_text(o.ripple_fault),
            o.placed@,
            opt_text(o.registry_fault),
        ),
        command matches EditCommand::TrimClips { edits } ==> applied(
            s,
            command,
            ids,
            o,
        ) == trim_spec(s, trim_edit_views(edits@), trims(o), opt_text(o.registry_fault)),
        command matches EditCommand::RippleDeleteRanges { track_index, ranges } ==> applied(
            s,
            command,
            ids,
            o,
        ) == ripple_delete_ranges_spec(
            s,
            track_index as int,
            ranges@.len(),
            opt_text(o.ripple_fault),
            o.ripple@,
        ),
        command matches EditCommand::RippleDeleteClips { clip_ids } ==> applied(
            s,
            command,
            ids,
            o,
        ) == ripple_delete_clips_spec(s, texts(clip_ids@), rippled(o.ripple@)),
        command matches EditCommand::SetTransition { from_clip_id, to_clip_id, kind, duration_frames } ==> applied(
            s,
            command,
            ids,
            o,
        ) == set_transition_spec(
            s,
            from_clip_id@,
            to_clip_id@,
            kind,
            duration_frames,
            opt_text(o.registry_fault),
        ),
{
    reveal(dispatched);
    law_timelines_are_checked(s.timeline, "timeline"@);
}

/// Commands that set properties and keyframes set those they name; only where they are to
/// diverge the linked clips do not follow.
pub proof fn law_commands_on_properties_do_their_work(
    s: StateView,
    command: EditCommand,
    ids: IdsView,
    o: Outside,
)
    requires
        timeline_holds(s.timeline),
    ensures
        command matches EditCommand::SetClipProperties { clip_ids, properties } ==> applied(
            s,
            command,
            ids,
            o,
        ) == set_clip_properties_spec(
            s,
            texts(clip_ids@),
            (*properties)@,
            true,
            first_partners(o.partners@),
            clip_views(o.fitted@),
            opt_text(o.registry_fault),
        ),
        command matches EditCommand::SetClipPropertiesDiverging { clip_ids, properties } ==> applied(
            s,
            command,
            ids,
            o,
        ) == set_clip_properties_spec(
            s,
            texts(clip_ids@),
            (*properties)@,
            false,
            first_partners(o.partners@),
            clip_views(o.fitted@),
            opt_text(o.registry_fault),
        ),
        command matches EditCommand::SetClipPropertiesPerClip { assignments } ==> applied(
            s,
            command,
            ids,
            o,
        ) == set_clip_properties_per_clip_spec(
            s,
            clip_property_assignment_views(assignments@),
            text_lists(o.partners@),
            clip_views(o.fitted@),
            opt_text(o.registry_fault),
        ),
        command matches EditCommand::SetTransformAtFrame { clip_id, frame, transform } ==> applied(
            s,
            command,
            ids,
            o,
        ) == set_transform_at_frame_spec(
            s,
            clip_id@,
            frame,
            transform,
            o.top_left,
            opt_text(o.registry_fault),
        ),
        command matches EditCommand::SetKeyframes { clip_id, property, payload } ==> applied(
            s,
            command,
            ids,
            o,
        ) == set_keyframes_spec(s, clip_id@, property, payload@, opt_text(o.registry_fault)),
        command matches EditCommand::StampKeyframe { clip_id, property, frame } ==> applied(
            s,
            command,
            ids,
            o,
        ) == write_keyframe_spec(
            s,
            clip_id@,
            property,
            frame,
            sample_of(o.sample, property),
            "Stamp Keyframe"@,
            "Stamp keyframe on "@,
            opt_text(o.registry_fault),
        ),
        command matches EditCommand::UpsertKeyframe { clip_id, property, frame, value } ==> applied(
            s,
            command,
            ids,
            o,
        ) == write_keyframe_spec(
            s,
            clip_id@,
            property,
            frame,
            value,
            "Set Keyframe"@,
            "Set keyframe on "@,
            opt_text(o.registry_fault),
        ),
        command matches EditCommand::RemoveKeyframe { clip_id, property, frame } ==> applied(
            s,
            command,
            ids,
            o,
        ) == remove_keyframe_spec(s, clip_id@, property, frame, opt_text(o.registry_fault)),
        command matches EditCommand::MoveKeyframe { clip_id, property, from_frame, to_frame } ==> applied(
            s,
            command,
            ids,
            o,
        ) == move_keyframe_spec(
            s,
            clip_id@,
            property,
            from_frame,
            to_frame,
            opt_text(o.registry_fault),
        ),
        command matches EditCommand::SetKeyframeInterpolation { clip_id, property, frame, interpolation } ==> applied(
            s,
            command,
            ids,
            o,
        ) == set_keyframe_interpolation_spec(
            s,
            clip_id@,
            property,
            frame,
            interpolation,
            opt_text(o.registry_fault),
        ),
        command matches EditCommand::ResetTransform { clip_ids } ==> applied(
            s,
            command,
            ids,
            o,
        ) == set_field_spec(
            s,
            texts(clip_ids@),
            "Reset Transform"@,
            ClipChangeView::TransformReset,
            opt_text(o.registry_fault),
        ),
{
    reveal(dispatched);
    law_timelines_are_checked(s.timeline, "timeline"@);
}

/// Commands that set how clips look and sound set what they name on the clips they name.
pub proof fn law_commands_on_looks_do_their_work(
    s: StateView,
    command: EditCommand,
    ids: IdsView,
    o: Outside,
)
    requires
        timeline_holds(s.timeline),
    ensures
        command matches EditCommand::SetColorGrade { clip_ids, grade } ==> applied(
            s,
            command,
            ids,
            o,
        ) == set_color_grade_spec(
            s,
            texts(clip_ids@),
            opt_setting(grade),
            opt_text(o.setting_fault),
            opt_text(o.registry_fault),
        ),
        command matches EditCommand::ApplyColorMatch { clip_id, grade, input } ==> applied(
            s,
            command,
            ids,
            o,
        ) == apply_color_match_spec(
            s,
            clip_id@,
            grade@,
            input@,
            opt_text(o.setting_fault),
            opt_text(o.registry_fault),
        ),
        command matches EditCommand::SetLut { clip_ids, lut } ==> applied(
            s,
            command,
            ids,
            o,
        ) == set_lut_spec(
            s,
            texts(clip_ids@),
            opt_setting(lut),
            opt_text(o.setting_fault),
            opt_text(o.registry_fault),
        ),
        command matches EditCommand::SetChromaKey { clip_ids, chroma_key } ==> applied(
            s,
            command,
            ids,
            o,
        ) == set_chroma_key_spec(
            s,
            texts(clip_ids@),
            opt_setting(chroma_key),
            opt_text(o.registry_fault),
        ),
        command matches EditCommand::SetMasks { clip_ids, masks } ==> applied(
            s,
            command,
            ids,
            o,
        ) == set_masks_spec(
            s,
            texts(clip_ids@),
            mask_views(masks@),
            o.mask_limits,
            opt_text(o.registry_fault),
        ),
        command matches EditCommand::SetEffects { clip_ids, effects } ==> applied(
            s,
            command,
            ids,
            o,
        ) == set_effects_spec(
            s,
            texts(clip_ids@),
            setting_views(effects@),
            opt_text(o.setting_fault),
            opt_text(o.registry_fault),
        ),
        command matches EditCommand::SetLoudnessNormalization { clip_id, normalization } ==> applied(
            s,
            command,
            ids,
            o,
        ) == set_loudness_normalization_spec(
            s,
            clip_id@,
            opt_setting(normalization),
            opt_text(o.setting_fault),
            opt_text(o.registry_fault),
        ),
        command matches EditCommand::SetAudioDenoise { clip_id, denoise } ==> applied(
            s,
            command,
            ids,
            o,
        ) == set_audio_denoise_spec(
            s,
            clip_id@,
            opt_setting(denoise),
            opt_text(o.setting_fault),
            opt_text(o.registry_fault),
        ),
        command matches EditCommand::ApplyStabilization { clip_id, solution } ==> applied(
            s,
            command,
            ids,
            o,
        ) == apply_stabilization_spec(
            s,
            clip_id@,
            solution@,
            opt_text(o.setting_fault),
            opt_text(o.registry_fault),
        ),
        command matches EditCommand::AdjustStabilization { clip_id, strength, crop_margin } ==> applied(
            s,
            command,
            ids,
            o,
        ) == adjust_stabilization_spec(
            s,
            clip_id@,
            strength,
            crop_margin,
            opt_text(o.registry_fault),
        ),
        command matches EditCommand::ResetStabilization { clip_id } ==> applied(
            s,
            command,
            ids,
            o,
        ) == reset_stabilization_spec(s, clip_id@, opt_text(o.registry_fault)),
{
    reveal(dispatched);
    law_timelines_are_checked(s.timeline, "timeline"@);
}

/// Commands that bring texts in, or build from plans and voices, do so with what they
/// carry.
pub proof fn law_commands_on_texts_do_their_work(
    s: StateView,
    command: EditCommand,
    ids: IdsView,
    o: Outside,
)
    requires
        timeline_holds(s.timeline),
    ensures
        command matches EditCommand::AddTexts { entries } ==> applied(
            s,
            command,
            ids,
            o,
        ) == add_texts_spec(
            s,
            text_entry_views(entries@),
            ids,
            timeline_views(o.cleared@),
            opt_text(o.registry_fault),
        ),
        command matches EditCommand::AddTextsAutoTrack { entries } ==> applied(
            s,
            command,
            ids,
            o,
        ) == add_texts_auto_track_spec(
            s,
            text_auto_track_entry_views(entries@),
            ids,
            timeline_views(o.cleared@),
            opt_text(o.registry_fault),
        ),
        command matches EditCommand::AddCaptions { entries } ==> applied(
            s,
            command,
            ids,
            o,
        ) == add_captions_spec(s, caption_entry_views(entries@), ids, opt_text(o.registry_fault)),
        command matches EditCommand::ApplyCaptionTranslations { changes } ==> applied(
            s,
            command,
            ids,
            o,
        ) == apply_caption_translations_spec(
            s,
            caption_translation_change_views(changes@),
            opt_text(o.registry_fault),
        ),
        command matches EditCommand::SaveScriptAssemblyPlan { plan } ==> applied(
            s,
            command,
            ids,
            o,
        ) == save_script_assembly_plan_spec(s, plan@, opt_text(o.registry_fault)),
        command matches EditCommand::ApplyScriptAssemblyPlan { plan_id } ==> applied(
            s,
            command,
            ids,
            o,
        ) == apply_script_assembly_plan_spec(s, plan_id@, ids, opt_text(o.registry_fault)),
        command matches EditCommand::SaveVoiceModel { record } ==> applied(
            s,
            command,
            ids,
            o,
        ) == save_voice_model_spec(s, record@),
        command matches EditCommand::RevokeVoiceModel { voice_model_id } ==> applied(
            s,
            command,
            ids,
            o,
        ) == revoke_voice_model_spec(s, voice_model_id@),
{
    reveal(dispatched);
    law_timelines_are_checked(s.timeline, "timeline"@);
}

/// Commands on the library do what they name to the entries and folders they name.
pub proof fn law_commands_on_library_do_their_work(
    s: StateView,
    command: EditCommand,
    ids: IdsView,
    o: Outside,
)
    requires
        timeline_holds(s.timeline),
    ensures
        command matches EditCommand::CreateFolder { name, parent_folder_id } ==> applied(
            s,
            command,
            ids,
            o,
        ) == create_folder_spec(
            s,
            name@,
            opt_text(parent_folder_id),
            ids,
            opt_text(o.registry_fault),
        ),
        command matches EditCommand::MoveToFolder { asset_ids, folder_id } ==> applied(
            s,
            command,
            ids,
            o,
        ) == move_to_folder_spec(
            s,
            texts(asset_ids@),
            opt_text(folder_id),
            opt_text(o.registry_fault),
        ),
        command matches EditCommand::RenameMedia { entries } ==> applied(
            s,
            command,
            ids,
            o,
        ) == rename_media_spec(s, rename_entry_views(entries@), opt_text(o.registry_fault)),
        command matches EditCommand::RenameFolder { entries } ==> applied(
            s,
            command,
            ids,
            o,
        ) == rename_folder_spec(s, rename_entry_views(entries@), opt_text(o.registry_fault)),
        command matches EditCommand::DeleteMedia { asset_ids } ==> applied(
            s,
            command,
            ids,
            o,
        ) == delete_media_spec(s, texts(asset_ids@), opt_text(o.registry_fault)),
        command matches EditCommand::DeleteFolder { folder_ids } ==> applied(
            s,
            command,
            ids,
            o,
        ) == delete_folder_spec(s, texts(folder_ids@), opt_text(o.registry_fault)),
        command matches EditCommand::SwapMedia { clip_id, media_ref } ==> applied(
            s,
            command,
            ids,
            o,
        ) == swap_media_spec(s, clip_id@, media_ref@, opt_text(o.registry_fault)),
        command matches EditCommand::RegisterMediaAndAddClip { media, entry, auto_track } ==> applied(
            s,
            command,
            ids,
            o,
        ) == register_media_and_add_clip_spec(
            s,
            media@,
            entry@,
            auto_track,
            ids,
            o.placed@,
            opt_text(o.registry_fault),
        ),
        command matches EditCommand::RegisterMediaAndSwapClip { media, clip_id } ==> applied(
            s,
            command,
            ids,
            o,
        ) == register_media_and_swap_clip_spec(
            s,
            media@,
            clip_id@,
            false,
            opt_text(o.registry_fault),
        ),
        command matches EditCommand::RegisterMediaAndSwapClipClearingMasks { media, clip_id } ==> applied(
            s,
            command,
            ids,
            o,
        ) == register_media_and_swap_clip_spec(s, media@, clip_id@, true, opt_text(o.registry_fault)),
        command matches EditCommand::RegisterMediaAndFreezeFrame { media, clip_id, at_frame, duration_frames } ==> applied(
            s,
            command,
            ids,
            o,
        ) == register_media_and_freeze_frame_spec(
            s,
            media@,
            clip_id@,
            at_frame as int,
            duration_frames as int,
            opt_text(o.ripple_fault),
            o.placed@,
            opt_text(o.registry_fault),
        ),
{
    reveal(dispatched);
    law_timelines_are_checked(s.timeline, "timeline"@);
}

/// Commands on tracks, sequences and settings do what they name to those they name.
pub proof fn law_commands_on_sequences_do_their_work(
    s: StateView,
    command: EditCommand,
    ids: IdsView,
    o: Outside,
)
    requires
        timeline_holds(s.timeline),
    ensures
        command matches EditCommand::CreateNestedSequence { name, timeline, track_index, start_frame, duration_frames } ==> applied(
            s,
            command,
            ids,
            o,
        ) == create_nested_sequence_spec(
            s,
            name@,
            timeline@,
            track_index as int,
            start_frame,
            duration_frames,
            ids,
            o.placed@.timeline,
            opt_text(o.registry_fault),
        ),
        command matches EditCommand::CreateNestedSequenceFromClips { name, clip_ids } ==> applied(
            s,
            command,
            ids,
            o,
        ) == create_nested_sequence_from_clips_spec(
            s,
            name@,
            texts(clip_ids@),
            ids,
            opt_text(o.registry_fault),
        ),
        command matches EditCommand::SetNestedSequenceTimeline { sequence_id, timeline } ==> applied(
            s,
            command,
            ids,
            o,
        ) == set_nested_sequence_timeline_spec(
            s,
            sequence_id@,
            timeline@,
            opt_text(o.registry_fault),
        ),
        command matches EditCommand::RenameNestedSequence { sequence_id, name } ==> applied(
            s,
            command,
            ids,
            o,
        ) == rename_nested_sequence_spec(s, sequence_id@, name@, opt_text(o.registry_fault)),
        command matches EditCommand::DissolveNestedSequence { clip_id } ==> applied(
            s,
            command,
            ids,
            o,
        ) == dissolve_nested_sequence_spec(s, clip_id@, ids, opt_text(o.registry_fault)),
        command matches EditCommand::RemoveTracks { track_indexes } ==> applied(
            s,
            command,
            ids,
            o,
        ) == remove_tracks_spec(s, track_indexes@, opt_text(o.registry_fault)),
        command matches EditCommand::SwapTracks { a, b } ==> applied(
            s,
            command,
            ids,
            o,
        ) == swap_tracks_spec(s, a, b, opt_text(o.registry_fault)),
        command matches EditCommand::InsertTrack { kind, at } ==> applied(
            s,
            command,
            ids,
            o,
        ) == insert_track_spec(s, kind, at, ids, opt_text(o.registry_fault)),
        command matches EditCommand::SetTrackProps { track_index, muted, hidden, sync_locked } ==> applied(
            s,
            command,
            ids,
            o,
        ) == set_track_props_spec(
            s,
            track_index,
            muted,
            hidden,
            sync_locked,
            opt_text(o.registry_fault),
        ),
        command matches EditCommand::SetTimelineSettings { fps, width, height } ==> applied(
            s,
            command,
            ids,
            o,
        ) == set_timeline_settings_spec(
            s,
            fps,
            width,
            height,
            o.placed@.timeline,
            opt_text(o.registry_fault),
        ),
{
    reveal(dispatched);
    law_timelines_are_checked(s.timeline, "timeline"@);
}

} // verus!
