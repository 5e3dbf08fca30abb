//! The nested-sequence registry has the last word on an edit. It can be asked once the
//! edited document exists: what it then says comes to the same as if the edit had known.

use crate::app_core::checkpoint::rolled_back;
use crate::app_core::told_edit;
use crate::app_core::CoreView;
use crate::apply::applied;
use crate::apply::dispatched;
use crate::apply::outside_of_child;
use crate::command::asks_registry;
use crate::command::EditCommand;
use crate::command::Outside;
use crate::commands::registration::registered;
use crate::edit::EditResultView;
use crate::edit::Fault;
use crate::events::CoreFault;
use crate::ids::IdsView;
use crate::state::transacted;
use crate::state::StateView;
use crate::state::WorkView;
use vstd::prelude::*;

verus! {

/// Whether `asked` is `o` with a complaint of the registry about the edited root timeline.
pub open spec fn with_complaint(o: Outside, asked: Outside) -> bool {
    o.registry_fault is None && asked.registry_fault is Some && asked == (Outside {
        registry_fault: asked.registry_fault,
        ..o
    })
}

/// What becomes of an edit on which the registry has a complaint: one that would have
/// succeeded fails with it and leaves the state as it was, unless it never touched the
/// document; one that would have failed fails.
pub open spec fn registry_heard(
    s: StateView,
    unasked: (Result<EditResultView, Fault>, StateView),
    asked: (Result<EditResultView, Fault>, StateView),
    complaint: Seq<char>,
) -> bool {
    match unasked.0 {
        Err(_) => asked.0 is Err && asked.1 == s,
        Ok(e) => asked == (Err::<EditResultView, Fault>(Fault::Invalid(complaint)), s) || (asked
            == unasked && unasked.1 == s && !e.changed),
    }
}

proof fn lemma_transactions_hear(s: StateView, complaint: Seq<char>)
    ensures
        forall|action: Seq<char>, summary: Seq<char>, work: Result<WorkView, Fault>|
            registry_heard(
                s,
                transacted(s, action, summary, work, None),
                #[trigger] transacted(s, action, summary, work, Some(complaint)),
                complaint,
            ),
{
}

proof fn lemma_nested_hears(
    s: StateView,
    command: EditCommand,
    ids: IdsView,
    o: Outside,
    asked: Outside,
)
    requires
        with_complaint(o, asked),
        command is CreateNestedSequence || command is SetNestedSequenceTimeline
            || command is RenameNestedSequence,
    ensures
        registry_heard(
            s,
            dispatched(s, command, ids, o),
            dispatched(s, command, ids, asked),
            asked.registry_fault->0@,
        ),
{
    reveal(dispatched);
    lemma_transactions_hear(s, asked.registry_fault->0@);
}

proof fn lemma_compound_hears(
    s: StateView,
    command: EditCommand,
    ids: IdsView,
    o: Outside,
    asked: Outside,
)
    requires
        with_complaint(o, asked),
        command is CreateNestedSequenceFromClips,
    ensures
        registry_heard(
            s,
            dispatched(s, command, ids, o),
            dispatched(s, command, ids, asked),
            asked.registry_fault->0@,
        ),
{
    reveal(dispatched);
    lemma_transactions_hear(s, asked.registry_fault->0@);
}

proof fn lemma_dissolve_hears(
    s: StateView,
    command: EditCommand,
    ids: IdsView,
    o: Outside,
    asked: Outside,
)
    requires
        with_complaint(o, asked),
        command is DissolveNestedSequence,
    ensures
        registry_heard(
            s,
            dispatched(s, command, ids, o),
            dispatched(s, command, ids, asked),
            asked.registry_fault->0@,
        ),
{
    reveal(dispatched);
    lemma_transactions_hear(s, asked.registry_fault->0@);
}

proof fn lemma_placement_hears(
    s: StateView,
    command: EditCommand,
    ids: IdsView,
    o: Outside,
    asked: Outside,
)
    requires
        with_complaint(o, asked),
        command is PlaceMedia || command is AddClips || command is AddClipsAutoTrack
            || command is AddClipsToSeparateAutoTracks || command is InsertClips,
    ensures
        registry_heard(
            s,
            dispatched(s, command, ids, o),
            dispatched(s, command, ids, asked),
            asked.registry_fault->0@,
        ),
{
    reveal(dispatched);
    lemma_transactions_hear(s, asked.registry_fault->0@);
}

proof fn lemma_registration_hears(
    s: StateView,
    command: EditCommand,
    ids: IdsView,
    o: Outside,
    asked: Outside,
)
    requires
        with_complaint(o, asked),
        command is RegisterMediaAndAddClip || command is RegisterMediaAndSwapClip
            || command is RegisterMediaAndSwapClipClearingMasks
            || command is RegisterMediaAndFreezeFrame || command is SwapMedia,
    ensures
        registry_heard(
            s,
            dispatched(s, command, ids, o),
            dispatched(s, command, ids, asked),
            asked.registry_fault->0@,
        ),
{
    reveal(dispatched);
    lemma_transactions_hear(s, asked.registry_fault->0@);
    let media = match command {
        EditCommand::RegisterMediaAndAddClip { media, .. } => media@,
        EditCommand::RegisterMediaAndSwapClip { media, .. } => media@,
        EditCommand::RegisterMediaAndSwapClipClearingMasks { media, .. } => media@,
        EditCommand::RegisterMediaAndFreezeFrame { media, .. } => media@,
        _ => arbitrary(),
    };
    lemma_transactions_hear(registered(s, media), asked.registry_fault->0@);
}

proof fn lemma_moving_hears(
    s: StateView,
    command: EditCommand,
    ids: IdsView,
    o: Outside,
    asked: Outside,
)
    requires
        with_complaint(o, asked),
        command is MoveClips || command is DuplicateClips || command is SwapClips,
    ensures
        registry_heard(
            s,
            dispatched(s, command, ids, o),
            dispatched(s, command, ids, asked),
            asked.registry_fault->0@,
        ),
{
    reveal(dispatched);
    lemma_transactions_hear(s, asked.registry_fault->0@);
}

proof fn lemma_new_track_hears(
    s: StateView,
    command: EditCommand,
    ids: IdsView,
    o: Outside,
    asked: Outside,
)
    requires
        with_complaint(o, asked),
        command is MoveOrDuplicateClipsToNewTrack,
    ensures
        registry_heard(
            s,
            dispatched(s, command, ids, o),
            dispatched(s, command, ids, asked),
            asked.registry_fault->0@,
        ),
{
    reveal(dispatched);
    lemma_transactions_hear(s, asked.registry_fault->0@);
}

proof fn lemma_paste_hears(
    s: StateView,
    command: EditCommand,
    ids: IdsView,
    o: Outside,
    asked: Outside,
)
    requires
        with_complaint(o, asked),
        command is PasteClips,
    ensures
        registry_heard(
            s,
            dispatched(s, command, ids, o),
            dispatched(s, command, ids, asked),
            asked.registry_fault->0@,
        ),
{
    reveal(dispatched);
    lemma_transactions_hear(s, asked.registry_fault->0@);
}

proof fn lemma_removal_hears(
    s: StateView,
    command: EditCommand,
    ids: IdsView,
    o: Outside,
    asked: Outside,
)
    requires
        with_complaint(o, asked),
        command is RemoveClips || command is DeleteMedia || command is DeleteFolder,
    ensures
        registry_heard(
            s,
            dispatched(s, command, ids, o),
            dispatched(s, command, ids, asked),
            asked.registry_fault->0@,
        ),
{
    reveal(dispatched);
    lemma_transactions_hear(s, asked.registry_fault->0@);
}

proof fn lemma_splitting_hears(
    s: StateView,
    command: EditCommand,
    ids: IdsView,
    o: Outside,
    asked: Outside,
)
    requires
        with_complaint(o, asked),
        command is SplitClip || command is SplitClips,
    ensures
        registry_heard(
            s,
            dispatched(s, command, ids, o),
            dispatched(s, command, ids, asked),
            asked.registry_fault->0@,
        ),
{
    reveal(dispatched);
    lemma_transactions_hear(s, asked.registry_fault->0@);
}

proof fn lemma_ripple_hears(
    s: StateView,
    command: EditCommand,
    ids: IdsView,
    o: Outside,
    asked: Outside,
)
    requires
        with_complaint(o, asked),
        command is FreezeFrame || command is TrimClips,
    ensures
        registry_heard(
            s,
            dispatched(s, command, ids, o),
            dispatched(s, command, ids, asked),
            asked.registry_fault->0@,
        ),
{
    reveal(dispatched);
    lemma_transactions_hear(s, asked.registry_fault->0@);
}

proof fn lemma_properties_hears(
    s: StateView,
    command: EditCommand,
    ids: IdsView,
    o: Outside,
    asked: Outside,
)
    requires
        with_complaint(o, asked),
        command is SetClipProperties || command is SetClipPropertiesDiverging
            || command is SetClipPropertiesPerClip,
    ensures
        registry_heard(
            s,
            dispatched(s, command, ids, o),
            dispatched(s, command, ids, asked),
            asked.registry_fault->0@,
        ),
{
    reveal(dispatched);
    lemma_transactions_hear(s, asked.registry_fault->0@);
}

proof fn lemma_keyframes_hears(
    s: StateView,
    command: EditCommand,
    ids: IdsView,
    o: Outside,
    asked: Outside,
)
    requires
        with_complaint(o, asked),
        command is SetTransformAtFrame || command is SetKeyframes || command is StampKeyframe
            || command is UpsertKeyframe || command is RemoveKeyframe
            || command is MoveKeyframe || command is SetKeyframeInterpolation,
    ensures
        registry_heard(
            s,
            dispatched(s, command, ids, o),
            dispatched(s, command, ids, asked),
            asked.registry_fault->0@,
        ),
{
    reveal(dispatched);
    lemma_transactions_hear(s, asked.registry_fault->0@);
}

proof fn lemma_effects_hears(
    s: StateView,
    command: EditCommand,
    ids: IdsView,
    o: Outside,
    asked: Outside,
)
    requires
        with_complaint(o, asked),
        command is SetColorGrade || command is ApplyColorMatch || command is SetLut
            || command is SetChromaKey || command is SetMasks || command is SetEffects
            || command is SetLoudnessNormalization || command is SetAudioDenoise
            || command is ApplyStabilization || command is AdjustStabilization
            || command is ResetStabilization || command is ResetTransform,
    ensures
        registry_heard(
            s,
            dispatched(s, command, ids, o),
            dispatched(s, command, ids, asked),
            asked.registry_fault->0@,
        ),
{
    reveal(dispatched);
    lemma_transactions_hear(s, asked.registry_fault->0@);
}

proof fn lemma_transition_hears(
    s: StateView,
    command: EditCommand,
    ids: IdsView,
    o: Outside,
    asked: Outside,
)
    requires
        with_complaint(o, asked),
        command is SetTransition,
    ensures
        registry_heard(
            s,
            dispatched(s, command, ids, o),
            dispatched(s, command, ids, asked),
            asked.registry_fault->0@,
        ),
{
    reveal(dispatched);
    lemma_transactions_hear(s, asked.registry_fault->0@);
}

proof fn lemma_captions_hears(
    s: StateView,
    command: EditCommand,
    ids: IdsView,
    o: Outside,
    asked: Outside,
)
    requires
        with_complaint(o, asked),
        command is AddTexts || command is AddTextsAutoTrack || command is AddCaptions
            || command is ApplyCaptionTranslations,
    ensures
        registry_heard(
            s,
            dispatched(s, command, ids, o),
            dispatched(s, command, ids, asked),
            asked.registry_fault->0@,
        ),
{
    reveal(dispatched);
    lemma_transactions_hear(s, asked.registry_fault->0@);
}

proof fn lemma_script_hears(
    s: StateView,
    command: EditCommand,
    ids: IdsView,
    o: Outside,
    asked: Outside,
)
    requires
        with_complaint(o, asked),
        command is SaveScriptAssemblyPlan || command is ApplyScriptAssemblyPlan,
    ensures
        registry_heard(
            s,
            dispatched(s, command, ids, o),
            dispatched(s, command, ids, asked),
            asked.registry_fault->0@,
        ),
{
    reveal(dispatched);
    lemma_transactions_hear(s, asked.registry_fault->0@);
}

proof fn lemma_tracks_hears(
    s: StateView,
    command: EditCommand,
    ids: IdsView,
    o: Outside,
    asked: Outside,
)
    requires
        with_complaint(o, asked),
        command is Link || command is Unlink || command is RemoveTracks
            || command is SwapTracks || command is InsertTrack || command is SetTrackProps,
    ensures
        registry_heard(
            s,
            dispatched(s, command, ids, o),
            dispatched(s, command, ids, asked),
            asked.registry_fault->0@,
        ),
{
    reveal(dispatched);
    lemma_transactions_hear(s, asked.registry_fault->0@);
}

proof fn lemma_library_hears(
    s: StateView,
    command: EditCommand,
    ids: IdsView,
    o: Outside,
    asked: Outside,
)
    requires
        with_complaint(o, asked),
        command is CreateFolder || command is MoveToFolder || command is RenameMedia
            || command is RenameFolder,
    ensures
        registry_heard(
            s,
            dispatched(s, command, ids, o),
            dispatched(s, command, ids, asked),
            asked.registry_fault->0@,
        ),
{
    reveal(dispatched);
    lemma_transactions_hear(s, asked.registry_fault->0@);
}

proof fn lemma_settings_hears(
    s: StateView,
    command: EditCommand,
    ids: IdsView,
    o: Outside,
    asked: Outside,
)
    requires
        with_complaint(o, asked),
        command is SetTimelineSettings,
    ensures
        registry_heard(
            s,
            dispatched(s, command, ids, o),
            dispatched(s, command, ids, asked),
            asked.registry_fault->0@,
        ),
{
    reveal(dispatched);
    lemma_transactions_hear(s, asked.registry_fault->0@);
}

/// The registry has the last word on every command that runs a transaction.
pub proof fn law_registry_has_the_last_word_on_commands(
    s: StateView,
    command: EditCommand,
    ids: IdsView,
    o: Outside,
    asked: Outside,
)
    requires
        asks_registry(command),
        with_complaint(o, asked),
    ensures
        registry_heard(
            s,
            applied(s, command, ids, o),
            applied(s, command, ids, asked),
            asked.registry_fault->0@,
        ),
{
    match command {
        EditCommand::CreateNestedSequence { .. }
        | EditCommand::SetNestedSequenceTimeline { .. }
        | EditCommand::RenameNestedSequence { .. } => {
            lemma_nested_hears(s, command, ids, o, asked);
        },
        EditCommand::CreateNestedSequenceFromClips { .. } => {
            lemma_compound_hears(s, command, ids, o, asked);
        },
        EditCommand::DissolveNestedSequence { .. } => {
            lemma_dissolve_hears(s, command, ids, o, asked);
        },
        EditCommand::PlaceMedia { .. } | EditCommand::AddClips { .. }
        | EditCommand::AddClipsAutoTrack { .. }
        | EditCommand::AddClipsToSeparateAutoTracks { .. } | EditCommand::InsertClips { .. } => {
            lemma_placement_hears(s, command, ids, o, asked);
        },
        EditCommand::RegisterMediaAndAddClip { .. }
        | EditCommand::RegisterMediaAndSwapClip { .. }
        | EditCommand::RegisterMediaAndSwapClipClearingMasks { .. }
        | EditCommand::RegisterMediaAndFreezeFrame { .. } | EditCommand::SwapMedia { .. } => {
            lemma_registration_hears(s, command, ids, o, asked);
        },
        EditCommand::MoveClips { .. } | EditCommand::DuplicateClips { .. }
        | EditCommand::SwapClips { .. } => {
            lemma_moving_hears(s, command, ids, o, asked);
        },
        EditCommand::MoveOrDuplicateClipsToNewTrack { .. } => {
            lemma_new_track_hears(s, command, ids, o, asked);
        },
        EditCommand::PasteClips { .. } => {
            lemma_paste_hears(s, command, ids, o, asked);
        },
        EditCommand::RemoveClips { .. } | EditCommand::DeleteMedia { .. }
        | EditCommand::DeleteFolder { .. } => {
            lemma_removal_hears(s, command, ids, o, asked);
        },
        EditCommand::SplitClip { .. } | EditCommand::SplitClips { .. } => {
            lemma_splitting_hears(s, command, ids, o, asked);
        },
        EditCommand::FreezeFrame { .. } | EditCommand::TrimClips { .. } => {
            lemma_ripple_hears(s, command, ids, o, asked);
        },
        EditCommand::SetClipProperties { .. }
        | EditCommand::SetClipPropertiesDiverging { .. }
        | EditCommand::SetClipPropertiesPerClip { .. } => {
            lemma_properties_hears(s, command, ids, o, asked);
        },
        EditCommand::SetTransformAtFrame { .. } | EditCommand::SetKeyframes { .. }
        | EditCommand::StampKeyframe { .. } | EditCommand::UpsertKeyframe { .. }
        | EditCommand::RemoveKeyframe { .. } | EditCommand::MoveKeyframe { .. }
        | EditCommand::SetKeyframeInterpolation { .. } => {
            lemma_keyframes_hears(s, command, ids, o, asked);
        },
        EditCommand::SetColorGrade { .. } | EditCommand::ApplyColorMatch { .. }
        | EditCommand::SetLut { .. } | EditCommand::SetChromaKey { .. }
        | EditCommand::SetMasks { .. } | EditCommand::SetEffects { .. }
        | EditCommand::SetLoudnessNormalization { .. } | EditCommand::SetAudioDenoise { .. }
        | EditCommand::ApplyStabilization { .. } | EditCommand::AdjustStabilization { .. }
        | EditCommand::ResetStabilization { .. } | EditCommand::ResetTransform { .. } => {
            lemma_effects_hears(s, command, ids, o, asked);
        },
        EditCommand::SetTransition { .. } => {
            lemma_transition_hears(s, command, ids, o, asked);
        },
        EditCommand::AddTexts { .. } | EditCommand::AddTextsAutoTrack { .. }
        | EditCommand::AddCaptions { .. } | EditCommand::ApplyCaptionTranslations { .. } => {
            lemma_captions_hears(s, command, ids, o, asked);
        },
        EditCommand::SaveScriptAssemblyPlan { .. }
        | EditCommand::ApplyScriptAssemblyPlan { .. } => {
            lemma_script_hears(s, command, ids, o, asked);
        },
        EditCommand::Link { .. } | EditCommand::Unlink { .. }
        | EditCommand::RemoveTracks { .. } | EditCommand::SwapTracks { .. }
        | EditCommand::InsertTrack { .. } | EditCommand::SetTrackProps { .. } => {
            lemma_tracks_hears(s, command, ids, o, asked);
        },
        EditCommand::CreateFolder { .. } | EditCommand::MoveToFolder { .. }
        | EditCommand::RenameMedia { .. } | EditCommand::RenameFolder { .. } => {
            lemma_library_hears(s, command, ids, o, asked);
        },
        EditCommand::SetTimelineSettings { .. } => {
            lemma_settings_hears(s, command, ids, o, asked);
        },
        EditCommand::EditNestedSequence { .. } => {
            assert(outside_of_child(asked) == outside_of_child(o));
            lemma_transactions_hear(s, asked.registry_fault->0@);
        },
        _ => {},
    }
}

/// A complaint of the registry that comes once an edit stands, and takes it back, leaves
/// the core as if the edit had been turned down for it.
pub proof fn law_edit_taken_back_was_turned_down(
    c: CoreView,
    command: EditCommand,
    o: Outside,
    asked: Outside,
)
    requires
        asks_registry(command),
        with_complaint(o, asked),
        told_edit(c, command, o).0 matches Ok(e) && e.changed,
    ensures
        told_edit(c, command, asked) == (
            Err::<EditResultView, CoreFault>(
                CoreFault::Edit(Fault::Invalid(asked.registry_fault->0@)),
            ),
            rolled_back(c, told_edit(c, command, o).1),
        ),
{
    law_registry_has_the_last_word_on_commands(c.editor.state, command, c.ids, o, asked);
}

} // verus!
