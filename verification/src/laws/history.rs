//! How edits are recorded, taken back and repeated, and how they reach into sequences.

use crate::alike::alike;
use crate::alike::alike_library;
use crate::apply::child_put_back;
use crate::apply::child_state;
use crate::apply::edit_nested_sequence_spec;
use crate::apply::outside_of_child;
use crate::apply::plainly_applied;
use crate::apply::redo_spec;
use crate::apply::root_only;
use crate::apply::undo_spec;
use crate::command::EditCommand;
use crate::command::Outside;
use crate::edit::EditResultView;
use crate::edit::Fault;
use crate::ids::IdsView;
use crate::laws::dissolving::first_sequence;
use crate::laws::dissolving::law_sequences_are_found_by_id;
use crate::laws::document::law_pruning_changes_transitions_alone;
use crate::laws::document::same_sequence;
use crate::laws::document::same_timeline;
use crate::laws::document::same_track;
use crate::laws::frames::law_timelines_are_checked;
use crate::laws::frames::timeline_holds;
use crate::model::TimelineView;
use crate::session::fresh_session;
use crate::state::StateView;
use crate::state::WorkView;
use crate::state::redone;
use crate::state::transacted;
use crate::state::undone;
use vstd::prelude::*;

verus! {

/// A transaction goes ahead exactly where the frame numbers hold before it and after it,
/// the work succeeds and the registry has nothing against it.
pub proof fn law_transactions_go_ahead(
    s: StateView,
    action: Seq<char>,
    summary: Seq<char>,
    work: Result<WorkView, Fault>,
    registry_fault: Option<Seq<char>>,
)
    ensures
        transacted(s, action, summary, work, registry_fault).0 is Ok <==> timeline_holds(
            s.timeline,
        ) && work is Ok && timeline_holds(work->Ok_0.timeline) && registry_fault is None,
{
    law_timelines_are_checked(s.timeline, "timeline"@);
    if work is Ok {
        law_timelines_are_checked(work->Ok_0.timeline, "timeline"@);
    }
}

/// A change is recorded with the document before it, its label and its version, and ends
/// what could be repeated; where nothing changed the history stays. Either way the report
/// says what was done, to which clips and at which version.
pub proof fn law_changes_are_recorded(
    s: StateView,
    action: Seq<char>,
    summary: Seq<char>,
    work: Result<WorkView, Fault>,
    registry_fault: Option<Seq<char>>,
)
    requires
        s.version < u64::MAX,
    ensures
        ({
            let (r, next) = transacted(s, action, summary, work, registry_fault);
            r is Ok ==> {
                let e = r->Ok_0;
                &&& e.action_name == action
                &&& e.summary == summary
                &&& e.affected_clip_ids == work->Ok_0.affected
                &&& e.timeline_version == next.version
                &&& e.changed == (e.timeline_changed || e.manifest_changed)
                &&& e.timeline_changed <==> !alike(s.timeline, next.timeline)
                &&& e.manifest_changed <==> !alike_library(s.manifest, next.manifest)
                &&& e.changed ==> {
                    let last = next.undo_stack.last();
                    &&& next.version == s.version + 1
                    &&& next.redo_stack.len() == 0
                    &&& next.undo_stack.drop_last() == s.undo_stack
                    &&& next.undo_stack.len() == s.undo_stack.len() + 1
                    &&& last.timeline == s.timeline
                    &&& last.manifest == s.manifest
                    &&& last.action_name == action
                    &&& last.transaction_version == next.version
                }
                &&& !e.changed ==> {
                    &&& next.version == s.version
                    &&& next.undo_stack == s.undo_stack
                    &&& next.redo_stack == s.redo_stack
                }
            }
        }),
{
    let (r, next) = transacted(s, action, summary, work, registry_fault);
    if r is Ok && r->Ok_0.changed {
        assert(next.undo_stack.drop_last() =~= s.undo_stack);
    }
}

/// A step back brings the document before the last change and keeps the one it leaves for
/// a step forward, under the same label and version of the change; with nothing to take
/// back it changes nothing.
pub proof fn law_steps_back_bring_the_document_before(s: StateView)
    requires
        s.version < u64::MAX,
    ensures
        ({
            let (r, next) = undo_spec(s);
            &&& r is Err ==> next == s
            &&& s.undo_stack.len() == 0 ==> next == s && (r is Ok ==> !r->Ok_0.changed)
            &&& r is Ok && s.undo_stack.len() > 0 ==> {
                let e = s.undo_stack.last();
                let kept = next.redo_stack.last();
                &&& next.timeline == e.timeline
                &&& next.manifest == e.manifest
                &&& next.undo_stack == s.undo_stack.drop_last()
                &&& next.redo_stack.len() == s.redo_stack.len() + 1
                &&& next.redo_stack.drop_last() == s.redo_stack
                &&& kept.timeline == s.timeline
                &&& kept.manifest == s.manifest
                &&& kept.action_name == e.action_name
                &&& kept.transaction_version == e.transaction_version
                &&& next.version == s.version + 1
                &&& r->Ok_0.timeline_version == next.version
                &&& r->Ok_0.timeline_changed <==> !alike(s.timeline, next.timeline)
                &&& r->Ok_0.manifest_changed <==> !alike_library(s.manifest, next.manifest)
            }
            &&& r is Ok <==> (s.undo_stack.len() == 0 && timeline_holds(s.timeline)) || (
            s.undo_stack.len() > 0 && timeline_holds(s.undo_stack.last().timeline))
        }),
{
    let (r, next) = undo_spec(s);
    law_timelines_are_checked(next.timeline, "undo timeline"@);
    law_timelines_are_checked(undone(s).timeline, "undo timeline"@);
    if s.undo_stack.len() > 0 && r is Ok {
        assert(next.redo_stack.drop_last() =~= s.redo_stack);
    }
}

/// A step forward brings the document that the last step back left, and keeps the one it
/// leaves for a step back.
pub proof fn law_steps_forward_bring_the_document_left(s: StateView)
    requires
        s.version < u64::MAX,
    ensures
        ({
            let (r, next) = redo_spec(s);
            &&& r is Err ==> next == s
            &&& s.redo_stack.len() == 0 ==> next == s && (r is Ok ==> !r->Ok_0.changed)
            &&& r is Ok && s.redo_stack.len() > 0 ==> {
                let e = s.redo_stack.last();
                let kept = next.undo_stack.last();
                &&& next.timeline == e.timeline
                &&& next.manifest == e.manifest
                &&& next.redo_stack == s.redo_stack.drop_last()
                &&& next.undo_stack.len() == s.undo_stack.len() + 1
                &&& next.undo_stack.drop_last() == s.undo_stack
                &&& kept.timeline == s.timeline
                &&& kept.manifest == s.manifest
                &&& kept.action_name == e.action_name
                &&& kept.transaction_version == e.transaction_version
                &&& next.version == s.version + 1
                &&& r->Ok_0.timeline_version == next.version
                &&& r->Ok_0.timeline_changed <==> !alike(s.timeline, next.timeline)
                &&& r->Ok_0.manifest_changed <==> !alike_library(s.manifest, next.manifest)
            }
            &&& r is Ok <==> (s.redo_stack.len() == 0 && timeline_holds(s.timeline)) || (
            s.redo_stack.len() > 0 && timeline_holds(s.redo_stack.last().timeline))
        }),
{
    let (r, next) = redo_spec(s);
    law_timelines_are_checked(redone(s).timeline, "redo timeline"@);
    if s.redo_stack.len() > 0 && r is Ok {
        assert(next.undo_stack.drop_last() =~= s.undo_stack);
    }
}

/// A command may reach into a sequence exactly where it works on clips and tracks: not the
/// steps back and forward, nor what works on sequences, the library, the settings, plans
/// or voices.
pub proof fn law_some_commands_work_on_the_root(
    s: StateView,
    sequence_id: Seq<char>,
    command: EditCommand,
    ids: IdsView,
    o: Outside,
)
    ensures
        command is Undo || command is Redo || command is EditNestedSequence || command
            is CreateNestedSequence || command is DissolveNestedSequence || command
            is SetTimelineSettings || command is DeleteMedia || command is DeleteFolder || command
            is SaveVoiceModel || command is RevokeVoiceModel || command is PlaceMedia
            ==> edit_nested_sequence_spec(s, sequence_id, command, ids, o) == (
            Err::<EditResultView, Fault>(root_only()),
            s,
        ),
        command is SplitClip || command is RemoveClips || command is MoveClips || command is AddClips
            || command is TrimClips || command is SetClipProperties || command is AddTexts
            || command is InsertTrack || command is RemoveTracks ==> !command.for_root_only(),
{
}

/// The first sequence with an id, as a document of its own: its own timeline with the
/// library, and the sequences of the root beside it, itself an empty one among them.
pub open spec fn own_document(s: StateView, q: int, d: StateView) -> bool {
    let sequence = s.timeline.nested_sequences[q];
    &&& d.timeline == (TimelineView {
        nested_sequences: d.timeline.nested_sequences,
        ..sequence.timeline
    })
    &&& d.timeline.nested_sequences.len() == s.timeline.nested_sequences.len()
    &&& d.timeline.nested_sequences[q].id == sequence.id
    &&& d.timeline.nested_sequences[q].name == sequence.name
    &&& d.timeline.nested_sequences[q].timeline.tracks.len() == 0
    &&& forall|k: int|
        0 <= k < s.timeline.nested_sequences.len() && k != q
            ==> #[trigger] d.timeline.nested_sequences[k] == s.timeline.nested_sequences[k]
    &&& d.manifest == s.manifest
    &&& d.undo_stack.len() == 0
    &&& d.redo_stack.len() == 0
}

/// Editing inside a sequence is editing the sequence as a document of its own: what the
/// command makes of that document is put back in its place, and neither the root's tracks
/// nor another sequence change, but for transitions. Where the command fails there, nothing
/// changes.
pub proof fn law_edits_reach_into_their_sequence(
    s: StateView,
    sequence_id: Seq<char>,
    command: EditCommand,
    ids: IdsView,
    o: Outside,
    q: int,
)
    requires
        first_sequence(s.timeline, sequence_id, q),
    ensures
        ({
            let (r, next) = edit_nested_sequence_spec(s, sequence_id, command, ids, o);
            let (inner, made) = plainly_applied(
                child_state(s, q),
                command,
                ids,
                outside_of_child(o),
            );
            &&& own_document(s, q, child_state(s, q))
            &&& r is Err ==> next == s
            &&& r is Ok ==> {
                let before = s.timeline.nested_sequences;
                let after = next.timeline.nested_sequences;
                &&& inner is Ok
                &&& r->Ok_0.affected_clip_ids == inner->Ok_0.affected_clip_ids
                &&& next.manifest == made.manifest
                &&& next.timeline.tracks.len() == s.timeline.tracks.len()
                &&& forall|i: int|
                    0 <= i < s.timeline.tracks.len() ==> #[trigger] same_track(
                        s.timeline.tracks[i],
                        next.timeline.tracks[i],
                    )
                &&& after.len() == before.len()
                &&& forall|k: int|
                    0 <= k < before.len() && k != q ==> #[trigger] same_sequence(
                        before[k],
                        after[k],
                    )
                &&& after[q].id == before[q].id
                &&& after[q].name == before[q].name
                &&& after[q].timeline.tracks.len() == made.timeline.tracks.len()
                &&& forall|i: int|
                    0 <= i < made.timeline.tracks.len() ==> #[trigger] same_track(
                        made.timeline.tracks[i],
                        after[q].timeline.tracks[i],
                    )
            }
        }),
{
    law_sequences_are_found_by_id(s.timeline, sequence_id, 0, q);
    let (r, next) = edit_nested_sequence_spec(s, sequence_id, command, ids, o);
    if r is Ok {
        let work = child_put_back(
            s,
            q,
            plainly_applied(child_state(s, q), command, ids, outside_of_child(o)),
        )->Ok_0.timeline;
        law_pruning_changes_transitions_alone(work);
        assert(same_timeline(work, next.timeline));
        assert(same_sequence(work.nested_sequences[q], next.timeline.nested_sequences[q]));
        assert forall|k: int| 0 <= k < s.timeline.nested_sequences.len() && k
            != q implies #[trigger] same_sequence(
            s.timeline.nested_sequences[k],
            next.timeline.nested_sequences[k],
        ) by {
            assert(same_sequence(work.nested_sequences[k], next.timeline.nested_sequences[k]));
            assert(work.nested_sequences[k] == s.timeline.nested_sequences[k]);
        }
        assert forall|i: int| 0 <= i < s.timeline.tracks.len() implies #[trigger] same_track(
            s.timeline.tracks[i],
            next.timeline.tracks[i],
        ) by {
            assert(same_track(work.tracks[i], next.timeline.tracks[i]));
        }
    }
}

/// A new session holds nothing: no tracks, no media, no history, no place.
pub proof fn law_new_sessions_hold_nothing()
    ensures
        ({
            let s = fresh_session();
            &&& s.state.timeline.tracks.len() == 0
            &&& s.state.timeline.nested_sequences.len() == 0
            &&& s.state.manifest.entries.len() == 0
            &&& s.state.manifest.folders.len() == 0
            &&& s.state.undo_stack.len() == 0
            &&& s.state.redo_stack.len() == 0
            &&& s.state.version == 0
            &&& s.project_dir is None
            &&& s.root_identity is None
            &&& s.read_only is None
            &&& s.generation_log.len() == 0
        }),
{
}

} // verus!
