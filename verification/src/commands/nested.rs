//! Compound clips: clips that show a nested sequence of the root timeline.

use crate::arrange::add_clip_to_track;
use crate::arrange::with_new_clip;
use crate::edit::invalid;
use crate::edit::outcome;
use crate::edit::verdict;
use crate::edit::EditError;
use crate::edit::EditResult;
use crate::edit::EditResultView;
use crate::edit::Fault;
use crate::frames::checked_frame_arithmetic;
use crate::frames::frame_fault;
use crate::frames::invalid_if;
use crate::frames::timeline_fault;
use crate::frames::validate_timeline_frame_arithmetic;
use crate::fresh::fresh_compound;
use crate::ids::lemma_ids_after;
use crate::ids::nth_id;
use crate::ids::CoreIdGen;
use crate::ids::IdsView;
use crate::locate::lemma_timeline_parts;
use crate::locate::lost_track;
use crate::locate::track_index;
use crate::locate::track_lost;
use crate::model::lemma_nested_views;
use crate::model::nested_sequence_views;
use crate::model::Clip;
use crate::model::ClipType;
use crate::model::NestedSequence;
use crate::model::NestedSequenceView;
use crate::model::Real;
use crate::model::Timeline;
use crate::model::TimelineView;
use crate::state::ids_spent;
use crate::state::transact;
use crate::state::transacted;
use crate::state::EditorState;
use crate::state::StateView;
use crate::state::Work;
use crate::state::WorkView;
use crate::text::cat2;
use crate::text::join;
use crate::text::joined;
use crate::text::nat_text;
use crate::text::opt_text;
use crate::text::same_text;
use crate::text::texts;
use crate::text::trim;
use crate::text::trimmed;
use crate::text::usize_to_text;
use vstd::prelude::*;

verus! {

/// The position of the first nested sequence with an id, from `from` on.
pub open spec fn sequence_index(
    sequences: Seq<NestedSequenceView>,
    id: Seq<char>,
    from: int,
) -> Option<int>
    decreases sequences.len() - from,
{
    if from < 0 || from >= sequences.len() {
        None
    } else if sequences[from].id == id {
        Some(from)
    } else {
        sequence_index(sequences, id, from + 1)
    }
}

/// A found position lies in the list and its sequence carries the id.
pub proof fn lemma_sequence_index(sequences: Seq<NestedSequenceView>, id: Seq<char>, from: int)
    requires
        0 <= from,
    ensures
        sequence_index(sequences, id, from) matches Some(i) ==> from <= i < sequences.len()
            && sequences[i].id == id,
    decreases sequences.len() - from,
{
    if from < sequences.len() && sequences[from].id != id {
        lemma_sequence_index(sequences, id, from + 1);
    }
}

/// The complaint that a nested sequence is not there.
pub open spec fn sequence_not_found(id: Seq<char>) -> Fault {
    Fault::Invalid("Nested sequence not found: "@ + id)
}

/// The timeline with one nested sequence replaced.
pub open spec fn with_sequence(t: TimelineView, i: int, sequence: NestedSequenceView) -> TimelineView {
    TimelineView { nested_sequences: t.nested_sequences.update(i, sequence), ..t }
}

/// Finds a nested sequence of the root timeline.
pub fn find_sequence(timeline: &Timeline, sequence_id: &str) -> (r: Option<usize>)
    ensures
        match r {
            Some(i) => sequence_index(timeline@.nested_sequences, sequence_id@, 0) == Some(i as int)
                && i < timeline.nested_sequences@.len(),
            None => sequence_index(timeline@.nested_sequences, sequence_id@, 0) is None,
        },
{
    let ghost views = timeline@.nested_sequences;
    proof {
        lemma_nested_views(*timeline);
    }
    let mut i: usize = 0;
    while i < timeline.nested_sequences.len()
        invariant
            i <= timeline.nested_sequences@.len(),
            views == timeline@.nested_sequences,
            views == nested_sequence_views(timeline.nested_sequences@),
            sequence_index(views, sequence_id@, 0) == sequence_index(views, sequence_id@, i as int),
        decreases timeline.nested_sequences@.len() - i,
    {
        if same_text(timeline.nested_sequences[i].id.as_str(), sequence_id) {
            return Some(i);
        }
        i += 1;
    }
    None
}

/// Finds a nested sequence, or says that it is not there.
pub fn require_sequence(timeline: &Timeline, sequence_id: &str) -> (r: Result<usize, EditError>)
    ensures
        match r {
            Ok(i) => sequence_index(timeline@.nested_sequences, sequence_id@, 0) == Some(i as int)
                && i < timeline.nested_sequences@.len(),
            Err(e) => sequence_index(timeline@.nested_sequences, sequence_id@, 0) is None && e@
                == sequence_not_found(sequence_id@),
        },
{
    match find_sequence(timeline, sequence_id) {
        Some(i) => Ok(i),
        None => Err(EditError::Invalid(cat2("Nested sequence not found: ", sequence_id))),
    }
}

/// Changing one nested sequence in place changes nothing else of a timeline's
/// view.
pub proof fn lemma_sequence_replaced(before: Timeline, after: Timeline, i: int)
    requires
        0 <= i < before.nested_sequences@.len(),
        after.fps == before.fps,
        after.width == before.width,
        after.height == before.height,
        after.settings_configured == before.settings_configured,
        after.tracks == before.tracks,
        after.script_assembly_plans == before.script_assembly_plans,
        after.voice_models == before.voice_models,
        after.nested_sequences@.len() == before.nested_sequences@.len(),
        forall|k: int|
            0 <= k < before.nested_sequences@.len() && k != i
                ==> #[trigger] after.nested_sequences@[k] == before.nested_sequences@[k],
    ensures
        after@ == with_sequence(before@, i, after.nested_sequences@[i]@),
{
    lemma_nested_views(before);
    lemma_nested_views(after);
    let expected = with_sequence(before@, i, after.nested_sequences@[i]@);
    assert(after@.nested_sequences =~= expected.nested_sequences);
    assert(after@ =~= expected);
}

/// The complaint against a child timeline, if any: nested sequences are registered
/// with the root timeline alone, and its clips have to be in order.
pub open spec fn child_fault(child: TimelineView) -> Option<Seq<char>> {
    if child.nested_sequences.len() > 0 {
        Some("child timelines must reference the root nested sequence registry"@)
    } else {
        timeline_fault(child, "childTimeline"@)
    }
}

fn check_child(timeline: &Timeline) -> (r: Result<(), EditError>)
    ensures
        verdict(r) == invalid_if(child_fault(timeline@)),
{
    proof {
        lemma_nested_views(*timeline);
    }
    if timeline.nested_sequences.len() > 0 {
        return Err(invalid("child timelines must reference the root nested sequence registry"));
    }
    validate_timeline_frame_arithmetic(timeline, "childTimeline")
}

/// Replacing the contents of a nested sequence.
pub open spec fn set_nested_sequence_timeline_spec(
    s: StateView,
    sequence_id: Seq<char>,
    child: TimelineView,
    registry_fault: Option<Seq<char>>,
) -> (Result<EditResultView, Fault>, StateView) {
    if child_fault(child) is Some {
        (Err(Fault::Invalid(child_fault(child)->0)), s)
    } else {
        let sequences = s.timeline.nested_sequences;
        transacted(
            s,
            "Edit Compound Clip"@,
            "Edited nested sequence "@ + sequence_id,
            match sequence_index(sequences, sequence_id, 0) {
                None => Err(sequence_not_found(sequence_id)),
                Some(i) => Ok(
                    WorkView {
                        timeline: with_sequence(
                            s.timeline,
                            i,
                            NestedSequenceView { timeline: child, ..sequences[i] },
                        ),
                        manifest: s.manifest,
                        affected: Seq::empty(),
                    },
                ),
            },
            registry_fault,
        )
    }
}

/// Replaces the editable contents of one existing nested sequence.
pub fn set_nested_sequence_timeline(
    state: &mut EditorState,
    sequence_id: String,
    timeline: Timeline,
    registry_fault: &Option<String>,
) -> (r: Result<EditResult, EditError>)
    requires
        old(state)@.version < u64::MAX,
    ensures
        (outcome(r), final(state)@) == set_nested_sequence_timeline_spec(
            old(state)@,
            sequence_id@,
            timeline@,
            opt_text(*registry_fault),
        ),
{
    if let Err(e) = check_child(&timeline) {
        return Err(e);
    }
    let summary = cat2("Edited nested sequence ", sequence_id.as_str());
    let mut root = state.timeline.copy();
    let work = match require_sequence(&root, sequence_id.as_str()) {
        Err(e) => Err(e),
        Ok(i) => {
            let ghost before = root;
            proof {
                lemma_nested_views(before);
            }
            root.nested_sequences[i].timeline = timeline;
            proof {
                lemma_sequence_replaced(before, root, i as int);
            }
            let affected: Vec<String> = Vec::new();
            assert(texts(affected@) =~= Seq::empty());
            Ok(Work { timeline: root, manifest: state.manifest.copy(), affected })
        },
    };
    transact(state, "Edit Compound Clip", summary.as_str(), work, registry_fault)
}

/// Renaming a nested sequence.
pub open spec fn rename_nested_sequence_spec(
    s: StateView,
    sequence_id: Seq<char>,
    name: Seq<char>,
    registry_fault: Option<Seq<char>>,
) -> (Result<EditResultView, Fault>, StateView) {
    if trimmed(name).len() == 0 {
        (Err(Fault::Invalid("nested sequence name must not be empty"@)), s)
    } else {
        let sequences = s.timeline.nested_sequences;
        transacted(
            s,
            "Rename Compound Clip"@,
            "Renamed nested sequence "@ + sequence_id,
            match sequence_index(sequences, sequence_id, 0) {
                None => Err(sequence_not_found(sequence_id)),
                Some(i) => Ok(
                    WorkView {
                        timeline: with_sequence(
                            s.timeline,
                            i,
                            NestedSequenceView { name: trimmed(name), ..sequences[i] },
                        ),
                        manifest: s.manifest,
                        affected: Seq::empty(),
                    },
                ),
            },
            registry_fault,
        )
    }
}

/// Renames a nested sequence without changing references.
pub fn rename_nested_sequence(
    state: &mut EditorState,
    sequence_id: String,
    name: String,
    registry_fault: &Option<String>,
) -> (r: Result<EditResult, EditError>)
    requires
        old(state)@.version < u64::MAX,
    ensures
        (outcome(r), final(state)@) == rename_nested_sequence_spec(
            old(state)@,
            sequence_id@,
            name@,
            opt_text(*registry_fault),
        ),
{
    let name = trim(name.as_str());
    if name.as_str().is_empty() {
        return Err(invalid("nested sequence name must not be empty"));
    }
    let summary = cat2("Renamed nested sequence ", sequence_id.as_str());
    let mut root = state.timeline.copy();
    let work = match require_sequence(&root, sequence_id.as_str()) {
        Err(e) => Err(e),
        Ok(i) => {
            let ghost before = root;
            proof {
                lemma_nested_views(before);
            }
            root.nested_sequences[i].name = name;
            proof {
                lemma_sequence_replaced(before, root, i as int);
            }
            let affected: Vec<String> = Vec::new();
            assert(texts(affected@) =~= Seq::empty());
            Ok(Work { timeline: root, manifest: state.manifest.copy(), affected })
        },
    };
    transact(state, "Rename Compound Clip", summary.as_str(), work, registry_fault)
}

/// The complaint against a compound clip over a child timeline, if any.
pub open spec fn new_compound_fault(
    t: TimelineView,
    name: Seq<char>,
    child: TimelineView,
    track_index: int,
    start_frame: int,
    duration_frames: int,
) -> Option<Seq<char>> {
    if trimmed(name).len() == 0 {
        Some("nested sequence name must not be empty"@)
    } else if track_index >= t.tracks.len() {
        Some("track index out of range: "@ + nat_text(track_index as nat))
    } else if t.tracks[track_index].kind is Audio {
        Some("a compound clip requires a visual track"@)
    } else {
        match frame_fault(start_frame, duration_frames, 0, 0, Real::one(), "compound"@) {
            Some(m) => Some(m),
            None => child_fault(child),
        }
    }
}

/// The timeline with a child timeline registered and a compound clip that shows
/// it.
pub open spec fn compound_placed(
    t: TimelineView,
    sequence: NestedSequenceView,
    track_index: int,
    start_frame: i32,
    duration_frames: i32,
    clip_id: Seq<char>,
) -> TimelineView {
    with_new_clip(
        TimelineView { nested_sequences: t.nested_sequences.push(sequence), ..t },
        track_index,
        fresh_compound(clip_id, sequence.id, start_frame, duration_frames),
    )
}

/// The summary of making a compound clip.
pub open spec fn created_compound_summary(affected: Seq<Seq<char>>) -> Seq<char> {
    "Created compound clip "@ + joined(affected, ", "@)
}

/// Checks a compound clip over a child timeline. Its region on the track is to be
/// cleared, then [`place_compound`] puts it there.
pub fn check_compound(
    state: &EditorState,
    name: &String,
    timeline: &Timeline,
    track_index: usize,
    start_frame: i32,
    duration_frames: i32,
) -> (r: Result<(), EditError>)
    ensures
        verdict(r) == invalid_if(
            new_compound_fault(
                state@.timeline,
                name@,
                timeline@,
                track_index as int,
                start_frame as int,
                duration_frames as int,
            ),
        ),
{
    let stripped = trim(name.as_str());
    if stripped.as_str().is_empty() {
        return Err(invalid("nested sequence name must not be empty"));
    }
    proof {
        lemma_timeline_parts(state.timeline, track_index as int, 0);
    }
    if track_index >= state.timeline.tracks.len() {
        let index = usize_to_text(track_index);
        return Err(EditError::Invalid(cat2("track index out of range: ", index.as_str())));
    }
    if state.timeline.tracks[track_index].kind == ClipType::Audio {
        return Err(invalid("a compound clip requires a visual track"));
    }
    if let Err(e) = checked_frame_arithmetic(
        start_frame,
        duration_frames,
        0,
        0,
        Real::one(),
        "compound",
    ) {
        return Err(e);
    }
    check_child(timeline)
}

/// Registers a child timeline and puts a compound clip that shows it on a track
/// whose region was cleared.
pub fn place_compound(
    timeline: &mut Timeline,
    sequence: NestedSequence,
    track_index: usize,
    start_frame: i32,
    duration_frames: i32,
    clip_id: &String,
)
    requires
        track_index < old(timeline).tracks@.len(),
    ensures
        final(timeline)@ == compound_placed(
            old(timeline)@,
            sequence@,
            track_index as int,
            start_frame,
            duration_frames,
            clip_id@,
        ),
        final(timeline).tracks@.len() == old(timeline).tracks@.len(),
{
    let ghost before = *timeline;
    let clip = Clip::new_nested(
        clip_id.clone(),
        sequence.id.clone(),
        start_frame,
        duration_frames,
    );
    timeline.nested_sequences.push(sequence);
    proof {
        lemma_nested_views(before);
        lemma_nested_views(*timeline);
        let expected = TimelineView {
            nested_sequences: before@.nested_sequences.push(sequence@),
            ..before@
        };
        assert(timeline@.nested_sequences =~= expected.nested_sequences);
        assert(timeline@ =~= expected);
    }
    add_clip_to_track(timeline, track_index, clip);
}

/// Making a compound clip over a child timeline: the request has to be in order, and
/// clearing the region has to have left its track in place; then the child is
/// registered and the compound put on the cleared timeline.
pub open spec fn create_nested_sequence_spec(
    s: StateView,
    name: Seq<char>,
    child: TimelineView,
    track_index: int,
    start_frame: i32,
    duration_frames: i32,
    ids: IdsView,
    cleared: TimelineView,
    registry_fault: Option<Seq<char>>,
) -> (Result<EditResultView, Fault>, StateView) {
    match new_compound_fault(
        s.timeline,
        name,
        child,
        track_index,
        start_frame as int,
        duration_frames as int,
    ) {
        Some(m) => (Err(Fault::Invalid(m)), s),
        None => transacted(
            s,
            "Create Compound Clip"@,
            created_compound_summary(seq![nth_id(ids, 2)]),
            if track_index < cleared.tracks.len() && cleared.tracks[track_index].id
                == s.timeline.tracks[track_index].id {
                Ok(
                    WorkView {
                        timeline: compound_placed(
                            cleared,
                            NestedSequenceView {
                                id: nth_id(ids, 1),
                                name: trimmed(name),
                                timeline: child,
                            },
                            track_index,
                            start_frame,
                            duration_frames,
                            nth_id(ids, 2),
                        ),
                        manifest: s.manifest,
                        affected: seq![nth_id(ids, 2)],
                    },
                )
            } else {
                Err(track_lost())
            },
            registry_fault,
        ),
    }
}

/// Registers an editable child timeline and places one compound clip that shows
/// it. `cleared` is the timeline on which the region of the compound was cleared.
pub fn create_nested_sequence(
    state: &mut EditorState,
    name: String,
    timeline: Timeline,
    track_index: usize,
    start_frame: i32,
    duration_frames: i32,
    ids: &mut CoreIdGen,
    cleared: Timeline,
    registry_fault: &Option<String>,
) -> (r: Result<EditResult, EditError>)
    requires
        old(state)@.version < u64::MAX,
    ensures
        (outcome(r), final(state)@) == create_nested_sequence_spec(
            old(state)@,
            name@,
            timeline@,
            track_index as int,
            start_frame,
            duration_frames,
            old(ids)@,
            cleared@,
            opt_text(*registry_fault),
        ),
        final(ids)@ == (if new_compound_fault(
            old(state)@.timeline,
            name@,
            timeline@,
            track_index as int,
            start_frame as int,
            duration_frames as int,
        ) is Some {
            old(ids)@
        } else {
            ids_spent(old(state)@, old(ids)@, 2)
        }),
{
    if let Err(e) = check_compound(
        state,
        &name,
        &timeline,
        track_index,
        start_frame,
        duration_frames,
    ) {
        return Err(e);
    }
    if let Err(e) = validate_timeline_frame_arithmetic(&state.timeline, "timeline") {
        return Err(e);
    }
    let ghost first = ids@;
    let sequence_id = ids.next_id();
    let clip_id = ids.next_id();
    let mut affected: Vec<String> = Vec::new();
    affected.push(clip_id.clone());
    proof {
        lemma_ids_after(first, 1, 1);
        lemma_timeline_parts(state.timeline, track_index as int, 0);
        lemma_timeline_parts(cleared, track_index as int, 0);
        assert(texts(affected@) =~= seq![nth_id(first, 2)]);
    }
    let list = join(&affected, ", ");
    let summary = cat2("Created compound clip ", list.as_str());
    let work = if track_index < cleared.tracks.len() && same_text(
        cleared.tracks[track_index].id.as_str(),
        state.timeline.tracks[track_index].id.as_str(),
    ) {
        let mut edited = cleared;
        let sequence = NestedSequence { id: sequence_id, name: trim(name.as_str()), timeline };
        place_compound(
            &mut edited,
            sequence,
            track_index,
            start_frame,
            duration_frames,
            &clip_id,
        );
        Ok(Work { timeline: edited, manifest: state.manifest.copy(), affected })
    } else {
        Err(lost_track())
    };
    transact(state, "Create Compound Clip", summary.as_str(), work, registry_fault)
}

} // verus!
