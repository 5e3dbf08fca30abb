//! What the commands on nested sequences and compound clips do.

use crate::arrange::clips_among;
use crate::arrange::with_new_clip;
use crate::arrange::without_clips;
use crate::arrange::without_empty_tracks;
use crate::commands::compound::child_of;
use crate::commands::compound::chosen_rows;
use crate::commands::compound::compound_row;
use crate::commands::compound::compounded;
use crate::commands::compound::create_nested_sequence_from_clips_spec;
use crate::commands::compound::highest_end;
use crate::commands::compound::lowest_start;
use crate::commands::compound::named_rows;
use crate::commands::compound::selection_rows;
use crate::commands::nested::create_nested_sequence_spec;
use crate::commands::nested::new_compound_fault;
use crate::commands::nested::rename_nested_sequence_spec;
use crate::commands::nested::sequence_index;
use crate::commands::nested::set_nested_sequence_timeline_spec;
use crate::commands::nested::with_sequence;
use crate::fresh::fresh_compound;
use crate::fresh::fresh_timeline;
use crate::ids::IdsView;
use crate::ids::nth_id;
use crate::laws::arranging::law_clips_are_taken_out_by_id;
use crate::laws::arranging::law_empty_tracks_are_dropped;
use crate::laws::arranging::unadorned;
use crate::laws::captions::law_a_placed_clip_is_one_more;
use crate::laws::captions::one_clip_more;
use crate::laws::dissolving::first_sequence;
use crate::laws::dissolving::law_sequences_are_found_by_id;
use crate::laws::document::law_pruning_changes_transitions_alone;
use crate::laws::document::same_sequence;
use crate::laws::document::same_timeline;
use crate::laws::document::same_track;
use crate::laws::frames::frames_hold;
use crate::laws::frames::law_timelines_are_checked;
use crate::laws::frames::timeline_holds;
use crate::links::flat_clips;
use crate::links::link_expanded;
use crate::model::ClipView;
use crate::model::NestedSequenceView;
use crate::model::Real;
use crate::model::TimelineView;
use crate::model::TrackView;
use crate::state::StateView;
use crate::text::trimmed;
use vstd::prelude::*;

verus! {

/// Renaming a sequence gives it the name without the space around it, which may not be
/// blank, and changes nothing else.
pub proof fn law_sequences_are_renamed(
    s: StateView,
    id: Seq<char>,
    name: Seq<char>,
    registry_fault: Option<Seq<char>>,
    q: int,
)
    requires
        first_sequence(s.timeline, id, q),
    ensures
        ({
            let (r, next) = rename_nested_sequence_spec(s, id, name, registry_fault);
            let t = s.timeline;
            &&& r is Err ==> next == s
            &&& r is Ok ==> {
                &&& trimmed(name).len() > 0
                &&& next.manifest == s.manifest
                &&& next.timeline == (TimelineView {
                    tracks: next.timeline.tracks,
                    nested_sequences: next.timeline.nested_sequences,
                    ..t
                })
                &&& next.timeline.tracks.len() == t.tracks.len()
                &&& forall|i: int|
                    0 <= i < t.tracks.len() ==> #[trigger] same_track(
                        t.tracks[i],
                        next.timeline.tracks[i],
                    )
                &&& next.timeline.nested_sequences.len() == t.nested_sequences.len()
                &&& forall|k: int|
                    0 <= k < t.nested_sequences.len() && k != q ==> #[trigger] same_sequence(
                        t.nested_sequences[k],
                        next.timeline.nested_sequences[k],
                    )
                &&& same_sequence(
                    NestedSequenceView { name: trimmed(name), ..t.nested_sequences[q] },
                    next.timeline.nested_sequences[q],
                )
            }
        }),
{
    let (r, next) = rename_nested_sequence_spec(s, id, name, registry_fault);
    law_sequences_are_found_by_id(s.timeline, id, 0, q);
    let work = with_sequence(
        s.timeline,
        q,
        NestedSequenceView { name: trimmed(name), ..s.timeline.nested_sequences[q] },
    );
    law_pruning_changes_transitions_alone(work);
    if r is Ok {
        lemma_sequence_replaced(s.timeline, next.timeline, work, q);
    }
}

proof fn lemma_sequence_replaced(
    t: TimelineView,
    next: TimelineView,
    work: TimelineView,
    q: int,
)
    requires
        0 <= q < t.nested_sequences.len(),
        same_timeline(work, next),
        work == with_sequence(t, q, work.nested_sequences[q]),
    ensures
        next == (TimelineView {
            tracks: next.tracks,
            nested_sequences: next.nested_sequences,
            ..t
        }),
        next.tracks.len() == t.tracks.len(),
        forall|i: int|
            0 <= i < t.tracks.len() ==> #[trigger] same_track(t.tracks[i], next.tracks[i]),
        next.nested_sequences.len() == t.nested_sequences.len(),
        forall|k: int|
            0 <= k < t.nested_sequences.len() && k != q ==> #[trigger] same_sequence(
                t.nested_sequences[k],
                next.nested_sequences[k],
            ),
        same_sequence(work.nested_sequences[q], next.nested_sequences[q]),
{
    assert forall|i: int| 0 <= i < t.tracks.len() implies #[trigger] same_track(
        t.tracks[i],
        next.tracks[i],
    ) by {
        assert(same_track(work.tracks[i], next.tracks[i]));
    }
    assert forall|k: int| 0 <= k < t.nested_sequences.len() && k != q implies #[trigger] same_sequence(
        t.nested_sequences[k],
        next.nested_sequences[k],
    ) by {
        assert(same_sequence(work.nested_sequences[k], next.nested_sequences[k]));
    }
    assert(same_sequence(work.nested_sequences[q], next.nested_sequences[q]));
}

/// Replacing the timeline of a sequence puts the given one in its place, under the same
/// name and id, and changes nothing else. The given one nests no sequences of its own, and
/// its frame numbers hold.
pub proof fn law_sequence_timelines_are_replaced(
    s: StateView,
    id: Seq<char>,
    child: TimelineView,
    registry_fault: Option<Seq<char>>,
    q: int,
)
    requires
        first_sequence(s.timeline, id, q),
    ensures
        ({
            let (r, next) = set_nested_sequence_timeline_spec(s, id, child, registry_fault);
            let t = s.timeline;
            &&& r is Err ==> next == s
            &&& r is Ok ==> {
                &&& child.nested_sequences.len() == 0
                &&& timeline_holds(child)
                &&& next.manifest == s.manifest
                &&& next.timeline == (TimelineView {
                    tracks: next.timeline.tracks,
                    nested_sequences: next.timeline.nested_sequences,
                    ..t
                })
                &&& next.timeline.tracks.len() == t.tracks.len()
                &&& forall|i: int|
                    0 <= i < t.tracks.len() ==> #[trigger] same_track(
                        t.tracks[i],
                        next.timeline.tracks[i],
                    )
                &&& next.timeline.nested_sequences.len() == t.nested_sequences.len()
                &&& forall|k: int|
                    0 <= k < t.nested_sequences.len() && k != q ==> #[trigger] same_sequence(
                        t.nested_sequences[k],
                        next.timeline.nested_sequences[k],
                    )
                &&& same_sequence(
                    NestedSequenceView { timeline: child, ..t.nested_sequences[q] },
                    next.timeline.nested_sequences[q],
                )
            }
        }),
{
    let (r, next) = set_nested_sequence_timeline_spec(s, id, child, registry_fault);
    law_sequences_are_found_by_id(s.timeline, id, 0, q);
    law_timelines_are_checked(child, "childTimeline"@);
    let work = with_sequence(
        s.timeline,
        q,
        NestedSequenceView { timeline: child, ..s.timeline.nested_sequences[q] },
    );
    law_pruning_changes_transitions_alone(work);
    if r is Ok {
        lemma_sequence_replaced(s.timeline, next.timeline, work, q);
    }
}

/// A command on a sequence that is not there is refused.
pub proof fn law_sequences_have_to_be_there(
    s: StateView,
    id: Seq<char>,
    name: Seq<char>,
    child: TimelineView,
    registry_fault: Option<Seq<char>>,
)
    requires
        forall|k: int|
            0 <= k < s.timeline.nested_sequences.len() ==> (
            #[trigger] s.timeline.nested_sequences[k]).id != id,
    ensures
        rename_nested_sequence_spec(s, id, name, registry_fault).0 is Err,
        set_nested_sequence_timeline_spec(s, id, child, registry_fault).0 is Err,
{
    lemma_no_sequence(s.timeline, id, 0);
}

proof fn lemma_no_sequence(t: TimelineView, id: Seq<char>, from: int)
    requires
        0 <= from,
        forall|k: int|
            0 <= k < t.nested_sequences.len() ==> (#[trigger] t.nested_sequences[k]).id != id,
    ensures
        sequence_index(t.nested_sequences, id, from) is None,
    decreases t.nested_sequences.len() - from,
{
    if from < t.nested_sequences.len() {
        assert(t.nested_sequences[from].id != id);
        lemma_no_sequence(t, id, from + 1);
    }
}

/// Whether a clip is a plain compound that shows a sequence from its start over a span.
pub open spec fn shows_sequence(
    c: ClipView,
    id: Seq<char>,
    sequence_id: Seq<char>,
    start: int,
    duration: int,
) -> bool {
    &&& c.id == id
    &&& c.nested_sequence_id == Some(sequence_id)
    &&& c.media_type is Video
    &&& c.source_clip_type is Video
    &&& c.media_ref.len() == 0
    &&& c.start_frame == start
    &&& c.duration_frames == duration
    &&& c.text_content is None
    &&& c.caption_group_id is None
    &&& unadorned(ClipView { nested_sequence_id: None, ..c })
}

/// Making a sequence is refused, and nothing changed, unless it has a name, the track is
/// there and visual, the span holds and so does the given timeline, which nests none of
/// its own; otherwise the sequence is registered behind the others under a new id, with
/// its name without the space around it, and a compound that shows it stands on the track
/// over the span, on the timeline on which the span was cleared.
pub proof fn law_sequences_are_made(
    s: StateView,
    name: Seq<char>,
    child: TimelineView,
    track_index: int,
    start: i32,
    duration: i32,
    ids: IdsView,
    cleared: TimelineView,
    registry_fault: Option<Seq<char>>,
)
    requires
        0 <= track_index,
    ensures
        new_compound_fault(s.timeline, name, child, track_index, start as int, duration as int)
            is None <==> {
            &&& trimmed(name).len() > 0
            &&& track_index < s.timeline.tracks.len()
            &&& !(s.timeline.tracks[track_index].kind is Audio)
            &&& frames_hold(
                start as int,
                duration as int,
                0,
                0,
                Real { bits: 0x3FF0_0000_0000_0000 },
            )
            &&& child.nested_sequences.len() == 0
            &&& timeline_holds(child)
        },
        ({
            let (r, next) = create_nested_sequence_spec(
                s,
                name,
                child,
                track_index,
                start,
                duration,
                ids,
                cleared,
                registry_fault,
            );
            let n = cleared.nested_sequences.len() as int;
            &&& r is Err ==> next == s
            &&& r is Ok ==> {
                &&& new_compound_fault(
                    s.timeline,
                    name,
                    child,
                    track_index,
                    start as int,
                    duration as int,
                ) is None
                &&& next.manifest == s.manifest
                &&& exists|c: ClipView, work: TimelineView|
                    shows_sequence(c, nth_id(ids, 2), nth_id(ids, 1), start as int, duration as int)
                        && #[trigger] one_clip_more(
                        TimelineView {
                            nested_sequences: cleared.nested_sequences.push(
                                NestedSequenceView {
                                    id: nth_id(ids, 1),
                                    name: trimmed(name),
                                    timeline: child,
                                },
                            ),
                            ..cleared
                        },
                        work,
                        track_index,
                        c,
                    ) && same_timeline(work, next.timeline)
            }
        }),
{
    law_timelines_are_checked(child, "childTimeline"@);
    let (r, next) = create_nested_sequence_spec(
        s,
        name,
        child,
        track_index,
        start,
        duration,
        ids,
        cleared,
        registry_fault,
    );
    if r is Ok {
        let sequence = NestedSequenceView {
            id: nth_id(ids, 1),
            name: trimmed(name),
            timeline: child,
        };
        let base = TimelineView {
            nested_sequences: cleared.nested_sequences.push(sequence),
            ..cleared
        };
        let c = fresh_compound(nth_id(ids, 2), sequence.id, start, duration);
        let work = with_new_clip(base, track_index, c);
        law_a_placed_clip_is_one_more(base, track_index, c);
        law_pruning_changes_transitions_alone(work);
        assert(shows_sequence(c, nth_id(ids, 2), nth_id(ids, 1), start as int, duration as int));
        assert(one_clip_more(base, work, track_index, c));
        assert(same_timeline(work, next.timeline));
    }
}

/// Whether a frame is the first at which any of some clips starts.
pub open spec fn earliest_start(clips: Seq<ClipView>, frame: int) -> bool {
    &&& exists|k: int| 0 <= k < clips.len() && (#[trigger] clips[k]).start_frame == frame
    &&& forall|k: int| 0 <= k < clips.len() ==> frame <= (#[trigger] clips[k]).start_frame
}

/// Whether a frame is the last at which any of some clips ends.
pub open spec fn latest_end(clips: Seq<ClipView>, frame: int) -> bool {
    &&& exists|k: int|
        0 <= k < clips.len() && (#[trigger] clips[k]).start_frame + clips[k].duration_frames
            == frame
    &&& forall|k: int|
        0 <= k < clips.len() ==> (#[trigger] clips[k]).start_frame + clips[k].duration_frames
            <= frame
}

/// The span of some clips runs from the first start to the last end.
pub proof fn law_spans_run_from_first_to_last(clips: Seq<ClipView>)
    requires
        clips.len() > 0,
        forall|k: int|
            0 <= k < clips.len() ==> (#[trigger] clips[k]).start_frame >= 0
                && clips[k].duration_frames >= 1,
    ensures
        earliest_start(clips, lowest_start(clips)),
        latest_end(clips, highest_end(clips)),
    decreases clips.len(),
{
    let rest = clips.drop_last();
    if rest.len() > 0 {
        assert forall|k: int| 0 <= k < rest.len() implies (#[trigger] rest[k]).start_frame >= 0
            && rest[k].duration_frames >= 1 by {
            assert(rest[k] == clips[k]);
        }
        law_spans_run_from_first_to_last(rest);
        let a = choose|k: int|
            0 <= k < rest.len() && (#[trigger] rest[k]).start_frame == lowest_start(rest);
        let b = choose|k: int|
            0 <= k < rest.len() && (#[trigger] rest[k]).start_frame + rest[k].duration_frames
                == highest_end(rest);
        assert(clips[a] == rest[a] && clips[b] == rest[b]);
        assert forall|k: int| 0 <= k < clips.len() implies lowest_start(clips) <= (
        #[trigger] clips[k]).start_frame && clips[k].start_frame + clips[k].duration_frames
            <= highest_end(clips) by {
            if k < rest.len() {
                assert(rest[k] == clips[k]);
            }
        }
    }
    let n = clips.len() - 1;
    assert(clips[n] == clips.last());
    if rest.len() == 0 {
        assert(lowest_start(rest) == i32::MAX);
        assert(highest_end(rest) == i32::MIN);
        assert(highest_end(clips) == clips[0].start_frame + clips[0].duration_frames);
        assert(clips[0] == clips.last());
        if !(clips.last().start_frame < i32::MAX) {
            assert(clips[0].start_frame == i32::MAX);
        }
    }
}

/// The rows of a selection: for each track that has selected clips one row of its kind and
/// switches, with exactly these clips, in order.
pub proof fn law_rows_hold_the_selection(tracks: Seq<TrackView>, selected: Seq<Seq<char>>)
    ensures
        chosen_rows(tracks, selected) == tracks.map_values(
            |track: TrackView|
                TrackView {
                    id: Seq::empty(),
                    clips: track.clips.filter(|c: ClipView| selected.contains(c.id)),
                    ..track
                },
        ).filter(|track: TrackView| track.clips.len() > 0),
    decreases tracks.len(),
{
    reveal(Seq::filter);
    let row = |track: TrackView|
        TrackView {
            id: Seq::empty(),
            clips: track.clips.filter(|c: ClipView| selected.contains(c.id)),
            ..track
        };
    let full = |track: TrackView| track.clips.len() > 0;
    let mapped = tracks.map_values(row);
    if tracks.len() > 0 {
        let rest = tracks.drop_last();
        law_rows_hold_the_selection(rest, selected);
        assert(mapped.drop_last() =~= rest.map_values(row));
        assert(mapped.last() == row(tracks.last()));
        law_clips_are_taken_out_by_id(
            TimelineView { tracks, ..fresh_timeline() },
            selected,
            tracks.len() - 1,
        );
    } else {
        assert(mapped.filter(full) =~= Seq::empty());
    }
}

/// The rows of a compound's sequence are those of the selection, moved so that the first
/// of its clips starts at 0, each clip otherwise as it was, under new ids of their own.
pub proof fn law_rows_begin_at_zero(
    t: TimelineView,
    selected: Seq<Seq<char>>,
    ids: IdsView,
    i: int,
    j: int,
)
    requires
        0 <= i < chosen_rows(t.tracks, selected).len(),
        0 <= j < chosen_rows(t.tracks, selected)[i].clips.len(),
    ensures
        ({
            let rows = chosen_rows(t.tracks, selected);
            let start = lowest_start(flat_clips(rows));
            let made = named_rows(selection_rows(t, selected), ids);
            let c = rows[i].clips[j];
            &&& made.len() == rows.len()
            &&& made[i].id == nth_id(ids, i + 1)
            &&& made[i].kind == rows[i].kind
            &&& made[i].muted == rows[i].muted
            &&& made[i].hidden == rows[i].hidden
            &&& made[i].sync_locked == rows[i].sync_locked
            &&& made[i].clips.len() == rows[i].clips.len()
            &&& made[i].clips[j] == (ClipView {
                start_frame: made[i].clips[j].start_frame,
                ..c
            })
            &&& 0 <= c.start_frame - start <= i32::MAX ==> made[i].clips[j].start_frame
                == c.start_frame - start
        }),
{
}

proof fn lemma_compound_row(tracks: Seq<TrackView>, selected: Seq<Seq<char>>, from: int)
    requires
        0 <= from,
    ensures
        compound_row(tracks, selected, from) matches Some(i) ==> from <= i < tracks.len()
            && !(tracks[i].kind is Audio) && clips_among(tracks[i].clips, selected).len() > 0,
    decreases tracks.len() - from,
{
    if from < tracks.len() {
        lemma_compound_row(tracks, selected, from + 1);
    }
}

/// The timeline with a sequence registered behind the others.
pub open spec fn registering(t: TimelineView, sequence: NestedSequenceView) -> TimelineView {
    TimelineView { nested_sequences: t.nested_sequences.push(sequence), ..t }
}

/// The sequence of a compound: the rows of the selection on a timeline with the settings
/// of the one they come from and nothing else.
pub open spec fn sequence_of(
    t: TimelineView,
    selected: Seq<Seq<char>>,
    name: Seq<char>,
    ids: IdsView,
) -> NestedSequenceView {
    NestedSequenceView {
        id: nth_id(ids, chosen_rows(t.tracks, selected).len() as int + 1),
        name,
        timeline: TimelineView {
            fps: t.fps,
            width: t.width,
            height: t.height,
            settings_configured: t.settings_configured,
            tracks: named_rows(selection_rows(t, selected), ids),
            nested_sequences: Seq::empty(),
            script_assembly_plans: Seq::empty(),
            voice_models: Seq::empty(),
        },
    }
}

/// Making a compound of clips takes the named ones, and all linked to them, off the
/// timeline, registers behind the other sequences a new one with their rows under the
/// name without the space around it, and puts on a visual track that held some of them a
/// compound that shows it from the first start to the last end of these clips. Tracks that
/// are left empty go; all else stays, but for transitions.
pub proof fn law_compounds_take_their_clips(
    s: StateView,
    name: Seq<char>,
    clip_ids: Seq<Seq<char>>,
    ids: IdsView,
    registry_fault: Option<Seq<char>>,
)
    ensures
        ({
            let (r, next) = create_nested_sequence_from_clips_spec(
                s,
                name,
                clip_ids,
                ids,
                registry_fault,
            );
            let t = s.timeline;
            let selected = link_expanded(t, clip_ids);
            let rows = chosen_rows(t.tracks, selected);
            let clips = flat_clips(rows);
            &&& r is Err ==> next == s
            &&& r is Ok ==> {
                &&& trimmed(name).len() > 0
                &&& clip_ids.len() > 0
                &&& next.manifest == s.manifest
                &&& clips.len() == selected.len()
                &&& exists|c: ClipView, work: TimelineView, ti: int|
                    shows_sequence(
                        c,
                        nth_id(ids, rows.len() as int + 2),
                        nth_id(ids, rows.len() as int + 1),
                        lowest_start(clips),
                        highest_end(clips) - lowest_start(clips),
                    ) && !(t.tracks[ti].kind is Audio) && clips_among(
                        t.tracks[ti].clips,
                        selected,
                    ).len() > 0 && #[trigger] one_clip_more(
                        registering(
                            without_clips(t, selected),
                            sequence_of(t, selected, trimmed(name), ids),
                        ),
                        work,
                        ti,
                        c,
                    ) && same_timeline(
                        TimelineView {
                            tracks: work.tracks.filter(|track: TrackView| track.clips.len() > 0),
                            ..work
                        },
                        next.timeline,
                    )
            }
        }),
{
    let (r, next) = create_nested_sequence_from_clips_spec(
        s,
        name,
        clip_ids,
        ids,
        registry_fault,
    );
    let t = s.timeline;
    let selected = link_expanded(t, clip_ids);
    let rows = chosen_rows(t.tracks, selected);
    let clips = flat_clips(rows);
    if r is Ok {
        let n = rows.len() as int;
        let made = selection_rows(t, selected);
        assert(made.len() == n);
        let sequence = NestedSequenceView {
            id: nth_id(ids, n + 1),
            name: trimmed(name),
            timeline: child_of(t, named_rows(made, ids)),
        };
        assert(sequence == sequence_of(t, selected, trimmed(name), ids));
        let base = registering(
            without_clips(t, selected),
            sequence_of(t, selected, trimmed(name), ids),
        );
        let ti = compound_row(t.tracks, selected, 0)->0;
        lemma_compound_row(t.tracks, selected, 0);
        let start = lowest_start(clips);
        let duration = highest_end(clips) - start;
        let c = fresh_compound(nth_id(ids, n + 2), sequence.id, start as i32, duration as i32);
        let work = with_new_clip(base, ti, c);
        law_a_placed_clip_is_one_more(base, ti, c);
        law_empty_tracks_are_dropped(work);
        law_pruning_changes_transitions_alone(without_empty_tracks(work));
        assert(compounded(t, trimmed(name), selected, ids) == without_empty_tracks(work));
        lemma_lowest_fits(clips);
        assert(shows_sequence(c, nth_id(ids, n + 2), nth_id(ids, n + 1), start, duration));
        assert(one_clip_more(base, work, ti, c));
    }
}

proof fn lemma_lowest_fits(clips: Seq<ClipView>)
    ensures
        i32::MIN <= lowest_start(clips) <= i32::MAX,
    decreases clips.len(),
{
    if clips.len() > 0 {
        lemma_lowest_fits(clips.drop_last());
    }
}

} // verus!
