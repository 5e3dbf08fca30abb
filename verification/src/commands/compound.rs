//! Turning clips of the root timeline into one compound clip.

use crate::arrange::clips_among;
use crate::arrange::partition_clips;
use crate::arrange::prune_empty_tracks;
use crate::arrange::remove_clips_from;
use crate::arrange::without_clips;
use crate::arrange::without_empty_tracks;
use crate::commands::keyframes::end_of;
use crate::commands::nested::compound_placed;
use crate::commands::nested::created_compound_summary;
use crate::commands::nested::place_compound;
use crate::edit::invalid;
use crate::edit::outcome;
use crate::edit::EditError;
use crate::edit::EditResult;
use crate::edit::EditResultView;
use crate::edit::Fault;
use crate::frames::checked_frame_arithmetic;
use crate::frames::frame_fault;
use crate::frames::timeline_fault;
use crate::frames::validate_timeline_frame_arithmetic;
use crate::fresh::fresh_timeline;
use crate::ids::ids_after;
use crate::ids::lemma_ids_after;
use crate::ids::nth_id;
use crate::ids::CoreIdGen;
use crate::ids::IdsView;
use crate::links::dedupe;
use crate::links::distinct;
use crate::links::expand_to_link_group;
use crate::links::flat_clips;
use crate::links::flat_until;
use crate::links::lemma_flat_step;
use crate::links::link_expanded;
use crate::links::listed;
use crate::model::clip_views;
use crate::model::lemma_nested_views;
use crate::model::track_views;
use crate::model::Clip;
use crate::model::ClipType;
use crate::model::ClipView;
use crate::model::NestedSequence;
use crate::model::NestedSequenceView;
use crate::model::Real;
use crate::model::Timeline;
use crate::model::TimelineView;
use crate::model::Track;
use crate::model::TrackView;
use crate::state::timeline_transacted;
use crate::state::transact_timeline;
use crate::state::EditorState;
use crate::state::StateView;
use crate::text::cat2;
use crate::text::join;
use crate::text::opt_text;
use crate::text::texts;
use crate::text::trim;
use crate::text::trimmed;
use crate::transitions::clip_sound;
use crate::transitions::clips_sound;
use crate::transitions::lemma_timeline_sound;
use vstd::prelude::*;

verus! {

/// The rows of a selection: each track that holds selected clips, with those
/// clips alone and without an id.
pub open spec fn chosen_rows(tracks: Seq<TrackView>, selected: Seq<Seq<char>>) -> Seq<TrackView>
    decreases tracks.len(),
{
    if tracks.len() == 0 {
        Seq::empty()
    } else {
        let rest = chosen_rows(tracks.drop_last(), selected);
        let clips = clips_among(tracks.last().clips, selected);
        if clips.len() == 0 {
            rest
        } else {
            rest.push(TrackView { id: Seq::empty(), clips, ..tracks.last() })
        }
    }
}

/// The first start among clips.
pub open spec fn lowest_start(clips: Seq<ClipView>) -> int
    decreases clips.len(),
{
    if clips.len() == 0 {
        i32::MAX as int
    } else {
        let rest = lowest_start(clips.drop_last());
        if clips.last().start_frame < rest {
            clips.last().start_frame as int
        } else {
            rest
        }
    }
}

/// The last end among clips.
pub open spec fn highest_end(clips: Seq<ClipView>) -> int
    decreases clips.len(),
{
    if clips.len() == 0 {
        i32::MIN as int
    } else {
        let rest = highest_end(clips.drop_last());
        if end_of(clips.last()) > rest {
            end_of(clips.last())
        } else {
            rest
        }
    }
}

/// The first visual track, from `from` on, that holds selected clips.
pub open spec fn compound_row(
    tracks: Seq<TrackView>,
    selected: Seq<Seq<char>>,
    from: int,
) -> Option<int>
    decreases tracks.len() - from,
{
    if from < 0 || from >= tracks.len() {
        None
    } else if !(tracks[from].kind is Audio) && clips_among(tracks[from].clips, selected).len() > 0 {
        Some(from)
    } else {
        compound_row(tracks, selected, from + 1)
    }
}

/// Whether a clip that is not selected reaches into a span.
pub open spec fn crossed(
    clips: Seq<ClipView>,
    selected: Seq<Seq<char>>,
    start: int,
    end: int,
) -> bool {
    exists|i: int|
        0 <= i < clips.len() && !selected.contains((#[trigger] clips[i]).id) && clips[i].start_frame
            < end && start < end_of(clips[i])
}

/// A clip moved to the left.
pub open spec fn pulled(c: ClipView, by: int) -> ClipView {
    ClipView { start_frame: (c.start_frame - by) as i32, ..c }
}

/// Rows with every clip moved to the left.
pub open spec fn pulled_rows(rows: Seq<TrackView>, by: int) -> Seq<TrackView> {
    rows.map_values(
        |row: TrackView|
            TrackView { clips: row.clips.map_values(|c: ClipView| pulled(c, by)), ..row },
    )
}

/// Rows with freshly minted ids.
pub open spec fn named_rows(rows: Seq<TrackView>, ids: IdsView) -> Seq<TrackView> {
    Seq::new(rows.len(), |i: int| TrackView { id: nth_id(ids, i + 1), ..rows[i] })
}

/// A child timeline with the settings of its parent.
pub open spec fn child_of(t: TimelineView, rows: Seq<TrackView>) -> TimelineView {
    TimelineView {
        fps: t.fps,
        width: t.width,
        height: t.height,
        settings_configured: t.settings_configured,
        tracks: rows,
        ..fresh_timeline()
    }
}

/// The rows of a selection, starting at the first frame.
pub open spec fn selection_rows(t: TimelineView, selected: Seq<Seq<char>>) -> Seq<TrackView> {
    let rows = chosen_rows(t.tracks, selected);
    pulled_rows(rows, lowest_start(flat_clips(rows)))
}

/// The complaint against turning clips into a compound, if any.
pub open spec fn selection_fault(
    t: TimelineView,
    name: Seq<char>,
    clip_ids: Seq<Seq<char>>,
) -> Option<Seq<char>> {
    let selected = link_expanded(t, clip_ids);
    let rows = chosen_rows(t.tracks, selected);
    let clips = flat_clips(rows);
    let start = lowest_start(clips);
    let end = highest_end(clips);
    if timeline_fault(t, "timeline"@) is Some {
        timeline_fault(t, "timeline"@)
    } else if trimmed(name).len() == 0 {
        Some("nested sequence name must not be empty"@)
    } else if clip_ids.len() == 0 {
        Some("at least one clip is required to create a compound"@)
    } else if distinct(clip_ids).len() != clip_ids.len() {
        Some("compound clip selection contains duplicate ids"@)
    } else if clips.len() != selected.len() {
        Some("one or more clips selected for the compound no longer exist"@)
    } else {
        match compound_row(t.tracks, selected, 0) {
            None => Some("a compound clip requires at least one visual clip"@),
            Some(target) => {
                if crossed(t.tracks[target].clips, selected, start, end) {
                    Some(
                        "compound selection span overlaps an unselected clip on its destination track"@,
                    )
                } else {
                    match frame_fault(start, end - start, 0, 0, Real::one(), "compound selection"@) {
                        Some(m) => Some(m),
                        None => timeline_fault(
                            child_of(t, selection_rows(t, selected)),
                            "compound child"@,
                        ),
                    }
                }
            },
        }
    }
}

/// The timeline whose selected clips moved into a compound clip.
pub open spec fn compounded(
    t: TimelineView,
    name: Seq<char>,
    selected: Seq<Seq<char>>,
    ids: IdsView,
) -> TimelineView {
    let rows = selection_rows(t, selected);
    let clips = flat_clips(chosen_rows(t.tracks, selected));
    let sequence = NestedSequenceView {
        id: nth_id(ids, rows.len() as int + 1),
        name,
        timeline: child_of(t, named_rows(rows, ids)),
    };
    without_empty_tracks(
        compound_placed(
            without_clips(t, selected),
            sequence,
            compound_row(t.tracks, selected, 0)->0,
            lowest_start(clips) as i32,
            (highest_end(clips) - lowest_start(clips)) as i32,
            nth_id(ids, rows.len() as int + 2),
        ),
    )
}

/// Turning clips into a compound clip.
pub open spec fn create_nested_sequence_from_clips_spec(
    s: StateView,
    name: Seq<char>,
    clip_ids: Seq<Seq<char>>,
    ids: IdsView,
    registry_fault: Option<Seq<char>>,
) -> (Result<EditResultView, Fault>, StateView) {
    let selected = link_expanded(s.timeline, clip_ids);
    match selection_fault(s.timeline, name, clip_ids) {
        Some(m) => (Err(Fault::Invalid(m)), s),
        None => {
            let clip_id = nth_id(ids, selection_rows(s.timeline, selected).len() as int + 2);
            timeline_transacted(
                s,
                "Create Compound Clip"@,
                created_compound_summary(seq![clip_id]),
                compounded(s.timeline, trimmed(name), selected, ids),
                seq![clip_id],
                registry_fault,
            )
        },
    }
}

/// Whether all clips of some rows are sound.
pub open spec fn rows_sound(rows: Seq<TrackView>) -> bool {
    forall|i: int| 0 <= i < rows.len() ==> clips_sound((#[trigger] rows[i]).clips)
}

proof fn lemma_among_sound(clips: Seq<ClipView>, selected: Seq<Seq<char>>)
    requires
        clips_sound(clips),
    ensures
        clips_sound(clips_among(clips, selected)),
    decreases clips.len(),
{
    if clips.len() > 0 {
        assert forall|i: int| 0 <= i < clips.drop_last().len() implies clip_sound(
            #[trigger] clips.drop_last()[i],
        ) by {
            assert(clips.drop_last()[i] == clips[i]);
        }
        lemma_among_sound(clips.drop_last(), selected);
        assert(clip_sound(clips[clips.len() - 1]));
    }
}

proof fn lemma_rows_sound(tracks: Seq<TrackView>, selected: Seq<Seq<char>>)
    requires
        rows_sound(tracks),
    ensures
        rows_sound(chosen_rows(tracks, selected)),
    decreases tracks.len(),
{
    if tracks.len() > 0 {
        assert forall|i: int| 0 <= i < tracks.drop_last().len() implies clips_sound(
            (#[trigger] tracks.drop_last()[i]).clips,
        ) by {
            assert(tracks.drop_last()[i] == tracks[i]);
        }
        lemma_rows_sound(tracks.drop_last(), selected);
        assert(clips_sound(tracks[tracks.len() - 1].clips));
        lemma_among_sound(tracks.last().clips, selected);
    }
}

/// The clips of sound rows are sound.
pub proof fn lemma_flat_sound(rows: Seq<TrackView>)
    requires
        rows_sound(rows),
    ensures
        clips_sound(flat_clips(rows)),
    decreases rows.len(),
{
    if rows.len() > 0 {
        assert forall|i: int| 0 <= i < rows.drop_last().len() implies clips_sound(
            (#[trigger] rows.drop_last()[i]).clips,
        ) by {
            assert(rows.drop_last()[i] == rows[i]);
        }
        lemma_flat_sound(rows.drop_last());
        assert(clips_sound(rows[rows.len() - 1].clips));
        let front = flat_clips(rows.drop_last());
        assert forall|i: int| 0 <= i < flat_clips(rows).len() implies clip_sound(
            #[trigger] flat_clips(rows)[i],
        ) by {
            if i < front.len() {
                assert(clip_sound(front[i]));
            } else {
                assert(clip_sound(rows.last().clips[i - front.len()]));
            }
        }
    }
}

/// What the first start and the last end of sound clips bound.
proof fn lemma_span(clips: Seq<ClipView>)
    requires
        clips_sound(clips),
    ensures
        0 <= lowest_start(clips) <= i32::MAX,
        i32::MIN <= highest_end(clips) <= i32::MAX,
        clips.len() > 0 ==> lowest_start(clips) < highest_end(clips),
        forall|i: int|
            0 <= i < clips.len() ==> lowest_start(clips) <= (#[trigger] clips[i]).start_frame
                && end_of(clips[i]) <= highest_end(clips),
    decreases clips.len(),
{
    if clips.len() > 0 {
        let front = clips.drop_last();
        assert forall|i: int| 0 <= i < front.len() implies clip_sound(#[trigger] front[i]) by {
            assert(front[i] == clips[i]);
        }
        lemma_span(front);
        assert(clip_sound(clips[clips.len() - 1]));
        assert forall|i: int| 0 <= i < clips.len() implies lowest_start(clips) <= (
        #[trigger] clips[i]).start_frame && end_of(clips[i]) <= highest_end(clips) by {
            if i < front.len() {
                assert(front[i] == clips[i]);
            }
        }
    }
}

/// A clip of some rows is among all their clips.
pub proof fn lemma_flat_holds(rows: Seq<TrackView>, ti: int, ci: int) -> (k: int)
    requires
        0 <= ti < rows.len(),
        0 <= ci < rows[ti].clips.len(),
    ensures
        0 <= k < flat_clips(rows).len(),
        flat_clips(rows)[k] == rows[ti].clips[ci],
    decreases rows.len(),
{
    let front = flat_clips(rows.drop_last());
    if ti == rows.len() - 1 {
        front.len() + ci
    } else {
        assert(rows.drop_last()[ti] == rows[ti]);
        lemma_flat_holds(rows.drop_last(), ti, ci)
    }
}

proof fn lemma_flat_len(rows: Seq<TrackView>, n: int)
    requires
        0 <= n <= rows.len(),
    ensures
        flat_clips(rows.take(n)).len() <= flat_clips(rows).len(),
    decreases rows.len() - n,
{
    if n < rows.len() {
        assert(rows.take(n + 1).drop_last() =~= rows.take(n));
        lemma_flat_len(rows, n + 1);
    } else {
        assert(rows.take(n) =~= rows);
    }
}

fn select_rows(tracks: &Vec<Track>, selected: &Vec<String>) -> (r: Vec<Track>)
    ensures
        track_views(r@) == chosen_rows(track_views(tracks@), texts(selected@)),
{
    let ghost views = track_views(tracks@);
    let ghost wanted = texts(selected@);
    let mut rows: Vec<Track> = Vec::new();
    let mut i: usize = 0;
    proof {
        assert(track_views(rows@) =~= Seq::empty());
        assert(views.take(0) =~= Seq::empty());
    }
    while i < tracks.len()
        invariant
            i <= tracks@.len(),
            views == track_views(tracks@),
            wanted == texts(selected@),
            track_views(rows@) == chosen_rows(views.take(i as int), wanted),
        decreases tracks@.len() - i,
    {
        let ghost before = track_views(rows@);
        proof {
            assert(views.take(i as int + 1).drop_last() =~= views.take(i as int));
        }
        let track = &tracks[i];
        let (clips, _rest) = partition_clips(&track.clips, selected);
        assert(clip_views(clips@).len() == clips@.len());
        if clips.len() > 0 {
            let row = Track {
                id: String::new(),
                kind: track.kind,
                muted: track.muted,
                hidden: track.hidden,
                sync_locked: track.sync_locked,
                clips,
            };
            assert(row.id@ =~= Seq::empty());
            rows.push(row);
            assert(track_views(rows@) =~= before.push(row@));
        }
        i += 1;
    }
    assert(views.take(i as int) =~= views);
    rows
}

fn first_visual_row(tracks: &Vec<Track>, selected: &Vec<String>) -> (r: Option<usize>)
    ensures
        match r {
            Some(i) => compound_row(track_views(tracks@), texts(selected@), 0) == Some(i as int)
                && i < tracks@.len(),
            None => compound_row(track_views(tracks@), texts(selected@), 0) is None,
        },
{
    let ghost views = track_views(tracks@);
    let ghost wanted = texts(selected@);
    let mut i: usize = 0;
    while i < tracks.len()
        invariant
            i <= tracks@.len(),
            views == track_views(tracks@),
            wanted == texts(selected@),
            compound_row(views, wanted, 0) == compound_row(views, wanted, i as int),
        decreases tracks@.len() - i,
    {
        let (clips, _rest) = partition_clips(&tracks[i].clips, selected);
        assert(clip_views(clips@).len() == clips@.len());
        if tracks[i].kind != ClipType::Audio && clips.len() > 0 {
            return Some(i);
        }
        i += 1;
    }
    None
}

fn holds_exactly(rows: &Vec<Track>, count: usize) -> (r: bool)
    ensures
        r == (flat_clips(track_views(rows@)).len() == count),
{
    let ghost views = track_views(rows@);
    let mut left: usize = count;
    let mut i: usize = 0;
    assert(views.take(0) =~= Seq::empty());
    while i < rows.len()
        invariant
            i <= rows@.len(),
            views == track_views(rows@),
            flat_clips(views.take(i as int)).len() + left == count,
        decreases rows@.len() - i,
    {
        proof {
            assert(views.take(i as int + 1).drop_last() =~= views.take(i as int));
            lemma_flat_len(views, i as int + 1);
            assert(views[i as int].clips.len() == rows@[i as int].clips@.len());
        }
        if rows[i].clips.len() > left {
            return false;
        }
        left = left - rows[i].clips.len();
        i += 1;
    }
    assert(views.take(i as int) =~= views);
    left == 0
}

fn span_of(rows: &Vec<Track>) -> (r: (i32, i32))
    requires
        rows_sound(track_views(rows@)),
    ensures
        r.0 == lowest_start(flat_clips(track_views(rows@))),
        r.1 == highest_end(flat_clips(track_views(rows@))),
{
    let ghost views = track_views(rows@);
    let mut start: i32 = i32::MAX;
    let mut end: i32 = i32::MIN;
    let mut i: usize = 0;
    assert(views.take(0) =~= Seq::empty());
    while i < rows.len()
        invariant
            i <= rows@.len(),
            views == track_views(rows@),
            rows_sound(views),
            start == lowest_start(flat_clips(views.take(i as int))),
            end == highest_end(flat_clips(views.take(i as int))),
        decreases rows@.len() - i,
    {
        proof {
            lemma_flat_step(views, i as int, 0);
        }
        let mut j: usize = 0;
        while j < rows[i].clips.len()
            invariant
                i < rows@.len(),
                j <= rows@[i as int].clips@.len(),
                views == track_views(rows@),
                rows_sound(views),
                start == lowest_start(flat_until(views, i as int, j as int)),
                end == highest_end(flat_until(views, i as int, j as int)),
            decreases rows@[i as int].clips@.len() - j,
        {
            let clip = &rows[i].clips[j];
            proof {
                lemma_flat_step(views, i as int, j as int);
                assert(clips_sound(views[i as int].clips));
                assert(clip_sound(views[i as int].clips[j as int]));
                let longer = flat_until(views, i as int, j as int + 1);
                assert(longer.drop_last() =~= flat_until(views, i as int, j as int));
                assert(longer.last() == clip@);
            }
            if clip.start_frame < start {
                start = clip.start_frame;
            }
            if clip.start_frame + clip.duration_frames > end {
                end = clip.start_frame + clip.duration_frames;
            }
            j += 1;
        }
        proof {
            assert(views[i as int].clips.len() == rows@[i as int].clips@.len());
            lemma_flat_step(views, i as int, j as int);
        }
        i += 1;
    }
    assert(views.take(i as int) =~= views);
    (start, end)
}

fn is_crossed(clips: &Vec<Clip>, selected: &Vec<String>, start: i32, end: i32) -> (r: bool)
    requires
        clips_sound(clip_views(clips@)),
    ensures
        r == crossed(clip_views(clips@), texts(selected@), start as int, end as int),
{
    let ghost views = clip_views(clips@);
    let ghost wanted = texts(selected@);
    let mut i: usize = 0;
    while i < clips.len()
        invariant
            i <= clips@.len(),
            views == clip_views(clips@),
            wanted == texts(selected@),
            clips_sound(views),
            forall|k: int|
                0 <= k < i ==> wanted.contains((#[trigger] views[k]).id) || views[k].start_frame
                    >= end || start >= end_of(views[k]),
        decreases clips@.len() - i,
    {
        let clip = &clips[i];
        proof {
            assert(clip_sound(views[i as int]));
        }
        if !listed(selected, clip.id.as_str()) && clip.start_frame < end && start < clip.start_frame
            + clip.duration_frames {
            assert(!wanted.contains(views[i as int].id));
            return true;
        }
        i += 1;
    }
    false
}

fn pull_clips(clips: &mut Vec<Clip>, by: i32)
    requires
        forall|i: int|
            0 <= i < old(clips)@.len() ==> 0 <= by <= (#[trigger] old(clips)@[i]).start_frame,
    ensures
        clip_views(final(clips)@) == clip_views(old(clips)@).map_values(
            |c: ClipView| pulled(c, by as int),
        ),
{
    let ghost before = clips@;
    let mut i: usize = 0;
    while i < clips.len()
        invariant
            i <= clips@.len(),
            clips@.len() == before.len(),
            before == old(clips)@,
            forall|k: int|
                0 <= k < before.len() ==> 0 <= by <= (#[trigger] before[k]).start_frame,
            forall|k: int| 0 <= k < i ==> (#[trigger] clips@[k])@ == pulled(before[k]@, by as int),
            forall|k: int| i <= k < before.len() ==> #[trigger] clips@[k] == before[k],
        decreases clips@.len() - i,
    {
        let start: i32 = clips[i].start_frame;
        assert(start == before[i as int].start_frame);
        clips[i].start_frame = start - by;
        assert(clips@[i as int]@ =~= pulled(before[i as int]@, by as int));
        i += 1;
    }
    assert(clip_views(clips@) =~= clip_views(before).map_values(
        |c: ClipView| pulled(c, by as int),
    ));
}

fn pull_rows(rows: &mut Vec<Track>, by: i32)
    requires
        forall|i: int, j: int|
            0 <= i < old(rows)@.len() && 0 <= j < old(rows)@[i].clips@.len() ==> 0 <= by <= (
            #[trigger] old(rows)@[i].clips@[j]).start_frame,
    ensures
        track_views(final(rows)@) == pulled_rows(track_views(old(rows)@), by as int),
        final(rows)@.len() == old(rows)@.len(),
{
    let ghost before = rows@;
    let ghost expected = pulled_rows(track_views(before), by as int);
    let mut i: usize = 0;
    while i < rows.len()
        invariant
            i <= rows@.len(),
            rows@.len() == before.len(),
            before == old(rows)@,
            expected == pulled_rows(track_views(before), by as int),
            forall|k: int, j: int|
                0 <= k < before.len() && 0 <= j < before[k].clips@.len() ==> 0 <= by <= (
                #[trigger] before[k].clips@[j]).start_frame,
            forall|k: int| 0 <= k < i ==> (#[trigger] rows@[k])@ == expected[k],
            forall|k: int| i <= k < before.len() ==> #[trigger] rows@[k] == before[k],
        decreases rows@.len() - i,
    {
        assert(rows@[i as int] == before[i as int]);
        pull_clips(&mut rows[i].clips, by);
        assert(rows@[i as int]@ =~= expected[i as int]);
        i += 1;
    }
    assert(track_views(rows@) =~= expected);
}

fn name_rows(rows: &mut Vec<Track>, ids: &mut CoreIdGen)
    ensures
        track_views(final(rows)@) == named_rows(track_views(old(rows)@), old(ids)@),
        final(ids)@ == ids_after(old(ids)@, old(rows)@.len() as int),
        final(rows)@.len() == old(rows)@.len(),
{
    let ghost before = rows@;
    let ghost first = ids@;
    let mut i: usize = 0;
    proof {
        lemma_ids_after(first, 0, 0);
    }
    while i < rows.len()
        invariant
            i <= rows@.len(),
            rows@.len() == before.len(),
            ids@ == ids_after(first, i as int),
            forall|k: int|
                0 <= k < i ==> (#[trigger] rows@[k])@ == (TrackView {
                    id: nth_id(first, k + 1),
                    ..before[k]@
                }),
            forall|k: int| i <= k < before.len() ==> #[trigger] rows@[k] == before[k],
        decreases rows@.len() - i,
    {
        proof {
            lemma_ids_after(first, i as int, 1);
        }
        assert(rows@[i as int] == before[i as int]);
        rows[i].id = ids.next_id();
        i += 1;
    }
    assert(track_views(rows@) =~= named_rows(track_views(before), first));
}

fn child_with(t: &Timeline, rows: Vec<Track>) -> (r: Timeline)
    ensures
        r@ == child_of(t@, track_views(rows@)),
{
    let mut child = Timeline::new();
    child.fps = t.fps;
    child.width = t.width;
    child.height = t.height;
    child.settings_configured = t.settings_configured;
    child.tracks = rows;
    let ghost expected = child_of(t@, track_views(rows@));
    proof {
        lemma_nested_views(child);
    }
    assert(child@.tracks =~= expected.tracks);
    assert(child@.nested_sequences =~= expected.nested_sequences);
    assert(child@ =~= expected);
    child
}

/// What the preflight of a compound hands on.
struct Selection {
    ids: Vec<String>,
    child: Timeline,
    target: usize,
    start: i32,
    duration: i32,
}

/// Checks a selection and gathers its clips in a child timeline.
fn gather(state: &EditorState, name: &String, clip_ids: &Vec<String>) -> (r: Result<
    Selection,
    EditError,
>)
    ensures
        match r {
            Err(e) => selection_fault(state@.timeline, name@, texts(clip_ids@)) matches Some(m)
                && e@ == Fault::Invalid(m),
            Ok(g) => {
                let t = state@.timeline;
                let clips = flat_clips(chosen_rows(t.tracks, texts(g.ids@)));
                &&& selection_fault(t, name@, texts(clip_ids@)) is None
                &&& texts(g.ids@) == link_expanded(t, texts(clip_ids@))
                &&& g.child@ == child_of(t, selection_rows(t, texts(g.ids@)))
                &&& compound_row(t.tracks, texts(g.ids@), 0) == Some(g.target as int)
                &&& g.target < t.tracks.len()
                &&& g.start == lowest_start(clips)
                &&& g.duration == highest_end(clips) - lowest_start(clips)
            },
        },
{
    let ghost t = state@.timeline;
    if let Err(e) = validate_timeline_frame_arithmetic(&state.timeline, "timeline") {
        return Err(e);
    }
    proof {
        lemma_timeline_sound(t, "timeline"@);
        assert(rows_sound(t.tracks));
    }
    let stripped = trim(name.as_str());
    if stripped.as_str().is_empty() {
        return Err(invalid("nested sequence name must not be empty"));
    }
    if clip_ids.len() == 0 {
        return Err(invalid("at least one clip is required to create a compound"));
    }
    let requested = dedupe(clip_ids);
    assert(texts(requested@).len() == requested@.len());
    assert(texts(clip_ids@).len() == clip_ids@.len());
    if requested.len() != clip_ids.len() {
        return Err(invalid("compound clip selection contains duplicate ids"));
    }
    let ids = expand_to_link_group(&state.timeline, clip_ids);
    let ghost selected = texts(ids@);
    assert(selected.len() == ids@.len());
    let mut rows = select_rows(&state.timeline.tracks, &ids);
    let ghost views = track_views(rows@);
    proof {
        lemma_rows_sound(t.tracks, selected);
        lemma_flat_sound(views);
        lemma_span(flat_clips(views));
    }
    if !holds_exactly(&rows, ids.len()) {
        return Err(invalid("one or more clips selected for the compound no longer exist"));
    }
    let (start, end) = span_of(&rows);
    let target: usize = match first_visual_row(&state.timeline.tracks, &ids) {
        Some(target) => target,
        None => return Err(invalid("a compound clip requires at least one visual clip")),
    };
    proof {
        lemma_gathered(t.tracks, selected, target as int);
        assert(clips_sound(t.tracks[target as int].clips));
    }
    if is_crossed(&state.timeline.tracks[target].clips, &ids, start, end) {
        return Err(
            invalid(
                "compound selection span overlaps an unselected clip on its destination track",
            ),
        );
    }
    let duration: i32 = end - start;
    if let Err(e) = checked_frame_arithmetic(
        start,
        duration,
        0,
        0,
        Real::one(),
        "compound selection",
    ) {
        return Err(e);
    }
    proof {
        assert forall|i: int, j: int|
            0 <= i < rows@.len() && 0 <= j < rows@[i].clips@.len() implies 0 <= start <= (
        #[trigger] rows@[i].clips@[j]).start_frame by {
            assert(views[i].clips[j] == rows@[i].clips@[j]@);
            let k = lemma_flat_holds(views, i, j);
            assert(lowest_start(flat_clips(views)) <= flat_clips(views)[k].start_frame);
        }
    }
    pull_rows(&mut rows, start);
    let child = child_with(&state.timeline, rows);
    if let Err(e) = validate_timeline_frame_arithmetic(&child, "compound child") {
        return Err(e);
    }
    Ok(Selection { ids, child, target, start, duration })
}

/// A selection with a visual row holds clips.
proof fn lemma_gathered(tracks: Seq<TrackView>, selected: Seq<Seq<char>>, target: int)
    requires
        compound_row(tracks, selected, 0) == Some(target),
    ensures
        0 <= target < tracks.len(),
        flat_clips(chosen_rows(tracks, selected)).len() > 0,
{
    lemma_compound_row(tracks, selected, 0);
    lemma_rows_filled(tracks, selected, target);
}

proof fn lemma_compound_row(tracks: Seq<TrackView>, selected: Seq<Seq<char>>, from: int)
    requires
        0 <= from,
    ensures
        compound_row(tracks, selected, from) matches Some(i) ==> from <= i < tracks.len()
            && clips_among(tracks[i].clips, selected).len() > 0,
    decreases tracks.len() - from,
{
    if from < tracks.len() {
        lemma_compound_row(tracks, selected, from + 1);
    }
}

proof fn lemma_rows_filled(tracks: Seq<TrackView>, selected: Seq<Seq<char>>, i: int)
    requires
        0 <= i < tracks.len(),
        clips_among(tracks[i].clips, selected).len() > 0,
    ensures
        flat_clips(chosen_rows(tracks, selected)).len() > 0,
    decreases tracks.len(),
{
    let rows = chosen_rows(tracks, selected);
    let rest = chosen_rows(tracks.drop_last(), selected);
    if clips_among(tracks.last().clips, selected).len() > 0 {
        assert(rows.drop_last() =~= rest);
        assert(flat_clips(rows) == flat_clips(rest) + rows.last().clips);
    } else {
        assert(tracks.drop_last()[i] == tracks[i]);
        lemma_rows_filled(tracks.drop_last(), selected, i);
    }
}

/// Turns clips of the root timeline into one editable compound clip, together with
/// the clips linked to them.
pub fn create_nested_sequence_from_clips(
    state: &mut EditorState,
    name: String,
    clip_ids: Vec<String>,
    ids: &mut CoreIdGen,
    registry_fault: &Option<String>,
) -> (r: Result<EditResult, EditError>)
    requires
        old(state)@.version < u64::MAX,
    ensures
        (outcome(r), final(state)@) == create_nested_sequence_from_clips_spec(
            old(state)@,
            name@,
            texts(clip_ids@),
            old(ids)@,
            opt_text(*registry_fault),
        ),
        final(ids)@ == (if selection_fault(old(state)@.timeline, name@, texts(clip_ids@)) is Some {
            old(ids)@
        } else {
            ids_after(
                old(ids)@,
                selection_rows(
                    old(state)@.timeline,
                    link_expanded(old(state)@.timeline, texts(clip_ids@)),
                ).len() as int + 2,
            )
        }),
{
    let ghost t = state@.timeline;
    let ghost first = ids@;
    let Selection { ids: selected, child: gathered, target, start, duration } = match gather(
        state,
        &name,
        &clip_ids,
    ) {
        Ok(selection) => selection,
        Err(e) => return Err(e),
    };
    let ghost rows = selection_rows(t, texts(selected@));
    let mut child = gathered;
    assert(track_views(child.tracks@) =~= child@.tracks);
    name_rows(&mut child.tracks, ids);
    proof {
        crate::locate::lemma_tracks_replaced(gathered, child);
        assert(child@ =~= child_of(t, named_rows(rows, first)));
        lemma_ids_after(first, rows.len() as int, 1);
        lemma_ids_after(first, rows.len() as int + 1, 1);
    }
    let sequence_id = ids.next_id();
    let clip_id = ids.next_id();
    let mut timeline = state.timeline.copy();
    assert(timeline.tracks@.len() == timeline@.tracks.len());
    remove_clips_from(&mut timeline, &selected);
    let sequence = NestedSequence::new(sequence_id, trim(name.as_str()), child);
    place_compound(&mut timeline, sequence, target, start, duration, &clip_id);
    prune_empty_tracks(&mut timeline);
    let affected: Vec<String> = vec![clip_id];
    assert(texts(affected@) =~= seq![nth_id(first, rows.len() as int + 2)]);
    let list = join(&affected, ", ");
    let summary = cat2("Created compound clip ", list.as_str());
    transact_timeline(
        state,
        "Create Compound Clip",
        summary.as_str(),
        timeline,
        affected,
        registry_fault,
    )
}

} // verus!
