//! What a compound clip dissolves into.

use crate::arrange::by_start;
use crate::arrange::filled_tracks;
use crate::arrange::without_clips;
use crate::arrange::without_empty_tracks;
use crate::binary64::scaled_frames;
use crate::commands::dissolve::Dissolved;
use crate::commands::dissolve::Dissolving;
use crate::commands::dissolve::clips_dissolved;
use crate::commands::dissolve::dissolve_nested_sequence_spec;
use crate::commands::dissolve::group_met;
use crate::commands::dissolve::group_size;
use crate::commands::dissolve::last_with_id;
use crate::commands::dissolve::lemma_last_found;
use crate::commands::dissolve::lemma_no_piece_fault;
use crate::commands::dissolve::piece;
use crate::commands::dissolve::piece_fault;
use crate::commands::dissolve::pieces_fault;
use crate::commands::dissolve::row_added;
use crate::commands::dissolve::row_sorted;
use crate::commands::dissolve::rows_dissolved;
use crate::commands::dissolve::shown;
use crate::commands::dissolve::shown_clips;
use crate::commands::nested::sequence_index;
use crate::commands::tracks::lemma_first_audio;
use crate::commands::tracks::track_slot;
use crate::ids::IdsView;
use crate::ids::nth_id;
use crate::laws::arranging::clips_before;
use crate::laws::arranging::law_clips_are_taken_out_by_id;
use crate::laws::arranging::law_flattening_keeps_every_clip;
use crate::laws::arranging::law_sorting_is_by_start;
use crate::laws::arranging::lemma_flat_later;
use crate::laws::arranging::lemma_flat_place;
use crate::laws::arranging::start_order;
use crate::laws::document::first_clip;
use crate::laws::document::law_clips_are_found_by_id;
use crate::laws::document::law_pruning_changes_transitions_alone;
use crate::laws::document::same_clip;
use crate::laws::document::same_frame;
use crate::laws::document::same_track;
use crate::links::flat_clips;
use crate::links::id_index;
use crate::model::ClipView;
use crate::model::TimelineView;
use crate::model::TrackView;
use crate::model::TransitionView;
use crate::state::StateView;
use crate::transitions::pruned;
use vstd::prelude::*;

verus! {

/// Whether a compound shows some frame of a clip of its sequence.
pub open spec fn shows(compound: ClipView, c: ClipView) -> bool {
    let to = compound.trim_start_frame + compound.duration_frames;
    let end = c.start_frame + c.duration_frames;
    &&& c.start_frame < end
    &&& c.start_frame < to
    &&& compound.trim_start_frame < end
    &&& compound.trim_start_frame < to
}

/// The later of two frames.
pub open spec fn later(a: int, b: int) -> int {
    if a < b {
        b
    } else {
        a
    }
}

/// The earlier of two frames.
pub open spec fn earlier(a: int, b: int) -> int {
    if a < b {
        a
    } else {
        b
    }
}

/// Whether the clip at a place of a sequence is there and shown.
pub open spec fn shown_at(compound: ClipView, rows: Seq<TrackView>, i: int, j: int) -> bool {
    0 <= i < rows.len() && 0 <= j < rows[i].clips.len() && shows(compound, rows[i].clips[j])
}

/// Whether another shown clip belongs to the link group of the one at a place.
pub open spec fn shares_link(compound: ClipView, rows: Seq<TrackView>, i: int, j: int) -> bool {
    exists|a: int, b: int| #[trigger]
        shown_at(compound, rows, a, b) && (a != i || b != j) && rows[a].clips[b].link_group_id
            == rows[i].clips[j].link_group_id
}

/// Whether some shown clip has an id.
pub open spec fn shows_id(compound: ClipView, rows: Seq<TrackView>, id: Seq<char>) -> bool {
    exists|a: int, b: int| #[trigger]
        shown_at(compound, rows, a, b) && rows[a].clips[b].id == id
}

/// Whether a track is of the kind of another and switched as it is.
pub open spec fn switched_like(row: TrackView, track: TrackView) -> bool {
    track.kind == row.kind && track.muted == row.muted && track.hidden == row.hidden
        && track.sync_locked == row.sync_locked
}

/// Whether a clip stands on a timeline, but for the transition at its end, on a track
/// of the kind of another and switched as it is.
pub open spec fn appears_like(t: TimelineView, row: TrackView, c: ClipView) -> bool {
    exists|x: int, y: int|
        0 <= x < t.tracks.len() && 0 <= y < t.tracks[x].clips.len() && switched_like(
            row,
            t.tracks[x],
        ) && same_clip(c, #[trigger] t.tracks[x].clips[y])
}

/// Whether `e` is the shown part of a clip of a sequence, moved to where the compound
/// shows it: what the compound hides at either end is trimmed off its source, and
/// nothing else but its id, its link group and the transition at its end is changed.
pub open spec fn shown_part(compound: ClipView, c: ClipView, e: ClipView) -> bool {
    let from = later(c.start_frame as int, compound.trim_start_frame as int);
    let to = earlier(
        c.start_frame + c.duration_frames,
        compound.trim_start_frame + compound.duration_frames,
    );
    &&& e.start_frame == compound.start_frame + from - compound.trim_start_frame
    &&& e.duration_frames == to - from
    &&& e.trim_start_frame == c.trim_start_frame + scaled_frames(
        (from - c.start_frame) as nat,
        c.speed,
    )
    &&& e.trim_end_frame == c.trim_end_frame + scaled_frames(
        (c.start_frame + c.duration_frames - to) as nat,
        c.speed,
    )
    &&& e == (ClipView {
        id: e.id,
        link_group_id: e.link_group_id,
        transition_out: e.transition_out,
        start_frame: e.start_frame,
        duration_frames: e.duration_frames,
        trim_start_frame: e.trim_start_frame,
        trim_end_frame: e.trim_end_frame,
        ..c
    })
}

/// What dissolving makes of the shown clip at a place of a sequence. `fresh` gives the
/// number of the new id of each old one, `number` that of the new link group of each old
/// one.
pub open spec fn made_of(
    compound: ClipView,
    rows: Seq<TrackView>,
    ids: IdsView,
    i: int,
    j: int,
    e: ClipView,
    fresh: spec_fn(Seq<char>) -> int,
    number: spec_fn(Seq<char>) -> int,
) -> bool {
    let c = rows[i].clips[j];
    &&& shown_part(compound, c, e)
    &&& e.id == nth_id(ids, fresh(c.id))
    &&& 1 <= fresh(c.id)
    &&& match c.link_group_id {
        None => e.link_group_id is None,
        Some(g) => if shares_link(compound, rows, i, j) {
            &&& e.link_group_id == Some(nth_id(ids, number(g)))
            &&& 1 <= number(g)
        } else {
            e.link_group_id is None
        },
    }
    &&& match c.transition_out {
        None => e.transition_out is None,
        Some(tr) => if shows_id(compound, rows, tr.to_clip_id) {
            e.transition_out == Some(
                TransitionView {
                    from_clip_id: e.id,
                    to_clip_id: nth_id(ids, fresh(tr.to_clip_id)),
                    ..tr
                },
            )
        } else {
            e.transition_out is None
        },
    }
}

/// Whether two shown clips of a sequence get different numbers where they have different
/// ids or are of different shared link groups, and no number serves for both a clip and
/// a group.
pub open spec fn told_apart(
    compound: ClipView,
    rows: Seq<TrackView>,
    i: int,
    j: int,
    a: int,
    b: int,
    fresh: spec_fn(Seq<char>) -> int,
    number: spec_fn(Seq<char>) -> int,
) -> bool {
    let c = rows[i].clips[j];
    let e = rows[a].clips[b];
    &&& c.id != e.id ==> fresh(c.id) != fresh(e.id)
    &&& c.link_group_id is Some && shares_link(compound, rows, i, j) ==> number(c.link_group_id->0)
        != fresh(e.id)
    &&& c.link_group_id is Some && shares_link(compound, rows, i, j) && e.link_group_id is Some
        && shares_link(compound, rows, a, b) && c.link_group_id != e.link_group_id ==> number(
        c.link_group_id->0,
    ) != number(e.link_group_id->0)
}

/// What dissolving makes of the shown clips of a sequence: `made` gives the clip made of
/// each.
pub open spec fn dissolves_into(
    compound: ClipView,
    rows: Seq<TrackView>,
    ids: IdsView,
    next: TimelineView,
    made: spec_fn(int, int) -> ClipView,
    fresh: spec_fn(Seq<char>) -> int,
    number: spec_fn(Seq<char>) -> int,
) -> bool {
    &&& forall|i: int, j: int| #[trigger]
        shown_at(compound, rows, i, j) ==> appears_like(next, rows[i], made(i, j)) && made_of(
            compound,
            rows,
            ids,
            i,
            j,
            made(i, j),
            fresh,
            number,
        )
    &&& forall|i: int, j: int, a: int, b: int| #[trigger]
        shown_at(compound, rows, i, j) && #[trigger] shown_at(compound, rows, a, b) ==> told_apart(
            compound,
            rows,
            i,
            j,
            a,
            b,
            fresh,
            number,
        )
}

/// Whether a clip comes, but for the transition at its end, from a timeline without the
/// clips with an id.
pub open spec fn was_there(t: TimelineView, id: Seq<char>, e: ClipView) -> bool {
    exists|x: int, y: int|
        0 <= x < t.tracks.len() && 0 <= y < t.tracks[x].clips.len() && (
        #[trigger] t.tracks[x].clips[y]).id != id && same_clip(t.tracks[x].clips[y], e)
}

/// Whether a clip is, but for the transition at its end, one that was made.
pub open spec fn was_made(
    compound: ClipView,
    rows: Seq<TrackView>,
    made: spec_fn(int, int) -> ClipView,
    e: ClipView,
) -> bool {
    exists|i: int, j: int| #[trigger] shown_at(compound, rows, i, j) && same_clip(made(i, j), e)
}

/// The state in which a row is begun.
spec fn begun_at(d: Dissolving, x0: Dissolved, rows: Seq<TrackView>, i: int) -> Dissolved {
    let b = rows_dissolved(d, x0, rows, i);
    Dissolved {
        timeline: row_added(b.timeline, rows[i], nth_id(d.ids, b.minted + 1)),
        minted: b.minted + 1,
        ..b
    }
}

/// Where the track of a row goes.
spec fn slot_at(d: Dissolving, x0: Dissolved, rows: Seq<TrackView>, i: int) -> int {
    let b = rows_dissolved(d, x0, rows, i);
    track_slot(b.timeline.tracks, b.timeline.tracks.len() as int, rows[i].kind)
}

/// The state before a clip is dissolved.
spec fn state_at(d: Dissolving, x0: Dissolved, rows: Seq<TrackView>, i: int, j: int) -> Dissolved {
    clips_dissolved(d, begun_at(d, x0, rows, i), slot_at(d, x0, rows, i), rows[i].clips, j)
}

/// The clip that is made of a shown one.
spec fn made_at(d: Dissolving, x0: Dissolved, rows: Seq<TrackView>, i: int, j: int) -> ClipView {
    let c = rows[i].clips[j];
    piece(d, group_met(d, state_at(d, x0, rows, i, j), c.link_group_id), c)
}

/// The clips that are made of the first of a row.
spec fn row_made(
    d: Dissolving,
    x0: Dissolved,
    rows: Seq<TrackView>,
    i: int,
    n: int,
) -> Seq<ClipView>
    decreases n,
{
    if n <= 0 {
        Seq::empty()
    } else if shown(d.compound, rows[i].clips[n - 1]) {
        row_made(d, x0, rows, i, n - 1).push(made_at(d, x0, rows, i, n - 1))
    } else {
        row_made(d, x0, rows, i, n - 1)
    }
}

spec fn extends(a: Dissolved, b: Dissolved) -> bool {
    &&& a.groups.len() <= b.groups.len()
    &&& a.group_ids.len() <= b.group_ids.len()
    &&& forall|k: int| 0 <= k < a.groups.len() ==> #[trigger] b.groups[k] == a.groups[k]
    &&& forall|k: int| 0 <= k < a.group_ids.len() ==> #[trigger] b.group_ids[k] == a.group_ids[k]
}

spec fn numbered(d: Dissolving, x: Dissolved, nums: Seq<int>) -> bool {
    &&& nums.len() == x.groups.len()
    &&& forall|k: int|
        0 <= k < nums.len() ==> d.pieces.len() < #[trigger] nums[k] <= x.minted && x.group_ids[k]
            == nth_id(d.ids, nums[k])
    &&& forall|k: int, l: int| 0 <= k < l < nums.len() ==> #[trigger] nums[k] < #[trigger] nums[l]
}

spec fn good(d: Dissolving, x: Dissolved) -> bool {
    &&& x.groups.len() == x.group_ids.len()
    &&& d.pieces.len() <= x.minted
    &&& forall|k: int, l: int|
        0 <= k < l < x.groups.len() ==> #[trigger] x.groups[k] != #[trigger] x.groups[l]
    &&& exists|nums: Seq<int>| #[trigger] numbered(d, x, nums)
}

/// Looking an id up finds its first place, or none where it does not occur.
pub proof fn lemma_looked_up(ids: Seq<Seq<char>>, id: Seq<char>, from: int)
    requires
        0 <= from,
    ensures
        match id_index(ids, id, from) {
            Some(k) => from <= k < ids.len() && ids[k] == id,
            None => forall|k: int| from <= k < ids.len() ==> #[trigger] ids[k] != id,
        },
    decreases ids.len() - from,
{
    if from < ids.len() && ids[from] != id {
        lemma_looked_up(ids, id, from + 1);
    }
}

proof fn lemma_met(d: Dissolving, x: Dissolved, link: Option<Seq<char>>)
    requires
        good(d, x),
    ensures
        good(d, group_met(d, x, link)),
        extends(x, group_met(d, x, link)),
        link matches Some(g) ==> (group_size(d.pieces, g) > 1 ==> id_index(
            group_met(d, x, link).groups,
            g,
            0,
        ) is Some),
{
    let y = group_met(d, x, link);
    let nums = choose|nums: Seq<int>| #[trigger] numbered(d, x, nums);
    if let Some(g) = link {
        lemma_looked_up(x.groups, g, 0);
        lemma_looked_up(y.groups, g, 0);
        if group_size(d.pieces, g) > 1 && id_index(x.groups, g, 0) is None {
            let more = nums.push(x.minted + 1);
            assert(numbered(d, y, more));
            assert(y.groups[x.groups.len() as int] == g);
        } else {
            assert(y == x);
        }
    }
}

proof fn lemma_row_good(d: Dissolving, x: Dissolved, ti: int, clips: Seq<ClipView>, n: int)
    requires
        good(d, x),
        0 <= n <= clips.len(),
    ensures
        good(d, clips_dissolved(d, x, ti, clips, n)),
        extends(x, clips_dissolved(d, x, ti, clips, n)),
    decreases n,
{
    if n > 0 {
        lemma_row_good(d, x, ti, clips, n - 1);
        let m = clips_dissolved(d, x, ti, clips, n - 1);
        let y = clips_dissolved(d, x, ti, clips, n);
        lemma_met(d, m, clips[n - 1].link_group_id);
        let z = group_met(d, m, clips[n - 1].link_group_id);
        let nums = choose|nums: Seq<int>| #[trigger] numbered(d, z, nums);
        if shown(d.compound, clips[n - 1]) {
            assert(numbered(d, y, nums));
        }
    }
}

/// Every state between two clips of a row extends to the state at its end.
proof fn lemma_row_extends(
    d: Dissolving,
    x: Dissolved,
    ti: int,
    clips: Seq<ClipView>,
    m: int,
    n: int,
)
    requires
        good(d, x),
        0 <= m < n <= clips.len(),
    ensures
        shown(d.compound, clips[m]) ==> extends(
            group_met(d, clips_dissolved(d, x, ti, clips, m), clips[m].link_group_id),
            clips_dissolved(d, x, ti, clips, n),
        ),
        extends(clips_dissolved(d, x, ti, clips, m), clips_dissolved(d, x, ti, clips, n)),
    decreases n - m,
{
    lemma_row_good(d, x, ti, clips, n - 1);
    let before = clips_dissolved(d, x, ti, clips, n - 1);
    lemma_met(d, before, clips[n - 1].link_group_id);
    if m < n - 1 {
        lemma_row_extends(d, x, ti, clips, m, n - 1);
    }
}

proof fn lemma_rows_good(d: Dissolving, x0: Dissolved, rows: Seq<TrackView>, n: int)
    requires
        good(d, x0),
        0 <= n <= rows.len(),
    ensures
        good(d, rows_dissolved(d, x0, rows, n)),
        n < rows.len() ==> good(d, begun_at(d, x0, rows, n)),
    decreases n,
{
    if n > 0 {
        lemma_rows_good(d, x0, rows, n - 1);
        let begun = begun_at(d, x0, rows, n - 1);
        let ti = slot_at(d, x0, rows, n - 1);
        let clips = rows[n - 1].clips;
        lemma_row_good(d, begun, ti, clips, clips.len() as int);
        let filled = clips_dissolved(d, begun, ti, clips, clips.len() as int);
        let nums = choose|nums: Seq<int>| #[trigger] numbered(d, filled, nums);
        assert(numbered(d, rows_dissolved(d, x0, rows, n), nums));
    }
    if n < rows.len() {
        let x = rows_dissolved(d, x0, rows, n);
        let nums = choose|nums: Seq<int>| #[trigger] numbered(d, x, nums);
        assert(numbered(d, begun_at(d, x0, rows, n), nums));
    }
}

proof fn lemma_rows_extend(d: Dissolving, x0: Dissolved, rows: Seq<TrackView>, m: int, n: int)
    requires
        good(d, x0),
        0 <= m <= n <= rows.len(),
    ensures
        extends(rows_dissolved(d, x0, rows, m), rows_dissolved(d, x0, rows, n)),
    decreases n - m,
{
    if m < n {
        lemma_rows_extend(d, x0, rows, m, n - 1);
        lemma_rows_good(d, x0, rows, n - 1);
        lemma_row_good(
            d,
            begun_at(d, x0, rows, n - 1),
            slot_at(d, x0, rows, n - 1),
            rows[n - 1].clips,
            rows[n - 1].clips.len() as int,
        );
    }
}

/// The new link group of a clip is the one that its group has at the end.
proof fn lemma_link_made(d: Dissolving, x0: Dissolved, rows: Seq<TrackView>, i: int, j: int)
    requires
        good(d, x0),
        0 <= i < rows.len(),
        0 <= j < rows[i].clips.len(),
        shown(d.compound, rows[i].clips[j]),
    ensures
        ({
            let end = rows_dissolved(d, x0, rows, rows.len() as int);
            let link = rows[i].clips[j].link_group_id;
            let e = made_at(d, x0, rows, i, j);
            match link {
                None => e.link_group_id is None,
                Some(g) => if group_size(d.pieces, g) > 1 {
                    exists|k: int|
                        0 <= k < end.groups.len() && #[trigger] end.groups[k] == g
                            && e.link_group_id == Some(end.group_ids[k])
                } else {
                    e.link_group_id is None
                },
            }
        }),
{
    let n = rows.len() as int;
    let end = rows_dissolved(d, x0, rows, n);
    let clips = rows[i].clips;
    let begun = begun_at(d, x0, rows, i);
    let ti = slot_at(d, x0, rows, i);
    lemma_rows_good(d, x0, rows, i);
    lemma_row_good(d, begun, ti, clips, j);
    let s = state_at(d, x0, rows, i, j);
    let y = group_met(d, s, clips[j].link_group_id);
    lemma_met(d, s, clips[j].link_group_id);
    lemma_row_extends(d, begun, ti, clips, j, clips.len() as int);
    lemma_rows_extend(d, x0, rows, i + 1, n);
    let after = rows_dissolved(d, x0, rows, i + 1);
    assert(extends(y, after));
    if let Some(g) = clips[j].link_group_id {
        if group_size(d.pieces, g) > 1 {
            lemma_looked_up(y.groups, g, 0);
            let k = id_index(y.groups, g, 0)->0;
            assert(y.groups[k] == g);
            assert(after.groups[k] == g);
            assert(end.groups[k] == g);
            assert(end.group_ids[k] == y.group_ids[k]);
        }
    }
}

proof fn lemma_row_filled(d: Dissolving, x0: Dissolved, rows: Seq<TrackView>, i: int, n: int)
    requires
        0 <= i < rows.len(),
        0 <= n <= rows[i].clips.len(),
    ensures
        ({
            let b = rows_dissolved(d, x0, rows, i);
            let ti = slot_at(d, x0, rows, i);
            let t = state_at(d, x0, rows, i, n).timeline;
            let track = TrackView {
                id: nth_id(d.ids, b.minted + 1),
                kind: rows[i].kind,
                muted: rows[i].muted,
                hidden: rows[i].hidden,
                sync_locked: rows[i].sync_locked,
                clips: row_made(d, x0, rows, i, n),
            };
            &&& 0 <= ti <= b.timeline.tracks.len()
            &&& t == (TimelineView { tracks: b.timeline.tracks.insert(ti, track), ..b.timeline })
        }),
    decreases n,
{
    let b = rows_dissolved(d, x0, rows, i);
    let ti = slot_at(d, x0, rows, i);
    lemma_first_audio(b.timeline.tracks, 0);
    let track = TrackView {
        id: nth_id(d.ids, b.minted + 1),
        kind: rows[i].kind,
        muted: rows[i].muted,
        hidden: rows[i].hidden,
        sync_locked: rows[i].sync_locked,
        clips: row_made(d, x0, rows, i, n),
    };
    if n > 0 {
        lemma_row_filled(d, x0, rows, i, n - 1);
    }
    assert(state_at(d, x0, rows, i, n).timeline.tracks =~= b.timeline.tracks.insert(ti, track));
}

proof fn lemma_row_inserted(d: Dissolving, x0: Dissolved, rows: Seq<TrackView>, i: int)
    requires
        0 <= i < rows.len(),
    ensures
        ({
            let b = rows_dissolved(d, x0, rows, i);
            let ti = slot_at(d, x0, rows, i);
            let t = rows_dissolved(d, x0, rows, i + 1).timeline;
            let n = rows[i].clips.len() as int;
            let track = TrackView {
                id: nth_id(d.ids, b.minted + 1),
                kind: rows[i].kind,
                muted: rows[i].muted,
                hidden: rows[i].hidden,
                sync_locked: rows[i].sync_locked,
                clips: by_start(row_made(d, x0, rows, i, n)),
            };
            &&& 0 <= ti <= b.timeline.tracks.len()
            &&& t == (TimelineView { tracks: b.timeline.tracks.insert(ti, track), ..b.timeline })
        }),
{
    let n = rows[i].clips.len() as int;
    lemma_row_filled(d, x0, rows, i, n);
    let b = rows_dissolved(d, x0, rows, i);
    let ti = slot_at(d, x0, rows, i);
    let filled = state_at(d, x0, rows, i, n);
    let track = TrackView {
        id: nth_id(d.ids, b.minted + 1),
        kind: rows[i].kind,
        muted: rows[i].muted,
        hidden: rows[i].hidden,
        sync_locked: rows[i].sync_locked,
        clips: by_start(row_made(d, x0, rows, i, n)),
    };
    assert(rows_dissolved(d, x0, rows, i + 1).timeline == row_sorted(filled.timeline, ti));
    assert(row_sorted(filled.timeline, ti).tracks =~= b.timeline.tracks.insert(ti, track));
}

/// Sorting keeps the members of a list.
pub proof fn lemma_sorted_members(clips: Seq<ClipView>, c: ClipView)
    ensures
        by_start(clips).contains(c) <==> clips.contains(c),
{
    law_sorting_is_by_start(clips);
    let sorted = by_start(clips);
    let order = start_order(clips);
    if clips.contains(c) {
        let k = choose|k: int| 0 <= k < clips.len() && clips[k] == c;
        assert(order.contains(k));
        let j = choose|j: int| 0 <= j < order.len() && order[j] == k;
        assert(sorted[j] == c);
    }
    if sorted.contains(c) {
        let j = choose|j: int| 0 <= j < sorted.len() && sorted[j] == c;
        assert(clips[order[j]] == c);
    }
}

proof fn lemma_row_members(
    d: Dissolving,
    x0: Dissolved,
    rows: Seq<TrackView>,
    i: int,
    n: int,
    c: ClipView,
)
    requires
        0 <= i < rows.len(),
        0 <= n <= rows[i].clips.len(),
    ensures
        row_made(d, x0, rows, i, n).contains(c) <==> exists|j: int|
            0 <= j < n && shown(d.compound, rows[i].clips[j]) && #[trigger] made_at(
                d,
                x0,
                rows,
                i,
                j,
            ) == c,
    decreases n,
{
    if n > 0 {
        lemma_row_members(d, x0, rows, i, n - 1, c);
        let less = row_made(d, x0, rows, i, n - 1);
        let more = row_made(d, x0, rows, i, n);
        if shown(d.compound, rows[i].clips[n - 1]) {
            let m = made_at(d, x0, rows, i, n - 1);
            assert(more[less.len() as int] == m);
            if less.contains(c) {
                let k = choose|k: int| 0 <= k < less.len() && less[k] == c;
                assert(more[k] == c);
            }
            if more.contains(c) && m != c {
                let k = choose|k: int| 0 <= k < more.len() && more[k] == c;
                assert(less[k] == c);
            }
        }
    }
}

/// Whether a clip stands on some track of a list.
spec fn stands(tracks: Seq<TrackView>, c: ClipView) -> bool {
    exists|track: TrackView| #[trigger] tracks.contains(track) && track.clips.contains(c)
}

spec fn stands_like(tracks: Seq<TrackView>, row: TrackView, c: ClipView) -> bool {
    exists|track: TrackView| #[trigger]
        tracks.contains(track) && switched_like(row, track) && track.clips.contains(c)
}

proof fn lemma_inserted_tracks(tracks: Seq<TrackView>, at: int, new: TrackView)
    requires
        0 <= at <= tracks.len(),
    ensures
        forall|track: TrackView| #[trigger]
            tracks.insert(at, new).contains(track) <==> tracks.contains(track) || track == new,
{
    let u = tracks.insert(at, new);
    assert(u[at] == new);
    assert forall|track: TrackView| #[trigger] u.contains(track) <==> tracks.contains(track)
        || track == new by {
        if tracks.contains(track) {
            let k = choose|k: int| 0 <= k < tracks.len() && tracks[k] == track;
            if k < at {
                assert(u[k] == track);
            } else {
                assert(u[k + 1] == track);
            }
        }
        if u.contains(track) && track != new {
            let k = choose|k: int| 0 <= k < u.len() && u[k] == track;
            if k < at {
                assert(tracks[k] == track);
            } else {
                assert(tracks[k - 1] == track);
            }
        }
    }
}

proof fn lemma_rows_stand(d: Dissolving, x0: Dissolved, rows: Seq<TrackView>, n: int)
    requires
        0 <= n <= rows.len(),
    ensures
        ({
            let tracks = rows_dissolved(d, x0, rows, n).timeline.tracks;
            &&& rows_dissolved(d, x0, rows, n).timeline == (TimelineView {
                tracks,
                ..x0.timeline
            })
            &&& forall|track: TrackView| #[trigger]
                x0.timeline.tracks.contains(track) ==> tracks.contains(track)
            &&& forall|i: int, j: int|
                0 <= i < n && 0 <= j < rows[i].clips.len() && shown(
                    d.compound,
                    rows[i].clips[j],
                ) ==> stands_like(tracks, rows[i], #[trigger] made_at(d, x0, rows, i, j))
            &&& forall|c: ClipView| #[trigger]
                stands(tracks, c) ==> stands(x0.timeline.tracks, c) || exists|i: int, j: int|
                    0 <= i < n && 0 <= j < rows[i].clips.len() && shown(
                        d.compound,
                        rows[i].clips[j],
                    ) && #[trigger] made_at(d, x0, rows, i, j) == c
        }),
    decreases n,
{
    if n > 0 {
        let m = n - 1;
        lemma_rows_stand(d, x0, rows, m);
        lemma_row_inserted(d, x0, rows, m);
        let b = rows_dissolved(d, x0, rows, m);
        let old_tracks = b.timeline.tracks;
        let ti = slot_at(d, x0, rows, m);
        let len = rows[m].clips.len() as int;
        let made = row_made(d, x0, rows, m, len);
        let track = TrackView {
            id: nth_id(d.ids, b.minted + 1),
            kind: rows[m].kind,
            muted: rows[m].muted,
            hidden: rows[m].hidden,
            sync_locked: rows[m].sync_locked,
            clips: by_start(made),
        };
        let tracks = rows_dissolved(d, x0, rows, n).timeline.tracks;
        lemma_inserted_tracks(old_tracks, ti, track);
        assert forall|i: int, j: int|
            0 <= i < n && 0 <= j < rows[i].clips.len() && shown(
                d.compound,
                rows[i].clips[j],
            ) implies stands_like(tracks, rows[i], #[trigger] made_at(d, x0, rows, i, j)) by {
            let e = made_at(d, x0, rows, i, j);
            if i < m {
                assert(stands_like(old_tracks, rows[i], e));
                let w = choose|w: TrackView| #[trigger]
                    old_tracks.contains(w) && switched_like(rows[i], w) && w.clips.contains(e);
                assert(tracks.contains(w));
            } else {
                lemma_row_members(d, x0, rows, m, len, e);
                lemma_sorted_members(made, e);
                assert(tracks.contains(track));
            }
        }
        assert forall|c: ClipView| #[trigger] stands(tracks, c) implies stands(
            x0.timeline.tracks,
            c,
        ) || exists|i: int, j: int|
            0 <= i < n && 0 <= j < rows[i].clips.len() && shown(d.compound, rows[i].clips[j])
                && #[trigger] made_at(d, x0, rows, i, j) == c by {
            let w = choose|w: TrackView| #[trigger] tracks.contains(w) && w.clips.contains(c);
            if w == track {
                lemma_row_members(d, x0, rows, m, len, c);
                lemma_sorted_members(made, c);
                let j = choose|j: int|
                    0 <= j < len && shown(d.compound, rows[m].clips[j]) && #[trigger] made_at(
                        d,
                        x0,
                        rows,
                        m,
                        j,
                    ) == c;
                assert(made_at(d, x0, rows, m, j) == c);
            } else {
                assert(old_tracks.contains(w));
                assert(stands(old_tracks, c));
            }
        }
    }
}

proof fn lemma_filled_members(tracks: Seq<TrackView>)
    ensures
        forall|track: TrackView| #[trigger]
            filled_tracks(tracks).contains(track) <==> tracks.contains(track) && track.clips.len()
                > 0,
    decreases tracks.len(),
{
    if tracks.len() > 0 {
        let rest = tracks.drop_last();
        lemma_filled_members(rest);
        assert(tracks =~= rest.push(tracks.last()));
        let u = filled_tracks(tracks);
        let f = filled_tracks(rest);
        assert forall|track: TrackView| #[trigger] u.contains(track) <==> tracks.contains(track)
            && track.clips.len() > 0 by {
            assert(tracks.contains(track) <==> rest.contains(track) || track == tracks.last()) by {
                lemma_pushed(rest, tracks.last(), track);
            }
            lemma_pushed(f, tracks.last(), track);
        }
    }
}

/// A list with one item more holds that item and what it held.
pub proof fn lemma_pushed<T>(s: Seq<T>, last: T, x: T)
    ensures
        s.push(last).contains(x) <==> s.contains(x) || x == last,
{
    let u = s.push(last);
    assert(u[s.len() as int] == last);
    if s.contains(x) {
        let k = choose|k: int| 0 <= k < s.len() && s[k] == x;
        assert(u[k] == x);
    }
    if u.contains(x) && x != last {
        let k = choose|k: int| 0 <= k < u.len() && u[k] == x;
        assert(s[k] == x);
    }
}

proof fn lemma_shown_grows(compound: ClipView, clips: Seq<ClipView>, k: int, n: int)
    requires
        0 <= k <= n <= clips.len(),
    ensures
        shown_clips(compound, clips.take(k)).len() <= shown_clips(compound, clips.take(n)).len(),
        forall|p: int|
            0 <= p < shown_clips(compound, clips.take(k)).len() ==> #[trigger] shown_clips(
                compound,
                clips.take(n),
            )[p] == shown_clips(compound, clips.take(k))[p],
    decreases n - k,
{
    if k < n {
        lemma_shown_grows(compound, clips, k, n - 1);
        assert(clips.take(n).drop_last() =~= clips.take(n - 1));
    }
}

/// Where a shown clip stands among the shown ones.
proof fn lemma_shown_pos(compound: ClipView, clips: Seq<ClipView>, k: int)
    requires
        0 <= k < clips.len(),
        shown(compound, clips[k]),
    ensures
        ({
            let p = shown_clips(compound, clips.take(k)).len() as int;
            &&& p < shown_clips(compound, clips).len()
            &&& shown_clips(compound, clips)[p] == clips[k]
            &&& shown_clips(compound, clips.take(k + 1)).len() == p + 1
        }),
{
    assert(clips.take(k + 1).drop_last() =~= clips.take(k));
    assert(clips.take(clips.len() as int) =~= clips);
    lemma_shown_grows(compound, clips, k + 1, clips.len() as int);
}

/// Where the clip at a position among the shown ones comes from.
proof fn lemma_shown_source(compound: ClipView, clips: Seq<ClipView>, p: int) -> (k: int)
    requires
        0 <= p < shown_clips(compound, clips).len(),
    ensures
        0 <= k < clips.len(),
        shown(compound, clips[k]),
        shown_clips(compound, clips)[p] == clips[k],
        p == shown_clips(compound, clips.take(k)).len(),
    decreases clips.len(),
{
    let rest = clips.drop_last();
    if p < shown_clips(compound, rest).len() {
        let k = lemma_shown_source(compound, rest, p);
        assert(rest.take(k) =~= clips.take(k));
        k
    } else {
        let k = clips.len() - 1;
        assert(clips.take(k) =~= rest);
        k
    }
}

proof fn lemma_group_counts(clips: Seq<ClipView>, g: Seq<char>, a: int, b: int)
    requires
        0 <= a < b < clips.len(),
        clips[a].link_group_id == Some(g),
        clips[b].link_group_id == Some(g),
    ensures
        group_size(clips, g) > 1,
    decreases clips.len(),
{
    if b < clips.len() - 1 {
        lemma_group_counts(clips.drop_last(), g, a, b);
    } else {
        lemma_group_counts_one(clips.drop_last(), g, a);
    }
}

proof fn lemma_group_counts_one(clips: Seq<ClipView>, g: Seq<char>, a: int)
    requires
        0 <= a < clips.len(),
        clips[a].link_group_id == Some(g),
    ensures
        group_size(clips, g) > 0,
    decreases clips.len(),
{
    if a < clips.len() - 1 {
        lemma_group_counts_one(clips.drop_last(), g, a);
    }
}

/// A group of two or more has a member besides any one.
proof fn lemma_group_other(clips: Seq<ClipView>, g: Seq<char>, a: int) -> (b: int)
    requires
        group_size(clips, g) > 1 || (group_size(clips, g) > 0 && !(0 <= a < clips.len()
            && clips[a].link_group_id == Some(g))),
    ensures
        0 <= b < clips.len(),
        b != a,
        clips[b].link_group_id == Some(g),
    decreases clips.len(),
{
    let n = clips.len() - 1;
    if clips.last().link_group_id == Some(g) && n != a {
        n
    } else {
        lemma_group_other(clips.drop_last(), g, a)
    }
}

/// The place of a clip of a sequence among those shown.
spec fn rank(compound: ClipView, rows: Seq<TrackView>, i: int, j: int) -> int {
    shown_clips(compound, flat_clips(rows).take(clips_before(rows, i) + j)).len() as int
}

proof fn lemma_rank(compound: ClipView, rows: Seq<TrackView>, i: int, j: int)
    requires
        shown_at(compound, rows, i, j),
    ensures
        shown(compound, rows[i].clips[j]),
        0 <= rank(compound, rows, i, j) < shown_clips(compound, flat_clips(rows)).len(),
        shown_clips(compound, flat_clips(rows))[rank(compound, rows, i, j)] == rows[i].clips[j],
{
    law_flattening_keeps_every_clip(rows, i, j);
    lemma_shown_pos(compound, flat_clips(rows), clips_before(rows, i) + j);
}

proof fn lemma_rank_apart(
    compound: ClipView,
    rows: Seq<TrackView>,
    i: int,
    j: int,
    a: int,
    b: int,
)
    requires
        shown_at(compound, rows, i, j),
        shown_at(compound, rows, a, b),
        i < a || (i == a && j < b),
    ensures
        rank(compound, rows, i, j) < rank(compound, rows, a, b),
{
    let flat = flat_clips(rows);
    law_flattening_keeps_every_clip(rows, i, j);
    law_flattening_keeps_every_clip(rows, a, b);
    if i < a {
        lemma_flat_later(rows, i, a);
    }
    let k = clips_before(rows, i) + j;
    let l = clips_before(rows, a) + b;
    lemma_shown_pos(compound, flat, k);
    lemma_shown_grows(compound, flat, k + 1, l);
}

/// A link group is shared by shown clips exactly where it has two of them.
proof fn lemma_shared(
    compound: ClipView,
    rows: Seq<TrackView>,
    i: int,
    j: int,
    g: Seq<char>,
)
    requires
        shown_at(compound, rows, i, j),
        rows[i].clips[j].link_group_id == Some(g),
    ensures
        shares_link(compound, rows, i, j) <==> group_size(
            shown_clips(compound, flat_clips(rows)),
            g,
        ) > 1,
{
    let flat = flat_clips(rows);
    let pieces = shown_clips(compound, flat);
    lemma_rank(compound, rows, i, j);
    let p = rank(compound, rows, i, j);
    if shares_link(compound, rows, i, j) {
        let (a, b) = choose|a: int, b: int| #[trigger]
            shown_at(compound, rows, a, b) && (a != i || b != j) && rows[a].clips[b].link_group_id
                == rows[i].clips[j].link_group_id;
        lemma_rank(compound, rows, a, b);
        let q = rank(compound, rows, a, b);
        if i < a || (i == a && j < b) {
            lemma_rank_apart(compound, rows, i, j, a, b);
            lemma_group_counts(pieces, g, p, q);
        } else {
            lemma_rank_apart(compound, rows, a, b, i, j);
            lemma_group_counts(pieces, g, q, p);
        }
    }
    if group_size(pieces, g) > 1 {
        let q = lemma_group_other(pieces, g, p);
        let k = lemma_shown_source(compound, flat, q);
        let place = lemma_flat_place(rows, k);
        assert(shown_at(compound, rows, place.0, place.1));
        if place.0 == i && place.1 == j {
            assert(q == p);
        }
    }
}

proof fn lemma_last_is(clips: Seq<ClipView>, id: Seq<char>, n: int)
    requires
        0 <= n <= clips.len(),
    ensures
        last_with_id(clips, id, n) matches Some(k) ==> 0 <= k < n && clips[k].id == id,
    decreases n,
{
    if n > 0 && clips[n - 1].id != id {
        lemma_last_is(clips, id, n - 1);
    }
}

/// A new id was minted for an old one exactly where a shown clip has the old one.
proof fn lemma_fresh(d: Dissolving, rows: Seq<TrackView>, id: Seq<char>)
    requires
        d.pieces == shown_clips(d.compound, flat_clips(rows)),
    ensures
        shows_id(d.compound, rows, id) <==> last_with_id(d.pieces, id, d.pieces.len() as int)
            is Some,
        last_with_id(d.pieces, id, d.pieces.len() as int) matches Some(k) ==> 0 <= k
            < d.pieces.len() && d.pieces[k].id == id,
{
    let n = d.pieces.len() as int;
    lemma_last_is(d.pieces, id, n);
    if shows_id(d.compound, rows, id) {
        let (a, b) = choose|a: int, b: int| #[trigger]
            shown_at(d.compound, rows, a, b) && rows[a].clips[b].id == id;
        lemma_rank(d.compound, rows, a, b);
        lemma_last_found(d.pieces, rank(d.compound, rows, a, b), n);
    }
    if last_with_id(d.pieces, id, n) is Some {
        let q = last_with_id(d.pieces, id, n)->0;
        let k = lemma_shown_source(d.compound, flat_clips(rows), q);
        let place = lemma_flat_place(rows, k);
        assert(shown_at(d.compound, rows, place.0, place.1));
    }
}

proof fn lemma_part(d: Dissolving, x: Dissolved, c: ClipView)
    requires
        shown(d.compound, c),
        piece_fault(d.compound, c) is None,
    ensures
        shown_part(d.compound, c, piece(d, x, c)),
{
}

/// The numbers of the new link groups.
spec fn group_numbers(d: Dissolving, end: Dissolved) -> Seq<int> {
    choose|nums: Seq<int>| #[trigger] numbered(d, end, nums)
}

spec fn number_of(d: Dissolving, end: Dissolved, g: Seq<char>) -> int {
    group_numbers(d, end)[id_index(end.groups, g, 0)->0]
}

spec fn fresh_of(d: Dissolving, id: Seq<char>) -> int {
    last_with_id(d.pieces, id, d.pieces.len() as int)->0 + 1
}

proof fn lemma_linked(d: Dissolving, x0: Dissolved, rows: Seq<TrackView>, i: int, j: int)
    requires
        good(d, x0),
        d.pieces == shown_clips(d.compound, flat_clips(rows)),
        shown_at(d.compound, rows, i, j),
    ensures
        ({
            let end = rows_dissolved(d, x0, rows, rows.len() as int);
            let e = made_at(d, x0, rows, i, j);
            match rows[i].clips[j].link_group_id {
                None => e.link_group_id is None,
                Some(g) => if shares_link(d.compound, rows, i, j) {
                    &&& e.link_group_id == Some(nth_id(d.ids, number_of(d, end, g)))
                    &&& d.pieces.len() < number_of(d, end, g)
                    &&& 0 <= id_index(end.groups, g, 0)->0 < end.groups.len()
                    &&& end.groups[id_index(end.groups, g, 0)->0] == g
                } else {
                    e.link_group_id is None
                },
            }
        }),
{
    let n = rows.len() as int;
    let end = rows_dissolved(d, x0, rows, n);
    lemma_rank(d.compound, rows, i, j);
    lemma_link_made(d, x0, rows, i, j);
    lemma_rows_good(d, x0, rows, n);
    if let Some(g) = rows[i].clips[j].link_group_id {
        lemma_shared(d.compound, rows, i, j, g);
        if shares_link(d.compound, rows, i, j) {
            let e = made_at(d, x0, rows, i, j);
            let k = choose|k: int|
                0 <= k < end.groups.len() && #[trigger] end.groups[k] == g && e.link_group_id
                    == Some(end.group_ids[k]);
            lemma_looked_up(end.groups, g, 0);
            let l = id_index(end.groups, g, 0)->0;
            assert(k == l) by {
                if k < l {
                    assert(end.groups[k] != end.groups[l]);
                }
                if l < k {
                    assert(end.groups[l] != end.groups[k]);
                }
            }
            assert(numbered(d, end, group_numbers(d, end)));
        }
    }
}

/// Whether a sequence is the first with an id.
pub open spec fn first_sequence(t: TimelineView, id: Seq<char>, q: int) -> bool {
    &&& 0 <= q < t.nested_sequences.len()
    &&& t.nested_sequences[q].id == id
    &&& forall|k: int| 0 <= k < q ==> (#[trigger] t.nested_sequences[k]).id != id
}

/// A sequence is found by its id where the first with that id stands.
pub proof fn law_sequences_are_found_by_id(t: TimelineView, id: Seq<char>, from: int, q: int)
    requires
        0 <= from <= q,
    ensures
        first_sequence(t, id, q) ==> sequence_index(t.nested_sequences, id, from) == Some(q),
        sequence_index(t.nested_sequences, id, from) is None ==> forall|k: int|
            from <= k < t.nested_sequences.len() ==> (#[trigger] t.nested_sequences[k]).id != id,
    decreases t.nested_sequences.len() - from,
{
    if from < t.nested_sequences.len() && t.nested_sequences[from].id != id {
        if from < q {
            law_sequences_are_found_by_id(t, id, from + 1, q);
        } else {
            law_sequences_are_found_by_id(t, id, from + 1, from + 1);
        }
    }
}

/// Whether the clips of a timeline are, but for transitions, those of another without
/// the clips with an id, and those that were made.
pub open spec fn holds_rest_and_made(
    t: TimelineView,
    id: Seq<char>,
    compound: ClipView,
    rows: Seq<TrackView>,
    next: TimelineView,
    made: spec_fn(int, int) -> ClipView,
) -> bool {
    &&& forall|x: int, y: int|
        0 <= x < next.tracks.len() && 0 <= y < next.tracks[x].clips.len() ==> was_there(
            t,
            id,
            #[trigger] next.tracks[x].clips[y],
        ) || was_made(compound, rows, made, next.tracks[x].clips[y])
    &&& forall|x: int, y: int|
        0 <= x < t.tracks.len() && 0 <= y < t.tracks[x].clips.len() && (
        #[trigger] t.tracks[x].clips[y]).id != id ==> appears_like(
            next,
            t.tracks[x],
            t.tracks[x].clips[y],
        )
}

proof fn lemma_appears(work: TimelineView, row: TrackView, c: ClipView)
    requires
        stands_like(work.tracks, row, c),
    ensures
        appears_like(pruned(work), row, c),
{
    law_pruning_changes_transitions_alone(work);
    let w = choose|w: TrackView| #[trigger]
        work.tracks.contains(w) && switched_like(row, w) && w.clips.contains(c);
    let x = choose|x: int| 0 <= x < work.tracks.len() && work.tracks[x] == w;
    let y = choose|y: int| 0 <= y < w.clips.len() && w.clips[y] == c;
    assert(same_track(work.tracks[x], pruned(work).tracks[x]));
    assert(same_clip(c, pruned(work).tracks[x].clips[y]));
}

/// Clips outlast the dropping of empty tracks.
proof fn lemma_outlasts(tracks: Seq<TrackView>, row: TrackView, c: ClipView)
    requires
        stands_like(tracks, row, c),
    ensures
        stands_like(filled_tracks(tracks), row, c),
{
    lemma_filled_members(tracks);
    let w = choose|w: TrackView| #[trigger]
        tracks.contains(w) && switched_like(row, w) && w.clips.contains(c);
    assert(filled_tracks(tracks).contains(w));
}

proof fn lemma_kept_clip(clips: Seq<ClipView>, ids: Seq<Seq<char>>, c: ClipView)
    ensures
        clips.filter(|c: ClipView| !ids.contains(c.id)).contains(c) <==> clips.contains(c)
            && !ids.contains(c.id),
    decreases clips.len(),
{
    reveal(Seq::filter);
    let keep = |c: ClipView| !ids.contains(c.id);
    if clips.len() > 0 {
        lemma_kept_clip(clips.drop_last(), ids, c);
        assert(clips =~= clips.drop_last().push(clips.last()));
        lemma_pushed(clips.drop_last(), clips.last(), c);
        lemma_pushed(clips.drop_last().filter(keep), clips.last(), c);
    } else {
        assert(clips.filter(keep) =~= Seq::empty());
    }
}

spec fn made_fn(d: Dissolving, x0: Dissolved, rows: Seq<TrackView>) -> spec_fn(
    int,
    int,
) -> ClipView {
    |i: int, j: int| made_at(d, x0, rows, i, j)
}

spec fn fresh_fn(d: Dissolving) -> spec_fn(Seq<char>) -> int {
    |id: Seq<char>| fresh_of(d, id)
}

spec fn number_fn(d: Dissolving, end: Dissolved) -> spec_fn(Seq<char>) -> int {
    |g: Seq<char>| number_of(d, end, g)
}

proof fn lemma_made_of(d: Dissolving, x0: Dissolved, rows: Seq<TrackView>, i: int, j: int)
    requires
        good(d, x0),
        d.pieces == shown_clips(d.compound, flat_clips(rows)),
        pieces_fault(d.compound, flat_clips(rows), 0) is None,
        shown_at(d.compound, rows, i, j),
    ensures
        made_of(
            d.compound,
            rows,
            d.ids,
            i,
            j,
            made_at(d, x0, rows, i, j),
            fresh_fn(d),
            number_fn(d, rows_dissolved(d, x0, rows, rows.len() as int)),
        ),
{
    let c = rows[i].clips[j];
    lemma_rank(d.compound, rows, i, j);
    law_flattening_keeps_every_clip(rows, i, j);
    lemma_no_piece_fault(d.compound, flat_clips(rows), 0, clips_before(rows, i) + j);
    lemma_part(d, group_met(d, state_at(d, x0, rows, i, j), c.link_group_id), c);
    assert(shows_id(d.compound, rows, c.id));
    lemma_fresh(d, rows, c.id);
    lemma_linked(d, x0, rows, i, j);
    if let Some(tr) = c.transition_out {
        lemma_fresh(d, rows, tr.to_clip_id);
    }
}

proof fn lemma_told_apart(
    d: Dissolving,
    x0: Dissolved,
    rows: Seq<TrackView>,
    i: int,
    j: int,
    a: int,
    b: int,
)
    requires
        good(d, x0),
        d.pieces == shown_clips(d.compound, flat_clips(rows)),
        shown_at(d.compound, rows, i, j),
        shown_at(d.compound, rows, a, b),
    ensures
        told_apart(
            d.compound,
            rows,
            i,
            j,
            a,
            b,
            fresh_fn(d),
            number_fn(d, rows_dissolved(d, x0, rows, rows.len() as int)),
        ),
{
    let end = rows_dissolved(d, x0, rows, rows.len() as int);
    lemma_rows_good(d, x0, rows, rows.len() as int);
    assert(shows_id(d.compound, rows, rows[i].clips[j].id));
    assert(shows_id(d.compound, rows, rows[a].clips[b].id));
    lemma_fresh(d, rows, rows[i].clips[j].id);
    lemma_fresh(d, rows, rows[a].clips[b].id);
    lemma_linked(d, x0, rows, i, j);
    lemma_linked(d, x0, rows, a, b);
    let nums = group_numbers(d, end);
    assert(numbered(d, end, nums));
    if rows[i].clips[j].link_group_id is Some && shares_link(d.compound, rows, i, j)
        && rows[a].clips[b].link_group_id is Some && shares_link(d.compound, rows, a, b)
        && rows[i].clips[j].link_group_id != rows[a].clips[b].link_group_id {
        let k = id_index(end.groups, rows[i].clips[j].link_group_id->0, 0)->0;
        let l = id_index(end.groups, rows[a].clips[b].link_group_id->0, 0)->0;
        assert(k != l);
        if k < l {
            assert(nums[k] < nums[l]);
        } else {
            assert(nums[l] < nums[k]);
        }
    }
}

proof fn lemma_dissolves_into(d: Dissolving, x0: Dissolved, rows: Seq<TrackView>)
    requires
        good(d, x0),
        d.pieces == shown_clips(d.compound, flat_clips(rows)),
        pieces_fault(d.compound, flat_clips(rows), 0) is None,
    ensures
        ({
            let end = rows_dissolved(d, x0, rows, rows.len() as int);
            dissolves_into(
                d.compound,
                rows,
                d.ids,
                pruned(without_empty_tracks(end.timeline)),
                made_fn(d, x0, rows),
                fresh_fn(d),
                number_fn(d, end),
            )
        }),
{
    let n = rows.len() as int;
    let end = rows_dissolved(d, x0, rows, n);
    let work = without_empty_tracks(end.timeline);
    let made = made_fn(d, x0, rows);
    let fresh = fresh_fn(d);
    let number = number_fn(d, end);
    lemma_rows_stand(d, x0, rows, n);
    assert forall|i: int, j: int| #[trigger]
        shown_at(d.compound, rows, i, j) implies appears_like(pruned(work), rows[i], made(i, j))
        && made_of(d.compound, rows, d.ids, i, j, made(i, j), fresh, number) by {
        let e = made_at(d, x0, rows, i, j);
        lemma_rank(d.compound, rows, i, j);
        lemma_outlasts(end.timeline.tracks, rows[i], e);
        lemma_appears(work, rows[i], e);
        lemma_made_of(d, x0, rows, i, j);
    }
    assert forall|i: int, j: int, a: int, b: int| #[trigger]
        shown_at(d.compound, rows, i, j) && #[trigger] shown_at(
            d.compound,
            rows,
            a,
            b,
        ) implies told_apart(d.compound, rows, i, j, a, b, fresh, number) by {
        lemma_told_apart(d, x0, rows, i, j, a, b);
    }
}

proof fn lemma_whence(
    t: TimelineView,
    clip_id: Seq<char>,
    d: Dissolving,
    x0: Dissolved,
    rows: Seq<TrackView>,
    x: int,
    y: int,
)
    requires
        x0.timeline == without_clips(t, seq![clip_id]),
        ({
            let end = rows_dissolved(d, x0, rows, rows.len() as int);
            let next = pruned(without_empty_tracks(end.timeline));
            0 <= x < next.tracks.len() && 0 <= y < next.tracks[x].clips.len()
        }),
    ensures
        ({
            let end = rows_dissolved(d, x0, rows, rows.len() as int);
            let next = pruned(without_empty_tracks(end.timeline));
            was_there(t, clip_id, next.tracks[x].clips[y]) || was_made(
                d.compound,
                rows,
                made_fn(d, x0, rows),
                next.tracks[x].clips[y],
            )
        }),
{
    let n = rows.len() as int;
    let end = rows_dissolved(d, x0, rows, n);
    let work = without_empty_tracks(end.timeline);
    let next = pruned(work);
    let made = made_fn(d, x0, rows);
    law_pruning_changes_transitions_alone(work);
    lemma_rows_stand(d, x0, rows, n);
    let e = next.tracks[x].clips[y];
    assert(same_track(work.tracks[x], next.tracks[x]));
    let c = work.tracks[x].clips[y];
    assert(same_clip(c, e));
    lemma_filled_members(end.timeline.tracks);
    assert(work.tracks.contains(work.tracks[x]));
    assert(end.timeline.tracks.contains(work.tracks[x]));
    assert(work.tracks[x].clips.contains(c));
    assert(stands(end.timeline.tracks, c));
    if stands(x0.timeline.tracks, c) {
        let w = choose|w: TrackView| #[trigger]
            x0.timeline.tracks.contains(w) && w.clips.contains(c);
        let k = choose|k: int| 0 <= k < x0.timeline.tracks.len() && x0.timeline.tracks[k] == w;
        law_clips_are_taken_out_by_id(t, seq![clip_id], k);
        lemma_kept_clip(t.tracks[k].clips, seq![clip_id], c);
        assert(seq![clip_id][0] == clip_id);
        let l = choose|l: int| 0 <= l < t.tracks[k].clips.len() && t.tracks[k].clips[l] == c;
        assert(same_clip(t.tracks[k].clips[l], e));
    } else {
        let (i, j) = choose|i: int, j: int|
            0 <= i < n && 0 <= j < rows[i].clips.len() && shown(d.compound, rows[i].clips[j])
                && #[trigger] made_at(d, x0, rows, i, j) == c;
        assert(shown_at(d.compound, rows, i, j) && same_clip(made(i, j), e));
    }
}

proof fn lemma_left_there(
    t: TimelineView,
    clip_id: Seq<char>,
    d: Dissolving,
    x0: Dissolved,
    rows: Seq<TrackView>,
    x: int,
    y: int,
)
    requires
        x0.timeline == without_clips(t, seq![clip_id]),
        0 <= x < t.tracks.len(),
        0 <= y < t.tracks[x].clips.len(),
        t.tracks[x].clips[y].id != clip_id,
    ensures
        ({
            let end = rows_dissolved(d, x0, rows, rows.len() as int);
            appears_like(
                pruned(without_empty_tracks(end.timeline)),
                t.tracks[x],
                t.tracks[x].clips[y],
            )
        }),
{
    let n = rows.len() as int;
    let end = rows_dissolved(d, x0, rows, n);
    let work = without_empty_tracks(end.timeline);
    lemma_rows_stand(d, x0, rows, n);
    let c = t.tracks[x].clips[y];
    law_clips_are_taken_out_by_id(t, seq![clip_id], x);
    lemma_kept_clip(t.tracks[x].clips, seq![clip_id], c);
    assert(t.tracks[x].clips.contains(c));
    assert(!seq![clip_id].contains(c.id));
    let w = x0.timeline.tracks[x];
    assert(w.clips.contains(c));
    assert(x0.timeline.tracks.contains(w));
    assert(end.timeline.tracks.contains(w));
    assert(stands_like(end.timeline.tracks, t.tracks[x], c));
    lemma_outlasts(end.timeline.tracks, t.tracks[x], c);
    lemma_appears(work, t.tracks[x], c);
}

/// Dissolving a compound puts in its place the shown part of every clip of its sequence
/// that it shows, on a track of the same kind that is switched the same. Shown clips
/// that share a link group share a new one, minted by this edit; clips of different
/// groups get different ones; a clip whose group no other shown clip shares gets none. A
/// transition to a shown clip leads to what was made of it. Clips get new ids of their
/// own. All other clips stay, and no other clip appears.
pub proof fn law_compounds_dissolve_into_what_they_show(
    s: StateView,
    clip_id: Seq<char>,
    ids: IdsView,
    registry_fault: Option<Seq<char>>,
    ti: int,
    ci: int,
    q: int,
)
    requires
        dissolve_nested_sequence_spec(s, clip_id, ids, registry_fault).0 is Ok,
        first_clip(s.timeline, clip_id, ti, ci),
        s.timeline.tracks[ti].clips[ci].nested_sequence_id is Some,
        first_sequence(s.timeline, s.timeline.tracks[ti].clips[ci].nested_sequence_id->0, q),
    ensures
        ({
            let next = dissolve_nested_sequence_spec(s, clip_id, ids, registry_fault).1;
            let compound = s.timeline.tracks[ti].clips[ci];
            let rows = s.timeline.nested_sequences[q].timeline.tracks;
            &&& next.manifest == s.manifest
            &&& same_frame(s.timeline, next.timeline)
            &&& exists|
                made: spec_fn(int, int) -> ClipView,
                fresh: spec_fn(Seq<char>) -> int,
                number: spec_fn(Seq<char>) -> int,
            |
                #[trigger] dissolves_into(
                    compound,
                    rows,
                    ids,
                    next.timeline,
                    made,
                    fresh,
                    number,
                ) && holds_rest_and_made(
                    s.timeline,
                    clip_id,
                    compound,
                    rows,
                    next.timeline,
                    made,
                )
        }),
{
    let t = s.timeline;
    let compound = t.tracks[ti].clips[ci];
    let rows = t.nested_sequences[q].timeline.tracks;
    law_clips_are_found_by_id(t, clip_id);
    law_sequences_are_found_by_id(t, compound.nested_sequence_id->0, 0, q);
    let d = Dissolving { compound, pieces: shown_clips(compound, flat_clips(rows)), ids };
    let x0 = Dissolved {
        timeline: without_clips(t, seq![clip_id]),
        groups: Seq::empty(),
        group_ids: Seq::empty(),
        minted: d.pieces.len() as int,
        affected: Seq::empty(),
    };
    let n = rows.len() as int;
    let end = rows_dissolved(d, x0, rows, n);
    let work = without_empty_tracks(end.timeline);
    let next = dissolve_nested_sequence_spec(s, clip_id, ids, registry_fault).1;
    assert(next.timeline == pruned(work));
    assert(numbered(d, x0, Seq::empty()));
    law_pruning_changes_transitions_alone(work);
    lemma_rows_stand(d, x0, rows, n);
    assert(same_frame(t, next.timeline));
    lemma_dissolves_into(d, x0, rows);
    let made = made_fn(d, x0, rows);
    assert forall|x: int, y: int|
        0 <= x < next.timeline.tracks.len() && 0 <= y
            < next.timeline.tracks[x].clips.len() implies was_there(
        t,
        clip_id,
        #[trigger] next.timeline.tracks[x].clips[y],
    ) || was_made(compound, rows, made, next.timeline.tracks[x].clips[y]) by {
        lemma_whence(t, clip_id, d, x0, rows, x, y);
    }
    assert forall|x: int, y: int|
        0 <= x < t.tracks.len() && 0 <= y < t.tracks[x].clips.len() && (
        #[trigger] t.tracks[x].clips[y]).id != clip_id implies appears_like(
        next.timeline,
        t.tracks[x],
        t.tracks[x].clips[y],
    ) by {
        lemma_left_there(t, clip_id, d, x0, rows, x, y);
    }
    assert(holds_rest_and_made(t, clip_id, compound, rows, next.timeline, made));
}

} // verus!
