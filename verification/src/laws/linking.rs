//! Which clips a selection takes along.

use crate::commands::effects::missing_clip;
use crate::laws::arranging::clips_before;
use crate::laws::arranging::law_flattening_keeps_every_clip;
use crate::laws::arranging::lemma_flat_place;
use crate::laws::document::has_clip;
use crate::laws::document::law_clips_are_found_by_id;
use crate::links::distinct;
use crate::links::flat_clips;
use crate::links::group_selected;
use crate::links::law_expansion_holds_whole_groups;
use crate::links::law_expansion_keeps_selection;
use crate::links::lemma_distinct_contains;
use crate::links::lemma_distinct_unique;
use crate::links::link_expanded;
use crate::links::partner_ids;
use crate::links::regrouped;
use crate::model::ClipView;
use crate::model::TimelineView;
use crate::model::TrackView;
use vstd::prelude::*;

verus! {

/// Whether a place of a timeline holds a clip.
pub open spec fn placed_at(t: TimelineView, i: int, j: int) -> bool {
    0 <= i < t.tracks.len() && 0 <= j < t.tracks[i].clips.len()
}

/// Whether the clip at a place is linked to a selected one.
pub open spec fn linked_to(t: TimelineView, ids: Seq<Seq<char>>, i: int, j: int) -> bool {
    exists|a: int, b: int| #[trigger]
        placed_at(t, a, b) && ids.contains(t.tracks[a].clips[b].id)
            && t.tracks[a].clips[b].link_group_id is Some && t.tracks[a].clips[b].link_group_id
            == t.tracks[i].clips[j].link_group_id
}

/// Whether an id is selected, or is that of a clip that is linked to a selected one.
pub open spec fn taken_along(t: TimelineView, ids: Seq<Seq<char>>, id: Seq<char>) -> bool {
    ids.contains(id) || exists|i: int, j: int| #[trigger]
        placed_at(t, i, j) && t.tracks[i].clips[j].id == id && linked_to(t, ids, i, j)
}

proof fn lemma_partner_source(
    clips: Seq<ClipView>,
    all: Seq<ClipView>,
    ids: Seq<Seq<char>>,
    id: Seq<char>,
) -> (k: int)
    requires
        partner_ids(clips, all, ids).contains(id),
    ensures
        0 <= k < clips.len(),
        clips[k].id == id,
        clips[k].link_group_id is Some,
        group_selected(all, ids, clips[k].link_group_id->0),
    decreases clips.len(),
{
    let p = partner_ids(clips, all, ids);
    let x = choose|x: int| 0 <= x < p.len() && p[x] == id;
    let rest = clips.drop_last();
    let q = partner_ids(rest, all, ids);
    if x < q.len() {
        assert(q[x] == id);
        lemma_partner_source(rest, all, ids, id)
    } else {
        clips.len() - 1
    }
}

/// Expanding a selection to whole link groups gives the selected ids and those of all
/// clips that are linked to a selected one, each once, and no others.
pub proof fn law_selections_expand_to_their_links(
    t: TimelineView,
    ids: Seq<Seq<char>>,
    id: Seq<char>,
)
    ensures
        link_expanded(t, ids).contains(id) <==> taken_along(t, ids, id),
        link_expanded(t, ids).no_duplicates(),
{
    let all = flat_clips(t.tracks);
    let p = partner_ids(all, all, ids);
    let s = ids + p;
    lemma_distinct_unique(s);
    lemma_distinct_contains(s, id);
    if link_expanded(t, ids).contains(id) && !ids.contains(id) {
        let x = choose|x: int| 0 <= x < s.len() && s[x] == id;
        if x < ids.len() {
            assert(ids[x] == id);
        }
        assert(p[x - ids.len()] == id);
        let k = lemma_partner_source(all, all, ids, id);
        let place = lemma_flat_place(t.tracks, k);
        let g = all[k].link_group_id->0;
        let y = choose|y: int|
            0 <= y < all.len() && (#[trigger] all[y]).link_group_id == Some(g) && ids.contains(
                all[y].id,
            );
        let other = lemma_flat_place(t.tracks, y);
        assert(placed_at(t, other.0, other.1));
        assert(linked_to(t, ids, place.0, place.1));
        assert(placed_at(t, place.0, place.1));
    }
    if taken_along(t, ids, id) {
        if ids.contains(id) {
            law_expansion_keeps_selection(t, ids, id);
        } else {
            let (i, j) = choose|i: int, j: int| #[trigger]
                placed_at(t, i, j) && t.tracks[i].clips[j].id == id && linked_to(t, ids, i, j);
            let (a, b) = choose|a: int, b: int| #[trigger]
                placed_at(t, a, b) && ids.contains(t.tracks[a].clips[b].id)
                    && t.tracks[a].clips[b].link_group_id is Some
                    && t.tracks[a].clips[b].link_group_id == t.tracks[i].clips[j].link_group_id;
            law_flattening_keeps_every_clip(t.tracks, i, j);
            law_flattening_keeps_every_clip(t.tracks, a, b);
            law_expansion_holds_whole_groups(
                t,
                ids,
                clips_before(t.tracks, a) + b,
                clips_before(t.tracks, i) + j,
            );
        }
    }
}

/// Dropping repetitions keeps every item once, in the order of its first occurrence.
pub proof fn law_repetitions_are_dropped(s: Seq<Seq<char>>)
    ensures
        distinct(s).no_duplicates(),
        forall|x: Seq<char>| #[trigger] distinct(s).contains(x) <==> s.contains(x),
        s.no_duplicates() ==> distinct(s) == s,
    decreases s.len(),
{
    lemma_distinct_unique(s);
    assert forall|x: Seq<char>| #[trigger] distinct(s).contains(x) <==> s.contains(x) by {
        lemma_distinct_contains(s, x);
    }
    if s.len() > 0 && s.no_duplicates() {
        let rest = s.drop_last();
        assert(rest.no_duplicates());
        law_repetitions_are_dropped(rest);
        assert(!rest.contains(s.last())) by {
            if rest.contains(s.last()) {
                let i = choose|i: int| 0 <= i < rest.len() && rest[i] == s.last();
                assert(s[i] == s[s.len() - 1]);
            }
        }
        assert(rest.push(s.last()) =~= s);
    }
}

/// Setting the link group of clips by id sets it on exactly the clips with these ids and
/// changes nothing else.
pub proof fn law_regrouping_sets_the_group_by_id(
    t: TimelineView,
    ids: Seq<Seq<char>>,
    group: Option<Seq<char>>,
    i: int,
    j: int,
)
    requires
        placed_at(t, i, j),
    ensures
        regrouped(t, ids, group) == (TimelineView { tracks: regrouped(t, ids, group).tracks, ..t }),
        regrouped(t, ids, group).tracks.len() == t.tracks.len(),
        regrouped(t, ids, group).tracks[i] == (TrackView {
            clips: regrouped(t, ids, group).tracks[i].clips,
            ..t.tracks[i]
        }),
        regrouped(t, ids, group).tracks[i].clips.len() == t.tracks[i].clips.len(),
        ids.contains(t.tracks[i].clips[j].id) ==> regrouped(t, ids, group).tracks[i].clips[j] == (
        ClipView { link_group_id: group, ..t.tracks[i].clips[j] }),
        !ids.contains(t.tracks[i].clips[j].id) ==> regrouped(t, ids, group).tracks[i].clips[j]
            == t.tracks[i].clips[j],
{
}

/// A selection names a missing clip exactly where some id of it is that of no clip; the
/// first such id is told.
pub proof fn law_missing_clips_are_told(t: TimelineView, ids: Seq<Seq<char>>, from: int)
    requires
        0 <= from,
    ensures
        match missing_clip(t, ids, from) {
            None => forall|k: int| from <= k < ids.len() ==> has_clip(t, #[trigger] ids[k]),
            Some(id) => exists|k: int|
                from <= k < ids.len() && #[trigger] ids[k] == id && !has_clip(t, id) && forall|l: int|
                    from <= l < k ==> has_clip(t, #[trigger] ids[l]),
        },
    decreases ids.len() - from,
{
    if from < ids.len() {
        law_clips_are_found_by_id(t, ids[from]);
        law_missing_clips_are_told(t, ids, from + 1);
        if let Some(id) = missing_clip(t, ids, from) {
            if has_clip(t, ids[from]) {
                let k = choose|k: int|
                    from + 1 <= k < ids.len() && #[trigger] ids[k] == id && !has_clip(t, id)
                        && forall|l: int| from + 1 <= l < k ==> has_clip(t, #[trigger] ids[l]);
                assert(ids[k] == id);
            } else {
                assert(ids[from] == id);
            }
        }
    }
}

} // verus!
