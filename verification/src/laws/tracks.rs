//! What the commands on tracks and links do to the list of tracks.

use crate::commands::tracks::index_seen;
use crate::commands::tracks::insert_track_spec;
use crate::commands::tracks::lemma_first_audio;
use crate::commands::tracks::link_spec;
use crate::commands::tracks::remove_tracks_spec;
use crate::commands::tracks::set_track_props_spec;
use crate::commands::tracks::swap_tracks_spec;
use crate::commands::tracks::track_ids_at;
use crate::commands::tracks::track_inserted;
use crate::commands::tracks::track_slot;
use crate::commands::tracks::tracks_swapped;
use crate::commands::tracks::tracks_without;
use crate::commands::tracks::unlink_spec;
use crate::commands::tracks::with_flags;
use crate::ids::IdsView;
use crate::ids::nth_id;
use crate::laws::document::has_clip;
use crate::laws::document::law_pruning_changes_transitions_alone;
use crate::laws::document::same_clip;
use crate::laws::document::same_frame;
use crate::laws::document::same_timeline;
use crate::laws::document::same_track;
use crate::laws::effects::same_layout;
use crate::laws::linking::law_missing_clips_are_told;
use crate::laws::linking::law_regrouping_sets_the_group_by_id;
use crate::laws::linking::law_selections_expand_to_their_links;
use crate::laws::linking::placed_at;
use crate::laws::linking::taken_along;
use crate::links::link_expanded;
use crate::links::regrouped;
use crate::locate::with_track;
use crate::model::ClipType;
use crate::model::ClipView;
use crate::model::TimelineView;
use crate::model::TrackView;
use crate::state::StateView;
use crate::transitions::pruned;
use vstd::prelude::*;

verus! {

/// Whether a position is the one for a new track of a kind: the one that was asked for,
/// as far as no audio track comes before a visual one and an audio track comes no sooner
/// than the first of them.
pub open spec fn in_its_zone(tracks: Seq<TrackView>, kind: ClipType, asked: int, p: int) -> bool {
    let n = tracks.len() as int;
    let clear = forall|i: int| 0 <= i < p ==> !((#[trigger] tracks[i]).kind is Audio);
    if kind is Audio {
        ||| p == asked && (p == n || exists|i: int|
            0 <= i <= p && (#[trigger] tracks[i]).kind is Audio)
        ||| p == n && asked > n
        ||| p > asked && clear && (p == n || tracks[p].kind is Audio)
    } else {
        clear && (p == asked || (p < asked && (p == n || tracks[p].kind is Audio)))
    }
}

/// Inserting a track puts one new, empty, audible, visible, sync-locked track of the kind
/// where it was asked for, or as near to it as keeps visual tracks before the first
/// audio track; the other tracks stay, in order.
pub proof fn law_tracks_are_inserted_in_their_zone(
    s: StateView,
    kind: ClipType,
    at: Option<usize>,
    ids: IdsView,
    registry_fault: Option<Seq<char>>,
)
    ensures
        ({
            let (r, next) = insert_track_spec(s, kind, at, ids, registry_fault);
            let n = s.timeline.tracks.len() as int;
            let asked = if at is Some {
                at->0 as int
            } else {
                n
            };
            &&& r is Err ==> next == s
            &&& r is Ok ==> {
                &&& next.manifest == s.manifest
                &&& same_frame(s.timeline, next.timeline)
                &&& next.timeline.tracks.len() == n + 1
                &&& exists|p: int|
                    0 <= p <= n && #[trigger] next.timeline.tracks[p] == (TrackView {
                        id: nth_id(ids, 1),
                        kind,
                        muted: false,
                        hidden: false,
                        sync_locked: true,
                        clips: Seq::empty(),
                    }) && (forall|i: int|
                        0 <= i < n ==> same_track(
                            #[trigger] s.timeline.tracks[i],
                            next.timeline.tracks[if i < p {
                                i
                            } else {
                                i + 1
                            }],
                        )) && in_its_zone(s.timeline.tracks, kind, asked, p)
            }
        }),
{
    let (r, next) = insert_track_spec(s, kind, at, ids, registry_fault);
    let t = s.timeline;
    let n = t.tracks.len() as int;
    let asked = if at is Some {
        at->0 as int
    } else {
        n
    };
    lemma_first_audio(t.tracks, 0);
    let p = track_slot(t.tracks, asked, kind);
    let work = track_inserted(t, asked, kind, nth_id(ids, 1));
    if r is Ok {
        assert(next.timeline == pruned(work));
        law_pruning_changes_transitions_alone(work);
        assert(same_track(work.tracks[p], next.timeline.tracks[p]));
        assert(next.timeline.tracks[p].clips =~= Seq::empty());
        assert forall|i: int| 0 <= i < n implies same_track(
            #[trigger] t.tracks[i],
            next.timeline.tracks[if i < p {
                i
            } else {
                i + 1
            }],
        ) by {
            let k = if i < p {
                i
            } else {
                i + 1
            };
            assert(work.tracks[k] == t.tracks[i]);
            assert(same_track(work.tracks[k], next.timeline.tracks[k]));
        }
    }
}

/// Setting the switches of a track sets those that are named on that track and changes
/// nothing else; the track has to be there.
pub proof fn law_switches_are_set(
    s: StateView,
    index: usize,
    muted: Option<bool>,
    hidden: Option<bool>,
    sync_locked: Option<bool>,
    registry_fault: Option<Seq<char>>,
)
    ensures
        ({
            let (r, next) = set_track_props_spec(
                s,
                index,
                muted,
                hidden,
                sync_locked,
                registry_fault,
            );
            let n = s.timeline.tracks.len();
            let a = s.timeline.tracks[index as int];
            let b = next.timeline.tracks[index as int];
            &&& r is Err ==> next == s
            &&& index >= n ==> r is Err
            &&& r is Ok ==> {
                &&& next.manifest == s.manifest
                &&& same_frame(s.timeline, next.timeline)
                &&& next.timeline.tracks.len() == n
                &&& forall|i: int|
                    0 <= i < n && i != index ==> #[trigger] same_track(
                        s.timeline.tracks[i],
                        next.timeline.tracks[i],
                    )
                &&& same_track(
                    TrackView {
                        muted: b.muted,
                        hidden: b.hidden,
                        sync_locked: b.sync_locked,
                        ..a
                    },
                    b,
                )
                &&& b.muted == (if muted is Some {
                    muted->0
                } else {
                    a.muted
                })
                &&& b.hidden == (if hidden is Some {
                    hidden->0
                } else {
                    a.hidden
                })
                &&& b.sync_locked == (if sync_locked is Some {
                    sync_locked->0
                } else {
                    a.sync_locked
                })
            }
        }),
{
    let (r, next) = set_track_props_spec(s, index, muted, hidden, sync_locked, registry_fault);
    let t = s.timeline;
    if r is Ok {
        let work = with_track(
            t,
            index as int,
            with_flags(t.tracks[index as int], muted, hidden, sync_locked),
        );
        assert(next.timeline == pruned(work));
        law_pruning_changes_transitions_alone(work);
        assert(same_track(work.tracks[index as int], next.timeline.tracks[index as int]));
        assert forall|i: int| 0 <= i < t.tracks.len() && i != index implies #[trigger] same_track(
            t.tracks[i],
            next.timeline.tracks[i],
        ) by {
            assert(same_track(work.tracks[i], next.timeline.tracks[i]));
        }
    }
}

/// Swapping two tracks of one kind exchanges them; of two kinds nothing moves. All other
/// tracks stay where they are, and both have to be there.
pub proof fn law_tracks_of_a_kind_change_places(
    s: StateView,
    a: usize,
    b: usize,
    registry_fault: Option<Seq<char>>,
)
    ensures
        ({
            let (r, next) = swap_tracks_spec(s, a, b, registry_fault);
            let t = s.timeline;
            let n = t.tracks.len();
            &&& r is Err ==> next == s
            &&& a >= n || b >= n ==> r is Err
            &&& r is Ok ==> {
                &&& next.manifest == s.manifest
                &&& same_frame(t, next.timeline)
                &&& next.timeline.tracks.len() == n
                &&& forall|i: int|
                    0 <= i < n ==> same_track(
                        t.tracks[if t.tracks[a as int].kind != t.tracks[b as int].kind {
                            i
                        } else if i == a {
                            b as int
                        } else if i == b {
                            a as int
                        } else {
                            i
                        }],
                        #[trigger] next.timeline.tracks[i],
                    )
            }
        }),
{
    let (r, next) = swap_tracks_spec(s, a, b, registry_fault);
    let t = s.timeline;
    if r is Ok {
        let work = tracks_swapped(t, a as int, b as int);
        assert(next.timeline == pruned(work));
        law_pruning_changes_transitions_alone(work);
        assert forall|i: int| 0 <= i < t.tracks.len() implies same_track(
            work.tracks[i],
            #[trigger] next.timeline.tracks[i],
        ) by {
            assert(same_track(work.tracks[i], next.timeline.tracks[i]));
        }
    }
}

proof fn lemma_tracks_without(tracks: Seq<TrackView>, ids: Seq<Seq<char>>)
    ensures
        tracks_without(tracks, ids) == tracks.filter(|t: TrackView| !ids.contains(t.id)),
    decreases tracks.len(),
{
    reveal(Seq::filter);
    let keep = |t: TrackView| !ids.contains(t.id);
    if tracks.len() > 0 {
        lemma_tracks_without(tracks.drop_last(), ids);
    } else {
        assert(tracks.filter(keep) =~= Seq::empty());
    }
}

proof fn lemma_ids_at(tracks: Seq<TrackView>, indexes: Seq<usize>, n: int, id: Seq<char>)
    requires
        0 <= n <= indexes.len(),
    ensures
        match track_ids_at(tracks, indexes, n) {
            Ok(ids) => (forall|k: int| 0 <= k < n ==> #[trigger] indexes[k] < tracks.len()) && (
            ids.contains(id) <==> exists|k: int|
                0 <= k < n && tracks[#[trigger] indexes[k] as int].id == id),
            Err(i) => exists|k: int| 0 <= k < n && #[trigger] indexes[k] >= tracks.len(),
        },
    decreases n,
{
    if n > 0 {
        lemma_ids_at(tracks, indexes, n - 1, id);
        if let Ok(ids) = track_ids_at(tracks, indexes, n - 1) {
            let i = indexes[n - 1];
            if index_seen(indexes, n - 1) {
                let k = choose|k: int| 0 <= k < n - 1 && #[trigger] indexes[k] == indexes[n - 1];
                assert(indexes[k] < tracks.len());
            } else if i < tracks.len() {
                let more = ids.push(tracks[i as int].id);
                assert(more[ids.len() as int] == tracks[i as int].id);
                if ids.contains(id) {
                    let x = choose|x: int| 0 <= x < ids.len() && ids[x] == id;
                    assert(more[x] == id);
                }
                if more.contains(id) && tracks[i as int].id != id {
                    let x = choose|x: int| 0 <= x < more.len() && more[x] == id;
                    assert(ids[x] == id);
                }
            }
        }
    }
}

/// Whether a track has the id of one of the named tracks.
pub open spec fn named_track(tracks: Seq<TrackView>, indexes: Seq<usize>, track: TrackView) -> bool {
    exists|k: int|
        0 <= k < indexes.len() && indexes[k] < tracks.len() && tracks[#[trigger] indexes[k] as int].id
            == track.id
}

/// Removing tracks takes exactly the named ones out, with all their clips, and leaves the
/// others in order. All have to be there.
pub proof fn law_named_tracks_are_removed(
    s: StateView,
    indexes: Seq<usize>,
    registry_fault: Option<Seq<char>>,
)
    ensures
        ({
            let (r, next) = remove_tracks_spec(s, indexes, registry_fault);
            let t = s.timeline;
            &&& r is Err ==> next == s
            &&& r is Ok ==> indexes.len() > 0
            &&& r is Ok ==> forall|k: int|
                0 <= k < indexes.len() ==> #[trigger] indexes[k] < t.tracks.len()
            &&& r is Ok ==> next.manifest == s.manifest
            &&& r is Ok ==> same_timeline(
                TimelineView {
                    tracks: t.tracks.filter(
                        |track: TrackView| !named_track(t.tracks, indexes, track),
                    ),
                    ..t
                },
                next.timeline,
            )
        }),
{
    let (r, next) = remove_tracks_spec(s, indexes, registry_fault);
    let t = s.timeline;
    if r is Ok {
        let n = indexes.len() as int;
        lemma_ids_at(t.tracks, indexes, n, Seq::empty());
        let ids = track_ids_at(t.tracks, indexes, n)->Ok_0;
        lemma_tracks_without(t.tracks, ids);
        let a = |track: TrackView| !ids.contains(track.id);
        let b = |track: TrackView| !named_track(t.tracks, indexes, track);
        assert forall|track: TrackView| #[trigger] a(track) == b(track) by {
            lemma_ids_at(t.tracks, indexes, n, track.id);
        }
        assert(a =~= b);
        law_pruning_changes_transitions_alone(
            TimelineView { tracks: tracks_without(t.tracks, ids), ..t },
        );
    }
}

/// Linking puts exactly the clips with the named ids into one new link group and changes
/// nothing else. It takes two ids or more, all of clips that are there.
pub proof fn law_linked_clips_share_a_new_group(
    s: StateView,
    clip_ids: Seq<Seq<char>>,
    ids: IdsView,
    registry_fault: Option<Seq<char>>,
    i: int,
    j: int,
)
    requires
        placed_at(s.timeline, i, j),
    ensures
        ({
            let (r, next) = link_spec(s, clip_ids, ids, registry_fault);
            let c = s.timeline.tracks[i].clips[j];
            let d = next.timeline.tracks[i].clips[j];
            &&& r is Err ==> next == s
            &&& r is Ok ==> {
                &&& clip_ids.len() >= 2
                &&& forall|k: int|
                    0 <= k < clip_ids.len() ==> has_clip(s.timeline, #[trigger] clip_ids[k])
                &&& next.manifest == s.manifest
                &&& same_layout(s.timeline, next.timeline)
                &&& clip_ids.contains(c.id) ==> same_clip(
                    ClipView { link_group_id: Some(nth_id(ids, 1)), ..c },
                    d,
                )
                &&& !clip_ids.contains(c.id) ==> same_clip(c, d)
            }
        }),
{
    let (r, next) = link_spec(s, clip_ids, ids, registry_fault);
    law_missing_clips_are_told(s.timeline, clip_ids, 0);
    if r is Ok {
        lemma_regrouped(s.timeline, next.timeline, clip_ids, Some(nth_id(ids, 1)), i, j);
    }
}

proof fn lemma_regrouped(
    t: TimelineView,
    next: TimelineView,
    ids: Seq<Seq<char>>,
    group: Option<Seq<char>>,
    i: int,
    j: int,
)
    requires
        placed_at(t, i, j),
        next == pruned(regrouped(t, ids, group)),
    ensures
        same_layout(t, next),
        ids.contains(t.tracks[i].clips[j].id) ==> same_clip(
            ClipView { link_group_id: group, ..t.tracks[i].clips[j] },
            next.tracks[i].clips[j],
        ),
        !ids.contains(t.tracks[i].clips[j].id) ==> same_clip(
            t.tracks[i].clips[j],
            next.tracks[i].clips[j],
        ),
{
    let work = regrouped(t, ids, group);
    law_pruning_changes_transitions_alone(work);
    law_regrouping_sets_the_group_by_id(t, ids, group, i, j);
    assert forall|x: int| 0 <= x < t.tracks.len() implies (#[trigger] next.tracks[x]) == (
    TrackView { clips: next.tracks[x].clips, ..t.tracks[x] }) && next.tracks[x].clips.len()
        == t.tracks[x].clips.len() by {
        assert(same_track(work.tracks[x], next.tracks[x]));
    }
    assert(same_track(work.tracks[i], next.tracks[i]));
}

/// Unlinking takes the named clips and all that are linked to them out of their groups
/// and changes nothing else.
pub proof fn law_unlinked_clips_have_no_group(
    s: StateView,
    clip_ids: Seq<Seq<char>>,
    registry_fault: Option<Seq<char>>,
    i: int,
    j: int,
)
    requires
        placed_at(s.timeline, i, j),
    ensures
        ({
            let (r, next) = unlink_spec(s, clip_ids, registry_fault);
            let c = s.timeline.tracks[i].clips[j];
            let d = next.timeline.tracks[i].clips[j];
            &&& r is Err ==> next == s
            &&& r is Ok ==> {
                &&& clip_ids.len() > 0
                &&& next.manifest == s.manifest
                &&& same_layout(s.timeline, next.timeline)
                &&& if taken_along(s.timeline, clip_ids, c.id) {
                    same_clip(ClipView { link_group_id: None, ..c }, d)
                } else {
                    same_clip(c, d)
                }
            }
        }),
{
    let (r, next) = unlink_spec(s, clip_ids, registry_fault);
    if r is Ok {
        let all = link_expanded(s.timeline, clip_ids);
        law_selections_expand_to_their_links(
            s.timeline,
            clip_ids,
            s.timeline.tracks[i].clips[j].id,
        );
        lemma_regrouped(s.timeline, next.timeline, all, None, i, j);
    }
}

} // verus!
