//! What pasted clips look like and where they stand.

use crate::arrange::by_start;
use crate::arrange::without_empty_tracks;
use crate::commands::captions::entry_label;
use crate::commands::moving::among_first;
use crate::commands::paste::Regrouping;
use crate::commands::paste::all_sorted;
use crate::commands::paste::caption_met;
use crate::commands::paste::clips_pasted;
use crate::commands::paste::groups_met;
use crate::commands::paste::link_met;
use crate::commands::paste::paste_clips_spec;
use crate::commands::paste::paste_entries_fault;
use crate::commands::paste::paste_entry_fault;
use crate::commands::paste::paste_fault;
use crate::commands::paste::paste_media_fault;
use crate::commands::paste::pasted_clip;
use crate::commands::paste::pasted_sources;
use crate::commands::tracks::link;
use crate::entries::PasteClipEntryView;
use crate::ids::IdsView;
use crate::ids::nth_id;
use crate::laws::arranging::law_empty_tracks_are_dropped;
use crate::laws::arranging::law_sorting_is_by_start;
use crate::laws::dissolving::lemma_looked_up;
use crate::laws::dissolving::lemma_pushed;
use crate::laws::dissolving::lemma_sorted_members;
use crate::laws::document::law_pruning_changes_transitions_alone;
use crate::laws::document::law_tracks_are_found_by_id;
use crate::laws::document::same_timeline;
use crate::laws::frames::clip_holds;
use crate::laws::frames::law_clips_are_checked;
use crate::laws::frames::law_timelines_are_checked;
use crate::laws::frames::timeline_holds;
use crate::laws::frames::typed_frames_hold;
use crate::links::id_index;
use crate::locate::track_index;
use crate::model::ClipView;
use crate::model::TimelineView;
use crate::model::TrackView;
use crate::model::TransitionView;
use crate::state::StateView;
use crate::text::trimmed;
use crate::transitions::pruned;
use vstd::prelude::*;

verus! {

/// Whether a clip is the paste of an entry: the clip that was copied, at the frame asked
/// for, with an id of its own. `link` and `caption` give the numbers of the new groups of
/// old ones; a transition leads to the paste of the clip that it led to, where that is
/// pasted too.
pub open spec fn paste_of(
    entries: Seq<PasteClipEntryView>,
    ids: IdsView,
    i: int,
    c: ClipView,
    link: spec_fn(Seq<char>) -> int,
    caption: spec_fn(Seq<char>) -> int,
) -> bool {
    let e = entries[i];
    &&& c == (ClipView {
        id: nth_id(ids, i + 1),
        start_frame: e.start_frame,
        link_group_id: c.link_group_id,
        caption_group_id: c.caption_group_id,
        transition_out: c.transition_out,
        ..e.clip
    })
    &&& match e.clip.link_group_id {
        None => c.link_group_id is None,
        Some(g) => c.link_group_id == Some(nth_id(ids, link(g))) && entries.len() < link(g),
    }
    &&& match e.clip.caption_group_id {
        None => c.caption_group_id is None,
        Some(g) => c.caption_group_id == Some(nth_id(ids, caption(g))) && entries.len() < caption(g),
    }
    &&& match e.clip.transition_out {
        None => c.transition_out is None,
        Some(tr) => {
            let fits = tr.from_clip_id.len() == 0 || tr.from_clip_id == e.clip.id;
            &&& c.transition_out matches Some(x) ==> fits && x == (TransitionView {
                from_clip_id: c.id,
                to_clip_id: x.to_clip_id,
                ..tr
            }) && exists|k: int|
                0 <= k < entries.len() && (#[trigger] entries[k]).clip.id == tr.to_clip_id
                    && x.to_clip_id == nth_id(ids, k + 1)
            &&& fits && (exists|k: int|
                0 <= k < entries.len() && (#[trigger] entries[k]).clip.id == tr.to_clip_id)
                ==> c.transition_out is Some
        },
    }
}

/// Whether the new groups of two entries are told apart: different link groups stay
/// different, different caption groups stay different, and no link group becomes a
/// caption group.
pub open spec fn groups_apart(
    entries: Seq<PasteClipEntryView>,
    i: int,
    j: int,
    link: spec_fn(Seq<char>) -> int,
    caption: spec_fn(Seq<char>) -> int,
) -> bool {
    let a = entries[i].clip;
    let b = entries[j].clip;
    &&& a.link_group_id is Some && b.link_group_id is Some && a.link_group_id != b.link_group_id
        ==> link(a.link_group_id->0) != link(b.link_group_id->0)
    &&& a.caption_group_id is Some && b.caption_group_id is Some && a.caption_group_id
        != b.caption_group_id ==> caption(a.caption_group_id->0) != caption(b.caption_group_id->0)
    &&& a.link_group_id is Some && b.caption_group_id is Some ==> link(a.link_group_id->0)
        != caption(b.caption_group_id->0)
}

/// Whether pastes are as they should be, all of them.
pub open spec fn pastes_well(
    entries: Seq<PasteClipEntryView>,
    ids: IdsView,
    link: spec_fn(Seq<char>) -> int,
    caption: spec_fn(Seq<char>) -> int,
) -> bool {
    &&& forall|i: int|
        0 <= i < entries.len() ==> paste_of(
            entries,
            ids,
            i,
            #[trigger] pasted_clip(entries, ids, i),
            link,
            caption,
        )
    &&& forall|i: int, j: int|
        0 <= i < entries.len() && 0 <= j < entries.len() ==> #[trigger] groups_apart(
            entries,
            i,
            j,
            link,
            caption,
        )
}

spec fn numbered(n: nat, x: Regrouping, ids: IdsView, ln: Seq<int>, cn: Seq<int>) -> bool {
    &&& ln.len() == x.links.len() == x.link_ids.len()
    &&& cn.len() == x.captions.len() == x.caption_ids.len()
    &&& forall|k: int|
        0 <= k < ln.len() ==> n < #[trigger] ln[k] <= x.minted && x.link_ids[k] == nth_id(
            ids,
            ln[k],
        )
    &&& forall|k: int|
        0 <= k < cn.len() ==> n < #[trigger] cn[k] <= x.minted && x.caption_ids[k] == nth_id(
            ids,
            cn[k],
        )
    &&& forall|k: int, l: int| 0 <= k < l < ln.len() ==> #[trigger] ln[k] < #[trigger] ln[l]
    &&& forall|k: int, l: int| 0 <= k < l < cn.len() ==> #[trigger] cn[k] < #[trigger] cn[l]
    &&& forall|k: int, l: int|
        0 <= k < ln.len() && 0 <= l < cn.len() ==> #[trigger] ln[k] != #[trigger] cn[l]
}

spec fn good(n: nat, x: Regrouping, ids: IdsView) -> bool {
    &&& n <= x.minted
    &&& forall|k: int, l: int|
        0 <= k < l < x.links.len() ==> #[trigger] x.links[k] != #[trigger] x.links[l]
    &&& forall|k: int, l: int|
        0 <= k < l < x.captions.len() ==> #[trigger] x.captions[k] != #[trigger] x.captions[l]
    &&& exists|ln: Seq<int>, cn: Seq<int>| #[trigger] numbered(n, x, ids, ln, cn)
}

proof fn lemma_link_met(n: nat, x: Regrouping, group: Option<Seq<char>>, ids: IdsView)
    requires
        good(n, x, ids),
    ensures
        good(n, link_met(x, group, ids), ids),
        group matches Some(g) ==> link_met(x, group, ids).links.contains(g),
        forall|g: Seq<char>| #[trigger]
            x.links.contains(g) ==> link_met(x, group, ids).links.contains(g),
        link_met(x, group, ids).captions == x.captions,
{
    let y = link_met(x, group, ids);
    let (ln, cn) = choose|ln: Seq<int>, cn: Seq<int>| #[trigger] numbered(n, x, ids, ln, cn);
    if let Some(g) = group {
        lemma_looked_up(x.links, g, 0);
        if id_index(x.links, g, 0) is None {
            assert(numbered(n, y, ids, ln.push(x.minted + 1), cn));
            assert(y.links[x.links.len() as int] == g);
        }
    }
    assert forall|g: Seq<char>| #[trigger] x.links.contains(g) implies y.links.contains(g) by {
        let k = choose|k: int| 0 <= k < x.links.len() && x.links[k] == g;
        assert(y.links[k] == g);
    }
}

proof fn lemma_caption_met(n: nat, x: Regrouping, group: Option<Seq<char>>, ids: IdsView)
    requires
        good(n, x, ids),
    ensures
        good(n, caption_met(x, group, ids), ids),
        group matches Some(g) ==> caption_met(x, group, ids).captions.contains(g),
        forall|g: Seq<char>| #[trigger]
            x.captions.contains(g) ==> caption_met(x, group, ids).captions.contains(g),
        caption_met(x, group, ids).links == x.links,
{
    let y = caption_met(x, group, ids);
    let (ln, cn) = choose|ln: Seq<int>, cn: Seq<int>| #[trigger] numbered(n, x, ids, ln, cn);
    if let Some(g) = group {
        lemma_looked_up(x.captions, g, 0);
        if id_index(x.captions, g, 0) is None {
            assert(numbered(n, y, ids, ln, cn.push(x.minted + 1)));
            assert(y.captions[x.captions.len() as int] == g);
        }
    }
    assert forall|g: Seq<char>| #[trigger] x.captions.contains(g) implies y.captions.contains(
        g,
    ) by {
        let k = choose|k: int| 0 <= k < x.captions.len() && x.captions[k] == g;
        assert(y.captions[k] == g);
    }
}

proof fn lemma_groups(entries: Seq<PasteClipEntryView>, ids: IdsView, n: int)
    requires
        0 <= n <= entries.len(),
    ensures
        good(entries.len(), groups_met(entries, ids, n), ids),
        forall|i: int|
            0 <= i < n ==> ((#[trigger] entries[i]).clip.link_group_id matches Some(g)
                ==> groups_met(entries, ids, n).links.contains(g)),
        forall|i: int|
            0 <= i < n ==> ((#[trigger] entries[i]).clip.caption_group_id matches Some(g)
                ==> groups_met(entries, ids, n).captions.contains(g)),
    decreases n,
{
    if n > 0 {
        lemma_groups(entries, ids, n - 1);
        let x = groups_met(entries, ids, n - 1);
        let c = entries[n - 1].clip;
        lemma_link_met(entries.len(), x, c.link_group_id, ids);
        lemma_caption_met(
            entries.len(),
            link_met(x, c.link_group_id, ids),
            c.caption_group_id,
            ids,
        );
    } else {
        let x = groups_met(entries, ids, 0);
        assert(numbered(entries.len(), x, ids, Seq::empty(), Seq::empty()));
    }
}

/// Every entry is pasted as it was copied, at its new frame and under an id of its own;
/// clips that were linked, or captions of one group, stay so among themselves in new
/// groups, different groups stay different, and transitions between pasted clips stay.
pub proof fn law_pastes_are_copies(entries: Seq<PasteClipEntryView>, ids: IdsView)
    ensures
        exists|link: spec_fn(Seq<char>) -> int, caption: spec_fn(Seq<char>) -> int| #[trigger]
            pastes_well(entries, ids, link, caption),
{
    let n = entries.len();
    let x = groups_met(entries, ids, n as int);
    lemma_groups(entries, ids, n as int);
    let (ln, cn) = choose|ln: Seq<int>, cn: Seq<int>| #[trigger] numbered(n, x, ids, ln, cn);
    let link = |g: Seq<char>| ln[id_index(x.links, g, 0)->0];
    let caption = |g: Seq<char>| cn[id_index(x.captions, g, 0)->0];
    assert forall|i: int| 0 <= i < n implies paste_of(
        entries,
        ids,
        i,
        #[trigger] pasted_clip(entries, ids, i),
        link,
        caption,
    ) by {
        let c = entries[i].clip;
        if let Some(g) = c.link_group_id {
            lemma_looked_up(x.links, g, 0);
            assert(x.links.contains(g));
            let k = choose|k: int| 0 <= k < x.links.len() && x.links[k] == g;
            assert(x.links[k] == g);
        }
        if let Some(g) = c.caption_group_id {
            lemma_looked_up(x.captions, g, 0);
            assert(x.captions.contains(g));
            let k = choose|k: int| 0 <= k < x.captions.len() && x.captions[k] == g;
            assert(x.captions[k] == g);
        }
        if let Some(tr) = c.transition_out {
            let sources = pasted_sources(entries);
            lemma_looked_up(sources, tr.to_clip_id, 0);
            if let Some(to) = id_index(sources, tr.to_clip_id, 0) {
                assert(entries[to].clip.id == tr.to_clip_id);
            }
            if exists|k: int|
                0 <= k < n && (#[trigger] entries[k]).clip.id == tr.to_clip_id {
                let k = choose|k: int|
                    0 <= k < n && (#[trigger] entries[k]).clip.id == tr.to_clip_id;
                assert(sources[k] == tr.to_clip_id);
            }
        }
    }
    assert forall|i: int, j: int| 0 <= i < n && 0 <= j < n implies #[trigger] groups_apart(
        entries,
        i,
        j,
        link,
        caption,
    ) by {
        let a = entries[i].clip;
        let b = entries[j].clip;
        if let Some(g) = a.link_group_id {
            lemma_looked_up(x.links, g, 0);
            assert(x.links.contains(g));
            let k = choose|k: int| 0 <= k < x.links.len() && x.links[k] == g;
            assert(x.links[k] == g);
        }
        if let Some(g) = b.link_group_id {
            lemma_looked_up(x.links, g, 0);
            assert(x.links.contains(g));
            let k = choose|k: int| 0 <= k < x.links.len() && x.links[k] == g;
            assert(x.links[k] == g);
        }
        if let Some(g) = a.caption_group_id {
            lemma_looked_up(x.captions, g, 0);
            assert(x.captions.contains(g));
            let k = choose|k: int| 0 <= k < x.captions.len() && x.captions[k] == g;
            assert(x.captions[k] == g);
        }
        if let Some(g) = b.caption_group_id {
            lemma_looked_up(x.captions, g, 0);
            assert(x.captions.contains(g));
            let k = choose|k: int| 0 <= k < x.captions.len() && x.captions[k] == g;
            assert(x.captions[k] == g);
        }
        if a.link_group_id is Some && b.link_group_id is Some && a.link_group_id
            != b.link_group_id {
            let k = id_index(x.links, a.link_group_id->0, 0)->0;
            let l = id_index(x.links, b.link_group_id->0, 0)->0;
            if k < l {
                assert(ln[k] < ln[l]);
            } else {
                assert(ln[l] < ln[k]);
            }
        }
        if a.caption_group_id is Some && b.caption_group_id is Some && a.caption_group_id
            != b.caption_group_id {
            let k = id_index(x.captions, a.caption_group_id->0, 0)->0;
            let l = id_index(x.captions, b.caption_group_id->0, 0)->0;
            if k < l {
                assert(cn[k] < cn[l]);
            } else {
                assert(cn[l] < cn[k]);
            }
        }
    }
    assert(pastes_well(entries, ids, link, caption));
}

/// Whether an entry goes to the track at a position: the first with the id it names.
pub open spec fn goes_to(t: TimelineView, e: PasteClipEntryView, k: int) -> bool {
    &&& 0 <= k < t.tracks.len()
    &&& t.tracks[k].id == e.target_track_id
    &&& forall|j: int| 0 <= j < k ==> (#[trigger] t.tracks[j]).id != e.target_track_id
}

proof fn lemma_pasted(
    cleared: TimelineView,
    entries: Seq<PasteClipEntryView>,
    ids: IdsView,
    n: int,
    k: int,
    c: ClipView,
)
    requires
        0 <= n <= entries.len(),
        0 <= k < cleared.tracks.len(),
    ensures
        ({
            let u = clips_pasted(cleared, entries, ids, n);
            &&& u == (TimelineView { tracks: u.tracks, ..cleared })
            &&& u.tracks.len() == cleared.tracks.len()
            &&& forall|x: int|
                0 <= x < cleared.tracks.len() ==> (#[trigger] u.tracks[x]) == (TrackView {
                    clips: u.tracks[x].clips,
                    ..cleared.tracks[x]
                })
            &&& u.tracks[k].clips.contains(c) <==> cleared.tracks[k].clips.contains(c)
                || exists|i: int|
                0 <= i < n && goes_to(cleared, #[trigger] entries[i], k) && pasted_clip(
                    entries,
                    ids,
                    i,
                ) == c
        }),
    decreases n,
{
    if n > 0 {
        lemma_pasted(cleared, entries, ids, n - 1, k, c);
        let u = clips_pasted(cleared, entries, ids, n - 1);
        let e = entries[n - 1];
        law_tracks_are_found_by_id(u.tracks, e.target_track_id, 0);
        let p = pasted_clip(entries, ids, n - 1);
        match track_index(u.tracks, e.target_track_id, 0) {
            Some(ti) => {
                assert(goes_to(cleared, e, ti)) by {
                    assert forall|j: int| 0 <= j < ti implies (#[trigger] cleared.tracks[j]).id
                        != e.target_track_id by {
                        assert(u.tracks[j].id == cleared.tracks[j].id);
                    }
                }
                if ti == k {
                    lemma_pushed(u.tracks[k].clips, p, c);
                    assert(goes_to(cleared, entries[n - 1], k));
                } else {
                    assert(!goes_to(cleared, entries[n - 1], k)) by {
                        if goes_to(cleared, e, k) {
                            if k < ti {
                                assert(cleared.tracks[k].id != e.target_track_id);
                            } else {
                                assert(cleared.tracks[ti].id != e.target_track_id);
                            }
                        }
                    }
                }
            },
            None => {
                assert(u.tracks[k].id != e.target_track_id);
            },
        }
    }
}

/// Pasting is refused, and nothing changed, unless the entries are in order and their
/// tracks still stand once their regions are cleared; otherwise each track holds, sorted by
/// start, what clearing left on it and the pastes that were aimed at it, and nothing else.
/// Tracks that are empty go.
pub proof fn law_pastes_stand_where_they_were_aimed(
    s: StateView,
    entries: Seq<PasteClipEntryView>,
    ids: IdsView,
    cleared: TimelineView,
    registry_fault: Option<Seq<char>>,
    k: int,
    c: ClipView,
)
    requires
        0 <= k < cleared.tracks.len(),
    ensures
        ({
            let (r, next) = paste_clips_spec(s, entries, ids, cleared, registry_fault);
            &&& r is Err ==> next == s
            &&& r is Ok ==> {
                &&& entries.len() > 0
                &&& paste_fault(s, entries) is None
                &&& next.manifest == s.manifest
                &&& r->Ok_0.affected_clip_ids.len() == entries.len()
                &&& forall|i: int|
                    0 <= i < entries.len() ==> #[trigger] r->Ok_0.affected_clip_ids[i] == nth_id(
                        ids,
                        i + 1,
                    )
                &&& exists|work: TimelineView|
                    {
                        &&& #[trigger] work.tracks.len() == cleared.tracks.len()
                        &&& work == (TimelineView { tracks: work.tracks, ..cleared })
                        &&& work.tracks[k] == (TrackView {
                            clips: work.tracks[k].clips,
                            ..cleared.tracks[k]
                        })
                        &&& work.tracks[k].clips.contains(c) <==> cleared.tracks[k].clips.contains(
                            c,
                        ) || exists|i: int|
                            0 <= i < entries.len() && goes_to(cleared, #[trigger] entries[i], k)
                                && pasted_clip(entries, ids, i) == c
                        &&& forall|x: int, y: int|
                            0 <= x < y < work.tracks[k].clips.len() ==> (
                            #[trigger] work.tracks[k].clips[x]).start_frame <= (
                            #[trigger] work.tracks[k].clips[y]).start_frame
                        &&& same_timeline(
                            TimelineView {
                                tracks: work.tracks.filter(
                                    |track: TrackView| track.clips.len() > 0,
                                ),
                                ..work
                            },
                            next.timeline,
                        )
                    }
            }
        }),
{
    let (r, next) = paste_clips_spec(s, entries, ids, cleared, registry_fault);
    let n = entries.len() as int;
    let u = clips_pasted(cleared, entries, ids, n);
    let work = all_sorted(u);
    lemma_pasted(cleared, entries, ids, n, k, c);
    law_sorting_is_by_start(u.tracks[k].clips);
    lemma_sorted_members(u.tracks[k].clips, c);
    law_empty_tracks_are_dropped(work);
    law_pruning_changes_transitions_alone(without_empty_tracks(work));
    if r is Ok {
        assert(next.timeline == pruned(without_empty_tracks(work)));
        assert(work.tracks.len() == cleared.tracks.len());
        assert(work.tracks[k].clips == by_start(u.tracks[k].clips));
        assert forall|x: int, y: int| 0 <= x < y < work.tracks[k].clips.len() implies (
        #[trigger] work.tracks[k].clips[x]).start_frame <= (
        #[trigger] work.tracks[k].clips[y]).start_frame by {}
        assert(work == (TimelineView { tracks: work.tracks, ..cleared }));
    }
}

/// Whether an entry may be pasted: its clip has an id that no earlier one has and that is
/// not blank, its frame numbers hold where it was and where it goes, its track is there
/// and takes it, and its medium or sequence is there.
pub open spec fn may_paste(s: StateView, entries: Seq<PasteClipEntryView>, i: int) -> bool {
    let e = entries[i];
    &&& trimmed(e.clip.id).len() > 0
    &&& forall|k: int| 0 <= k < i ==> (#[trigger] entries[k]).clip.id != e.clip.id
    &&& clip_holds(e.clip)
    &&& typed_frames_hold(
        e.start_frame as int,
        e.clip.duration_frames as int,
        e.clip.trim_start_frame as int,
        e.clip.trim_end_frame as int,
        e.clip.speed,
        e.clip.media_type,
    )
    &&& exists|k: int| #[trigger]
        goes_to(s.timeline, e, k) && (e.clip.media_type is Audio <==> s.timeline.tracks[k].kind
            is Audio)
    &&& paste_media_fault(s, e.clip) is None
}

/// A paste is complained about exactly when there is none, the timeline does not hold, or
/// an entry may not be pasted.
pub proof fn law_pastes_are_checked(s: StateView, entries: Seq<PasteClipEntryView>)
    ensures
        paste_fault(s, entries) is None <==> entries.len() > 0 && timeline_holds(s.timeline)
            && forall|i: int|
            0 <= i < entries.len() ==> #[trigger] may_paste(s, entries, i),
{
    law_timelines_are_checked(s.timeline, "timeline"@);
    lemma_paste_entries(s, entries, 0);
}

proof fn lemma_paste_entries(s: StateView, entries: Seq<PasteClipEntryView>, from: int)
    requires
        0 <= from,
    ensures
        paste_entries_fault(s, entries, from) is None <==> forall|i: int|
            from <= i < entries.len() ==> #[trigger] may_paste(s, entries, i),
    decreases entries.len() - from,
{
    if from < entries.len() {
        lemma_paste_entries(s, entries, from + 1);
        let e = entries[from];
        law_tracks_are_found_by_id(s.timeline.tracks, e.target_track_id, 0);
        if let Some(ti) = track_index(s.timeline.tracks, e.target_track_id, 0) {
            assert(goes_to(s.timeline, e, ti));
            assert forall|k: int| #[trigger] goes_to(s.timeline, e, k) implies k == ti by {
                if k < ti {
                    assert(s.timeline.tracks[k].id != e.target_track_id);
                }
                if ti < k {
                    assert(s.timeline.tracks[ti].id != e.target_track_id);
                }
            }
        }
        let sources = pasted_sources(entries);
        assert(among_first(sources, e.clip.id, from) <==> exists|k: int|
            0 <= k < from && (#[trigger] entries[k]).clip.id == e.clip.id) by {
            if among_first(sources, e.clip.id, from) {
                let k = choose|k: int| 0 <= k < from && #[trigger] sources[k] == e.clip.id;
                assert(entries[k].clip.id == e.clip.id);
            }
            if exists|k: int| 0 <= k < from && (#[trigger] entries[k]).clip.id == e.clip.id {
                let k = choose|k: int| 0 <= k < from && (#[trigger] entries[k]).clip.id == e.clip.id;
                assert(sources[k] == e.clip.id);
            }
        }
        law_clips_are_checked(
            e.clip,
            e.start_frame as int,
            entry_label(from),
        );
        law_clips_are_checked(
            e.clip,
            e.start_frame as int,
            entry_label(from) + ".clip"@,
        );
        assert((paste_entry_fault(s, entries, from) is None) == may_paste(s, entries, from));
    }
}

} // verus!
