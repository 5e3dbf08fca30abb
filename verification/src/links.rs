//! Link groups: clips that are selected, moved and deleted together.

use crate::model::clip_views;
use crate::model::lemma_nested_views;
use crate::model::ClipView;
use crate::model::Timeline;
use crate::model::TimelineView;
use crate::model::TrackView;
use crate::text::contains_text;
use crate::text::copy_opt;
use crate::text::holds_text;
use crate::text::opt_text;
use crate::text::texts;
use vstd::prelude::*;

verus! {

/// A list without the repetitions of earlier items.
pub open spec fn distinct(s: Seq<Seq<char>>) -> Seq<Seq<char>>
    decreases s.len(),
{
    if s.len() == 0 {
        s
    } else {
        let rest = distinct(s.drop_last());
        if rest.contains(s.last()) {
            rest
        } else {
            rest.push(s.last())
        }
    }
}

/// All clips of some tracks, track after track.
pub open spec fn flat_clips(tracks: Seq<TrackView>) -> Seq<ClipView>
    decreases tracks.len(),
{
    if tracks.len() == 0 {
        Seq::empty()
    } else {
        flat_clips(tracks.drop_last()) + tracks.last().clips
    }
}

/// Whether a group has a member among the clips with the given ids.
pub open spec fn group_selected(clips: Seq<ClipView>, ids: Seq<Seq<char>>, group: Seq<char>) -> bool {
    exists|i: int|
        0 <= i < clips.len() && (#[trigger] clips[i]).link_group_id == Some(group) && ids.contains(
            clips[i].id,
        )
}

/// The ids of the clips among `clips` whose group has a member in `all` with one
/// of the given ids.
pub open spec fn partner_ids(
    clips: Seq<ClipView>,
    all: Seq<ClipView>,
    ids: Seq<Seq<char>>,
) -> Seq<Seq<char>>
    decreases clips.len(),
{
    if clips.len() == 0 {
        Seq::empty()
    } else {
        let rest = partner_ids(clips.drop_last(), all, ids);
        let c = clips.last();
        if c.link_group_id matches Some(g) && group_selected(all, ids, g) {
            rest.push(c.id)
        } else {
            rest
        }
    }
}

/// The given ids and those of all clips linked to them, each once.
pub open spec fn link_expanded(t: TimelineView, ids: Seq<Seq<char>>) -> Seq<Seq<char>> {
    let all = flat_clips(t.tracks);
    distinct(ids + partner_ids(all, all, ids))
}

/// The items of a list without repetitions are those of the list.
pub proof fn lemma_distinct_contains(s: Seq<Seq<char>>, x: Seq<char>)
    ensures
        distinct(s).contains(x) == s.contains(x),
    decreases s.len(),
{
    if s.len() > 0 {
        let rest = s.drop_last();
        lemma_distinct_contains(rest, x);
        assert(s =~= rest.push(s.last()));
        let d = distinct(rest);
        if s.contains(x) {
            let i = choose|i: int| 0 <= i < s.len() && s[i] == x;
            if i < rest.len() {
                assert(rest[i] == x);
            }
        }
        if rest.contains(x) {
            let i = choose|i: int| 0 <= i < rest.len() && rest[i] == x;
            assert(s[i] == x);
        }
        if x == s.last() {
            assert(s[s.len() - 1] == x);
            if !d.contains(x) {
                assert(d.push(x)[d.len() as int] == x);
            }
        }
        if d.contains(x) {
            let i = choose|i: int| 0 <= i < d.len() && d[i] == x;
            assert(d.push(s.last())[i] == x);
        }
        if distinct(s).contains(x) && !d.contains(x) {
            let i = choose|i: int| 0 <= i < distinct(s).len() && distinct(s)[i] == x;
            if i < d.len() {
                assert(d[i] == x);
            }
        }
    }
}

/// A list without repetitions repeats nothing.
pub proof fn lemma_distinct_unique(s: Seq<Seq<char>>)
    ensures
        distinct(s).no_duplicates(),
        distinct(s).len() <= s.len(),
    decreases s.len(),
{
    if s.len() > 0 {
        lemma_distinct_unique(s.drop_last());
        let d = distinct(s.drop_last());
        if !d.contains(s.last()) {
            assert forall|i: int, j: int|
                0 <= i < d.len() + 1 && 0 <= j < d.len() + 1 && i != j implies d.push(s.last())[i]
                != d.push(s.last())[j] by {
                if i < d.len() && j < d.len() {
                    assert(d[i] != d[j]);
                } else if i < d.len() {
                    assert(d.contains(d[i]));
                } else {
                    assert(d.contains(d[j]));
                }
            }
        }
    }
}

/// Every requested id stays in the expanded selection.
pub proof fn law_expansion_keeps_selection(t: TimelineView, ids: Seq<Seq<char>>, id: Seq<char>)
    requires
        ids.contains(id),
    ensures
        link_expanded(t, ids).contains(id),
{
    let all = flat_clips(t.tracks);
    let s = ids + partner_ids(all, all, ids);
    let i = choose|i: int| 0 <= i < ids.len() && ids[i] == id;
    assert(s[i] == id);
    lemma_distinct_contains(s, id);
}

proof fn lemma_partner_listed(
    clips: Seq<ClipView>,
    all: Seq<ClipView>,
    ids: Seq<Seq<char>>,
    i: int,
)
    requires
        0 <= i < clips.len(),
        clips[i].link_group_id is Some,
        group_selected(all, ids, clips[i].link_group_id->0),
    ensures
        partner_ids(clips, all, ids).contains(clips[i].id),
    decreases clips.len(),
{
    let rest = clips.drop_last();
    let p = partner_ids(rest, all, ids);
    if i < rest.len() {
        lemma_partner_listed(rest, all, ids, i);
        assert(rest[i] == clips[i]);
        let k = choose|k: int| 0 <= k < p.len() && p[k] == clips[i].id;
        assert(p.push(clips.last().id)[k] == clips[i].id);
        assert(partner_ids(clips, all, ids)[k] == clips[i].id);
    } else {
        assert(partner_ids(clips, all, ids)[p.len() as int] == clips[i].id);
    }
}

/// Where a selected clip is linked, every clip of its group is in the expanded
/// selection.
pub proof fn law_expansion_holds_whole_groups(
    t: TimelineView,
    ids: Seq<Seq<char>>,
    i: int,
    j: int,
)
    requires
        0 <= i < flat_clips(t.tracks).len(),
        0 <= j < flat_clips(t.tracks).len(),
        ids.contains(flat_clips(t.tracks)[i].id),
        flat_clips(t.tracks)[i].link_group_id is Some,
        flat_clips(t.tracks)[j].link_group_id == flat_clips(t.tracks)[i].link_group_id,
    ensures
        link_expanded(t, ids).contains(flat_clips(t.tracks)[j].id),
{
    let all = flat_clips(t.tracks);
    let group = all[i].link_group_id->0;
    assert(group_selected(all, ids, group));
    lemma_partner_listed(all, all, ids, j);
    let p = partner_ids(all, all, ids);
    let k = choose|k: int| 0 <= k < p.len() && p[k] == all[j].id;
    let s = ids + p;
    assert(s[ids.len() + k] == all[j].id);
    lemma_distinct_contains(s, all[j].id);
}

/// The timeline with the link group of the clips with some ids set.
pub open spec fn regrouped(
    t: TimelineView,
    ids: Seq<Seq<char>>,
    group: Option<Seq<char>>,
) -> TimelineView {
    TimelineView {
        tracks: t.tracks.map_values(
            |track: TrackView|
                TrackView {
                    clips: track.clips.map_values(
                        |c: ClipView|
                            if ids.contains(c.id) {
                                ClipView { link_group_id: group, ..c }
                            } else {
                                c
                            },
                    ),
                    ..track
                },
        ),
        ..t
    }
}

/// Looking a text up in a list of strings is looking it up among their texts.
pub proof fn lemma_holds_contains(v: Seq<String>, t: Seq<char>)
    ensures
        holds_text(v, t) == texts(v).contains(t),
{
    if holds_text(v, t) {
        let i = choose|i: int| 0 <= i < v.len() && #[trigger] v[i]@ == t;
        assert(texts(v)[i] == t);
    }
    if texts(v).contains(t) {
        let i = choose|i: int| 0 <= i < texts(v).len() && texts(v)[i] == t;
        assert(v[i]@ == t);
    }
}

/// Whether a list of strings holds a text.
pub fn listed(v: &Vec<String>, t: &str) -> (r: bool)
    ensures
        r == texts(v@).contains(t@),
{
    proof {
        lemma_holds_contains(v@, t@);
    }
    contains_text(v, t)
}

/// Adds a string to a list that does not hold it yet.
pub fn push_new(v: &mut Vec<String>, s: &String)
    ensures
        texts(final(v)@) == (if texts(old(v)@).contains(s@) {
            texts(old(v)@)
        } else {
            texts(old(v)@).push(s@)
        }),
{
    if !listed(v, s.as_str()) {
        v.push(s.clone());
        assert(texts(v@) =~= texts(old(v)@).push(s@));
    }
}

/// Drops repetitions from a list.
pub fn dedupe(v: &Vec<String>) -> (r: Vec<String>)
    ensures
        texts(r@) == distinct(texts(v@)),
{
    let mut out: Vec<String> = Vec::new();
    let mut i: usize = 0;
    assert(texts(out@) =~= distinct(texts(v@.take(0))));
    while i < v.len()
        invariant
            i <= v@.len(),
            texts(out@) == distinct(texts(v@.take(i as int))),
        decreases v@.len() - i,
    {
        proof {
            let next = texts(v@.take(i as int + 1));
            assert(next.drop_last() =~= texts(v@.take(i as int)));
            assert(next.last() == v@[i as int]@);
        }
        push_new(&mut out, &v[i]);
        i += 1;
    }
    assert(v@.take(i as int) =~= v@);
    out
}

/// All clips up to the clip `ci` of the track `ti`.
pub open spec fn flat_until(tracks: Seq<TrackView>, ti: int, ci: int) -> Seq<ClipView> {
    flat_clips(tracks.take(ti)) + tracks[ti].clips.take(ci)
}

/// Walking over the clips of a timeline one at a time visits them all.
pub proof fn lemma_flat_step(tracks: Seq<TrackView>, ti: int, ci: int)
    requires
        0 <= ti < tracks.len(),
        0 <= ci <= tracks[ti].clips.len(),
    ensures
        ci < tracks[ti].clips.len() ==> flat_until(tracks, ti, ci + 1) == flat_until(
            tracks,
            ti,
            ci,
        ).push(tracks[ti].clips[ci]),
        ci == tracks[ti].clips.len() ==> flat_until(tracks, ti, ci) == flat_clips(
            tracks.take(ti + 1),
        ),
        flat_until(tracks, ti, 0) == flat_clips(tracks.take(ti)),
{
    assert(tracks.take(ti + 1).drop_last() =~= tracks.take(ti));
    if ci < tracks[ti].clips.len() {
        assert(flat_until(tracks, ti, ci + 1) =~= flat_until(tracks, ti, ci).push(
            tracks[ti].clips[ci],
        ));
    } else {
        assert(tracks[ti].clips.take(ci) =~= tracks[ti].clips);
    }
    assert(flat_until(tracks, ti, 0) =~= flat_clips(tracks.take(ti)));
}

/// The groups of the clips with the given ids.
fn selected_groups(timeline: &Timeline, ids: &Vec<String>) -> (r: Vec<String>)
    ensures
        forall|g: Seq<char>|
            texts(r@).contains(g) <==> group_selected(
                flat_clips(timeline@.tracks),
                texts(ids@),
                g,
            ),
{
    let ghost tracks = timeline@.tracks;
    let mut groups: Vec<String> = Vec::new();
    let mut ti: usize = 0;
    proof {
        assert(tracks.take(0) =~= Seq::empty());
        assert(texts(groups@) =~= Seq::empty());
    }
    while ti < timeline.tracks.len()
        invariant
            ti <= timeline.tracks@.len(),
            tracks == timeline@.tracks,
            forall|g: Seq<char>|
                texts(groups@).contains(g) <==> group_selected(
                    flat_clips(tracks.take(ti as int)),
                    texts(ids@),
                    g,
                ),
        decreases timeline.tracks@.len() - ti,
    {
        let mut ci: usize = 0;
        proof {
            lemma_flat_step(tracks, ti as int, 0);
        }
        while ci < timeline.tracks[ti].clips.len()
            invariant
                ti < timeline.tracks@.len(),
                ci <= timeline.tracks@[ti as int].clips@.len(),
                tracks == timeline@.tracks,
                tracks[ti as int].clips == clip_views(timeline.tracks@[ti as int].clips@),
                forall|g: Seq<char>|
                    texts(groups@).contains(g) <==> group_selected(
                        flat_until(tracks, ti as int, ci as int),
                        texts(ids@),
                        g,
                    ),
            decreases timeline.tracks@[ti as int].clips@.len() - ci,
        {
            let clip = &timeline.tracks[ti].clips[ci];
            let ghost seen = flat_until(tracks, ti as int, ci as int);
            let ghost before = texts(groups@);
            proof {
                lemma_flat_step(tracks, ti as int, ci as int);
            }
            if let Some(group) = &clip.link_group_id {
                if listed(ids, clip.id.as_str()) {
                    push_new(&mut groups, group);
                }
            }
            proof {
                let next = seen.push(clip@);
                assert forall|g: Seq<char>|
                    texts(groups@).contains(g) <==> group_selected(next, texts(ids@), g) by {
                    let hit = clip@.link_group_id == Some(g) && texts(ids@).contains(clip@.id);
                    assert(texts(groups@).contains(g) <==> before.contains(g) || hit) by {
                        if clip@.link_group_id is Some && texts(ids@).contains(clip@.id)
                            && !before.contains(clip@.link_group_id->0) {
                            let b = before.push(clip@.link_group_id->0);
                            assert(b[before.len() as int] == clip@.link_group_id->0);
                            if before.contains(g) {
                                let k = choose|k: int| 0 <= k < before.len() && before[k] == g;
                                assert(b[k] == g);
                            }
                            if b.contains(g) {
                                let k = choose|k: int| 0 <= k < b.len() && b[k] == g;
                                if k < before.len() {
                                    assert(before[k] == g);
                                }
                            }
                        }
                    }
                    if group_selected(seen, texts(ids@), g) {
                        let k = choose|k: int|
                            0 <= k < seen.len() && (#[trigger] seen[k]).link_group_id == Some(g)
                                && texts(ids@).contains(seen[k].id);
                        assert(next[k] == seen[k]);
                    }
                    if hit {
                        assert(next[seen.len() as int] == clip@);
                    }
                    if group_selected(next, texts(ids@), g) {
                        let k = choose|k: int|
                            0 <= k < next.len() && (#[trigger] next[k]).link_group_id == Some(g)
                                && texts(ids@).contains(next[k].id);
                        if k < seen.len() {
                            assert(seen[k] == next[k]);
                        }
                    }
                }
            }
            ci += 1;
        }
        proof {
            lemma_flat_step(tracks, ti as int, ci as int);
        }
        ti += 1;
    }
    assert(tracks.take(ti as int) =~= tracks);
    groups
}

/// Expands a selection to the whole link groups it touches.
pub fn expand_to_link_group(timeline: &Timeline, ids: &Vec<String>) -> (r: Vec<String>)
    ensures
        texts(r@) == link_expanded(timeline@, texts(ids@)),
{
    let ghost tracks = timeline@.tracks;
    let ghost all = flat_clips(tracks);
    let ghost wanted = texts(ids@);
    let groups = selected_groups(timeline, ids);
    let mut out = dedupe(ids);
    let mut ti: usize = 0;
    proof {
        assert(tracks.take(0) =~= Seq::empty());
        assert(wanted + partner_ids(Seq::empty(), all, wanted) =~= wanted);
    }
    while ti < timeline.tracks.len()
        invariant
            ti <= timeline.tracks@.len(),
            tracks == timeline@.tracks,
            all == flat_clips(tracks),
            wanted == texts(ids@),
            forall|g: Seq<char>|
                texts(groups@).contains(g) <==> group_selected(all, wanted, g),
            texts(out@) == distinct(
                wanted + partner_ids(flat_clips(tracks.take(ti as int)), all, wanted),
            ),
        decreases timeline.tracks@.len() - ti,
    {
        let mut ci: usize = 0;
        proof {
            lemma_flat_step(tracks, ti as int, 0);
        }
        while ci < timeline.tracks[ti].clips.len()
            invariant
                ti < timeline.tracks@.len(),
                ci <= timeline.tracks@[ti as int].clips@.len(),
                tracks == timeline@.tracks,
                tracks[ti as int].clips == clip_views(timeline.tracks@[ti as int].clips@),
                forall|g: Seq<char>|
                    texts(groups@).contains(g) <==> group_selected(all, wanted, g),
                texts(out@) == distinct(
                    wanted + partner_ids(
                        flat_until(tracks, ti as int, ci as int),
                        all,
                        wanted,
                    ),
                ),
            decreases timeline.tracks@[ti as int].clips@.len() - ci,
        {
            let clip = &timeline.tracks[ti].clips[ci];
            proof {
                lemma_flat_step(tracks, ti as int, ci as int);
                let seen = flat_until(tracks, ti as int, ci as int);
                let next = seen.push(clip@);
                assert(next.drop_last() =~= seen);
                let p = wanted + partner_ids(seen, all, wanted);
                let q = wanted + partner_ids(next, all, wanted);
                if clip@.link_group_id is Some && group_selected(
                    all,
                    wanted,
                    clip@.link_group_id->0,
                ) {
                    assert(q =~= p.push(clip@.id));
                    assert(q.drop_last() =~= p);
                } else {
                    assert(q =~= p);
                }
            }
            if let Some(group) = &clip.link_group_id {
                if listed(&groups, group.as_str()) {
                    push_new(&mut out, &clip.id);
                }
            }
            ci += 1;
        }
        proof {
            lemma_flat_step(tracks, ti as int, ci as int);
        }
        ti += 1;
    }
    assert(tracks.take(ti as int) =~= tracks);
    out
}

/// Sets the link group of the clips with some ids.
pub fn set_link_group(timeline: &mut Timeline, ids: &Vec<String>, group: &Option<String>)
    ensures
        final(timeline)@ == regrouped(old(timeline)@, texts(ids@), opt_text(*group)),
{
    let ghost before = *timeline;
    let ghost wanted = texts(ids@);
    let ghost expected = regrouped(before@, wanted, opt_text(*group));
    let mut ti: usize = 0;
    while ti < timeline.tracks.len()
        invariant
            ti <= timeline.tracks@.len(),
            wanted == texts(ids@),
            expected == regrouped(before@, wanted, opt_text(*group)),
            timeline.tracks@.len() == before.tracks@.len(),
            timeline.fps == before.fps,
            timeline.width == before.width,
            timeline.height == before.height,
            timeline.settings_configured == before.settings_configured,
            timeline.nested_sequences == before.nested_sequences,
            timeline.script_assembly_plans == before.script_assembly_plans,
            timeline.voice_models == before.voice_models,
            forall|k: int| 0 <= k < ti ==> (#[trigger] timeline.tracks@[k])@ == expected.tracks[k],
            forall|k: int|
                ti <= k < before.tracks@.len() ==> #[trigger] timeline.tracks@[k]
                    == before.tracks@[k],
        decreases timeline.tracks@.len() - ti,
    {
        let ghost track = before.tracks@[ti as int];
        let mut ci: usize = 0;
        while ci < timeline.tracks[ti].clips.len()
            invariant
                ti < timeline.tracks@.len(),
                ci <= timeline.tracks@[ti as int].clips@.len(),
                wanted == texts(ids@),
                expected == regrouped(before@, wanted, opt_text(*group)),
                track == before.tracks@[ti as int],
                timeline.tracks@.len() == before.tracks@.len(),
                timeline.fps == before.fps,
                timeline.width == before.width,
                timeline.height == before.height,
                timeline.settings_configured == before.settings_configured,
                timeline.nested_sequences == before.nested_sequences,
                timeline.script_assembly_plans == before.script_assembly_plans,
                timeline.voice_models == before.voice_models,
                forall|k: int|
                    0 <= k < ti ==> (#[trigger] timeline.tracks@[k])@ == expected.tracks[k],
                forall|k: int|
                    ti < k < before.tracks@.len() ==> #[trigger] timeline.tracks@[k]
                        == before.tracks@[k],
                timeline.tracks@[ti as int].id == track.id,
                timeline.tracks@[ti as int].kind == track.kind,
                timeline.tracks@[ti as int].muted == track.muted,
                timeline.tracks@[ti as int].hidden == track.hidden,
                timeline.tracks@[ti as int].sync_locked == track.sync_locked,
                timeline.tracks@[ti as int].clips@.len() == track.clips@.len(),
                forall|k: int|
                    0 <= k < ci ==> (#[trigger] timeline.tracks@[ti as int].clips@[k])@
                        == expected.tracks[ti as int].clips[k],
                forall|k: int|
                    ci <= k < track.clips@.len() ==> #[trigger] timeline.tracks@[ti as int].clips@[k]
                        == track.clips@[k],
            decreases timeline.tracks@[ti as int].clips@.len() - ci,
        {
            let hit = listed(ids, timeline.tracks[ti].clips[ci].id.as_str());
            assert(expected.tracks[ti as int].clips[ci as int] == (if wanted.contains(
                track.clips@[ci as int]@.id,
            ) {
                ClipView { link_group_id: opt_text(*group), ..track.clips@[ci as int]@ }
            } else {
                track.clips@[ci as int]@
            }));
            if hit {
                timeline.tracks[ti].clips[ci].link_group_id = copy_opt(group);
            }
            ci += 1;
        }
        assert(timeline.tracks@[ti as int]@.clips =~= expected.tracks[ti as int].clips);
        ti += 1;
    }
    proof {
        lemma_nested_views(before);
        lemma_nested_views(*timeline);
        assert(timeline@.tracks =~= expected.tracks);
        assert(timeline@ =~= expected);
    }
}

/// The position of an id in a list, from `from` on.
pub open spec fn id_index(ids: Seq<Seq<char>>, id: Seq<char>, from: int) -> Option<int>
    decreases ids.len() - from,
{
    if from < 0 || from >= ids.len() {
        None
    } else if ids[from] == id {
        Some(from)
    } else {
        id_index(ids, id, from + 1)
    }
}

/// Finds an id in a list.
pub fn find_id(ids: &Vec<String>, id: &String) -> (r: Option<usize>)
    ensures
        match r {
            Some(i) => id_index(texts(ids@), id@, 0) == Some(i as int) && i < ids@.len(),
            None => id_index(texts(ids@), id@, 0) is None,
        },
{
    let ghost views = texts(ids@);
    let mut i: usize = 0;
    while i < ids.len()
        invariant
            i <= ids@.len(),
            views == texts(ids@),
            id_index(views, id@, 0) == id_index(views, id@, i as int),
        decreases ids@.len() - i,
    {
        if ids[i] == *id {
            return Some(i);
        }
        i += 1;
    }
    None
}

/// A found position lies in the list and holds the id.
pub proof fn lemma_id_index(ids: Seq<Seq<char>>, id: Seq<char>, from: int)
    requires
        0 <= from,
    ensures
        id_index(ids, id, from) matches Some(i) ==> from <= i < ids.len() && ids[i] == id,
    decreases ids.len() - from,
{
    if from < ids.len() && ids[from] != id {
        lemma_id_index(ids, id, from + 1);
    }
}

/// An id of a list is found in it.
pub proof fn lemma_id_found(ids: Seq<Seq<char>>, k: int, from: int)
    requires
        0 <= from <= k < ids.len(),
    ensures
        id_index(ids, ids[k], from) is Some,
    decreases k - from,
{
    if from < k {
        lemma_id_found(ids, k, from + 1);
    }
}

/// An id of a list is found in a longer list too.
pub proof fn lemma_id_stays(ids: Seq<Seq<char>>, id: Seq<char>, more: Seq<char>, from: int)
    requires
        0 <= from,
        id_index(ids, id, from) is Some,
    ensures
        id_index(ids.push(more), id, from) is Some,
    decreases ids.len() - from,
{
    if ids[from] != id {
        lemma_id_stays(ids, id, more, from + 1);
    }
}

/// An id put behind a list that lacks it is found there.
pub proof fn lemma_id_recorded(ids: Seq<Seq<char>>, id: Seq<char>, from: int)
    requires
        0 <= from <= ids.len(),
        id_index(ids, id, from) is None,
    ensures
        id_index(ids.push(id), id, from) == Some(ids.len() as int),
    decreases ids.len() - from,
{
    if from < ids.len() {
        lemma_id_recorded(ids, id, from + 1);
    }
}

} // verus!
