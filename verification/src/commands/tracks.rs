//! Commands on tracks and links.

use crate::commands::effects::missing_clip;
use crate::edit::invalid;
use crate::edit::outcome;
use crate::edit::EditError;
use crate::edit::EditResult;
use crate::edit::EditResultView;
use crate::edit::Fault;
use crate::frames::validate_timeline_frame_arithmetic;
use crate::fresh::fresh_track;
use crate::ids::ids_after;
use crate::ids::nth_id;
use crate::ids::CoreIdGen;
use crate::ids::IdsView;
use crate::links::dedupe;
use crate::links::distinct;
use crate::links::expand_to_link_group;
use crate::links::flat_clips;
use crate::links::law_expansion_holds_whole_groups;
use crate::links::link_expanded;
use crate::links::listed;
use crate::links::regrouped;
use crate::links::set_link_group;
use crate::locate::clip_not_found;
use crate::locate::lemma_located;
use crate::locate::lemma_track_replaced;
use crate::locate::lemma_tracks_replaced;
use crate::locate::locate;
use crate::locate::require_clip;
use crate::locate::track_index;
use crate::locate::with_track;
use crate::model::lemma_nested_views;
use crate::model::track_views;
use crate::model::ClipType;
use crate::model::Timeline;
use crate::model::TimelineView;
use crate::model::Track;
use crate::model::TrackView;
use crate::state::ids_spent;
use crate::state::timeline_transacted;
use crate::state::transact_timeline;
use crate::state::EditorState;
use crate::state::StateView;
use crate::text::cat2;
use crate::text::cat3;
use crate::text::cat4;
use crate::text::cat5;
use crate::text::cat7;
use crate::text::nat_text;
use crate::text::opt_text;
use crate::text::texts;
use crate::text::usize_to_text;
use vstd::prelude::*;

verus! {

/// The position of the first audio track, from `from` on; the end where there is
/// none.
pub open spec fn first_audio(tracks: Seq<TrackView>, from: int) -> int
    decreases tracks.len() - from,
{
    if from < 0 || from >= tracks.len() {
        tracks.len() as int
    } else if tracks[from].kind is Audio {
        from
    } else {
        first_audio(tracks, from + 1)
    }
}

/// Where a new track goes: the requested position brought into its zone. Visual
/// tracks stand before the first audio track, audio tracks from there on.
pub open spec fn track_slot(tracks: Seq<TrackView>, requested: int, kind: ClipType) -> int {
    let edge = first_audio(tracks, 0);
    if kind is Audio {
        if requested < edge {
            edge
        } else if requested > tracks.len() {
            tracks.len() as int
        } else {
            requested
        }
    } else if requested > edge {
        edge
    } else {
        requested
    }
}

/// The timeline with an empty track added.
pub open spec fn track_inserted(
    t: TimelineView,
    requested: int,
    kind: ClipType,
    id: Seq<char>,
) -> TimelineView {
    TimelineView {
        tracks: t.tracks.insert(track_slot(t.tracks, requested, kind), fresh_track(id, kind)),
        ..t
    }
}

/// The first audio track lies in the list.
pub proof fn lemma_first_audio(tracks: Seq<TrackView>, from: int)
    requires
        0 <= from <= tracks.len(),
    ensures
        from <= first_audio(tracks, from) <= tracks.len(),
        forall|i: int| from <= i < first_audio(tracks, from) ==> !((#[trigger] tracks[i]).kind is Audio),
        first_audio(tracks, from) < tracks.len() ==> tracks[first_audio(tracks, from)].kind is Audio,
    decreases tracks.len() - from,
{
    if from < tracks.len() && !(tracks[from].kind is Audio) {
        lemma_first_audio(tracks, from + 1);
    }
}

/// Whether visual tracks all stand before audio tracks.
pub open spec fn zoned(tracks: Seq<TrackView>) -> bool {
    forall|i: int, j: int|
        0 <= i < j < tracks.len() && (#[trigger] tracks[i]).kind is Audio ==> (
        #[trigger] tracks[j]).kind is Audio
}

/// Adding a track keeps visual tracks before audio tracks.
pub proof fn law_insert_keeps_zones(t: TimelineView, requested: int, kind: ClipType, id: Seq<char>)
    requires
        zoned(t.tracks),
        0 <= requested,
    ensures
        zoned(track_inserted(t, requested, kind, id).tracks),
{
    let edge = first_audio(t.tracks, 0);
    lemma_first_audio(t.tracks, 0);
    let p = track_slot(t.tracks, requested, kind);
    let u = track_inserted(t, requested, kind, id).tracks;
    assert forall|i: int, j: int| 0 <= i < j < u.len() && (#[trigger] u[i]).kind is Audio implies (
    #[trigger] u[j]).kind is Audio by {
        let a = if i < p {
            i
        } else {
            i - 1
        };
        let b = if j < p {
            j
        } else {
            j - 1
        };
        if i != p && j != p {
            assert(u[i] == t.tracks[a]);
            assert(u[j] == t.tracks[b]);
        } else if i == p {
            assert(u[j] == t.tracks[b]);
            assert(kind is Audio);
            assert(b >= edge);
            assert(t.tracks[edge].kind is Audio);
        } else {
            assert(u[i] == t.tracks[a]);
            assert(a >= edge);
        }
    }
}

/// Adds an empty track and returns its position.
pub fn insert_track(
    timeline: &mut Timeline,
    requested: usize,
    kind: ClipType,
    ids: &mut CoreIdGen,
) -> (r: usize)
    ensures
        final(timeline)@ == track_inserted(
            old(timeline)@,
            requested as int,
            kind,
            nth_id(old(ids)@, 1),
        ),
        r == track_slot(old(timeline)@.tracks, requested as int, kind),
        r < final(timeline).tracks@.len(),
        final(ids)@ == ids_after(old(ids)@, 1),
{
    let ghost before = *timeline;
    let ghost tracks = timeline@.tracks;
    let mut edge: usize = 0;
    while edge < timeline.tracks.len() && timeline.tracks[edge].kind != ClipType::Audio
        invariant
            edge <= timeline.tracks@.len(),
            *timeline == before,
            tracks == before@.tracks,
            first_audio(tracks, 0) == first_audio(tracks, edge as int),
        decreases timeline.tracks@.len() - edge,
    {
        edge += 1;
    }
    let slot: usize = if kind == ClipType::Audio {
        if requested < edge {
            edge
        } else if requested > timeline.tracks.len() {
            timeline.tracks.len()
        } else {
            requested
        }
    } else if requested > edge {
        edge
    } else {
        requested
    };
    let track = Track::new(ids.next_id(), kind);
    timeline.tracks.insert(slot, track);
    proof {
        lemma_nested_views(before);
        lemma_nested_views(*timeline);
        let expected = track_inserted(before@, requested as int, kind, nth_id(old(ids)@, 1));
        assert(timeline@.tracks =~= expected.tracks);
        assert(timeline@ =~= expected);
    }
    slot
}

/// Adding a track through a transaction.
pub open spec fn insert_track_spec(
    s: StateView,
    kind: ClipType,
    at: Option<usize>,
    ids: IdsView,
    registry_fault: Option<Seq<char>>,
) -> (Result<EditResultView, Fault>, StateView) {
    let requested = match at {
        Some(i) => i as int,
        None => s.timeline.tracks.len() as int,
    };
    timeline_transacted(
        s,
        "Insert Track"@,
        "Inserted track: "@ + nth_id(ids, 1),
        track_inserted(s.timeline, requested, kind, nth_id(ids, 1)),
        seq![nth_id(ids, 1)],
        registry_fault,
    )
}

/// Inserts a new empty track, clamped into the zone of its kind.
pub fn insert_track_cmd(
    state: &mut EditorState,
    kind: ClipType,
    at: Option<usize>,
    ids: &mut CoreIdGen,
    registry_fault: &Option<String>,
) -> (r: Result<EditResult, EditError>)
    requires
        old(state)@.version < u64::MAX,
    ensures
        (outcome(r), final(state)@) == insert_track_spec(
            old(state)@,
            kind,
            at,
            old(ids)@,
            opt_text(*registry_fault),
        ),
        final(ids)@ == ids_spent(old(state)@, old(ids)@, 1),
{
    if let Err(e) = validate_timeline_frame_arithmetic(&state.timeline, "timeline") {
        return Err(e);
    }
    let mut timeline = state.timeline.copy();
    assert(timeline.tracks@.len() == timeline@.tracks.len());
    let requested: usize = match at {
        Some(i) => i,
        None => timeline.tracks.len(),
    };
    let index = insert_track(&mut timeline, requested, kind, ids);
    proof {
        lemma_first_audio(state@.timeline.tracks, 0);
        crate::locate::lemma_timeline_parts(timeline, index as int, 0);
        assert(timeline@.tracks[index as int].id == nth_id(old(ids)@, 1));
    }
    let id = timeline.tracks[index].id.clone();
    let summary = cat2("Inserted track: ", id.as_str());
    let affected: Vec<String> = vec![id];
    assert(texts(affected@) =~= seq![nth_id(old(ids)@, 1)]);
    transact_timeline(
        state,
        "Insert Track",
        summary.as_str(),
        timeline,
        affected,
        registry_fault,
    )
}

/// A track with the given flags set.
pub open spec fn with_flags(
    t: TrackView,
    muted: Option<bool>,
    hidden: Option<bool>,
    sync_locked: Option<bool>,
) -> TrackView {
    TrackView {
        muted: match muted {
            Some(m) => m,
            None => t.muted,
        },
        hidden: match hidden {
            Some(h) => h,
            None => t.hidden,
        },
        sync_locked: match sync_locked {
            Some(s) => s,
            None => t.sync_locked,
        },
        ..t
    }
}

/// Setting track flags: the track has to exist.
pub open spec fn set_track_props_spec(
    s: StateView,
    index: usize,
    muted: Option<bool>,
    hidden: Option<bool>,
    sync_locked: Option<bool>,
    registry_fault: Option<Seq<char>>,
) -> (Result<EditResultView, Fault>, StateView) {
    if index >= s.timeline.tracks.len() {
        (Err(Fault::Invalid("trackIndex "@ + nat_text(index as nat) + " out of range"@)), s)
    } else {
        timeline_transacted(
            s,
            "Set Track Properties"@,
            "Updated track properties"@,
            with_track(
                s.timeline,
                index as int,
                with_flags(s.timeline.tracks[index as int], muted, hidden, sync_locked),
            ),
            Seq::empty(),
            registry_fault,
        )
    }
}

fn set_flags(
    track: &mut Track,
    muted: Option<bool>,
    hidden: Option<bool>,
    sync_locked: Option<bool>,
)
    ensures
        final(track)@ == with_flags(old(track)@, muted, hidden, sync_locked),
{
    if let Some(m) = muted {
        track.muted = m;
    }
    if let Some(h) = hidden {
        track.hidden = h;
    }
    if let Some(s) = sync_locked {
        track.sync_locked = s;
    }
}

/// Toggles mute, hide and sync-lock of a track; `None` leaves a flag unchanged.
pub fn set_track_props(
    state: &mut EditorState,
    track_index: usize,
    muted: Option<bool>,
    hidden: Option<bool>,
    sync_locked: Option<bool>,
    registry_fault: &Option<String>,
) -> (r: Result<EditResult, EditError>)
    requires
        old(state)@.version < u64::MAX,
    ensures
        (outcome(r), final(state)@) == set_track_props_spec(
            old(state)@,
            track_index,
            muted,
            hidden,
            sync_locked,
            opt_text(*registry_fault),
        ),
{
    assert(state.timeline.tracks@.len() == state@.timeline.tracks.len());
    if track_index >= state.timeline.tracks.len() {
        let index = usize_to_text(track_index);
        return Err(EditError::Invalid(cat3("trackIndex ", index.as_str(), " out of range")));
    }
    let mut timeline = state.timeline.copy();
    let ghost before = timeline;
    proof {
        crate::locate::lemma_timeline_parts(before, track_index as int, 0);
    }
    set_flags(&mut timeline.tracks[track_index], muted, hidden, sync_locked);
    proof {
        lemma_track_replaced(before, timeline, track_index as int);
    }
    let affected: Vec<String> = Vec::new();
    assert(texts(affected@) =~= Seq::empty());
    transact_timeline(
        state,
        "Set Track Properties",
        "Updated track properties",
        timeline,
        affected,
        registry_fault,
    )
}

/// The timeline with two tracks of the same kind exchanged; tracks of different
/// kinds stay where they are.
pub open spec fn tracks_swapped(t: TimelineView, a: int, b: int) -> TimelineView {
    if t.tracks[a].kind == t.tracks[b].kind {
        TimelineView { tracks: t.tracks.update(a, t.tracks[b]).update(b, t.tracks[a]), ..t }
    } else {
        t
    }
}

/// Exchanging two tracks: both have to exist.
pub open spec fn swap_tracks_spec(
    s: StateView,
    a: usize,
    b: usize,
    registry_fault: Option<Seq<char>>,
) -> (Result<EditResultView, Fault>, StateView) {
    let n = s.timeline.tracks.len();
    if a >= n || b >= n {
        (
            Err(
                Fault::Invalid(
                    "track index out of range: a="@ + nat_text(a as nat) + ", b="@ + nat_text(
                        b as nat,
                    ) + ", timeline has "@ + nat_text(n) + " track(s)"@,
                ),
            ),
            s,
        )
    } else {
        timeline_transacted(
            s,
            "Swap Tracks"@,
            "Swapped tracks "@ + nat_text(a as nat) + " and "@ + nat_text(b as nat),
            tracks_swapped(s.timeline, a as int, b as int),
            Seq::empty(),
            registry_fault,
        )
    }
}

/// Swaps two same-kind tracks as whole rows.
pub fn swap_tracks(
    state: &mut EditorState,
    a: usize,
    b: usize,
    registry_fault: &Option<String>,
) -> (r: Result<EditResult, EditError>)
    requires
        old(state)@.version < u64::MAX,
    ensures
        (outcome(r), final(state)@) == swap_tracks_spec(
            old(state)@,
            a,
            b,
            opt_text(*registry_fault),
        ),
{
    assert(state.timeline.tracks@.len() == state@.timeline.tracks.len());
    let count: usize = state.timeline.tracks.len();
    let a_text = usize_to_text(a);
    let b_text = usize_to_text(b);
    if a >= count || b >= count {
        let n_text = usize_to_text(count);
        return Err(
            EditError::Invalid(
                cat7(
                    "track index out of range: a=",
                    a_text.as_str(),
                    ", b=",
                    b_text.as_str(),
                    ", timeline has ",
                    n_text.as_str(),
                    " track(s)",
                ),
            ),
        );
    }
    let mut timeline = state.timeline.copy();
    let ghost before = timeline;
    proof {
        crate::locate::lemma_timeline_parts(before, a as int, 0);
        crate::locate::lemma_timeline_parts(before, b as int, 0);
    }
    if timeline.tracks[a].kind == timeline.tracks[b].kind && a != b {
        let first = timeline.tracks[a].copy();
        let second = timeline.tracks[b].copy();
        timeline.tracks[a] = second;
        timeline.tracks[b] = first;
    }
    proof {
        lemma_nested_views(before);
        lemma_nested_views(timeline);
        let expected = tracks_swapped(before@, a as int, b as int);
        assert(timeline@.tracks =~= expected.tracks);
        assert(timeline@ =~= expected);
    }
    let summary = cat4("Swapped tracks ", a_text.as_str(), " and ", b_text.as_str());
    let affected: Vec<String> = Vec::new();
    assert(texts(affected@) =~= Seq::empty());
    transact_timeline(
        state,
        "Swap Tracks",
        summary.as_str(),
        timeline,
        affected,
        registry_fault,
    )
}

/// The tracks, up to `n`, whose id is not among the given ones.
pub open spec fn tracks_without(tracks: Seq<TrackView>, ids: Seq<Seq<char>>) -> Seq<TrackView>
    decreases tracks.len(),
{
    if tracks.len() == 0 {
        Seq::empty()
    } else {
        let rest = tracks_without(tracks.drop_last(), ids);
        if ids.contains(tracks.last().id) {
            rest
        } else {
            rest.push(tracks.last())
        }
    }
}

/// Whether an index occurs before position `n`.
pub open spec fn index_seen(indexes: Seq<usize>, n: int) -> bool {
    exists|i: int| 0 <= i < n && indexes[i] == #[trigger] indexes[n]
}

/// The ids of the tracks at the first `n` indexes, each index once; or the first
/// index that is out of range.
pub open spec fn track_ids_at(tracks: Seq<TrackView>, indexes: Seq<usize>, n: int) -> Result<
    Seq<Seq<char>>,
    usize,
>
    decreases n,
{
    if n <= 0 {
        Ok(Seq::empty())
    } else {
        match track_ids_at(tracks, indexes, n - 1) {
            Err(i) => Err(i),
            Ok(ids) => {
                let i = indexes[n - 1];
                if index_seen(indexes, n - 1) {
                    Ok(ids)
                } else if i >= tracks.len() {
                    Err(i)
                } else {
                    Ok(ids.push(tracks[i as int].id))
                }
            },
        }
    }
}

/// Removing tracks by index: all of them have to exist.
pub open spec fn remove_tracks_spec(
    s: StateView,
    indexes: Seq<usize>,
    registry_fault: Option<Seq<char>>,
) -> (Result<EditResultView, Fault>, StateView) {
    if indexes.len() == 0 {
        (Err(Fault::Invalid("trackIndexes must be a non-empty array"@)), s)
    } else {
        match track_ids_at(s.timeline.tracks, indexes, indexes.len() as int) {
            Err(i) => (
                Err(
                    Fault::Invalid(
                        "track index "@ + nat_text(i as nat) + " out of range (timeline has "@
                            + nat_text(s.timeline.tracks.len()) + " tracks)"@,
                    ),
                ),
                s,
            ),
            Ok(ids) => timeline_transacted(
                s,
                if ids.len() == 1 {
                    "Remove Track"@
                } else {
                    "Remove Tracks"@
                },
                "Removed "@ + nat_text(ids.len()) + " track(s)"@,
                TimelineView { tracks: tracks_without(s.timeline.tracks, ids), ..s.timeline },
                Seq::empty(),
                registry_fault,
            ),
        }
    }
}

fn keep_tracks(tracks: &Vec<Track>, ids: &Vec<String>) -> (r: Vec<Track>)
    ensures
        track_views(r@) == tracks_without(track_views(tracks@), texts(ids@)),
{
    let ghost views = track_views(tracks@);
    let mut out: Vec<Track> = Vec::new();
    let mut i: usize = 0;
    proof {
        assert(track_views(out@) =~= Seq::empty());
        assert(views.take(0) =~= Seq::empty());
    }
    while i < tracks.len()
        invariant
            i <= tracks@.len(),
            views == track_views(tracks@),
            track_views(out@) == tracks_without(views.take(i as int), texts(ids@)),
        decreases tracks@.len() - i,
    {
        let ghost kept = track_views(out@);
        proof {
            assert(views.take(i as int + 1).drop_last() =~= views.take(i as int));
        }
        if !listed(ids, tracks[i].id.as_str()) {
            out.push(tracks[i].copy());
            assert(track_views(out@) =~= kept.push(views[i as int]));
        }
        i += 1;
    }
    assert(views.take(i as int) =~= views);
    out
}

/// Removes tracks by index.
pub fn remove_tracks(
    state: &mut EditorState,
    track_indexes: Vec<usize>,
    registry_fault: &Option<String>,
) -> (r: Result<EditResult, EditError>)
    requires
        old(state)@.version < u64::MAX,
    ensures
        (outcome(r), final(state)@) == remove_tracks_spec(
            old(state)@,
            track_indexes@,
            opt_text(*registry_fault),
        ),
{
    if track_indexes.len() == 0 {
        return Err(invalid("trackIndexes must be a non-empty array"));
    }
    let ghost tracks = state@.timeline.tracks;
    let mut removed: Vec<String> = Vec::new();
    let mut n: usize = 0;
    assert(texts(removed@) =~= Seq::empty());
    while n < track_indexes.len()
        invariant
            n <= track_indexes@.len(),
            tracks == state@.timeline.tracks,
            state@ == old(state)@,
            track_indexes@.len() > 0,
            track_ids_at(tracks, track_indexes@, n as int) == Ok::<Seq<Seq<char>>, usize>(
                texts(removed@),
            ),
        decreases track_indexes@.len() - n,
    {
        let i: usize = track_indexes[n];
        let mut seen = false;
        let mut k: usize = 0;
        while k < n
            invariant
                k <= n < track_indexes@.len(),
                i == track_indexes@[n as int],
                seen == exists|j: int| 0 <= j < k && #[trigger] track_indexes@[j] == i,
            decreases n - k,
        {
            if track_indexes[k] == i {
                seen = true;
            }
            k += 1;
        }
        proof {
            assert(seen == index_seen(track_indexes@, n as int)) by {
                if seen {
                    let j = choose|j: int| 0 <= j < k && #[trigger] track_indexes@[j] == i;
                    assert(track_indexes@[j] == track_indexes@[n as int]);
                }
            }
            assert(state.timeline.tracks@.len() == tracks.len());
        }
        if !seen {
            if i >= state.timeline.tracks.len() {
                proof {
                    lemma_ids_error(tracks, track_indexes@, n as int + 1);
                }
                let index = usize_to_text(i);
                let count = usize_to_text(state.timeline.tracks.len());
                return Err(
                    EditError::Invalid(
                        cat5(
                            "track index ",
                            index.as_str(),
                            " out of range (timeline has ",
                            count.as_str(),
                            " tracks)",
                        ),
                    ),
                );
            }
            let ghost before = texts(removed@);
            removed.push(state.timeline.tracks[i].id.clone());
            assert(texts(removed@) =~= before.push(tracks[i as int].id));
        }
        n += 1;
    }
    let count = usize_to_text(removed.len());
    let summary = cat3("Removed ", count.as_str(), " track(s)");
    let mut timeline = state.timeline.copy();
    let ghost before = timeline;
    timeline.tracks = keep_tracks(&timeline.tracks, &removed);
    proof {
        lemma_tracks_replaced(before, timeline);
    }
    let affected: Vec<String> = Vec::new();
    assert(texts(affected@) =~= Seq::empty());
    transact_timeline(
        state,
        if removed.len() == 1 {
            "Remove Track"
        } else {
            "Remove Tracks"
        },
        summary.as_str(),
        timeline,
        affected,
        registry_fault,
    )
}

proof fn lemma_ids_error(tracks: Seq<TrackView>, indexes: Seq<usize>, n: int)
    requires
        0 <= n <= indexes.len(),
        track_ids_at(tracks, indexes, n) is Err,
    ensures
        track_ids_at(tracks, indexes, indexes.len() as int) == track_ids_at(tracks, indexes, n),
    decreases indexes.len() - n,
{
    if n < indexes.len() {
        lemma_ids_error(tracks, indexes, n + 1);
    }
}

/// Linking clips into one new group: at least two, all of which exist.
pub open spec fn link_spec(
    s: StateView,
    clip_ids: Seq<Seq<char>>,
    ids: IdsView,
    registry_fault: Option<Seq<char>>,
) -> (Result<EditResultView, Fault>, StateView) {
    if clip_ids.len() < 2 {
        (Err(Fault::Invalid("Link requires at least 2 clips"@)), s)
    } else if missing_clip(s.timeline, clip_ids, 0) is Some {
        (Err(clip_not_found(missing_clip(s.timeline, clip_ids, 0)->0)), s)
    } else {
        timeline_transacted(
            s,
            "Link"@,
            "Linked clips"@,
            regrouped(s.timeline, clip_ids, Some(nth_id(ids, 1))),
            distinct(clip_ids),
            registry_fault,
        )
    }
}

/// Links clips into one group.
pub fn link(
    state: &mut EditorState,
    clip_ids: Vec<String>,
    ids: &mut CoreIdGen,
    registry_fault: &Option<String>,
) -> (r: Result<EditResult, EditError>)
    requires
        old(state)@.version < u64::MAX,
    ensures
        (outcome(r), final(state)@) == link_spec(
            old(state)@,
            texts(clip_ids@),
            old(ids)@,
            opt_text(*registry_fault),
        ),
        final(ids)@ == (if clip_ids@.len() < 2 || missing_clip(
            old(state)@.timeline,
            texts(clip_ids@),
            0,
        ) is Some {
            old(ids)@
        } else {
            ids_spent(old(state)@, old(ids)@, 1)
        }),
{
    if clip_ids.len() < 2 {
        return Err(invalid("Link requires at least 2 clips"));
    }
    let ghost wanted = texts(clip_ids@);
    let mut i: usize = 0;
    while i < clip_ids.len()
        invariant
            i <= clip_ids@.len(),
            wanted == texts(clip_ids@),
            state@ == old(state)@,
            ids@ == old(ids)@,
            clip_ids@.len() >= 2,
            missing_clip(state@.timeline, wanted, 0) == missing_clip(
                state@.timeline,
                wanted,
                i as int,
            ),
        decreases clip_ids@.len() - i,
    {
        if let Err(e) = require_clip(&state.timeline, clip_ids[i].as_str()) {
            return Err(e);
        }
        i += 1;
    }
    if let Err(e) = validate_timeline_frame_arithmetic(&state.timeline, "timeline") {
        return Err(e);
    }
    let group = Some(ids.next_id());
    let mut timeline = state.timeline.copy();
    set_link_group(&mut timeline, &clip_ids, &group);
    let affected = dedupe(&clip_ids);
    transact_timeline(state, "Link", "Linked clips", timeline, affected, registry_fault)
}

/// Unlinking clips and their whole groups.
pub open spec fn unlink_spec(
    s: StateView,
    clip_ids: Seq<Seq<char>>,
    registry_fault: Option<Seq<char>>,
) -> (Result<EditResultView, Fault>, StateView) {
    if clip_ids.len() == 0 {
        (Err(Fault::Invalid("Missing or empty 'clipIds' array"@)), s)
    } else {
        let all = link_expanded(s.timeline, clip_ids);
        timeline_transacted(
            s,
            "Unlink"@,
            "Unlinked clips"@,
            regrouped(s.timeline, all, None),
            all,
            registry_fault,
        )
    }
}

/// Unlinks clips (and their whole groups).
pub fn unlink(
    state: &mut EditorState,
    clip_ids: Vec<String>,
    registry_fault: &Option<String>,
) -> (r: Result<EditResult, EditError>)
    requires
        old(state)@.version < u64::MAX,
    ensures
        (outcome(r), final(state)@) == unlink_spec(
            old(state)@,
            texts(clip_ids@),
            opt_text(*registry_fault),
        ),
{
    if clip_ids.len() == 0 {
        return Err(invalid("Missing or empty 'clipIds' array"));
    }
    let expanded = expand_to_link_group(&state.timeline, &clip_ids);
    let mut timeline = state.timeline.copy();
    set_link_group(&mut timeline, &expanded, &None);
    transact_timeline(state, "Unlink", "Unlinked clips", timeline, expanded, registry_fault)
}

/// Exchanging two tracks twice brings the timeline back.
pub proof fn law_swapping_tracks_twice_restores(t: TimelineView, a: int, b: int)
    requires
        0 <= a < t.tracks.len(),
        0 <= b < t.tracks.len(),
    ensures
        tracks_swapped(tracks_swapped(t, a, b), a, b) == t,
{
    assert(tracks_swapped(tracks_swapped(t, a, b), a, b).tracks =~= t.tracks);
}

/// Linking clips and unlinking any one of them leaves all of them without a link.
pub proof fn law_unlinking_one_frees_its_group(
    t: TimelineView,
    clip_ids: Seq<Seq<char>>,
    group: Seq<char>,
    one: Seq<char>,
    i: int,
    j: int,
)
    requires
        clip_ids.contains(one),
        locate(t, one) is Some,
        0 <= i < t.tracks.len(),
        0 <= j < t.tracks[i].clips.len(),
        clip_ids.contains(t.tracks[i].clips[j].id),
    ensures
        ({
            let linked = regrouped(t, clip_ids, Some(group));
            let free = regrouped(linked, link_expanded(linked, seq![one]), None);
            free.tracks[i].clips[j].link_group_id is None
        }),
{
    let linked = regrouped(t, clip_ids, Some(group));
    lemma_located(t, one, 0);
    let place = locate(t, one)->0;
    let all = flat_clips(linked.tracks);
    lemma_flat_holds(linked.tracks, place.0, place.1);
    lemma_flat_holds(linked.tracks, i, j);
    let x = choose|x: int| 0 <= x < all.len() && all[x] == linked.tracks[place.0].clips[place.1];
    let y = choose|y: int| 0 <= y < all.len() && all[y] == linked.tracks[i].clips[j];
    assert(seq![one][0] == one);
    law_expansion_holds_whole_groups(linked, seq![one], x, y);
}

/// The clips of a timeline, track by track, hold each clip of each track.
proof fn lemma_flat_holds(tracks: Seq<TrackView>, i: int, j: int)
    requires
        0 <= i < tracks.len(),
        0 <= j < tracks[i].clips.len(),
    ensures
        exists|x: int|
            0 <= x < flat_clips(tracks).len() && #[trigger] flat_clips(tracks)[x]
                == tracks[i].clips[j],
    decreases tracks.len(),
{
    let rest = tracks.drop_last();
    let all = flat_clips(tracks);
    if i == tracks.len() - 1 {
        assert(all[flat_clips(rest).len() + j] == tracks[i].clips[j]);
    } else {
        lemma_flat_holds(rest, i, j);
        let x = choose|x: int|
            0 <= x < flat_clips(rest).len() && #[trigger] flat_clips(rest)[x] == rest[i].clips[j];
        assert(all[x] == tracks[i].clips[j]);
    }
}

} // verus!
