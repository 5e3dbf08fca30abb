//! Splitting, freezing, trimming and ripple-deleting clips. The cutting itself is
//! done by the placement engine; here stand the checks before it and the
//! transaction after it.

use crate::commands::keyframes::end_of;
use crate::commands::keyframes::outside;
use crate::commands::keyframes::outside_clip;
use crate::commands::new_track::clip_of;
use crate::edit::invalid;
use crate::edit::outcome;
use crate::edit::verdict;
use crate::edit::EditError;
use crate::edit::EditResult;
use crate::edit::EditResultView;
use crate::edit::Fault;
use crate::links::dedupe;
use crate::links::distinct;
use crate::links::flat_clips;
use crate::links::flat_until;
use crate::links::lemma_flat_step;
use crate::links::listed;
use crate::locate::clip_at;
use crate::locate::clip_not_found;
use crate::locate::lemma_timeline_parts;
use crate::locate::locate;
use crate::locate::require_clip;
use crate::model::Clip;
use crate::model::ClipView;
use crate::model::Timeline;
use crate::model::TimelineView;
use crate::model::TrackView;
use crate::state::timeline_transacted;
use crate::state::transact_timeline;
use crate::state::EditorState;
use crate::state::Placed;
use crate::state::PlacedView;
use crate::state::StateView;
use crate::text::cat4;
use crate::text::i32_to_text;
use crate::text::int_text;
use crate::text::join;
use crate::text::joined;
use crate::text::opt_text;
use crate::text::texts;
use vstd::prelude::*;
use vstd::string::StringExecFns;

verus! {

/// Whether a frame cuts a clip in two.
pub open spec fn cuts(c: ClipView, frame: int) -> bool {
    c.start_frame < frame < end_of(c)
}

fn does_cut(clip: &Clip, frame: i32) -> (r: bool)
    ensures
        r == cuts(clip@, frame as int),
{
    clip.start_frame < frame && (frame as i64) < clip.start_frame as i64
        + clip.duration_frames as i64
}

/// The summary of a split, with the ids of the right halves.
pub open spec fn split_summary(at_frame: int, rights: Seq<Seq<char>>) -> Seq<char> {
    if rights.len() == 0 {
        "Split (no-op)"@
    } else {
        "Split at "@ + int_text(at_frame) + " -> "@ + joined(rights, ", "@)
    }
}

fn summarize_split(at_frame: i32, rights: &Vec<String>) -> (r: String)
    ensures
        r@ == split_summary(at_frame as int, texts(rights@)),
{
    assert(texts(rights@).len() == rights@.len());
    if rights.len() == 0 {
        String::from_str("Split (no-op)")
    } else {
        let frame = i32_to_text(at_frame);
        let list = join(rights, ", ");
        cat4("Split at ", frame.as_str(), " -> ", list.as_str())
    }
}

/// The complaint against splitting one clip, if any.
pub open spec fn split_fault(t: TimelineView, id: Seq<char>, at_frame: int) -> Option<Fault> {
    match locate(t, id) {
        None => Some(clip_not_found(id)),
        Some(p) => if cuts(clip_at(t, p), at_frame) {
            None
        } else {
            Some(outside_clip("Frame "@, at_frame, clip_at(t, p)))
        },
    }
}

/// Splitting a clip and the clips linked to it.
pub open spec fn split_spec(
    s: StateView,
    id: Seq<char>,
    at_frame: int,
    placed: PlacedView,
    registry_fault: Option<Seq<char>>,
) -> (Result<EditResultView, Fault>, StateView) {
    match split_fault(s.timeline, id, at_frame) {
        Some(f) => (Err(f), s),
        None => timeline_transacted(
            s,
            if clip_of(s.timeline, id).link_group_id is Some {
                "Split Clips"@
            } else {
                "Split Clip"@
            },
            split_summary(at_frame, placed.affected),
            placed.timeline,
            placed.affected,
            registry_fault,
        ),
    }
}

/// Splits a clip at a frame, and the clips linked to it. `placed` is what the
/// splitting made of the timeline, with the right halves.
pub fn split(
    state: &mut EditorState,
    clip_id: String,
    at_frame: i32,
    placed: Placed,
    registry_fault: &Option<String>,
) -> (r: Result<EditResult, EditError>)
    requires
        old(state)@.version < u64::MAX,
    ensures
        (outcome(r), final(state)@) == split_spec(
            old(state)@,
            clip_id@,
            at_frame as int,
            placed@,
            opt_text(*registry_fault),
        ),
{
    let (ti, ci) = match require_clip(&state.timeline, clip_id.as_str()) {
        Ok(place) => place,
        Err(e) => return Err(e),
    };
    proof {
        lemma_timeline_parts(state.timeline, ti as int, ci as int);
    }
    let clip = &state.timeline.tracks[ti].clips[ci];
    if !does_cut(clip, at_frame) {
        return Err(outside("Frame ", at_frame, clip));
    }
    let linked = clip.link_group_id.is_some();
    let summary = summarize_split(at_frame, &placed.affected);
    transact_timeline(
        state,
        if linked {
            "Split Clips"
        } else {
            "Split Clip"
        },
        summary.as_str(),
        placed.timeline,
        placed.affected,
        registry_fault,
    )
}

/// The complaint against splitting a clip there, if any: the frame has to cut it,
/// and the splitter has to be able to.
pub open spec fn candidate_fault(
    c: ClipView,
    at_frame: int,
    unsplittable: Seq<Seq<char>>,
) -> Option<Fault> {
    if !cuts(c, at_frame) {
        Some(outside_clip("Frame "@, at_frame, c))
    } else if unsplittable.contains(c.id) {
        Some(
            Fault::Invalid(
                "Clip "@ + c.id + " cannot be split at frame "@ + int_text(at_frame),
            ),
        )
    } else {
        None
    }
}

/// Checks that a clip can be split at a frame. `unsplittable` lists the clips that
/// the splitter cannot split there.
pub fn validate_split_candidate(clip: &Clip, at_frame: i32, unsplittable: &Vec<String>) -> (r: Result<
    (),
    EditError,
>)
    ensures
        verdict(r) == candidate_fault(clip@, at_frame as int, texts(unsplittable@)),
{
    if !does_cut(clip, at_frame) {
        return Err(outside("Frame ", at_frame, clip));
    }
    if listed(unsplittable, clip.id.as_str()) {
        let frame = i32_to_text(at_frame);
        return Err(
            EditError::Invalid(
                cat4("Clip ", clip.id.as_str(), " cannot be split at frame ", frame.as_str()),
            ),
        );
    }
    Ok(())
}

/// The first complaint, from `from` on, against splitting the given clips.
pub open spec fn candidates_fault(
    t: TimelineView,
    ids: Seq<Seq<char>>,
    at_frame: int,
    unsplittable: Seq<Seq<char>>,
    from: int,
) -> Option<Fault>
    decreases ids.len() - from,
{
    if from < 0 || from >= ids.len() {
        None
    } else {
        match locate(t, ids[from]) {
            None => Some(clip_not_found(ids[from])),
            Some(p) => match candidate_fault(clip_at(t, p), at_frame, unsplittable) {
                Some(f) => Some(f),
                None => candidates_fault(t, ids, at_frame, unsplittable, from + 1),
            },
        }
    }
}

/// Whether a group occurs among the first `n` clips.
pub open spec fn group_among(
    t: TimelineView,
    ids: Seq<Seq<char>>,
    group: Seq<char>,
    n: int,
) -> bool {
    exists|k: int| 0 <= k < n && clip_of(t, #[trigger] ids[k]).link_group_id == Some(group)
}

/// The clips to split by: of each link group the first.
pub open spec fn split_seeds(t: TimelineView, ids: Seq<Seq<char>>, n: int) -> Seq<Seq<char>>
    decreases n,
{
    if n <= 0 {
        Seq::empty()
    } else {
        let rest = split_seeds(t, ids, n - 1);
        match clip_of(t, ids[n - 1]).link_group_id {
            Some(g) => if group_among(t, ids, g, n - 1) {
                rest
            } else {
                rest.push(ids[n - 1])
            },
            None => rest.push(ids[n - 1]),
        }
    }
}

/// The first complaint, from `from` on, against splitting the members of a group
/// that the frame cuts.
pub open spec fn members_fault(
    clips: Seq<ClipView>,
    group: Seq<char>,
    at_frame: int,
    unsplittable: Seq<Seq<char>>,
    from: int,
) -> Option<Fault>
    decreases clips.len() - from,
{
    if from < 0 || from >= clips.len() {
        None
    } else if clips[from].link_group_id == Some(group) && cuts(clips[from], at_frame)
        && candidate_fault(clips[from], at_frame, unsplittable) is Some {
        candidate_fault(clips[from], at_frame, unsplittable)
    } else {
        members_fault(clips, group, at_frame, unsplittable, from + 1)
    }
}

/// The first complaint, from `from` on, against splitting the groups of the given
/// clips.
pub open spec fn groups_fault(
    t: TimelineView,
    seeds: Seq<Seq<char>>,
    at_frame: int,
    unsplittable: Seq<Seq<char>>,
    from: int,
) -> Option<Fault>
    decreases seeds.len() - from,
{
    if from < 0 || from >= seeds.len() {
        None
    } else {
        let fault = match clip_of(t, seeds[from]).link_group_id {
            Some(g) => members_fault(flat_clips(t.tracks), g, at_frame, unsplittable, 0),
            None => None,
        };
        match fault {
            Some(f) => Some(f),
            None => groups_fault(t, seeds, at_frame, unsplittable, from + 1),
        }
    }
}

/// The complaint against splitting clips together, if any. No id is minted before
/// every clip that is to be split, partners too, was found splittable.
pub open spec fn split_clips_fault(
    t: TimelineView,
    ids: Seq<Seq<char>>,
    at_frame: int,
    unsplittable: Seq<Seq<char>>,
) -> Option<Fault> {
    let wanted = distinct(ids);
    if ids.len() == 0 {
        Some(Fault::Invalid("Missing or empty 'clipIds' array"@))
    } else {
        match candidates_fault(t, wanted, at_frame, unsplittable, 0) {
            Some(f) => Some(f),
            None => groups_fault(
                t,
                split_seeds(t, wanted, wanted.len() as int),
                at_frame,
                unsplittable,
                0,
            ),
        }
    }
}

/// Splitting clips together.
pub open spec fn split_clips_spec(
    s: StateView,
    ids: Seq<Seq<char>>,
    at_frame: int,
    unsplittable: Seq<Seq<char>>,
    placed: PlacedView,
    registry_fault: Option<Seq<char>>,
) -> (Result<EditResultView, Fault>, StateView) {
    match split_clips_fault(s.timeline, ids, at_frame, unsplittable) {
        Some(f) => (Err(f), s),
        None => timeline_transacted(
            s,
            "Split Clips"@,
            split_summary(at_frame, placed.affected),
            placed.timeline,
            placed.affected,
            registry_fault,
        ),
    }
}

/// Every clip of a list without complaints exists.
proof fn lemma_candidates_found(
    t: TimelineView,
    ids: Seq<Seq<char>>,
    at_frame: int,
    unsplittable: Seq<Seq<char>>,
    from: int,
    i: int,
)
    requires
        0 <= from <= i < ids.len(),
        candidates_fault(t, ids, at_frame, unsplittable, from) is None,
    ensures
        locate(t, ids[i]) is Some,
    decreases i - from,
{
    if from < i {
        lemma_candidates_found(t, ids, at_frame, unsplittable, from + 1, i);
    }
}

/// The link group of an existing clip.
fn link_of(timeline: &Timeline, id: &String) -> (r: Option<String>)
    requires
        locate(timeline@, id@) is Some,
    ensures
        opt_text(r) == clip_of(timeline@, id@).link_group_id,
{
    match require_clip(timeline, id.as_str()) {
        Ok((ti, ci)) => {
            proof {
                lemma_timeline_parts(*timeline, ti as int, ci as int);
            }
            crate::text::copy_opt(&timeline.tracks[ti].clips[ci].link_group_id)
        },
        Err(_) => None,
    }
}

fn check_members(timeline: &Timeline, group: &String, at_frame: i32, unsplittable: &Vec<String>) -> (r: Result<
    (),
    EditError,
>)
    ensures
        verdict(r) == members_fault(
            flat_clips(timeline@.tracks),
            group@,
            at_frame as int,
            texts(unsplittable@),
            0,
        ),
{
    let ghost t = timeline@;
    let ghost all = flat_clips(t.tracks);
    let ghost un = texts(unsplittable@);
    let mut i: usize = 0;
    assert(t.tracks.take(0) =~= Seq::empty());
    while i < timeline.tracks.len()
        invariant
            i <= timeline.tracks@.len(),
            t == timeline@,
            all == flat_clips(t.tracks),
            un == texts(unsplittable@),
            members_fault(all, group@, at_frame as int, un, 0) == members_fault(
                all,
                group@,
                at_frame as int,
                un,
                flat_clips(t.tracks.take(i as int)).len() as int,
            ),
        decreases timeline.tracks@.len() - i,
    {
        proof {
            lemma_timeline_parts(*timeline, i as int, 0);
            lemma_flat_step(t.tracks, i as int, 0);
        }
        let mut j: usize = 0;
        while j < timeline.tracks[i].clips.len()
            invariant
                i < timeline.tracks@.len(),
                j <= timeline.tracks@[i as int].clips@.len(),
                t == timeline@,
                all == flat_clips(t.tracks),
                un == texts(unsplittable@),
                members_fault(all, group@, at_frame as int, un, 0) == members_fault(
                    all,
                    group@,
                    at_frame as int,
                    un,
                    flat_until(t.tracks, i as int, j as int).len() as int,
                ),
            decreases timeline.tracks@[i as int].clips@.len() - j,
        {
            proof {
                lemma_timeline_parts(*timeline, i as int, j as int);
                lemma_flat_step(t.tracks, i as int, j as int);
                lemma_flat_place(t.tracks, i as int, j as int);
            }
            let clip = &timeline.tracks[i].clips[j];
            let member = match &clip.link_group_id {
                Some(g) => *g == *group,
                None => false,
            };
            if member && does_cut(clip, at_frame) {
                if let Err(e) = validate_split_candidate(clip, at_frame, unsplittable) {
                    return Err(e);
                }
            }
            j += 1;
        }
        proof {
            lemma_timeline_parts(*timeline, i as int, 0);
            lemma_flat_step(t.tracks, i as int, j as int);
        }
        i += 1;
    }
    assert(t.tracks.take(i as int) =~= t.tracks);
    Ok(())
}

/// A clip comes, among all clips, right behind those before it.
proof fn lemma_flat_place(tracks: Seq<TrackView>, ti: int, ci: int)
    requires
        0 <= ti < tracks.len(),
        0 <= ci < tracks[ti].clips.len(),
    ensures
        flat_until(tracks, ti, ci).len() < flat_clips(tracks).len(),
        flat_clips(tracks)[flat_until(tracks, ti, ci).len() as int] == tracks[ti].clips[ci],
    decreases tracks.len(),
{
    let front = tracks.drop_last();
    if ti == tracks.len() - 1 {
        assert(tracks.take(ti) =~= front);
    } else {
        assert(front[ti] == tracks[ti]);
        assert(front.take(ti) =~= tracks.take(ti));
        lemma_flat_place(front, ti, ci);
    }
}

/// Checks clips to be split together, and returns those to split by: of each link
/// group the first, since splitting a clip splits the clips linked to it.
pub fn plan_split(
    state: &EditorState,
    clip_ids: &Vec<String>,
    at_frame: i32,
    unsplittable: &Vec<String>,
) -> (r: Result<Vec<String>, EditError>)
    ensures
        match r {
            Err(e) => split_clips_fault(
                state@.timeline,
                texts(clip_ids@),
                at_frame as int,
                texts(unsplittable@),
            ) == Some(e@),
            Ok(seeds) => split_clips_fault(
                state@.timeline,
                texts(clip_ids@),
                at_frame as int,
                texts(unsplittable@),
            ) is None && texts(seeds@) == split_seeds(
                state@.timeline,
                distinct(texts(clip_ids@)),
                distinct(texts(clip_ids@)).len() as int,
            ),
        },
{
    if clip_ids.len() == 0 {
        return Err(invalid("Missing or empty 'clipIds' array"));
    }
    let ghost t = state@.timeline;
    let ghost un = texts(unsplittable@);
    let requested = dedupe(clip_ids);
    let ghost wanted = texts(requested@);
    assert(wanted.len() == requested@.len());
    let mut i: usize = 0;
    while i < requested.len()
        invariant
            i <= requested@.len(),
            clip_ids@.len() > 0,
            t == state@.timeline,
            un == texts(unsplittable@),
            wanted == texts(requested@),
            wanted == distinct(texts(clip_ids@)),
            candidates_fault(t, wanted, at_frame as int, un, 0) == candidates_fault(
                t,
                wanted,
                at_frame as int,
                un,
                i as int,
            ),
        decreases requested@.len() - i,
    {
        let (ti, ci) = match require_clip(&state.timeline, requested[i].as_str()) {
            Ok(place) => place,
            Err(e) => return Err(e),
        };
        proof {
            lemma_timeline_parts(state.timeline, ti as int, ci as int);
        }
        if let Err(e) = validate_split_candidate(
            &state.timeline.tracks[ti].clips[ci],
            at_frame,
            unsplittable,
        ) {
            return Err(e);
        }
        i += 1;
    }
    let mut groups: Vec<String> = Vec::new();
    let mut seeds: Vec<String> = Vec::new();
    let mut n: usize = 0;
    assert(texts(seeds@) =~= Seq::empty());
    assert(texts(groups@) =~= Seq::empty());
    while n < requested.len()
        invariant
            n <= requested@.len(),
            t == state@.timeline,
            un == texts(unsplittable@),
            wanted == texts(requested@),
            candidates_fault(t, wanted, at_frame as int, un, 0) is None,
            forall|g: Seq<char>|
                texts(groups@).contains(g) == #[trigger] group_among(t, wanted, g, n as int),
            texts(seeds@) == split_seeds(t, wanted, n as int),
        decreases requested@.len() - n,
    {
        let ghost old_groups = texts(groups@);
        let ghost old_seeds = texts(seeds@);
        proof {
            lemma_candidates_found(t, wanted, at_frame as int, un, 0, n as int);
        }
        let link = link_of(&state.timeline, &requested[n]);
        let ghost c = clip_of(t, wanted[n as int]);
        match link {
            Some(g) => {
                if !listed(&groups, g.as_str()) {
                    seeds.push(requested[n].clone());
                    groups.push(g);
                    assert(texts(groups@) =~= old_groups.push(g@));
                    assert(texts(seeds@) =~= old_seeds.push(wanted[n as int]));
                }
            },
            None => {
                seeds.push(requested[n].clone());
                assert(texts(seeds@) =~= old_seeds.push(wanted[n as int]));
            },
        }
        proof {
            assert forall|x: Seq<char>|
                texts(groups@).contains(x) == #[trigger] group_among(t, wanted, x, n + 1) by {
                lemma_group_among(t, wanted, x, n as int);
                assert(old_groups.contains(x) == group_among(t, wanted, x, n as int));
                if c.link_group_id is Some && !old_groups.contains(c.link_group_id->0) {
                    let g = c.link_group_id->0;
                    assert(texts(groups@)[old_groups.len() as int] == g);
                    if old_groups.contains(x) {
                        let k = old_groups.index_of(x);
                        assert(texts(groups@)[k] == x);
                    }
                    if texts(groups@).contains(x) && x != g {
                        let k = texts(groups@).index_of(x);
                        assert(old_groups[k] == x);
                    }
                }
            }
        }
        n += 1;
    }
    let mut k: usize = 0;
    let ghost planned = texts(seeds@);
    while k < seeds.len()
        invariant
            k <= seeds@.len(),
            clip_ids@.len() > 0,
            t == state@.timeline,
            un == texts(unsplittable@),
            planned == texts(seeds@),
            wanted == distinct(texts(clip_ids@)),
            planned == split_seeds(t, wanted, wanted.len() as int),
            candidates_fault(t, wanted, at_frame as int, un, 0) is None,
            groups_fault(t, planned, at_frame as int, un, 0) == groups_fault(
                t,
                planned,
                at_frame as int,
                un,
                k as int,
            ),
        decreases seeds@.len() - k,
    {
        proof {
            lemma_seed_wanted(t, wanted, wanted.len() as int, k as int);
            let w = choose|w: int| 0 <= w < wanted.len() && #[trigger] wanted[w] == planned[k as int];
            lemma_candidates_found(t, wanted, at_frame as int, un, 0, w);
        }
        let link = link_of(&state.timeline, &seeds[k]);
        if let Some(g) = link {
            if let Err(e) = check_members(&state.timeline, &g, at_frame, unsplittable) {
                return Err(e);
            }
        }
        k += 1;
    }
    Ok(seeds)
}

proof fn lemma_group_among(t: TimelineView, ids: Seq<Seq<char>>, group: Seq<char>, n: int)
    requires
        0 <= n < ids.len(),
    ensures
        group_among(t, ids, group, n + 1) == (group_among(t, ids, group, n) || clip_of(
            t,
            ids[n],
        ).link_group_id == Some(group)),
{
    if clip_of(t, ids[n]).link_group_id == Some(group) {
        assert(group_among(t, ids, group, n + 1));
    }
    if group_among(t, ids, group, n) {
        let k = choose|k: int|
            0 <= k < n && clip_of(t, #[trigger] ids[k]).link_group_id == Some(group);
        assert(clip_of(t, ids[k]).link_group_id == Some(group));
    }
}

proof fn lemma_seed_wanted(t: TimelineView, ids: Seq<Seq<char>>, n: int, k: int)
    requires
        0 <= n <= ids.len(),
        0 <= k < split_seeds(t, ids, n).len(),
    ensures
        exists|w: int| 0 <= w < n && #[trigger] ids[w] == split_seeds(t, ids, n)[k],
    decreases n,
{
    if n > 0 {
        let rest = split_seeds(t, ids, n - 1);
        if k < rest.len() {
            lemma_seed_wanted(t, ids, n - 1, k);
            let w = choose|w: int| 0 <= w < n - 1 && #[trigger] ids[w] == rest[k];
            assert(ids[w] == split_seeds(t, ids, n)[k]);
        } else {
            assert(ids[n - 1] == split_seeds(t, ids, n)[k]);
        }
    }
}

/// Splits every requested clip at one frame as a single transaction.
/// `unsplittable` lists the clips that the splitter cannot split there, and
/// `placed` is what splitting by the clips of [`plan_split`] made of the timeline.
pub fn split_clips(
    state: &mut EditorState,
    clip_ids: Vec<String>,
    at_frame: i32,
    unsplittable: &Vec<String>,
    placed: Placed,
    registry_fault: &Option<String>,
) -> (r: Result<EditResult, EditError>)
    requires
        old(state)@.version < u64::MAX,
    ensures
        (outcome(r), final(state)@) == split_clips_spec(
            old(state)@,
            texts(clip_ids@),
            at_frame as int,
            texts(unsplittable@),
            placed@,
            opt_text(*registry_fault),
        ),
{
    if let Err(e) = plan_split(state, &clip_ids, at_frame, unsplittable) {
        return Err(e);
    }
    let summary = summarize_split(at_frame, &placed.affected);
    transact_timeline(
        state,
        "Split Clips",
        summary.as_str(),
        placed.timeline,
        placed.affected,
        registry_fault,
    )
}

} // verus!
