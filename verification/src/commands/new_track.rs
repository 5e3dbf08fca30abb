//! Moving or duplicating clips to a new track in one gesture.
//!
//! The lead clip and its neighbours on the same track go to the new track. Clips
//! linked to the lead, and clips that its kind of track cannot hold, stay on their
//! own tracks when they are moved; when they are duplicated each such track gets a
//! fresh companion, so that no copy overwrites an original.

use crate::commands::effects::missing_clip;
use crate::commands::keyframes::end_of;
use crate::commands::moving::clip_plan_views;
use crate::commands::moving::ClipPlan;
use crate::commands::moving::ClipPlanView;
use crate::commands::placement::lane_kind;
use crate::commands::placement::placed_work;
use crate::commands::tracks::insert_track;
use crate::commands::tracks::track_inserted;
use crate::edit::invalid;
use crate::edit::outcome;
use crate::edit::verdict;
use crate::edit::EditError;
use crate::edit::EditResult;
use crate::edit::EditResultView;
use crate::edit::Fault;
use crate::entries::NewTrackClipMode;
use crate::frames::fits;
use crate::frames::timeline_fault;
use crate::frames::validate_timeline_frame_arithmetic;
use crate::ids::ids_after;
use crate::ids::lemma_ids_after;
use crate::ids::nth_id;
use crate::ids::CoreIdGen;
use crate::ids::IdsView;
use crate::links::dedupe;
use crate::links::distinct;
use crate::links::find_id;
use crate::links::id_index;
use crate::links::lemma_id_found;
use crate::links::lemma_id_index;
use crate::links::lemma_id_stays;
use crate::links::listed;
use crate::locate::clip_at;
use crate::locate::clip_not_found;
use crate::locate::do_tracks_stand;
use crate::locate::find_track;
use crate::locate::lemma_timeline_parts;
use crate::locate::locate;
use crate::locate::lost_track;
use crate::locate::require_clip;
use crate::locate::track_index;
use crate::locate::tracks_stand;
use crate::model::compatible;
use crate::model::Clip;
use crate::model::ClipType;
use crate::model::ClipView;
use crate::model::Timeline;
use crate::model::TimelineView;
use crate::model::Track;
use crate::state::transact;
use crate::state::transacted;
use crate::state::EditorState;
use crate::state::Placed;
use crate::state::PlacedView;
use crate::state::StateView;
use crate::state::Work;
use crate::text::cat3;
use crate::text::cat4;
use crate::text::nat_text;
use crate::text::opt_text;
use crate::text::same_opt;
use crate::text::texts;
use crate::text::usize_to_text;
use crate::transitions::clip_sound;
use crate::transitions::clips_sound;
use crate::transitions::lemma_timeline_sound;
use vstd::prelude::*;

verus! {

/// A clip that takes part in the gesture: the track it stands on and the frames
/// that it is to take.
#[derive(Debug)]
pub struct Source {
    pub clip: Clip,
    pub track_id: String,
    pub destination_start: i32,
    pub destination_end: i32,
}

/// The view of a [`Source`].
#[verifier::ext_equal]
pub struct SourceView {
    pub clip: ClipView,
    pub track_id: Seq<char>,
    pub destination_start: int,
    pub destination_end: int,
}

impl View for Source {
    type V = SourceView;

    open spec fn view(&self) -> SourceView {
        SourceView {
            clip: self.clip@,
            track_id: self.track_id@,
            destination_start: self.destination_start as int,
            destination_end: self.destination_end as int,
        }
    }
}

/// The views of a list of [`Source`].
pub open spec fn source_views(v: Seq<Source>) -> Seq<SourceView> {
    v.map_values(|x: Source| x@)
}

/// The clip with an id, once it is known to exist.
pub open spec fn clip_of(t: TimelineView, id: Seq<char>) -> ClipView {
    clip_at(t, locate(t, id)->0)
}

/// The first start among the first `n` clips.
pub open spec fn first_start(t: TimelineView, ids: Seq<Seq<char>>, n: int) -> int
    decreases n,
{
    if n <= 0 {
        i32::MAX as int
    } else {
        let rest = first_start(t, ids, n - 1);
        let start = clip_of(t, ids[n - 1]).start_frame as int;
        if start < rest {
            start
        } else {
            rest
        }
    }
}

/// How far the clips really go: not before the first frame.
pub open spec fn frame_delta(t: TimelineView, ids: Seq<Seq<char>>, requested: int) -> int {
    let least = -first_start(t, ids, ids.len() as int);
    if requested > least {
        requested
    } else {
        least
    }
}

/// The first complaint, from `from` on, that a clip would not fit where it goes.
pub open spec fn destinations_fault(
    t: TimelineView,
    ids: Seq<Seq<char>>,
    delta: int,
    from: int,
) -> Option<Seq<char>>
    decreases ids.len() - from,
{
    if from < 0 || from >= ids.len() {
        None
    } else {
        let c = clip_of(t, ids[from]);
        if !fits(c.start_frame + delta) {
            Some("clip "@ + ids[from] + ": destination start overflows"@)
        } else if !fits(c.start_frame + delta + c.duration_frames) {
            Some("clip "@ + ids[from] + ": destination end overflows"@)
        } else {
            destinations_fault(t, ids, delta, from + 1)
        }
    }
}

/// The complaint against the gesture, if any.
pub open spec fn new_track_fault(
    t: TimelineView,
    ids: Seq<Seq<char>>,
    lead: Seq<char>,
    requested: int,
) -> Option<Fault> {
    if ids.len() == 0 {
        Some(Fault::Invalid("Missing or empty 'clipIds' array"@))
    } else if distinct(ids).len() != ids.len() {
        Some(Fault::Invalid("clipIds must be unique"@))
    } else if !ids.contains(lead) {
        Some(Fault::Invalid("leadClipId must be present in clipIds"@))
    } else if timeline_fault(t, "timeline"@) is Some {
        Some(Fault::Invalid(timeline_fault(t, "timeline"@)->0))
    } else if missing_clip(t, ids, 0) is Some {
        Some(clip_not_found(missing_clip(t, ids, 0)->0))
    } else {
        match destinations_fault(t, ids, frame_delta(t, ids, requested), 0) {
            Some(m) => Some(Fault::Invalid(m)),
            None => None,
        }
    }
}

/// One of the clips that take part.
pub open spec fn source_of(t: TimelineView, id: Seq<char>, delta: int) -> SourceView {
    let place = locate(t, id)->0;
    let c = clip_at(t, place);
    SourceView {
        clip: c,
        track_id: t.tracks[place.0].id,
        destination_start: c.start_frame + delta,
        destination_end: c.start_frame + delta + c.duration_frames,
    }
}

/// The clips that take part.
pub open spec fn sources_of(t: TimelineView, ids: Seq<Seq<char>>, delta: int) -> Seq<SourceView> {
    ids.map_values(|id: Seq<char>| source_of(t, id, delta))
}

/// What a gesture is about: the lead clip, the kind of its track, the clips that
/// take part, the mode and the ids at the outset.
#[verifier::ext_equal]
pub struct Gesture {
    pub lead: SourceView,
    pub lead_track_kind: ClipType,
    pub sources: Seq<SourceView>,
    pub mode: NewTrackClipMode,
    pub ids: IdsView,
}

/// Whether a clip keeps to its own track: it is linked to the lead, or the lead's
/// kind of track cannot hold it.
pub open spec fn pinned(g: Gesture, source: SourceView) -> bool {
    (source.clip.id != g.lead.clip.id && g.lead.clip.link_group_id is Some
        && source.clip.link_group_id == g.lead.clip.link_group_id) || !compatible(
        source.clip.media_type,
        g.lead_track_kind,
    )
}

/// Whether a clip goes to the new track.
pub open spec fn follows_lead(g: Gesture, source: SourceView) -> bool {
    !pinned(g, source) && source.track_id == g.lead.track_id
}

/// Whether a copy would overlap an original on the same track.
pub open spec fn overlaps_original(g: Gesture, source: SourceView) -> bool {
    exists|i: int|
        0 <= i < g.sources.len() && (#[trigger] g.sources[i]).track_id == source.track_id
            && g.sources[i].clip.start_frame < source.destination_end && end_of(g.sources[i].clip)
            > source.destination_start
}

/// Whether a copy cannot go to the track of its original.
pub open spec fn displaced(g: Gesture, source: SourceView) -> bool {
    !follows_lead(g, source) && (pinned(g, source) || overlaps_original(g, source))
}

/// Whether the copies from a track go to a fresh track.
pub open spec fn needs_fresh_track(g: Gesture, track_id: Seq<char>) -> bool {
    g.mode is Duplicate && exists|i: int|
        0 <= i < g.sources.len() && (#[trigger] g.sources[i]).track_id == track_id && displaced(
            g,
            g.sources[i],
        )
}

/// The timeline with fresh tracks, and the tracks that they stand for.
#[verifier::ext_equal]
pub struct Lanes {
    pub timeline: TimelineView,
    pub track_ids: Seq<Seq<char>>,
    pub fresh_ids: Seq<Seq<char>>,
}

/// The lanes after the track of one clip was seen to.
pub open spec fn lane_added(g: Gesture, x: Lanes, source: SourceView) -> Lanes {
    if !needs_fresh_track(g, source.track_id) || id_index(x.track_ids, source.track_id, 0) is Some {
        x
    } else {
        match track_index(x.timeline.tracks, source.track_id, 0) {
            None => x,
            Some(i) => {
                let id = nth_id(g.ids, x.fresh_ids.len() as int + 2);
                Lanes {
                    timeline: track_inserted(
                        x.timeline,
                        x.timeline.tracks.len() as int,
                        x.timeline.tracks[i].kind,
                        id,
                    ),
                    track_ids: x.track_ids.push(source.track_id),
                    fresh_ids: x.fresh_ids.push(id),
                }
            },
        }
    }
}

/// The lanes after the tracks of the first `n` clips were seen to.
pub open spec fn lanes_added(g: Gesture, x: Lanes, n: int) -> Lanes
    decreases n,
{
    if n <= 0 {
        x
    } else {
        lane_added(g, lanes_added(g, x, n - 1), g.sources[n - 1])
    }
}

/// The track that a clip goes to.
pub open spec fn lane_of(g: Gesture, x: Lanes, source: SourceView) -> Seq<char> {
    match id_index(x.track_ids, source.track_id, 0) {
        Some(i) => x.fresh_ids[i],
        None => if follows_lead(g, source) {
            nth_id(g.ids, 1)
        } else {
            source.track_id
        },
    }
}

/// Where the clips go.
pub open spec fn lane_plans(g: Gesture, x: Lanes) -> Seq<ClipPlanView> {
    g.sources.map_values(
        |source: SourceView|
            ClipPlanView {
                clip: source.clip,
                to_track_id: lane_of(g, x, source),
                to_frame: source.destination_start as i32,
                to_end_frame: source.destination_end as i32,
            },
    )
}

/// What a gesture that is in order is about.
pub open spec fn gesture_of(
    t: TimelineView,
    clip_ids: Seq<Seq<char>>,
    lead: Seq<char>,
    requested: int,
    mode: NewTrackClipMode,
    ids: IdsView,
) -> Gesture {
    let delta = frame_delta(t, clip_ids, requested);
    let lead_source = source_of(t, lead, delta);
    Gesture {
        lead: lead_source,
        lead_track_kind: t.tracks[track_index(t.tracks, lead_source.track_id, 0)->0].kind,
        sources: sources_of(t, clip_ids, delta),
        mode,
        ids,
    }
}

/// The lanes of a gesture that is in order: the new track first, then the fresh
/// companions.
pub open spec fn lanes_of(t: TimelineView, g: Gesture, insert_at: int) -> Lanes {
    lanes_added(
        g,
        Lanes {
            timeline: track_inserted(
                t,
                insert_at,
                lane_kind(g.lead.clip.media_type),
                nth_id(g.ids, 1),
            ),
            track_ids: Seq::empty(),
            fresh_ids: Seq::empty(),
        },
        g.sources.len() as int,
    )
}

/// The label of a gesture.
pub open spec fn new_track_action(mode: NewTrackClipMode) -> Seq<char> {
    match mode {
        NewTrackClipMode::Move => "Move Clips To New Track"@,
        NewTrackClipMode::Duplicate => "Duplicate Clips To New Track"@,
    }
}

/// The tracks that plans lead to.
pub open spec fn plan_targets(plans: Seq<ClipPlanView>) -> Seq<Seq<char>> {
    plans.map_values(|p: ClipPlanView| p.to_track_id)
}

/// The gesture: it has to be in order; then the timeline on which the plans were
/// carried out is committed, provided that the tracks that they lead to stand on it.
/// Moved clips keep their ids.
pub open spec fn move_or_duplicate_spec(
    s: StateView,
    clip_ids: Seq<Seq<char>>,
    lead: Seq<char>,
    requested: int,
    insert_at: int,
    mode: NewTrackClipMode,
    ids: IdsView,
    placed: PlacedView,
    registry_fault: Option<Seq<char>>,
) -> (Result<EditResultView, Fault>, StateView) {
    match new_track_fault(s.timeline, clip_ids, lead, requested) {
        Some(f) => (Err(f), s),
        None => {
            let affected = match mode {
                NewTrackClipMode::Move => clip_ids,
                NewTrackClipMode::Duplicate => placed.affected,
            };
            let g = gesture_of(s.timeline, clip_ids, lead, requested, mode, ids);
            let plans = lane_plans(g, lanes_of(s.timeline, g, insert_at));
            transacted(
                s,
                new_track_action(mode),
                new_track_action(mode) + ": "@ + nat_text(affected.len()) + " clip(s)"@,
                placed_work(
                    s,
                    PlacedView { affected, ..placed },
                    tracks_stand(placed.timeline, plan_targets(plans)),
                ),
                registry_fault,
            )
        },
    }
}

/// The id generator after the gesture: every fresh track takes an id.
pub open spec fn gesture_ids(
    s: StateView,
    clip_ids: Seq<Seq<char>>,
    lead: Seq<char>,
    requested: int,
    insert_at: int,
    mode: NewTrackClipMode,
    ids: IdsView,
) -> IdsView {
    if new_track_fault(s.timeline, clip_ids, lead, requested) is Some {
        ids
    } else {
        let g = gesture_of(s.timeline, clip_ids, lead, requested, mode, ids);
        ids_after(ids, lanes_of(s.timeline, g, insert_at).fresh_ids.len() as int + 1)
    }
}

/// The first start lies among the frame numbers, and no clip starts before it.
proof fn lemma_first_start(t: TimelineView, ids: Seq<Seq<char>>, n: int)
    requires
        0 <= n <= ids.len(),
        forall|i: int| 0 <= i < n ==> clip_sound(clip_of(t, #[trigger] ids[i])),
    ensures
        0 <= first_start(t, ids, n) <= i32::MAX,
        forall|i: int|
            0 <= i < n ==> first_start(t, ids, n) <= clip_of(t, #[trigger] ids[i]).start_frame,
    decreases n,
{
    if n > 0 {
        lemma_first_start(t, ids, n - 1);
        assert(clip_sound(clip_of(t, ids[n - 1])));
    }
}

fn check_clip_ids(state: &EditorState, clip_ids: &Vec<String>, lead_clip_id: &String) -> (r: Result<
    (),
    EditError,
>)
    ensures
        match verdict(r) {
            Some(f) => forall|requested: int|
                #[trigger] new_track_fault(
                    state@.timeline,
                    texts(clip_ids@),
                    lead_clip_id@,
                    requested,
                ) == Some(f),
            None => {
                let t = state@.timeline;
                let ids = texts(clip_ids@);
                &&& ids.len() > 0
                &&& distinct(ids).len() == ids.len()
                &&& ids.contains(lead_clip_id@)
                &&& timeline_fault(t, "timeline"@) is None
                &&& missing_clip(t, ids, 0) is None
            },
        },
{
    if clip_ids.len() == 0 {
        return Err(invalid("Missing or empty 'clipIds' array"));
    }
    let unique = dedupe(clip_ids);
    assert(texts(unique@).len() == unique@.len());
    assert(texts(clip_ids@).len() == clip_ids@.len());
    if unique.len() != clip_ids.len() {
        return Err(invalid("clipIds must be unique"));
    }
    if !listed(clip_ids, lead_clip_id.as_str()) {
        return Err(invalid("leadClipId must be present in clipIds"));
    }
    if let Err(e) = validate_timeline_frame_arithmetic(&state.timeline, "timeline") {
        return Err(e);
    }
    let ghost t = state@.timeline;
    let ghost ids = texts(clip_ids@);
    let mut i: usize = 0;
    while i < clip_ids.len()
        invariant
            i <= clip_ids@.len(),
            t == state@.timeline,
            ids == texts(clip_ids@),
            ids.len() > 0,
            distinct(ids).len() == ids.len(),
            ids.contains(lead_clip_id@),
            timeline_fault(t, "timeline"@) is None,
            missing_clip(t, ids, 0) == missing_clip(t, ids, i as int),
        decreases clip_ids@.len() - i,
    {
        if let Err(e) = require_clip(&state.timeline, clip_ids[i].as_str()) {
            return Err(e);
        }
        i += 1;
    }
    Ok(())
}

/// An id of a list of existing clips is that of an existing clip.
proof fn lemma_present(t: TimelineView, ids: Seq<Seq<char>>, from: int, i: int)
    requires
        0 <= from <= i < ids.len(),
        missing_clip(t, ids, from) is None,
    ensures
        locate(t, ids[i]) is Some,
    decreases i - from,
{
    if from < i {
        lemma_present(t, ids, from + 1, i);
    }
}

/// The clips of a sound timeline are sound where they are found.
proof fn lemma_found_sound(t: TimelineView, id: Seq<char>)
    requires
        timeline_fault(t, "timeline"@) is None,
        locate(t, id) is Some,
    ensures
        clip_sound(clip_of(t, id)),
{
    lemma_timeline_sound(t, "timeline"@);
    crate::locate::lemma_located(t, id, 0);
    let p = locate(t, id)->0;
    assert(clips_sound(t.tracks[p.0].clips));
    assert(clip_sound(t.tracks[p.0].clips[p.1]));
}

/// The least start of existing clips.
fn least_start(state: &EditorState, clip_ids: &Vec<String>) -> (r: i32)
    requires
        timeline_fault(state@.timeline, "timeline"@) is None,
        missing_clip(state@.timeline, texts(clip_ids@), 0) is None,
    ensures
        r == first_start(state@.timeline, texts(clip_ids@), clip_ids@.len() as int),
        0 <= r,
{
    let ghost t = state@.timeline;
    let ghost ids = texts(clip_ids@);
    let mut least: i32 = i32::MAX;
    let mut i: usize = 0;
    while i < clip_ids.len()
        invariant
            i <= clip_ids@.len(),
            t == state@.timeline,
            ids == texts(clip_ids@),
            timeline_fault(t, "timeline"@) is None,
            missing_clip(t, ids, 0) is None,
            least == first_start(t, ids, i as int),
            0 <= least,
        decreases clip_ids@.len() - i,
    {
        proof {
            lemma_present(t, ids, 0, i as int);
            lemma_found_sound(t, ids[i as int]);
        }
        if let Ok((ti, ci)) = require_clip(&state.timeline, clip_ids[i].as_str()) {
            proof {
                lemma_timeline_parts(state.timeline, ti as int, ci as int);
            }
            let start: i32 = state.timeline.tracks[ti].clips[ci].start_frame;
            if start < least {
                least = start;
            }
        }
        i += 1;
    }
    least
}

/// Builds the clips that take part, or says which would not fit.
fn gather_sources(state: &EditorState, clip_ids: &Vec<String>, delta: i32) -> (r: Result<
    Vec<Source>,
    EditError,
>)
    requires
        timeline_fault(state@.timeline, "timeline"@) is None,
        missing_clip(state@.timeline, texts(clip_ids@), 0) is None,
    ensures
        match r {
            Ok(sources) => destinations_fault(
                state@.timeline,
                texts(clip_ids@),
                delta as int,
                0,
            ) is None && source_views(sources@) == sources_of(
                state@.timeline,
                texts(clip_ids@),
                delta as int,
            ),
            Err(e) => destinations_fault(
                state@.timeline,
                texts(clip_ids@),
                delta as int,
                0,
            ) matches Some(m) && e@ == Fault::Invalid(m),
        },
{
    let ghost t = state@.timeline;
    let ghost ids = texts(clip_ids@);
    let mut sources: Vec<Source> = Vec::new();
    let mut i: usize = 0;
    while i < clip_ids.len()
        invariant
            i <= clip_ids@.len(),
            t == state@.timeline,
            ids == texts(clip_ids@),
            timeline_fault(t, "timeline"@) is None,
            missing_clip(t, ids, 0) is None,
            destinations_fault(t, ids, delta as int, 0) == destinations_fault(
                t,
                ids,
                delta as int,
                i as int,
            ),
            sources@.len() == i,
            forall|k: int|
                0 <= k < i ==> (#[trigger] sources@[k])@ == source_of(t, ids[k], delta as int),
        decreases clip_ids@.len() - i,
    {
        let id = &clip_ids[i];
        proof {
            lemma_present(t, ids, 0, i as int);
            lemma_found_sound(t, ids[i as int]);
        }
        let (ti, ci) = match require_clip(&state.timeline, id.as_str()) {
            Ok(place) => place,
            Err(e) => return Err(e),
        };
        proof {
            lemma_timeline_parts(state.timeline, ti as int, ci as int);
        }
        let clip = state.timeline.tracks[ti].clips[ci].copy();
        let track_id = state.timeline.tracks[ti].id.clone();
        let destination_start: i32 = match clip.start_frame.checked_add(delta) {
            Some(value) => value,
            None => return Err(
                EditError::Invalid(cat3("clip ", id.as_str(), ": destination start overflows")),
            ),
        };
        let destination_end: i32 = match destination_start.checked_add(clip.duration_frames) {
            Some(value) => value,
            None => return Err(
                EditError::Invalid(cat3("clip ", id.as_str(), ": destination end overflows")),
            ),
        };
        sources.push(Source { clip, track_id, destination_start, destination_end });
        i += 1;
    }
    assert(source_views(sources@) =~= sources_of(t, ids, delta as int));
    Ok(sources)
}

/// Checks the gesture and gathers the clips that take part.
fn check_gesture(
    state: &EditorState,
    clip_ids: &Vec<String>,
    lead_clip_id: &String,
    requested_frame_delta: i32,
) -> (r: Result<Vec<Source>, EditError>)
    ensures
        match r {
            Ok(sources) => {
                let t = state@.timeline;
                let ids = texts(clip_ids@);
                &&& new_track_fault(t, ids, lead_clip_id@, requested_frame_delta as int) is None
                &&& source_views(sources@) == sources_of(
                    t,
                    ids,
                    frame_delta(t, ids, requested_frame_delta as int),
                )
                &&& timeline_fault(t, "timeline"@) is None
                &&& missing_clip(t, ids, 0) is None
                &&& ids.contains(lead_clip_id@)
            },
            Err(e) => new_track_fault(
                state@.timeline,
                texts(clip_ids@),
                lead_clip_id@,
                requested_frame_delta as int,
            ) == Some(e@),
        },
{
    if let Err(e) = check_clip_ids(state, clip_ids, lead_clip_id) {
        assert(new_track_fault(
            state@.timeline,
            texts(clip_ids@),
            lead_clip_id@,
            requested_frame_delta as int,
        ) == Some(e@));
        return Err(e);
    }
    let least: i32 = least_start(state, clip_ids);
    let minimum: i32 = -least;
    let delta: i32 = if requested_frame_delta > minimum {
        requested_frame_delta
    } else {
        minimum
    };
    gather_sources(state, clip_ids, delta)
}

/// What stays the same while lanes are laid out.
struct Layout {
    lead: Source,
    lead_track_kind: ClipType,
    sources: Vec<Source>,
    mode: NewTrackClipMode,
}

spec fn layout_view(l: Layout, ids: IdsView) -> Gesture {
    Gesture {
        lead: l.lead@,
        lead_track_kind: l.lead_track_kind,
        sources: source_views(l.sources@),
        mode: l.mode,
        ids,
    }
}

/// Whether the clips that take part are sound.
spec fn layout_ok(l: Layout) -> bool {
    forall|i: int| 0 <= i < l.sources@.len() ==> clip_sound((#[trigger] l.sources@[i]).clip@)
}

fn is_pinned(l: &Layout, source: &Source, Ghost(ids): Ghost<IdsView>) -> (r: bool)
    ensures
        r == pinned(layout_view(*l, ids), source@),
{
    (source.clip.id != l.lead.clip.id && l.lead.clip.link_group_id.is_some() && same_opt(
        &source.clip.link_group_id,
        &l.lead.clip.link_group_id,
    )) || !source.clip.media_type.is_compatible(l.lead_track_kind)
}

fn overlaps_an_original(l: &Layout, source: &Source, Ghost(ids): Ghost<IdsView>) -> (r: bool)
    requires
        layout_ok(*l),
    ensures
        r == overlaps_original(layout_view(*l, ids), source@),
{
    let ghost g = layout_view(*l, ids);
    let mut i: usize = 0;
    while i < l.sources.len()
        invariant
            i <= l.sources@.len(),
            layout_ok(*l),
            g == layout_view(*l, ids),
            forall|k: int|
                0 <= k < i ==> !((#[trigger] g.sources[k]).track_id == source@.track_id
                    && g.sources[k].clip.start_frame < source@.destination_end && end_of(
                    g.sources[k].clip,
                ) > source@.destination_start),
        decreases l.sources@.len() - i,
    {
        let original = &l.sources[i];
        assert(clip_sound(l.sources@[i as int].clip@));
        assert(g.sources[i as int] == original@);
        if original.track_id == source.track_id && original.clip.start_frame
            < source.destination_end && original.clip.start_frame + original.clip.duration_frames
            > source.destination_start {
            return true;
        }
        i += 1;
    }
    false
}

fn wants_fresh_track(l: &Layout, track_id: &String, Ghost(ids): Ghost<IdsView>) -> (r: bool)
    requires
        layout_ok(*l),
    ensures
        r == needs_fresh_track(layout_view(*l, ids), track_id@),
{
    let ghost g = layout_view(*l, ids);
    if l.mode != NewTrackClipMode::Duplicate {
        return false;
    }
    let mut i: usize = 0;
    while i < l.sources.len()
        invariant
            i <= l.sources@.len(),
            layout_ok(*l),
            g == layout_view(*l, ids),
            l.mode is Duplicate,
            forall|k: int|
                0 <= k < i ==> !((#[trigger] g.sources[k]).track_id == track_id@ && displaced(
                    g,
                    g.sources[k],
                )),
        decreases l.sources@.len() - i,
    {
        let source = &l.sources[i];
        assert(g.sources[i as int] == source@);
        if source.track_id == *track_id {
            let keeps = is_pinned(l, source, Ghost(ids));
            let follows = !keeps && source.track_id == l.lead.track_id;
            if !follows && (keeps || overlaps_an_original(l, source, Ghost(ids))) {
                assert(displaced(g, g.sources[i as int]));
                return true;
            }
        }
        i += 1;
    }
    false
}

/// The document and the plans that a gesture leads to.
#[derive(Debug)]
pub struct NewTrackPlan {
    pub timeline: Timeline,
    pub plans: Vec<ClipPlan>,
}

/// Lays out the lanes: the new track is there already.
fn lay_out(
    l: &Layout,
    timeline: &mut Timeline,
    ids: &mut CoreIdGen,
    Ghost(first): Ghost<IdsView>,
) -> (r: (Vec<String>, Vec<String>))
    requires
        layout_ok(*l),
        old(ids)@ == ids_after(first, 1),
    ensures
        ({
            let g = layout_view(*l, first);
            let x = Lanes {
                timeline: old(timeline)@,
                track_ids: Seq::empty(),
                fresh_ids: Seq::empty(),
            };
            let end = lanes_added(g, x, g.sources.len() as int);
            &&& end == (Lanes {
                timeline: final(timeline)@,
                track_ids: texts(r.0@),
                fresh_ids: texts(r.1@),
            })
            &&& r.0@.len() == r.1@.len()
            &&& final(ids)@ == ids_after(first, end.fresh_ids.len() as int + 1)
        }),
{
    let ghost g = layout_view(*l, first);
    let ghost x = Lanes {
        timeline: timeline@,
        track_ids: Seq::empty(),
        fresh_ids: Seq::empty(),
    };
    let mut track_ids: Vec<String> = Vec::new();
    let mut fresh_ids: Vec<String> = Vec::new();
    let mut i: usize = 0;
    proof {
        assert(texts(track_ids@) =~= Seq::empty());
        assert(texts(fresh_ids@) =~= Seq::empty());
    }
    while i < l.sources.len()
        invariant
            i <= l.sources@.len(),
            layout_ok(*l),
            g == layout_view(*l, first),
            track_ids@.len() == fresh_ids@.len(),
            lanes_added(g, x, i as int) == (Lanes {
                timeline: timeline@,
                track_ids: texts(track_ids@),
                fresh_ids: texts(fresh_ids@),
            }),
            ids@ == ids_after(first, fresh_ids@.len() as int + 1),
        decreases l.sources@.len() - i,
    {
        let source = &l.sources[i];
        let ghost before = lanes_added(g, x, i as int);
        assert(g.sources[i as int] == source@);
        if wants_fresh_track(l, &source.track_id, Ghost(first)) && find_id(
            &track_ids,
            &source.track_id,
        ).is_none() {
            if let Some(k) = find_track(&timeline.tracks, source.track_id.as_str()) {
                proof {
                    lemma_timeline_parts(*timeline, k as int, 0);
                    lemma_ids_after(first, fresh_ids@.len() as int + 1, 1);
                    assert(timeline.tracks@.len() == timeline@.tracks.len());
                }
                let kind = timeline.tracks[k].kind;
                let requested: usize = timeline.tracks.len();
                let ghost grown = timeline@;
                let at = insert_track(timeline, requested, kind, ids);
                proof {
                    crate::commands::tracks::lemma_first_audio(grown.tracks, 0);
                    lemma_timeline_parts(*timeline, at as int, 0);
                }
                fresh_ids.push(timeline.tracks[at].id.clone());
                track_ids.push(source.track_id.clone());
                proof {
                    let after = lane_added(g, before, source@);
                    assert(texts(track_ids@) =~= after.track_ids);
                    assert(texts(fresh_ids@) =~= after.fresh_ids);
                }
            }
        }
        i += 1;
    }
    (track_ids, fresh_ids)
}

/// Plans the gesture: adds the new track and the fresh companions, and says where
/// every clip goes.
pub fn plan_new_track(
    state: &EditorState,
    clip_ids: &Vec<String>,
    lead_clip_id: &String,
    requested_frame_delta: i32,
    insert_at: usize,
    mode: NewTrackClipMode,
    ids: &mut CoreIdGen,
) -> (r: Result<NewTrackPlan, EditError>)
    ensures
        ({
            let t = state@.timeline;
            let wanted = texts(clip_ids@);
            let fault = new_track_fault(t, wanted, lead_clip_id@, requested_frame_delta as int);
            let g = gesture_of(
                t,
                wanted,
                lead_clip_id@,
                requested_frame_delta as int,
                mode,
                old(ids)@,
            );
            let x = lanes_of(t, g, insert_at as int);
            match r {
                Err(e) => fault == Some(e@) && final(ids)@ == old(ids)@,
                Ok(plan) => fault is None && plan.timeline@ == x.timeline && clip_plan_views(
                    plan.plans@,
                ) == lane_plans(g, x) && final(ids)@ == ids_after(
                    old(ids)@,
                    x.fresh_ids.len() as int + 1,
                ),
            }
        }),
{
    let ghost t = state@.timeline;
    let ghost wanted = texts(clip_ids@);
    let ghost first = ids@;
    let ghost delta = frame_delta(t, wanted, requested_frame_delta as int);
    let sources = match check_gesture(state, clip_ids, lead_clip_id, requested_frame_delta) {
        Ok(sources) => sources,
        Err(e) => return Err(e),
    };
    proof {
        let k = wanted.index_of(lead_clip_id@);
        lemma_present(t, wanted, 0, k);
    }
    let (ti, ci) = match require_clip(&state.timeline, lead_clip_id.as_str()) {
        Ok(place) => place,
        Err(e) => return Err(e),
    };
    let lead_index: usize = match find_id(clip_ids, lead_clip_id) {
        Some(k) => k,
        None => {
            proof {
                lemma_id_found(wanted, wanted.index_of(lead_clip_id@), 0);
            }
            0
        },
    };
    proof {
        lemma_id_found(wanted, wanted.index_of(lead_clip_id@), 0);
        lemma_id_index(wanted, lead_clip_id@, 0);
        assert(source_views(sources@).len() == sources@.len());
        assert(source_views(sources@)[lead_index as int] == sources@[lead_index as int]@);
        assert(sources@[lead_index as int]@ == source_of(t, lead_clip_id@, delta));
        lemma_timeline_parts(state.timeline, ti as int, ci as int);
    }
    let lead = Source {
        clip: sources[lead_index].clip.copy(),
        track_id: sources[lead_index].track_id.clone(),
        destination_start: sources[lead_index].destination_start,
        destination_end: sources[lead_index].destination_end,
    };
    let lead_track_kind = match find_track(&state.timeline.tracks, lead.track_id.as_str()) {
        Some(k) => {
            proof {
                lemma_timeline_parts(state.timeline, k as int, 0);
            }
            state.timeline.tracks[k].kind
        },
        None => {
            proof {
                crate::locate::lemma_track_index(t.tracks, lead.track_id@, 0);
                assert(t.tracks[ti as int].id == lead.track_id@);
            }
            ClipType::Video
        },
    };
    let layout = Layout { lead, lead_track_kind, sources, mode };
    let ghost g = layout_view(layout, first);
    proof {
        assert(g =~= gesture_of(
            t,
            wanted,
            lead_clip_id@,
            requested_frame_delta as int,
            mode,
            first,
        ));
        assert forall|i: int| 0 <= i < layout.sources@.len() implies clip_sound(
            (#[trigger] layout.sources@[i]).clip@,
        ) by {
            assert(g.sources[i] == layout.sources@[i]@);
            assert(g.sources[i] == source_of(t, wanted[i], delta));
            lemma_present(t, wanted, 0, i);
            lemma_found_sound(t, wanted[i]);
        }
    }
    let new_kind = if layout.lead.clip.media_type == ClipType::Audio {
        ClipType::Audio
    } else {
        ClipType::Video
    };
    let mut timeline = state.timeline.copy();
    let at = insert_track(&mut timeline, insert_at, new_kind, ids);
    proof {
        crate::commands::tracks::lemma_first_audio(t.tracks, 0);
        lemma_timeline_parts(timeline, at as int, 0);
    }
    let new_track_id = timeline.tracks[at].id.clone();
    assert(new_track_id@ == nth_id(first, 1));
    let (track_ids, fresh_ids) = lay_out(&layout, &mut timeline, ids, Ghost(first));
    let ghost x = lanes_of(t, g, insert_at as int);
    let mut plans: Vec<ClipPlan> = Vec::new();
    let mut i: usize = 0;
    while i < layout.sources.len()
        invariant
            i <= layout.sources@.len(),
            g == layout_view(layout, first),
            x.track_ids == texts(track_ids@),
            x.fresh_ids == texts(fresh_ids@),
            track_ids@.len() == fresh_ids@.len(),
            new_track_id@ == nth_id(first, 1),
            plans@.len() == i,
            forall|k: int|
                0 <= k < i ==> (#[trigger] plans@[k])@ == lane_plans(g, x)[k],
        decreases layout.sources@.len() - i,
    {
        let source = &layout.sources[i];
        assert(g.sources[i as int] == source@);
        let to_track_id = match find_id(&track_ids, &source.track_id) {
            Some(k) => fresh_ids[k].clone(),
            None => {
                if !is_pinned(&layout, source, Ghost(first)) && source.track_id
                    == layout.lead.track_id {
                    new_track_id.clone()
                } else {
                    source.track_id.clone()
                }
            },
        };
        let plan = ClipPlan {
            clip: source.clip.copy(),
            to_track_id,
            to_frame: source.destination_start,
            to_end_frame: source.destination_end,
        };
        assert(plan@ =~= lane_plans(g, x)[i as int]);
        plans.push(plan);
        i += 1;
    }
    assert(clip_plan_views(plans@) =~= lane_plans(g, x));
    Ok(NewTrackPlan { timeline, plans })
}

fn list_targets(plans: &Vec<ClipPlan>) -> (r: Vec<String>)
    ensures
        texts(r@) == plan_targets(clip_plan_views(plans@)),
{
    let ghost expected = plan_targets(clip_plan_views(plans@));
    let mut out: Vec<String> = Vec::new();
    let mut i: usize = 0;
    while i < plans.len()
        invariant
            i <= plans@.len(),
            expected == plan_targets(clip_plan_views(plans@)),
            out@.len() == i,
            forall|k: int| 0 <= k < i ==> (#[trigger] out@[k])@ == expected[k],
        decreases plans@.len() - i,
    {
        out.push(plans[i].to_track_id.clone());
        i += 1;
    }
    assert(texts(out@) =~= expected);
    out
}

/// Moves or duplicates clips to a new track in one transaction. `placed` is what
/// the placement engine made of the timeline by the plans of [`plan_new_track`].
pub fn move_or_duplicate_clips_to_new_track(
    state: &mut EditorState,
    clip_ids: Vec<String>,
    lead_clip_id: String,
    requested_frame_delta: i32,
    insert_at: usize,
    mode: NewTrackClipMode,
    ids: &mut CoreIdGen,
    placed: Placed,
    registry_fault: &Option<String>,
) -> (r: Result<EditResult, EditError>)
    requires
        old(state)@.version < u64::MAX,
    ensures
        (outcome(r), final(state)@) == move_or_duplicate_spec(
            old(state)@,
            texts(clip_ids@),
            lead_clip_id@,
            requested_frame_delta as int,
            insert_at as int,
            mode,
            old(ids)@,
            placed@,
            opt_text(*registry_fault),
        ),
        final(ids)@ == gesture_ids(
            old(state)@,
            texts(clip_ids@),
            lead_clip_id@,
            requested_frame_delta as int,
            insert_at as int,
            mode,
            old(ids)@,
        ),
{
    let plan = match plan_new_track(
        state,
        &clip_ids,
        &lead_clip_id,
        requested_frame_delta,
        insert_at,
        mode,
        ids,
    ) {
        Ok(plan) => plan,
        Err(e) => return Err(e),
    };
    let targets = list_targets(&plan.plans);
    let action = match mode {
        NewTrackClipMode::Move => "Move Clips To New Track",
        NewTrackClipMode::Duplicate => "Duplicate Clips To New Track",
    };
    let Placed { timeline, affected: created } = placed;
    let affected = match mode {
        NewTrackClipMode::Move => clip_ids,
        NewTrackClipMode::Duplicate => created,
    };
    assert(texts(affected@).len() == affected@.len());
    let count = usize_to_text(affected.len());
    let summary = cat4(action, ": ", count.as_str(), " clip(s)");
    let work = if do_tracks_stand(&timeline, &targets) {
        Ok(Work { timeline, manifest: state.manifest.copy(), affected })
    } else {
        Err(lost_track())
    };
    transact(state, action, summary.as_str(), work, registry_fault)
}

/// Adding a track loses none.
pub proof fn lemma_track_stays(t: TimelineView, id: Seq<char>, requested: int, kind: ClipType, new: Seq<char>)
    requires
        track_index(t.tracks, id, 0) is Some,
        0 <= requested,
    ensures
        track_index(track_inserted(t, requested, kind, new).tracks, id, 0) is Some,
{
    crate::locate::lemma_track_index(t.tracks, id, 0);
    crate::commands::tracks::lemma_first_audio(t.tracks, 0);
    let slot = crate::commands::tracks::track_slot(t.tracks, requested, kind);
    let k = track_index(t.tracks, id, 0)->0;
    let grown = track_inserted(t, requested, kind, new).tracks;
    crate::locate::lemma_track_index(grown, id, 0);
    if k < slot {
        assert(grown[k] == t.tracks[k]);
    } else {
        assert(grown[k + 1] == t.tracks[k]);
    }
}

/// Every track that needs a fresh companion has one.
pub proof fn lemma_lanes(g: Gesture, x: Lanes, n: int, track_id: Seq<char>)
    requires
        0 <= n <= g.sources.len(),
        track_index(x.timeline.tracks, track_id, 0) is Some,
    ensures
        track_index(lanes_added(g, x, n).timeline.tracks, track_id, 0) is Some,
        forall|j: int|
            0 <= j < n && (#[trigger] g.sources[j]).track_id == track_id && needs_fresh_track(
                g,
                track_id,
            ) ==> id_index(lanes_added(g, x, n).track_ids, track_id, 0) is Some,
    decreases n,
{
    if n > 0 {
        lemma_lanes(g, x, n - 1, track_id);
        let before = lanes_added(g, x, n - 1);
        let after = lanes_added(g, x, n);
        let source = g.sources[n - 1];
        if after != before {
            let k = track_index(before.timeline.tracks, source.track_id, 0)->0;
            lemma_track_stays(
                before.timeline,
                track_id,
                before.timeline.tracks.len() as int,
                before.timeline.tracks[k].kind,
                nth_id(g.ids, before.fresh_ids.len() as int + 2),
            );
            if id_index(before.track_ids, track_id, 0) is Some {
                lemma_id_stays(before.track_ids, track_id, source.track_id, 0);
            }
            if source.track_id == track_id {
                lemma_id_found(after.track_ids, before.track_ids.len() as int, 0);
            }
        }
    }
}

/// When clips are duplicated, a copy goes to the new track, to a fresh companion of
/// its track, or it keeps clear of every original on its track.
pub proof fn law_copies_spare_originals(
    t: TimelineView,
    g: Gesture,
    insert_at: int,
    i: int,
    k: int,
)
    requires
        g.mode is Duplicate,
        0 <= insert_at,
        0 <= i < g.sources.len(),
        0 <= k < g.sources.len(),
        track_index(t.tracks, g.sources[i].track_id, 0) is Some,
        g.sources[k].track_id == g.sources[i].track_id,
    ensures
        ({
            let x = lanes_of(t, g, insert_at);
            let source = g.sources[i];
            let goes_to = lane_plans(g, x)[i].to_track_id;
            ||| follows_lead(g, source) && (goes_to == nth_id(g.ids, 1) || x.fresh_ids.contains(
                goes_to,
            ))
            ||| id_index(x.track_ids, source.track_id, 0) matches Some(p) && goes_to
                == x.fresh_ids[p]
            ||| source.destination_end <= g.sources[k].clip.start_frame
            ||| end_of(g.sources[k].clip) <= source.destination_start
        }),
{
    let x = lanes_of(t, g, insert_at);
    let source = g.sources[i];
    let kind = lane_kind(g.lead.clip.media_type);
    lemma_track_stays(t, source.track_id, insert_at, kind, nth_id(g.ids, 1));
    lemma_lanes(
        g,
        Lanes {
            timeline: track_inserted(t, insert_at, kind, nth_id(g.ids, 1)),
            track_ids: Seq::empty(),
            fresh_ids: Seq::empty(),
        },
        g.sources.len() as int,
        source.track_id,
    );
    if id_index(x.track_ids, source.track_id, 0) is None {
        assert(!needs_fresh_track(g, source.track_id));
        assert(!displaced(g, source));
    }
}

} // verus!
