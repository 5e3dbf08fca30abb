//! Moving and duplicating clips. Where every clip is to go is planned here; the
//! placement engine carries the plans out.

use crate::edit::invalid;
use crate::edit::outcome;
use crate::edit::EditError;
use crate::edit::EditResult;
use crate::edit::EditResultView;
use crate::edit::Fault;
use crate::entries::clip_move_views;
use crate::entries::ClipMove;
use crate::entries::ClipMoveView;
use crate::frames::clip_fault_at;
use crate::frames::fits;
use crate::frames::item_label;
use crate::frames::timeline_fault;
use crate::frames::validate_clip_frame_arithmetic_at;
use crate::frames::validate_timeline_frame_arithmetic;
use crate::locate::clip_at;
use crate::locate::clip_not_found;
use crate::locate::lemma_timeline_parts;
use crate::locate::locate;
use crate::locate::require_clip;
use crate::model::compatible;
use crate::model::Clip;
use crate::model::ClipView;
use crate::model::Timeline;
use crate::model::TimelineView;
use crate::state::timeline_transacted;
use crate::state::transact_timeline;
use crate::state::EditorState;
use crate::state::Placed;
use crate::state::PlacedView;
use crate::state::StateView;
use crate::text::cat2;
use crate::text::cat3;
use crate::text::cat4;
use crate::text::cat5;
use crate::text::nat_text;
use crate::text::opt_text;
use crate::text::texts;
use crate::text::usize_to_text;
use vstd::prelude::*;

verus! {

/// Where a clip is to go: a track by its id, and the frames it takes there.
#[derive(Debug)]
pub struct ClipPlan {
    pub clip: Clip,
    pub to_track_id: String,
    pub to_frame: i32,
    pub to_end_frame: i32,
}

/// The view of a [`ClipPlan`].
#[verifier::ext_equal]
pub struct ClipPlanView {
    pub clip: ClipView,
    pub to_track_id: Seq<char>,
    pub to_frame: i32,
    pub to_end_frame: i32,
}

impl View for ClipPlan {
    type V = ClipPlanView;

    open spec fn view(&self) -> ClipPlanView {
        ClipPlanView {
            clip: self.clip@,
            to_track_id: self.to_track_id@,
            to_frame: self.to_frame,
            to_end_frame: self.to_end_frame,
        }
    }
}

/// The views of a list of [`ClipPlan`].
pub open spec fn clip_plan_views(v: Seq<ClipPlan>) -> Seq<ClipPlanView> {
    v.map_values(|x: ClipPlan| x@)
}

/// A frame number, at least 0.
pub open spec fn floored(frame: int) -> int {
    if frame > 0 {
        frame
    } else {
        0
    }
}

/// Whether an id occurs among the first `n`.
pub open spec fn among_first(ids: Seq<Seq<char>>, id: Seq<char>, n: int) -> bool {
    exists|k: int| 0 <= k < n && #[trigger] ids[k] == id
}

/// Whether an id occurs among the first `n`.
pub fn is_among_first(ids: &Vec<String>, id: &String, n: usize) -> (r: bool)
    requires
        n <= ids@.len(),
    ensures
        r == among_first(texts(ids@), id@, n as int),
{
    let ghost views = texts(ids@);
    let mut k: usize = 0;
    while k < n
        invariant
            k <= n <= ids@.len(),
            views == texts(ids@),
            forall|j: int| 0 <= j < k ==> #[trigger] views[j] != id@,
        decreases n - k,
    {
        if ids[k] == *id {
            assert(views[k as int] == id@);
            return true;
        }
        k += 1;
    }
    false
}

/// The ids of moves.
pub open spec fn move_ids(moves: Seq<ClipMoveView>) -> Seq<Seq<char>> {
    moves.map_values(|m: ClipMoveView| m.clip_id)
}

/// The label of a move.
pub open spec fn move_label(i: int) -> Seq<char> {
    item_label("moves"@, "["@, i)
}

/// The complaint against one move, if any.
pub open spec fn move_fault(t: TimelineView, moves: Seq<ClipMoveView>, i: int) -> Option<Fault> {
    let m = moves[i];
    if among_first(move_ids(moves), m.clip_id, i) {
        Some(Fault::Invalid(move_label(i) + ": clip ids must be unique"@))
    } else {
        match locate(t, m.clip_id) {
            None => Some(clip_not_found(m.clip_id)),
            Some(p) => {
                let c = clip_at(t, p);
                if m.to_track >= t.tracks.len() {
                    Some(
                        Fault::Invalid(
                            move_label(i) + ": target track index "@ + nat_text(m.to_track as nat)
                                + " out of range"@,
                        ),
                    )
                } else if !compatible(c.media_type, t.tracks[m.to_track as int].kind) {
                    Some(
                        Fault::Invalid(
                            move_label(i) + ": clip is incompatible with destination track"@,
                        ),
                    )
                } else if !fits(floored(m.to_frame as int) + c.duration_frames) {
                    Some(Fault::Invalid(move_label(i) + ": destination end overflows"@))
                } else {
                    None
                }
            },
        }
    }
}

/// The first complaint, from `from` on, against moves.
pub open spec fn moves_fault(t: TimelineView, moves: Seq<ClipMoveView>, from: int) -> Option<Fault>
    decreases moves.len() - from,
{
    if from < 0 || from >= moves.len() {
        None
    } else {
        match move_fault(t, moves, from) {
            Some(f) => Some(f),
            None => moves_fault(t, moves, from + 1),
        }
    }
}

/// The complaint against moving clips, if any.
pub open spec fn move_clips_fault(t: TimelineView, moves: Seq<ClipMoveView>) -> Option<Fault> {
    if moves.len() == 0 {
        Some(Fault::Invalid("Missing or empty 'moves' array"@))
    } else {
        match timeline_fault(t, "timeline"@) {
            Some(m) => Some(Fault::Invalid(m)),
            None => moves_fault(t, moves, 0),
        }
    }
}

/// Where a move takes its clip.
pub open spec fn move_plan(t: TimelineView, m: ClipMoveView) -> ClipPlanView {
    let c = clip_at(t, locate(t, m.clip_id)->0);
    ClipPlanView {
        clip: c,
        to_track_id: t.tracks[m.to_track as int].id,
        to_frame: floored(m.to_frame as int) as i32,
        to_end_frame: (floored(m.to_frame as int) + c.duration_frames) as i32,
    }
}

/// Where moves take their clips.
pub open spec fn move_plans(t: TimelineView, moves: Seq<ClipMoveView>) -> Seq<ClipPlanView> {
    moves.map_values(|m: ClipMoveView| move_plan(t, m))
}

/// Moving clips: every move has to be in order; then the timeline on which the
/// plans were carried out is committed.
pub open spec fn move_clips_spec(
    s: StateView,
    moves: Seq<ClipMoveView>,
    moved: TimelineView,
    registry_fault: Option<Seq<char>>,
) -> (Result<EditResultView, Fault>, StateView) {
    match move_clips_fault(s.timeline, moves) {
        Some(f) => (Err(f), s),
        None => timeline_transacted(
            s,
            if moves.len() == 1 {
                "Move Clip"@
            } else {
                "Move Clips"@
            },
            "Moved "@ + nat_text(moves.len()) + " clip(s)"@,
            moved,
            move_ids(moves),
            registry_fault,
        ),
    }
}

fn list_move_ids(moves: &Vec<ClipMove>) -> (r: Vec<String>)
    ensures
        texts(r@) == move_ids(clip_move_views(moves@)),
        r@.len() == moves@.len(),
{
    let ghost expected = move_ids(clip_move_views(moves@));
    let mut out: Vec<String> = Vec::new();
    let mut i: usize = 0;
    while i < moves.len()
        invariant
            i <= moves@.len(),
            out@.len() == i,
            expected == move_ids(clip_move_views(moves@)),
            forall|k: int| 0 <= k < i ==> (#[trigger] out@[k])@ == expected[k],
        decreases moves@.len() - i,
    {
        out.push(moves[i].clip_id.clone());
        i += 1;
    }
    assert(texts(out@) =~= expected);
    out
}

fn move_error(i: usize, what: &str) -> (r: EditError)
    ensures
        r@ == Fault::Invalid(move_label(i as int) + what@),
{
    let index = usize_to_text(i);
    let label = cat4("moves", "[", index.as_str(), "]");
    EditError::Invalid(cat2(label.as_str(), what))
}

fn plan_move(state: &EditorState, moves: &Vec<ClipMove>, ids: &Vec<String>, i: usize) -> (r: Result<
    ClipPlan,
    EditError,
>)
    requires
        i < moves@.len(),
        ids@.len() == moves@.len(),
        texts(ids@) == move_ids(clip_move_views(moves@)),
    ensures
        match r {
            Ok(plan) => move_fault(state@.timeline, clip_move_views(moves@), i as int) is None
                && plan@ == move_plan(state@.timeline, moves@[i as int]@),
            Err(e) => move_fault(state@.timeline, clip_move_views(moves@), i as int) == Some(e@),
        },
{
    let movement = &moves[i];
    let ghost views = clip_move_views(moves@);
    assert(views[i as int] == movement@);
    if is_among_first(ids, &movement.clip_id, i) {
        return Err(move_error(i, ": clip ids must be unique"));
    }
    let (ti, ci) = match require_clip(&state.timeline, movement.clip_id.as_str()) {
        Ok(place) => place,
        Err(e) => return Err(e),
    };
    proof {
        lemma_timeline_parts(state.timeline, ti as int, ci as int);
        lemma_timeline_parts(state.timeline, movement.to_track as int, 0);
    }
    let clip = state.timeline.tracks[ti].clips[ci].copy();
    if movement.to_track >= state.timeline.tracks.len() {
        let index = usize_to_text(movement.to_track);
        let what = cat3(": target track index ", index.as_str(), " out of range");
        proof {
            let label = move_label(i as int);
            assert(label + what@ =~= label + ": target track index "@ + index@
                + " out of range"@);
        }
        return Err(move_error(i, what.as_str()));
    }
    let target = &state.timeline.tracks[movement.to_track];
    if !clip.media_type.is_compatible(target.kind) {
        return Err(move_error(i, ": clip is incompatible with destination track"));
    }
    let to_frame: i32 = if movement.to_frame > 0 {
        movement.to_frame
    } else {
        0
    };
    let to_end_frame: i32 = match to_frame.checked_add(clip.duration_frames) {
        Some(end) => end,
        None => return Err(move_error(i, ": destination end overflows")),
    };
    Ok(ClipPlan { clip, to_track_id: target.id.clone(), to_frame, to_end_frame })
}

/// Plans where moves take their clips.
pub fn plan_moves(state: &EditorState, moves: &Vec<ClipMove>) -> (r: Result<
    Vec<ClipPlan>,
    EditError,
>)
    ensures
        match r {
            Ok(plans) => move_clips_fault(state@.timeline, clip_move_views(moves@)) is None
                && clip_plan_views(plans@) == move_plans(
                state@.timeline,
                clip_move_views(moves@),
            ),
            Err(e) => move_clips_fault(state@.timeline, clip_move_views(moves@)) == Some(e@),
        },
{
    if moves.len() == 0 {
        return Err(invalid("Missing or empty 'moves' array"));
    }
    if let Err(e) = validate_timeline_frame_arithmetic(&state.timeline, "timeline") {
        return Err(e);
    }
    let ghost t = state@.timeline;
    let ghost views = clip_move_views(moves@);
    let ids = list_move_ids(moves);
    let mut plans: Vec<ClipPlan> = Vec::new();
    let mut i: usize = 0;
    while i < moves.len()
        invariant
            i <= moves@.len(),
            moves@.len() > 0,
            t == state@.timeline,
            timeline_fault(t, "timeline"@) is None,
            views == clip_move_views(moves@),
            ids@.len() == moves@.len(),
            texts(ids@) == move_ids(views),
            moves_fault(t, views, 0) == moves_fault(t, views, i as int),
            plans@.len() == i,
            forall|k: int| 0 <= k < i ==> (#[trigger] plans@[k])@ == move_plan(t, views[k]),
        decreases moves@.len() - i,
    {
        match plan_move(state, moves, &ids, i) {
            Ok(plan) => plans.push(plan),
            Err(e) => return Err(e),
        }
        i += 1;
    }
    assert(clip_plan_views(plans@) =~= move_plans(t, views));
    Ok(plans)
}

/// Moves clips to new tracks and frames. `moved` is the timeline on which the
/// placement engine carried out the plans of [`plan_moves`].
pub fn move_clips(
    state: &mut EditorState,
    moves: Vec<ClipMove>,
    moved: Timeline,
    registry_fault: &Option<String>,
) -> (r: Result<EditResult, EditError>)
    requires
        old(state)@.version < u64::MAX,
    ensures
        (outcome(r), final(state)@) == move_clips_spec(
            old(state)@,
            clip_move_views(moves@),
            moved@,
            opt_text(*registry_fault),
        ),
{
    if let Err(e) = plan_moves(state, &moves) {
        return Err(e);
    }
    let count = usize_to_text(moves.len());
    let summary = cat3("Moved ", count.as_str(), " clip(s)");
    let affected = list_move_ids(&moves);
    transact_timeline(
        state,
        if moves.len() == 1 {
            "Move Clip"
        } else {
            "Move Clips"
        },
        summary.as_str(),
        moved,
        affected,
        registry_fault,
    )
}

/// The complaint against one duplicate, if any.
pub open spec fn duplicate_fault(
    t: TimelineView,
    ids: Seq<Seq<char>>,
    offset: int,
    targets: Seq<usize>,
    i: int,
) -> Option<Fault> {
    if among_first(ids, ids[i], i) {
        Some(Fault::Invalid("clipIds must be unique"@))
    } else {
        match locate(t, ids[i]) {
            None => Some(clip_not_found(ids[i])),
            Some(p) => {
                let c = clip_at(t, p);
                let label = item_label("targetTrackIndexes"@, "["@, i);
                if targets[i] >= t.tracks.len() {
                    Some(
                        Fault::Invalid(label + " out of range: "@ + nat_text(targets[i] as nat)),
                    )
                } else if !compatible(c.media_type, t.tracks[targets[i] as int].kind) {
                    Some(Fault::Invalid(label + " is incompatible with clip "@ + ids[i]))
                } else if !fits(c.start_frame + offset) {
                    Some(Fault::Invalid("clip "@ + ids[i] + ": destination start overflows"@))
                } else if !fits(floored(c.start_frame + offset) + c.duration_frames) {
                    Some(Fault::Invalid("clip "@ + ids[i] + ": destination end overflows"@))
                } else {
                    None
                }
            },
        }
    }
}

/// The first complaint, from `from` on, against duplicates.
pub open spec fn duplicates_fault(
    t: TimelineView,
    ids: Seq<Seq<char>>,
    offset: int,
    targets: Seq<usize>,
    from: int,
) -> Option<Fault>
    decreases ids.len() - from,
{
    if from < 0 || from >= ids.len() {
        None
    } else {
        match duplicate_fault(t, ids, offset, targets, from) {
            Some(f) => Some(f),
            None => duplicates_fault(t, ids, offset, targets, from + 1),
        }
    }
}

/// The complaint against duplicating clips, if any.
pub open spec fn duplicate_clips_fault(
    t: TimelineView,
    ids: Seq<Seq<char>>,
    offset: int,
    targets: Seq<usize>,
) -> Option<Fault> {
    if ids.len() == 0 {
        Some(Fault::Invalid("Missing or empty 'clipIds' array"@))
    } else if targets.len() != ids.len() {
        Some(
            Fault::Invalid(
                "targetTrackIndexes length ("@ + nat_text(targets.len())
                    + ") must match clipIds length ("@ + nat_text(ids.len()) + ")"@,
            ),
        )
    } else {
        match timeline_fault(t, "timeline"@) {
            Some(m) => Some(Fault::Invalid(m)),
            None => duplicates_fault(t, ids, offset, targets, 0),
        }
    }
}

/// Where the copy of a clip goes.
pub open spec fn duplicate_plan(
    t: TimelineView,
    ids: Seq<Seq<char>>,
    offset: int,
    targets: Seq<usize>,
    i: int,
) -> ClipPlanView {
    let c = clip_at(t, locate(t, ids[i])->0);
    let to_frame = floored(c.start_frame + offset);
    ClipPlanView {
        clip: c,
        to_track_id: t.tracks[targets[i] as int].id,
        to_frame: to_frame as i32,
        to_end_frame: (to_frame + c.duration_frames) as i32,
    }
}

/// Where the copies of clips go.
pub open spec fn duplicate_plans(
    t: TimelineView,
    ids: Seq<Seq<char>>,
    offset: int,
    targets: Seq<usize>,
) -> Seq<ClipPlanView> {
    Seq::new(ids.len(), |i: int| duplicate_plan(t, ids, offset, targets, i))
}

/// Duplicating clips.
pub open spec fn duplicate_clips_spec(
    s: StateView,
    ids: Seq<Seq<char>>,
    offset: int,
    targets: Seq<usize>,
    created: PlacedView,
    registry_fault: Option<Seq<char>>,
) -> (Result<EditResultView, Fault>, StateView) {
    match duplicate_clips_fault(s.timeline, ids, offset, targets) {
        Some(f) => (Err(f), s),
        None => timeline_transacted(
            s,
            if ids.len() == 1 {
                "Duplicate Clip"@
            } else {
                "Duplicate Clips"@
            },
            "Duplicated "@ + nat_text(ids.len()) + " clip(s)"@,
            created.timeline,
            created.affected,
            registry_fault,
        ),
    }
}

fn plan_duplicate(
    state: &EditorState,
    clip_ids: &Vec<String>,
    offset_frames: i32,
    targets: &Vec<usize>,
    i: usize,
) -> (r: Result<ClipPlan, EditError>)
    requires
        i < clip_ids@.len(),
        targets@.len() == clip_ids@.len(),
    ensures
        match r {
            Ok(plan) => duplicate_fault(
                state@.timeline,
                texts(clip_ids@),
                offset_frames as int,
                targets@,
                i as int,
            ) is None && plan@ == duplicate_plan(
                state@.timeline,
                texts(clip_ids@),
                offset_frames as int,
                targets@,
                i as int,
            ),
            Err(e) => duplicate_fault(
                state@.timeline,
                texts(clip_ids@),
                offset_frames as int,
                targets@,
                i as int,
            ) == Some(e@),
        },
{
    let id = &clip_ids[i];
    assert(texts(clip_ids@)[i as int] == id@);
    if is_among_first(clip_ids, id, i) {
        return Err(invalid("clipIds must be unique"));
    }
    let (ti, ci) = match require_clip(&state.timeline, id.as_str()) {
        Ok(place) => place,
        Err(e) => return Err(e),
    };
    let target_index: usize = targets[i];
    proof {
        lemma_timeline_parts(state.timeline, ti as int, ci as int);
        lemma_timeline_parts(state.timeline, target_index as int, 0);
    }
    let clip = state.timeline.tracks[ti].clips[ci].copy();
    let index = usize_to_text(i);
    let label = cat4("targetTrackIndexes", "[", index.as_str(), "]");
    if target_index >= state.timeline.tracks.len() {
        let wanted = usize_to_text(target_index);
        return Err(
            EditError::Invalid(cat3(label.as_str(), " out of range: ", wanted.as_str())),
        );
    }
    let target = &state.timeline.tracks[target_index];
    if !clip.media_type.is_compatible(target.kind) {
        return Err(
            EditError::Invalid(cat3(label.as_str(), " is incompatible with clip ", id.as_str())),
        );
    }
    let shifted: i32 = match clip.start_frame.checked_add(offset_frames) {
        Some(value) => value,
        None => return Err(
            EditError::Invalid(cat3("clip ", id.as_str(), ": destination start overflows")),
        ),
    };
    let to_frame: i32 = if shifted > 0 {
        shifted
    } else {
        0
    };
    let to_end_frame: i32 = match to_frame.checked_add(clip.duration_frames) {
        Some(value) => value,
        None => return Err(
            EditError::Invalid(cat3("clip ", id.as_str(), ": destination end overflows")),
        ),
    };
    Ok(ClipPlan { clip, to_track_id: target.id.clone(), to_frame, to_end_frame })
}

/// Plans where the copies of clips go.
pub fn plan_duplicates(
    state: &EditorState,
    clip_ids: &Vec<String>,
    offset_frames: i32,
    target_track_indexes: &Vec<usize>,
) -> (r: Result<Vec<ClipPlan>, EditError>)
    ensures
        match r {
            Ok(plans) => duplicate_clips_fault(
                state@.timeline,
                texts(clip_ids@),
                offset_frames as int,
                target_track_indexes@,
            ) is None && clip_plan_views(plans@) == duplicate_plans(
                state@.timeline,
                texts(clip_ids@),
                offset_frames as int,
                target_track_indexes@,
            ),
            Err(e) => duplicate_clips_fault(
                state@.timeline,
                texts(clip_ids@),
                offset_frames as int,
                target_track_indexes@,
            ) == Some(e@),
        },
{
    if clip_ids.len() == 0 {
        return Err(invalid("Missing or empty 'clipIds' array"));
    }
    if target_track_indexes.len() != clip_ids.len() {
        let a = usize_to_text(target_track_indexes.len());
        let b = usize_to_text(clip_ids.len());
        return Err(
            EditError::Invalid(
                cat5(
                    "targetTrackIndexes length (",
                    a.as_str(),
                    ") must match clipIds length (",
                    b.as_str(),
                    ")",
                ),
            ),
        );
    }
    if let Err(e) = validate_timeline_frame_arithmetic(&state.timeline, "timeline") {
        return Err(e);
    }
    let ghost t = state@.timeline;
    let ghost ids = texts(clip_ids@);
    let ghost offset = offset_frames as int;
    let ghost targets = target_track_indexes@;
    let mut plans: Vec<ClipPlan> = Vec::new();
    let mut i: usize = 0;
    while i < clip_ids.len()
        invariant
            i <= clip_ids@.len(),
            clip_ids@.len() > 0,
            t == state@.timeline,
            timeline_fault(t, "timeline"@) is None,
            ids == texts(clip_ids@),
            ids.len() == clip_ids@.len(),
            offset == offset_frames,
            targets == target_track_indexes@,
            targets.len() == ids.len(),
            duplicates_fault(t, ids, offset, targets, 0) == duplicates_fault(
                t,
                ids,
                offset,
                targets,
                i as int,
            ),
            plans@.len() == i,
            forall|k: int|
                0 <= k < i ==> (#[trigger] plans@[k])@ == duplicate_plan(
                    t,
                    ids,
                    offset,
                    targets,
                    k,
                ),
        decreases clip_ids@.len() - i,
    {
        match plan_duplicate(state, clip_ids, offset_frames, target_track_indexes, i) {
            Ok(plan) => plans.push(plan),
            Err(e) => return Err(e),
        }
        i += 1;
    }
    assert(clip_plan_views(plans@) =~= duplicate_plans(t, ids, offset, targets));
    Ok(plans)
}

/// Duplicates clips to new positions. `created` is what the placement engine made
/// of the document by the plans of [`plan_duplicates`], with the new clips.
pub fn duplicate_clips_cmd(
    state: &mut EditorState,
    clip_ids: Vec<String>,
    offset_frames: i32,
    target_track_indexes: Vec<usize>,
    created: Placed,
    registry_fault: &Option<String>,
) -> (r: Result<EditResult, EditError>)
    requires
        old(state)@.version < u64::MAX,
    ensures
        (outcome(r), final(state)@) == duplicate_clips_spec(
            old(state)@,
            texts(clip_ids@),
            offset_frames as int,
            target_track_indexes@,
            created@,
            opt_text(*registry_fault),
        ),
{
    if let Err(e) = plan_duplicates(state, &clip_ids, offset_frames, &target_track_indexes) {
        return Err(e);
    }
    let count = usize_to_text(clip_ids.len());
    let summary = cat3("Duplicated ", count.as_str(), " clip(s)");
    transact_timeline(
        state,
        if clip_ids.len() == 1 {
            "Duplicate Clip"
        } else {
            "Duplicate Clips"
        },
        summary.as_str(),
        created.timeline,
        created.affected,
        registry_fault,
    )
}

/// Exchanging two clips: each has to fit where the other starts.
pub open spec fn swap_clips_spec(
    s: StateView,
    a: Seq<char>,
    b: Seq<char>,
    swapped: TimelineView,
    registry_fault: Option<Seq<char>>,
) -> (Result<EditResultView, Fault>, StateView) {
    let t = s.timeline;
    match (locate(t, a), locate(t, b)) {
        (None, _) => (Err(clip_not_found(a)), s),
        (Some(_), None) => (Err(clip_not_found(b)), s),
        (Some(p), Some(q)) => {
            let x = clip_at(t, p);
            let y = clip_at(t, q);
            if clip_fault_at(x, y.start_frame as int, "clip "@ + a) is Some {
                (
                    Err(
                        Fault::Invalid(clip_fault_at(x, y.start_frame as int, "clip "@ + a)->0),
                    ),
                    s,
                )
            } else if clip_fault_at(y, x.start_frame as int, "clip "@ + b) is Some {
                (
                    Err(
                        Fault::Invalid(clip_fault_at(y, x.start_frame as int, "clip "@ + b)->0),
                    ),
                    s,
                )
            } else {
                timeline_transacted(
                    s,
                    "Swap Clips"@,
                    "Swapped clip positions"@,
                    swapped,
                    seq![a, b],
                    registry_fault,
                )
            }
        },
    }
}

/// Exchanges the positions of two clips. `swapped` is the timeline that the
/// placement engine exchanged them on; it is unchanged where one of them would
/// overlap a third clip.
pub fn swap_clips(
    state: &mut EditorState,
    a: String,
    b: String,
    swapped: Timeline,
    registry_fault: &Option<String>,
) -> (r: Result<EditResult, EditError>)
    requires
        old(state)@.version < u64::MAX,
    ensures
        (outcome(r), final(state)@) == swap_clips_spec(
            old(state)@,
            a@,
            b@,
            swapped@,
            opt_text(*registry_fault),
        ),
{
    let (ati, aci) = match require_clip(&state.timeline, a.as_str()) {
        Ok(place) => place,
        Err(e) => return Err(e),
    };
    let (bti, bci) = match require_clip(&state.timeline, b.as_str()) {
        Ok(place) => place,
        Err(e) => return Err(e),
    };
    proof {
        lemma_timeline_parts(state.timeline, ati as int, aci as int);
        lemma_timeline_parts(state.timeline, bti as int, bci as int);
    }
    let x = &state.timeline.tracks[ati].clips[aci];
    let y = &state.timeline.tracks[bti].clips[bci];
    let a_label = cat2("clip ", a.as_str());
    if let Err(e) = validate_clip_frame_arithmetic_at(x, y.start_frame, a_label.as_str()) {
        return Err(e);
    }
    let b_label = cat2("clip ", b.as_str());
    if let Err(e) = validate_clip_frame_arithmetic_at(y, x.start_frame, b_label.as_str()) {
        return Err(e);
    }
    let affected: Vec<String> = vec![a, b];
    assert(texts(affected@) =~= seq![a@, b@]);
    transact_timeline(
        state,
        "Swap Clips",
        "Swapped clip positions",
        swapped,
        affected,
        registry_fault,
    )
}

} // verus!
