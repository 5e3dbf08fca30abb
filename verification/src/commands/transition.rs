//! Setting and clearing the transition at a cut.

use crate::commands::keyframes::end_of;
use crate::edit::invalid;
use crate::edit::outcome;
use crate::edit::EditError;
use crate::edit::EditResult;
use crate::edit::EditResultView;
use crate::edit::Fault;
use crate::locate::clip_at;
use crate::locate::clip_not_found;
use crate::locate::copy_around;
use crate::locate::lemma_clip_replaced;
use crate::locate::lemma_timeline_parts;
use crate::locate::locate;
use crate::locate::require_clip;
use crate::locate::with_clip;
use crate::model::clip_views;
use crate::model::Clip;
use crate::model::ClipType;
use crate::model::ClipView;
use crate::model::Transition;
use crate::model::TransitionKind;
use crate::model::TransitionView;
use crate::order::clip_before;
use crate::order::find_next;
use crate::order::is_clip_before;
use crate::order::lemma_clip_order;
use crate::order::next_clip;
use crate::state::timeline_transacted;
use crate::state::transact_timeline;
use crate::state::EditorState;
use crate::state::StateView;
use crate::text::cat3;
use crate::text::cat4;
use crate::text::cat5;
use crate::text::i32_to_text;
use crate::text::int_text;
use crate::text::opt_text;
use crate::text::same_text;
use crate::text::texts;
use crate::transitions::transition_limit;
use crate::transitions::visual_source;
use vstd::prelude::*;

verus! {

/// Whether the clip at `i` is the first in order that carries the id.
pub open spec fn first_of(clips: Seq<ClipView>, id: Seq<char>, i: int) -> bool {
    &&& 0 <= i < clips.len()
    &&& clips[i].id == id
    &&& forall|k: int|
        0 <= k < clips.len() && (#[trigger] clips[k]).id == id ==> !clip_before(clips, k, i)
}

/// The id of the clip that follows the first clip with an id.
pub open spec fn successor_id(clips: Seq<ClipView>, id: Seq<char>) -> Option<Seq<char>> {
    if exists|i: int| first_of(clips, id, i) {
        match next_clip(clips, choose|i: int| first_of(clips, id, i)) {
            Some(j) => Some(clips[j].id),
            None => None,
        }
    } else {
        None
    }
}

/// The clip without its transition to `to_id`.
pub open spec fn without_transition(c: ClipView, from_id: Seq<char>, to_id: Seq<char>) -> ClipView {
    if c.transition_out matches Some(t) && (t.from_clip_id.len() == 0 || t.from_clip_id == from_id)
        && t.to_clip_id == to_id {
        ClipView { transition_out: None, ..c }
    } else {
        c
    }
}

/// The complaint against a transition of `duration` frames between two clips that
/// exist, if any.
pub open spec fn transition_fault(
    s: StateView,
    from_id: Seq<char>,
    to_id: Seq<char>,
    duration: int,
) -> Option<Fault> {
    let from_place = locate(s.timeline, from_id)->0;
    let to_place = locate(s.timeline, to_id)->0;
    let track = s.timeline.tracks[from_place.0];
    let from = clip_at(s.timeline, from_place);
    let to = clip_at(s.timeline, to_place);
    let maximum = transition_limit(from.duration_frames as int, to.duration_frames as int);
    if to.nested_sequence_id is Some {
        Some(Fault::Invalid("compound clips do not support direct transitions"@))
    } else if from_place.0 != to_place.0 {
        Some(Fault::Invalid("A transition requires clips on the same track"@))
    } else if track.kind is Audio {
        Some(Fault::Invalid("Visual transitions are unavailable on audio tracks"@))
    } else if !visual_source(from) || !visual_source(to) {
        Some(Fault::Invalid("A transition requires two visual source clips"@))
    } else if end_of(from) != to.start_frame {
        Some(Fault::Invalid("A transition requires an exact adjacent clip boundary"@))
    } else if successor_id(track.clips, from_id) != Some(to_id) {
        Some(Fault::Invalid("A transition requires the immediate next clip"@))
    } else if duration > maximum {
        Some(
            Fault::Invalid(
                "durationFrames exceeds the available transition handle ("@ + int_text(duration)
                    + " > "@ + int_text(maximum) + ")"@,
            ),
        )
    } else {
        None
    }
}

/// Setting or clearing a transition. Clearing works on any pair; setting asks for
/// an exact cut between two visual clips and room for the duration.
pub open spec fn set_transition_spec(
    s: StateView,
    from_id: Seq<char>,
    to_id: Seq<char>,
    kind: Option<TransitionKind>,
    duration: i32,
    registry_fault: Option<Seq<char>>,
) -> (Result<EditResultView, Fault>, StateView) {
    match locate(s.timeline, from_id) {
        None => (Err(clip_not_found(from_id)), s),
        Some(place) => {
            let from = clip_at(s.timeline, place);
            match kind {
                None => timeline_transacted(
                    s,
                    "Remove Transition"@,
                    "Removed transition"@,
                    with_clip(s.timeline, place, without_transition(from, from_id, to_id)),
                    seq![from_id, to_id],
                    registry_fault,
                ),
                Some(kind) => {
                    if from.nested_sequence_id is Some {
                        (
                            Err(
                                Fault::Invalid(
                                    "compound clips do not support direct transitions"@,
                                ),
                            ),
                            s,
                        )
                    } else if duration < 1 {
                        (
                            Err(
                                Fault::Invalid(
                                    "durationFrames must be >= 1 (got "@ + int_text(
                                        duration as int,
                                    ) + ")"@,
                                ),
                            ),
                            s,
                        )
                    } else if locate(s.timeline, to_id) is None {
                        (Err(clip_not_found(to_id)), s)
                    } else if transition_fault(s, from_id, to_id, duration as int) is Some {
                        (Err(transition_fault(s, from_id, to_id, duration as int)->0), s)
                    } else {
                        timeline_transacted(
                            s,
                            "Set Transition"@,
                            "Set transition from "@ + from_id + " to "@ + to_id,
                            with_clip(
                                s.timeline,
                                place,
                                ClipView {
                                    transition_out: Some(
                                        TransitionView {
                                            from_clip_id: from_id,
                                            to_clip_id: to_id,
                                            kind,
                                            duration_frames: duration,
                                        },
                                    ),
                                    ..from
                                },
                            ),
                            seq![from_id, to_id],
                            registry_fault,
                        )
                    }
                },
            }
        },
    }
}

proof fn lemma_first_of(clips: Seq<ClipView>, id: Seq<char>, i: int)
    requires
        first_of(clips, id, i),
    ensures
        successor_id(clips, id) == (match next_clip(clips, i) {
            Some(j) => Some(clips[j].id),
            None => None,
        }),
{
    let c = choose|k: int| first_of(clips, id, k);
    assert(first_of(clips, id, c));
    lemma_clip_order(clips, c, i, i);
}

/// Whether the clip after the first one with `from_id` carries `to_id`.
fn is_successor(clips: &Vec<Clip>, from_id: &str, to_id: &str) -> (r: bool)
    ensures
        r == (successor_id(clip_views(clips@), from_id@) == Some(to_id@)),
{
    let ghost views = clip_views(clips@);
    let mut best: Option<usize> = None;
    let mut k: usize = 0;
    while k < clips.len()
        invariant
            k <= clips@.len(),
            views == clip_views(clips@),
            best matches Some(b) ==> b < k && views[b as int].id == from_id@ && forall|m: int|
                0 <= m < k && (#[trigger] views[m]).id == from_id@ ==> !clip_before(
                    views,
                    m,
                    b as int,
                ),
            best is None ==> forall|m: int| 0 <= m < k ==> (#[trigger] views[m]).id != from_id@,
        decreases clips@.len() - k,
    {
        if same_text(clips[k].id.as_str(), from_id) {
            let earlier = match best {
                Some(b) => is_clip_before(clips, k, b),
                None => true,
            };
            if earlier {
                proof {
                    assert forall|m: int|
                        0 <= m < k + 1 && (#[trigger] views[m]).id == from_id@ implies !clip_before(
                        views,
                        m,
                        k as int,
                    ) by {
                        if let Some(b) = best {
                            lemma_clip_order(views, m, k as int, b as int);
                        }
                        lemma_clip_order(views, m, k as int, k as int);
                    }
                }
                best = Some(k);
            }
        }
        k += 1;
    }
    match best {
        None => {
            proof {
                assert forall|i: int| !first_of(views, from_id@, i) by {
                    if 0 <= i < views.len() {
                        assert(views[i].id != from_id@);
                    }
                }
            }
            false
        },
        Some(b) => {
            proof {
                assert(first_of(views, from_id@, b as int));
                lemma_first_of(views, from_id@, b as int);
            }
            match find_next(clips, b) {
                Some(j) => same_text(clips[j].id.as_str(), to_id),
                None => false,
            }
        },
    }
}

fn is_visual_source(clip: &Clip) -> (r: bool)
    ensures
        r == visual_source(clip@),
{
    clip.media_type != ClipType::Audio && clip.media_type != ClipType::Text
}

/// Sets or clears the visual transition at one exact adjacent clip boundary.
pub fn set_transition(
    state: &mut EditorState,
    from_clip_id: String,
    to_clip_id: String,
    kind: Option<TransitionKind>,
    duration_frames: i32,
    registry_fault: &Option<String>,
) -> (r: Result<EditResult, EditError>)
    requires
        old(state)@.version < u64::MAX,
    ensures
        (outcome(r), final(state)@) == set_transition_spec(
            old(state)@,
            from_clip_id@,
            to_clip_id@,
            kind,
            duration_frames,
            opt_text(*registry_fault),
        ),
{
    let (ti, ci) = match require_clip(&state.timeline, from_clip_id.as_str()) {
        Ok(place) => place,
        Err(e) => return Err(e),
    };
    let kind = match kind {
        None => {
            let mut timeline = copy_around(&state.timeline, ti, ci);
            let ghost before = timeline;
            let stale = match &timeline.tracks[ti].clips[ci].transition_out {
                Some(t) => (t.from_clip_id.as_str().is_empty() || t.from_clip_id == from_clip_id)
                    && t.to_clip_id == to_clip_id,
                None => false,
            };
            if stale {
                timeline.tracks[ti].clips[ci].transition_out = None;
            }
            proof {
                lemma_clip_replaced(before, timeline, ti as int, ci as int);
            }
            let affected: Vec<String> = vec![from_clip_id, to_clip_id];
            assert(texts(affected@) =~= seq![from_clip_id@, to_clip_id@]);
            return transact_timeline(
                state,
                "Remove Transition",
                "Removed transition",
                timeline,
                affected,
                registry_fault,
            );
        },
        Some(kind) => kind,
    };
    if state.timeline.tracks[ti].clips[ci].nested_sequence_id.is_some() {
        return Err(invalid("compound clips do not support direct transitions"));
    }
    if duration_frames < 1 {
        let got = i32_to_text(duration_frames);
        return Err(
            EditError::Invalid(cat3("durationFrames must be >= 1 (got ", got.as_str(), ")")),
        );
    }
    let (to_ti, to_ci) = match require_clip(&state.timeline, to_clip_id.as_str()) {
        Ok(place) => place,
        Err(e) => return Err(e),
    };
    proof {
        lemma_timeline_parts(state.timeline, ti as int, ci as int);
        lemma_timeline_parts(state.timeline, to_ti as int, to_ci as int);
    }
    let track = &state.timeline.tracks[ti];
    let from = &track.clips[ci];
    let to = &state.timeline.tracks[to_ti].clips[to_ci];
    if to.nested_sequence_id.is_some() {
        return Err(invalid("compound clips do not support direct transitions"));
    }
    if ti != to_ti {
        return Err(invalid("A transition requires clips on the same track"));
    }
    if track.kind == ClipType::Audio {
        return Err(invalid("Visual transitions are unavailable on audio tracks"));
    }
    if !is_visual_source(from) || !is_visual_source(to) {
        return Err(invalid("A transition requires two visual source clips"));
    }
    if from.start_frame as i64 + from.duration_frames as i64 != to.start_frame as i64 {
        return Err(invalid("A transition requires an exact adjacent clip boundary"));
    }
    if !is_successor(&track.clips, from_clip_id.as_str(), to_clip_id.as_str()) {
        return Err(invalid("A transition requires the immediate next clip"));
    }
    let shorter: i32 = if from.duration_frames < to.duration_frames {
        from.duration_frames
    } else {
        to.duration_frames
    };
    let maximum: i32 = if shorter < 2 {
        1
    } else {
        shorter / 2
    };
    if duration_frames > maximum {
        let wanted = i32_to_text(duration_frames);
        let most = i32_to_text(maximum);
        return Err(
            EditError::Invalid(
                cat5(
                    "durationFrames exceeds the available transition handle (",
                    wanted.as_str(),
                    " > ",
                    most.as_str(),
                    ")",
                ),
            ),
        );
    }
    let mut timeline = copy_around(&state.timeline, ti, ci);
    let ghost before = timeline;
    timeline.tracks[ti].clips[ci].transition_out = Some(
        Transition {
            from_clip_id: from_clip_id.clone(),
            to_clip_id: to_clip_id.clone(),
            kind,
            duration_frames,
        },
    );
    proof {
        lemma_clip_replaced(before, timeline, ti as int, ci as int);
    }
    let summary = cat4(
        "Set transition from ",
        from_clip_id.as_str(),
        " to ",
        to_clip_id.as_str(),
    );
    let affected: Vec<String> = vec![from_clip_id, to_clip_id];
    assert(texts(affected@) =~= seq![from_clip_id@, to_clip_id@]);
    transact_timeline(
        state,
        "Set Transition",
        summary.as_str(),
        timeline,
        affected,
        registry_fault,
    )
}

} // verus!
