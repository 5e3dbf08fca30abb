//! Keeping transitions aligned with the cuts they belong to.

use crate::frames::clip_fault;
use crate::frames::clips_fault;
use crate::frames::sequences_fault;
use crate::frames::timeline_fault;
use crate::frames::tracks_fault;
use crate::model::clip_views;
use crate::model::lemma_nested_views;
use crate::model::nested_sequence_views;
use crate::model::Clip;
use crate::model::ClipType;
use crate::model::ClipView;
use crate::model::NestedSequenceView;
use crate::model::Timeline;
use crate::model::TimelineView;
use crate::model::Track;
use crate::model::TrackView;
use crate::model::Transition;
use crate::model::TransitionView;
use crate::order::clip_before;
use crate::order::find_next;
use crate::order::is_clip_before;
use crate::order::is_next;
use crate::order::lemma_clip_order;
use crate::order::lemma_next_unique;
use crate::order::next_clip;
use crate::text::same_text;
use vstd::prelude::*;

verus! {

/// A clip whose frame arithmetic holds.
pub open spec fn clip_sound(c: ClipView) -> bool {
    clip_fault(c, Seq::empty()) is None
}

/// Every clip of a list is sound.
pub open spec fn clips_sound(clips: Seq<ClipView>) -> bool {
    forall|i: int| 0 <= i < clips.len() ==> clip_sound(#[trigger] clips[i])
}

/// Every clip of a timeline and of the timelines nested in it is sound.
pub open spec fn timeline_sound(t: TimelineView) -> bool
    decreases t,
{
    &&& forall|i: int| 0 <= i < t.tracks.len() ==> clips_sound((#[trigger] t.tracks[i]).clips)
    &&& forall|i: int|
        0 <= i < t.nested_sequences.len() ==> timeline_sound(
            (#[trigger] t.nested_sequences[i]).timeline,
        )
}

proof fn lemma_clips_sound(clips: Seq<ClipView>, label: Seq<char>, from: int)
    requires
        0 <= from <= clips.len(),
    ensures
        clips_fault(clips, label, from) is None <==> forall|i: int|
            from <= i < clips.len() ==> clip_sound(#[trigger] clips[i]),
    decreases clips.len() - from,
{
    if from < clips.len() {
        lemma_clips_sound(clips, label, from + 1);
        let l = crate::frames::item_label(label, ".clips["@, from);
        assert(clip_fault(clips[from], l) is None <==> clip_sound(clips[from]));
        if clips_fault(clips, label, from) is None {
            assert forall|i: int| from <= i < clips.len() implies clip_sound(#[trigger] clips[i]) by {
                if i > from {
                    assert(from + 1 <= i);
                }
            }
        }
    }
}

proof fn lemma_tracks_sound(tracks: Seq<TrackView>, label: Seq<char>, from: int)
    requires
        0 <= from <= tracks.len(),
    ensures
        tracks_fault(tracks, label, from) is None <==> forall|i: int|
            from <= i < tracks.len() ==> clips_sound((#[trigger] tracks[i]).clips),
    decreases tracks.len() - from,
{
    if from < tracks.len() {
        lemma_tracks_sound(tracks, label, from + 1);
        lemma_clips_sound(
            tracks[from].clips,
            crate::frames::item_label(label, ".tracks["@, from),
            0,
        );
        if tracks_fault(tracks, label, from) is None {
            assert forall|i: int| from <= i < tracks.len() implies clips_sound(
                (#[trigger] tracks[i]).clips,
            ) by {
                if i > from {
                    assert(from + 1 <= i);
                }
            }
        }
    }
}

proof fn lemma_sequences_sound(sequences: Seq<NestedSequenceView>, label: Seq<char>, from: int)
    requires
        0 <= from <= sequences.len(),
    ensures
        sequences_fault(sequences, label, from) is None <==> forall|i: int|
            from <= i < sequences.len() ==> timeline_sound((#[trigger] sequences[i]).timeline),
    decreases sequences, sequences.len() - from,
{
    if from < sequences.len() {
        lemma_sequences_sound(sequences, label, from + 1);
        lemma_timeline_sound(
            sequences[from].timeline,
            crate::frames::item_label(label, ".nestedSequences["@, from) + ".timeline"@,
        );
        if sequences_fault(sequences, label, from) is None {
            assert forall|i: int| from <= i < sequences.len() implies timeline_sound(
                (#[trigger] sequences[i]).timeline,
            ) by {
                if i > from {
                    assert(from + 1 <= i);
                }
            }
        }
    }
}

/// A timeline passes the frame check exactly when all its clips are sound,
/// whatever the label.
pub proof fn lemma_timeline_sound(t: TimelineView, label: Seq<char>)
    ensures
        timeline_fault(t, label) is None <==> timeline_sound(t),
    decreases t, 0int,
{
    lemma_tracks_sound(t.tracks, label, 0);
    lemma_sequences_sound(t.nested_sequences, label, 0);
}

/// Where a transition may stand: the clip it leads to and the longest it may be.
#[verifier::ext_equal]
pub struct CutView {
    pub to_clip_id: Seq<char>,
    pub maximum: int,
}

/// Whether a clip can take part in a visual transition.
pub open spec fn visual_source(c: ClipView) -> bool {
    !(c.media_type is Audio) && !(c.media_type is Text)
}

/// Half of the shorter of two clips, and at least one frame.
pub open spec fn transition_limit(from: int, to: int) -> int {
    let shorter = if from < to {
        from
    } else {
        to
    };
    if shorter / 2 < 1 {
        1
    } else {
        shorter / 2
    }
}

/// The cut at the end of the clip at `i`: its next clip follows at once and both
/// are visual.
pub open spec fn cut_at(clips: Seq<ClipView>, i: int) -> Option<CutView> {
    match next_clip(clips, i) {
        None => None,
        Some(j) => {
            if clips[i].start_frame + clips[i].duration_frames != clips[j].start_frame
                || !visual_source(clips[i]) || !visual_source(clips[j]) {
                None
            } else {
                Some(
                    CutView {
                        to_clip_id: clips[j].id,
                        maximum: transition_limit(
                            clips[i].duration_frames as int,
                            clips[j].duration_frames as int,
                        ),
                    },
                )
            }
        },
    }
}

/// Whether the clip at `i` carries the id and ends in a cut.
pub open spec fn cut_of(clips: Seq<ClipView>, id: Seq<char>, i: int) -> bool {
    0 <= i < clips.len() && clips[i].id == id && cut_at(clips, i) is Some
}

/// Whether the clip at `i` is the last in order with the id and a cut.
pub open spec fn last_cut_of(clips: Seq<ClipView>, id: Seq<char>, i: int) -> bool {
    cut_of(clips, id, i) && forall|k: int| #[trigger] cut_of(clips, id, k) ==> !clip_before(clips, i, k)
}

/// The cut at the end of the clip with an id.
pub open spec fn cut_after(clips: Seq<ClipView>, id: Seq<char>) -> Option<CutView> {
    if exists|i: int| last_cut_of(clips, id, i) {
        cut_at(clips, choose|i: int| last_cut_of(clips, id, i))
    } else {
        None
    }
}

/// `n` brought into the range from 1 to `maximum`.
pub open spec fn clamped(n: int, maximum: int) -> int {
    if n < 1 {
        1
    } else if n > maximum {
        maximum
    } else {
        n
    }
}

/// What is left of a transition: nothing where the clip does not end in a cut or
/// where the transition names other clips; otherwise the transition over that
/// cut, no longer than the cut allows.
pub open spec fn kept_transition(
    clips: Seq<ClipView>,
    id: Seq<char>,
    transition: Option<TransitionView>,
) -> Option<TransitionView> {
    match transition {
        None => None,
        Some(t) => match cut_after(clips, id) {
            None => None,
            Some(cut) => {
                if (t.from_clip_id.len() != 0 && t.from_clip_id != id) || t.to_clip_id
                    != cut.to_clip_id {
                    None
                } else {
                    Some(
                        TransitionView {
                            from_clip_id: id,
                            duration_frames: clamped(t.duration_frames as int, cut.maximum) as i32,
                            ..t
                        },
                    )
                }
            },
        },
    }
}

/// A track whose transitions all stand on cuts.
pub open spec fn pruned_track(t: TrackView) -> TrackView {
    TrackView {
        clips: Seq::new(
            t.clips.len(),
            |i: int|
                ClipView {
                    transition_out: if t.kind is Audio {
                        None
                    } else {
                        kept_transition(t.clips, t.clips[i].id, t.clips[i].transition_out)
                    },
                    ..t.clips[i]
                },
        ),
        ..t
    }
}

/// A timeline whose transitions all stand on cuts, in nested sequences too.
pub open spec fn pruned(t: TimelineView) -> TimelineView
    decreases t,
{
    TimelineView {
        tracks: t.tracks.map_values(|track: TrackView| pruned_track(track)),
        nested_sequences: Seq::new(
            t.nested_sequences.len(),
            |i: int|
                if 0 <= i < t.nested_sequences.len() {
                    NestedSequenceView {
                        timeline: pruned(t.nested_sequences[i].timeline),
                        ..t.nested_sequences[i]
                    }
                } else {
                    arbitrary()
                },
        ),
        ..t
    }
}

/// The last cut with an id is determined.
proof fn lemma_last_cut(clips: Seq<ClipView>, id: Seq<char>, i: int)
    requires
        last_cut_of(clips, id, i),
    ensures
        cut_after(clips, id) == cut_at(clips, i),
{
    let c = choose|k: int| last_cut_of(clips, id, k);
    assert(last_cut_of(clips, id, c));
    lemma_clip_order(clips, c, i, i);
}

/// A cut: the next clip's position and the longest transition.
fn find_cut_at(clips: &Vec<Clip>, i: usize) -> (r: Option<(usize, i32)>)
    requires
        i < clips@.len(),
        clips_sound(clip_views(clips@)),
    ensures
        match r {
            None => cut_at(clip_views(clips@), i as int) is None,
            Some((j, maximum)) => j < clips@.len() && cut_at(clip_views(clips@), i as int) == Some(
                CutView { to_clip_id: clips@[j as int].id@, maximum: maximum as int },
            ),
        },
{
    let ghost views = clip_views(clips@);
    let j: usize = match find_next(clips, i) {
        None => return None,
        Some(j) => j,
    };
    assert(clip_sound(views[i as int]));
    assert(clip_sound(views[j as int]));
    let from = &clips[i];
    let to = &clips[j];
    if from.start_frame + from.duration_frames != to.start_frame || from.media_type
        == ClipType::Audio || from.media_type == ClipType::Text || to.media_type == ClipType::Audio
        || to.media_type == ClipType::Text {
        return None;
    }
    let shorter: i32 = if from.duration_frames < to.duration_frames {
        from.duration_frames
    } else {
        to.duration_frames
    };
    let half: i32 = shorter / 2;
    let maximum: i32 = if half < 1 {
        1
    } else {
        half
    };
    Some((j, maximum))
}

/// The cut at the end of the clip with an id.
fn find_cut_after(clips: &Vec<Clip>, id: &str) -> (r: Option<(usize, i32)>)
    requires
        clips_sound(clip_views(clips@)),
    ensures
        match r {
            None => cut_after(clip_views(clips@), id@) is None,
            Some((j, maximum)) => j < clips@.len() && cut_after(clip_views(clips@), id@) == Some(
                CutView { to_clip_id: clips@[j as int].id@, maximum: maximum as int },
            ),
        },
{
    let ghost views = clip_views(clips@);
    let mut best: Option<usize> = None;
    let mut found: Option<(usize, i32)> = None;
    let mut k: usize = 0;
    while k < clips.len()
        invariant
            k <= clips@.len(),
            views == clip_views(clips@),
            clips_sound(views),
            best is Some == found is Some,
            best matches Some(b) ==> b < k && cut_of(views, id@, b as int) && (forall|m: int|
                m < k && #[trigger] cut_of(views, id@, m) ==> !clip_before(views, b as int, m))
                && (found->0).0 < clips@.len() && cut_at(views, b as int) == Some(
                CutView {
                    to_clip_id: clips@[(found->0).0 as int].id@,
                    maximum: (found->0).1 as int,
                },
            ),
            best is None ==> forall|m: int| m < k ==> !#[trigger] cut_of(views, id@, m),
        decreases clips@.len() - k,
    {
        if same_text(clips[k].id.as_str(), id) {
            let cut = find_cut_at(clips, k);
            if cut.is_some() {
                let later = match best {
                    Some(b) => is_clip_before(clips, b, k),
                    None => true,
                };
                assert(cut_of(views, id@, k as int));
                if later {
                    proof {
                        assert forall|m: int|
                            m < k + 1 && #[trigger] cut_of(views, id@, m) implies !clip_before(
                            views,
                            k as int,
                            m,
                        ) by {
                            if let Some(b) = best {
                                lemma_clip_order(views, b as int, k as int, m);
                            }
                            lemma_clip_order(views, k as int, m, m);
                        }
                    }
                    best = Some(k);
                    found = cut;
                }
            }
        }
        k += 1;
    }
    proof {
        if let Some(b) = best {
            assert(last_cut_of(views, id@, b as int));
            lemma_last_cut(views, id@, b as int);
        } else {
            assert forall|i: int| !last_cut_of(views, id@, i) by {
                assert(!cut_of(views, id@, i));
            }
        }
    }
    found
}

/// What is left of the transition at the end of the clip at `i`.
fn kept(clips: &Vec<Clip>, i: usize) -> (r: Option<Transition>)
    requires
        i < clips@.len(),
        clips_sound(clip_views(clips@)),
    ensures
        crate::model::opt_transition(r) == kept_transition(
            clip_views(clips@),
            clips@[i as int].id@,
            clips@[i as int]@.transition_out,
        ),
{
    let clip = &clips[i];
    let transition = match &clip.transition_out {
        None => return None,
        Some(t) => t,
    };
    let (j, maximum) = match find_cut_after(clips, clip.id.as_str()) {
        None => return None,
        Some(cut) => cut,
    };
    if (!transition.from_clip_id.as_str().is_empty() && transition.from_clip_id != clip.id)
        || transition.to_clip_id != clips[j].id {
        return None;
    }
    let d: i32 = transition.duration_frames;
    let duration_frames: i32 = if d < 1 {
        1
    } else if d > maximum {
        maximum
    } else {
        d
    };
    Some(
        Transition {
            from_clip_id: clip.id.clone(),
            to_clip_id: transition.to_clip_id.clone(),
            kind: transition.kind,
            duration_frames,
        },
    )
}

fn prune_track(track: &mut Track)
    requires
        clips_sound(old(track)@.clips),
    ensures
        final(track)@ == pruned_track(old(track)@),
{
    let ghost before = track@;
    let mut all: Vec<Option<Transition>> = Vec::new();
    let mut i: usize = 0;
    while i < track.clips.len()
        invariant
            i <= track.clips@.len(),
            track@ == before,
            clips_sound(before.clips),
            all@.len() == i,
            forall|k: int|
                0 <= k < i ==> crate::model::opt_transition(#[trigger] all@[k]) == pruned_track(
                    before,
                ).clips[k].transition_out,
        decreases track.clips@.len() - i,
    {
        if track.kind == ClipType::Audio {
            all.push(None);
        } else {
            all.push(kept(&track.clips, i));
        }
        i += 1;
    }
    let mut j: usize = track.clips.len();
    while j > 0
        invariant
            j <= track.clips@.len(),
            all@.len() == j,
            before.clips.len() == track.clips@.len(),
            track.id@ == before.id,
            track.kind == before.kind,
            track.muted == before.muted,
            track.hidden == before.hidden,
            track.sync_locked == before.sync_locked,
            forall|k: int|
                0 <= k < j ==> crate::model::opt_transition(#[trigger] all@[k]) == pruned_track(
                    before,
                ).clips[k].transition_out,
            forall|k: int| 0 <= k < j ==> (#[trigger] track.clips@[k])@ == before.clips[k],
            forall|k: int|
                j <= k < track.clips@.len() ==> (#[trigger] track.clips@[k])@ == pruned_track(
                    before,
                ).clips[k],
        decreases j,
    {
        j -= 1;
        let transition = all.pop().unwrap();
        track.clips[j].transition_out = transition;
        assert(track.clips@[j as int]@ =~= pruned_track(before).clips[j as int]);
    }
    assert(track@.clips =~= pruned_track(before).clips);
    assert(track@ =~= pruned_track(before));
}

/// Drops or shortens every transition that does not stand on a cut, in nested
/// sequences too.
pub fn prune_invalid_transitions(timeline: &mut Timeline)
    requires
        timeline_sound(old(timeline)@),
    ensures
        final(timeline)@ == pruned(old(timeline)@),
    decreases *old(timeline),
{
    let ghost before = *timeline;
    proof {
        lemma_nested_views(before);
    }
    let mut i: usize = 0;
    while i < timeline.nested_sequences.len()
        invariant
            i <= timeline.nested_sequences@.len(),
            before == *old(timeline),
            timeline_sound(before@),
            before@.nested_sequences == nested_sequence_views(before.nested_sequences@),
            timeline.nested_sequences@.len() == before.nested_sequences@.len(),
            timeline.fps == before.fps,
            timeline.width == before.width,
            timeline.height == before.height,
            timeline.settings_configured == before.settings_configured,
            timeline.tracks == before.tracks,
            timeline.script_assembly_plans == before.script_assembly_plans,
            timeline.voice_models == before.voice_models,
            forall|k: int|
                0 <= k < i ==> (#[trigger] timeline.nested_sequences@[k])@ == pruned(
                    before@,
                ).nested_sequences[k],
            forall|k: int|
                i <= k < before.nested_sequences@.len() ==> #[trigger] timeline.nested_sequences@[k]
                    == before.nested_sequences@[k],
        decreases timeline.nested_sequences@.len() - i,
    {
        assert(before@.nested_sequences[i as int] == before.nested_sequences@[i as int]@);
        assert(decreases_to!(before => before.nested_sequences@[i as int].timeline));
        prune_invalid_transitions(&mut timeline.nested_sequences[i].timeline);
        i += 1;
    }
    let ghost middle = *timeline;
    proof {
        lemma_nested_views(middle);
        assert(middle@.nested_sequences =~= pruned(before@).nested_sequences);
    }
    let mut j: usize = 0;
    while j < timeline.tracks.len()
        invariant
            j <= timeline.tracks@.len(),
            timeline_sound(before@),
            middle.tracks == before.tracks,
            timeline.tracks@.len() == before.tracks@.len(),
            timeline.fps == before.fps,
            timeline.width == before.width,
            timeline.height == before.height,
            timeline.settings_configured == before.settings_configured,
            timeline.nested_sequences == middle.nested_sequences,
            timeline.script_assembly_plans == before.script_assembly_plans,
            timeline.voice_models == before.voice_models,
            forall|k: int|
                0 <= k < j ==> (#[trigger] timeline.tracks@[k])@ == pruned_track(
                    before@.tracks[k],
                ),
            forall|k: int|
                j <= k < before.tracks@.len() ==> #[trigger] timeline.tracks@[k]
                    == before.tracks@[k],
        decreases timeline.tracks@.len() - j,
    {
        assert(before@.tracks[j as int] == before.tracks@[j as int]@);
        prune_track(&mut timeline.tracks[j]);
        j += 1;
    }
    proof {
        lemma_nested_views(*timeline);
        assert(timeline@.tracks =~= pruned(before@).tracks);
        assert(timeline@.nested_sequences =~= middle@.nested_sequences);
        assert(timeline@ =~= pruned(before@));
    }
}

/// Whether two lists hold the same clips but for their transitions.
pub open spec fn same_cuts(a: Seq<ClipView>, b: Seq<ClipView>) -> bool {
    a.len() == b.len() && forall|i: int|
        0 <= i < a.len() ==> (#[trigger] b[i]) == (ClipView {
            transition_out: b[i].transition_out,
            ..a[i]
        })
}

proof fn lemma_same_next(a: Seq<ClipView>, b: Seq<ClipView>, i: int)
    requires
        same_cuts(a, b),
        0 <= i < a.len(),
    ensures
        next_clip(b, i) == next_clip(a, i),
{
    assert forall|x: int, y: int|
        0 <= x < a.len() && 0 <= y < a.len() implies #[trigger] clip_before(b, x, y)
        == clip_before(a, x, y) by {
        assert(b[x].id == a[x].id && b[y].id == a[y].id);
    }
    assert forall|j: int| #[trigger] is_next(b, i, j) == is_next(a, i, j) by {
        if 0 <= j < a.len() {
            if is_next(a, i, j) {
                assert forall|k: int|
                    0 <= k < b.len() && #[trigger] clip_before(b, i, k) implies !clip_before(
                    b,
                    k,
                    j,
                ) by {
                    assert(clip_before(a, i, k));
                }
            }
            if is_next(b, i, j) {
                assert forall|k: int|
                    0 <= k < a.len() && #[trigger] clip_before(a, i, k) implies !clip_before(
                    a,
                    k,
                    j,
                ) by {
                    assert(clip_before(b, i, k));
                }
            }
        }
    }
    if exists|j: int| is_next(a, i, j) {
        let j = choose|j: int| is_next(a, i, j);
        assert(is_next(b, i, j));
        lemma_next_unique(a, i, j);
        lemma_next_unique(b, i, j);
    } else if exists|j: int| is_next(b, i, j) {
        let j = choose|j: int| is_next(b, i, j);
        assert(is_next(a, i, j));
    }
}

/// Cuts do not depend on the transitions that stand on them.
proof fn lemma_same_cuts(a: Seq<ClipView>, b: Seq<ClipView>, id: Seq<char>)
    requires
        same_cuts(a, b),
    ensures
        cut_after(b, id) == cut_after(a, id),
{
    assert forall|i: int| #[trigger] cut_of(b, id, i) == cut_of(a, id, i) by {
        if 0 <= i < a.len() {
            lemma_same_next(a, b, i);
            assert(b[i].id == a[i].id);
        }
    }
    assert forall|i: int| 0 <= i < a.len() implies #[trigger] cut_at(b, i) == cut_at(a, i) by {
        lemma_same_next(a, b, i);
        assert(b[i].id == a[i].id);
        if let Some(j) = next_clip(a, i) {
            lemma_next_in_range(a, i);
            assert(b[j].id == a[j].id);
        }
    }
    assert forall|i: int| #[trigger] last_cut_of(b, id, i) == last_cut_of(a, id, i) by {
        if cut_of(a, id, i) {
            assert forall|k: int| #[trigger] cut_of(a, id, k) implies clip_before(a, i, k)
                == clip_before(b, i, k) by {
                assert(b[i].id == a[i].id && b[k].id == a[k].id);
            }
            if last_cut_of(a, id, i) {
                assert forall|k: int| #[trigger] cut_of(b, id, k) implies !clip_before(
                    b,
                    i,
                    k,
                ) by {
                    assert(cut_of(a, id, k));
                }
            }
            if last_cut_of(b, id, i) {
                assert forall|k: int| #[trigger] cut_of(a, id, k) implies !clip_before(
                    a,
                    i,
                    k,
                ) by {
                    assert(cut_of(b, id, k));
                }
            }
        }
    }
    if exists|i: int| last_cut_of(a, id, i) {
        let i = choose|i: int| last_cut_of(a, id, i);
        assert(last_cut_of(b, id, i));
        lemma_last_cut(a, id, i);
        lemma_last_cut(b, id, i);
    } else if exists|i: int| last_cut_of(b, id, i) {
        let i = choose|i: int| last_cut_of(b, id, i);
        assert(last_cut_of(a, id, i));
    }
}

proof fn lemma_next_in_range(clips: Seq<ClipView>, i: int)
    ensures
        next_clip(clips, i) matches Some(j) ==> 0 <= j < clips.len(),
{
    if exists|j: int| is_next(clips, i, j) {
        let j = choose|j: int| is_next(clips, i, j);
        assert(is_next(clips, i, j));
    }
}

proof fn lemma_pruned_track_is_stable(t: TrackView)
    ensures
        pruned_track(pruned_track(t)) == pruned_track(t),
{
    let once = pruned_track(t);
    let twice = pruned_track(once);
    assert(same_cuts(t.clips, once.clips));
    assert forall|i: int| 0 <= i < t.clips.len() implies twice.clips[i] == once.clips[i] by {
        lemma_same_cuts(t.clips, once.clips, t.clips[i].id);
        assert(once.clips[i].id == t.clips[i].id);
        if let Some(cut) = cut_after(t.clips, t.clips[i].id) {
            lemma_cut_limit(t.clips, t.clips[i].id);
        }
    }
    assert(twice.clips =~= once.clips);
}

/// A cut leaves room for a transition of one frame.
proof fn lemma_cut_limit(clips: Seq<ClipView>, id: Seq<char>)
    ensures
        cut_after(clips, id) matches Some(cut) ==> 1 <= cut.maximum <= i32::MAX,
{
    if exists|i: int| last_cut_of(clips, id, i) {
        let i = choose|i: int| last_cut_of(clips, id, i);
        assert(last_cut_of(clips, id, i));
    }
}

/// Pruning touches no frame of a clip.
pub proof fn lemma_pruned_sound(t: TimelineView)
    ensures
        timeline_sound(t) ==> timeline_sound(pruned(t)),
    decreases t,
{
    if timeline_sound(t) {
        let next = pruned(t);
        assert forall|i: int| 0 <= i < next.tracks.len() implies clips_sound(
            (#[trigger] next.tracks[i]).clips,
        ) by {
            assert(clips_sound(t.tracks[i].clips));
            assert forall|j: int| 0 <= j < next.tracks[i].clips.len() implies clip_sound(
                #[trigger] next.tracks[i].clips[j],
            ) by {
                assert(clip_sound(t.tracks[i].clips[j]));
            }
        }
        assert forall|i: int| 0 <= i < next.nested_sequences.len() implies timeline_sound(
            (#[trigger] next.nested_sequences[i]).timeline,
        ) by {
            assert(timeline_sound(t.nested_sequences[i].timeline));
            lemma_pruned_sound(t.nested_sequences[i].timeline);
        }
    }
}

/// Pruning a timeline whose transitions all stand on cuts changes nothing.
pub proof fn law_pruning_is_stable(t: TimelineView)
    ensures
        pruned(pruned(t)) == pruned(t),
    decreases t,
{
    let once = pruned(t);
    let twice = pruned(once);
    assert forall|i: int| 0 <= i < t.tracks.len() implies twice.tracks[i] == once.tracks[i] by {
        lemma_pruned_track_is_stable(t.tracks[i]);
    }
    assert(twice.tracks =~= once.tracks);
    assert forall|i: int| 0 <= i < t.nested_sequences.len() implies twice.nested_sequences[i]
        == once.nested_sequences[i] by {
        law_pruning_is_stable(t.nested_sequences[i].timeline);
    }
    assert(twice.nested_sequences =~= once.nested_sequences);
}

/// After pruning, every transition stands on the cut at the end of its clip: it names
/// the clip and the one that follows at once, lasts a frame at least and no longer
/// than the cut allows, and none stands on an audio track.
pub proof fn law_transitions_stand_on_cuts(t: TimelineView, i: int, j: int)
    requires
        0 <= i < t.tracks.len(),
        0 <= j < t.tracks[i].clips.len(),
    ensures
        ({
            let track = pruned(t).tracks[i];
            track.clips[j].transition_out matches Some(x) ==> {
                &&& !(track.kind is Audio)
                &&& x.from_clip_id == track.clips[j].id
                &&& cut_after(track.clips, track.clips[j].id) matches Some(cut)
                &&& x.to_clip_id == cut.to_clip_id
                &&& 1 <= x.duration_frames <= cut.maximum
            }
        }),
{
    let before = t.tracks[i];
    let track = pruned(t).tracks[i];
    assert(track == pruned_track(before));
    assert(same_cuts(before.clips, track.clips));
    lemma_same_cuts(before.clips, track.clips, before.clips[j].id);
    lemma_cut_limit(before.clips, before.clips[j].id);
}

} // verus!
