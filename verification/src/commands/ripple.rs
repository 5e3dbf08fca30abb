//! Freezing a frame, trimming, and deleting so that later clips close the gap. The
//! shifting is done by the ripple engine; here stand the checks before it and what
//! becomes of its result.

use crate::alike::alike;
use crate::alike::alike_library;
use crate::commands::effects::missing_clip;
use crate::commands::keyframes::end_of;
use crate::commands::splitting::cuts;
use crate::commands::tracks::first_audio;
use crate::edit::invalid;
use crate::edit::outcome;
use crate::edit::verdict;
use crate::edit::EditError;
use crate::edit::EditResult;
use crate::edit::EditResultView;
use crate::edit::Fault;
use crate::entries::trim_edit_views;
use crate::entries::ClipEntry;
use crate::entries::ClipEntryView;
use crate::entries::FrameRange;
use crate::entries::TrimEdit;
use crate::entries::TrimEditView;
use crate::frames::timeline_fault;
use crate::frames::validate_timeline_frame_arithmetic;
use crate::links::expand_to_link_group;
use crate::links::link_expanded;
use crate::locate::clip_at;
use crate::locate::clip_not_found;
use crate::locate::lemma_timeline_parts;
use crate::locate::locate;
use crate::locate::require_clip;
use crate::locate::track_index;
use crate::model::kind_name;
use crate::model::Clip;
use crate::model::ClipType;
use crate::model::Timeline;
use crate::model::TimelineView;
use crate::model::Track;
use crate::model::TrackView;
use crate::state::committed;
use crate::state::report;
use crate::state::result;
use crate::state::timeline_transacted;
use crate::state::transact_timeline;
use crate::state::EditorState;
use crate::state::Placed;
use crate::state::PlacedView;
use crate::state::StateView;
use crate::text::cat2;
use crate::text::cat3;
use crate::text::cat4;
use crate::text::cat7;
use crate::text::i32_to_text;
use crate::text::i64_to_text;
use crate::text::int_text;
use crate::text::nat_text;
use crate::text::opt_text;
use crate::text::texts;
use crate::text::trimmed;
use crate::text::usize_to_text;
use vstd::prelude::*;
use vstd::string::StringExecFns;

verus! {

/// The complaint against freezing a frame of a clip, if any. `ripple_fault` is what
/// the ripple engine says against pushing the later clips on.
pub open spec fn freeze_fault(
    t: TimelineView,
    id: Seq<char>,
    at_frame: int,
    duration: int,
    ripple_fault: Option<Seq<char>>,
) -> Option<Fault> {
    match locate(t, id) {
        None => Some(clip_not_found(id)),
        Some(p) => {
            let c = clip_at(t, p);
            if !cuts(c, at_frame) {
                Some(
                    Fault::Invalid(
                        "Frame "@ + int_text(at_frame) + " must be strictly inside clip range ("@
                            + int_text(c.start_frame as int) + ".."@ + int_text(end_of(c)) + ")"@,
                    ),
                )
            } else if duration < 1 {
                Some(
                    Fault::Invalid("durationFrames must be >= 1 (got "@ + int_text(duration) + ")"@),
                )
            } else if !(c.media_type is Video || c.media_type is Image) {
                Some(
                    Fault::Invalid(
                        "Freeze Frame requires a video or image clip (got "@ + kind_name(
                            c.media_type,
                        ) + ")"@,
                    ),
                )
            } else {
                match ripple_fault {
                    Some(m) => Some(Fault::Invalid(m)),
                    None => None,
                }
            }
        },
    }
}

/// Freezing a frame.
pub open spec fn freeze_frame_spec(
    s: StateView,
    id: Seq<char>,
    at_frame: int,
    duration: int,
    ripple_fault: Option<Seq<char>>,
    placed: PlacedView,
    registry_fault: Option<Seq<char>>,
) -> (Result<EditResultView, Fault>, StateView) {
    match freeze_fault(s.timeline, id, at_frame, duration, ripple_fault) {
        Some(f) => (Err(f), s),
        None => timeline_transacted(
            s,
            "Freeze Frame"@,
            "Froze "@ + id + " at frame "@ + int_text(at_frame) + " for "@ + int_text(duration)
                + " frame(s)"@,
            placed.timeline,
            placed.affected,
            registry_fault,
        ),
    }
}

/// Checks that a frame of a clip can be frozen; the ripple engine has its own say
/// after that.
pub fn check_freeze(
    state: &EditorState,
    clip_id: &String,
    at_frame: i32,
    duration_frames: i32,
) -> (r: Result<(), EditError>)
    ensures
        verdict(r) == freeze_fault(
            state@.timeline,
            clip_id@,
            at_frame as int,
            duration_frames as int,
            None,
        ),
{
    let (ti, ci) = match require_clip(&state.timeline, clip_id.as_str()) {
        Ok(place) => place,
        Err(e) => return Err(e),
    };
    proof {
        lemma_timeline_parts(state.timeline, ti as int, ci as int);
    }
    let clip = &state.timeline.tracks[ti].clips[ci];
    let end: i64 = clip.start_frame as i64 + clip.duration_frames as i64;
    if !(clip.start_frame < at_frame && (at_frame as i64) < end) {
        let frame = i32_to_text(at_frame);
        let start = i32_to_text(clip.start_frame);
        let end = i64_to_text(end);
        return Err(
            EditError::Invalid(
                cat7(
                    "Frame ",
                    frame.as_str(),
                    " must be strictly inside clip range (",
                    start.as_str(),
                    "..",
                    end.as_str(),
                    ")",
                ),
            ),
        );
    }
    if duration_frames < 1 {
        let duration = i32_to_text(duration_frames);
        return Err(
            EditError::Invalid(cat3("durationFrames must be >= 1 (got ", duration.as_str(), ")")),
        );
    }
    if clip.media_type != ClipType::Video && clip.media_type != ClipType::Image {
        return Err(
            EditError::Invalid(
                cat3(
                    "Freeze Frame requires a video or image clip (got ",
                    clip.media_type.name(),
                    ")",
                ),
            ),
        );
    }
    Ok(())
}

/// The still that stands in for a frozen frame: a picture without sound, on the track of
/// the clip that was frozen.
pub open spec fn still(
    t: TimelineView,
    id: Seq<char>,
    at_frame: i32,
    duration: i32,
    media_ref: Seq<char>,
) -> ClipEntryView {
    ClipEntryView {
        media_ref,
        media_type: ClipType::Image,
        source_clip_type: ClipType::Image,
        track_index: (locate(t, id)->0).0 as usize,
        start_frame: at_frame,
        duration_frames: duration,
        trim_start_frame: None,
        trim_end_frame: None,
        has_audio: false,
        add_linked_audio: false,
        transform: None,
    }
}

/// Plans freezing a frame of a clip: the still that is inserted at the frame once the
/// clip has been split there. The ripple engine has its own say after that.
pub fn plan_freeze(
    state: &EditorState,
    clip_id: &String,
    at_frame: i32,
    duration_frames: i32,
    media_ref: &String,
) -> (r: Result<ClipEntry, EditError>)
    ensures
        ({
            let t = state@.timeline;
            match freeze_fault(t, clip_id@, at_frame as int, duration_frames as int, None) {
                Some(f) => r matches Err(e) && e@ == f,
                None => r matches Ok(entry) && entry@ == still(
                    t,
                    clip_id@,
                    at_frame,
                    duration_frames,
                    media_ref@,
                ),
            }
        }),
{
    if let Err(e) = check_freeze(state, clip_id, at_frame, duration_frames) {
        return Err(e);
    }
    let (track_index, _) = match require_clip(&state.timeline, clip_id.as_str()) {
        Ok(place) => place,
        Err(e) => return Err(e),
    };
    Ok(
        ClipEntry {
            media_ref: media_ref.clone(),
            media_type: ClipType::Image,
            source_clip_type: ClipType::Image,
            track_index,
            start_frame: at_frame,
            duration_frames,
            trim_start_frame: None,
            trim_end_frame: None,
            has_audio: false,
            add_linked_audio: false,
            transform: None,
        },
    )
}

/// Splits a clip and inserts a still picture there. `ripple_fault` is what the
/// ripple engine says against it, if anything, and `placed` what splitting and
/// inserting made of the timeline.
pub fn freeze_frame(
    state: &mut EditorState,
    clip_id: String,
    at_frame: i32,
    duration_frames: i32,
    ripple_fault: &Option<String>,
    placed: Placed,
    registry_fault: &Option<String>,
) -> (r: Result<EditResult, EditError>)
    requires
        old(state)@.version < u64::MAX,
    ensures
        (outcome(r), final(state)@) == freeze_frame_spec(
            old(state)@,
            clip_id@,
            at_frame as int,
            duration_frames as int,
            opt_text(*ripple_fault),
            placed@,
            opt_text(*registry_fault),
        ),
{
    if let Err(e) = check_freeze(state, &clip_id, at_frame, duration_frames) {
        return Err(e);
    }
    if let Some(reason) = ripple_fault {
        return Err(EditError::Invalid(reason.clone()));
    }
    let frame = i32_to_text(at_frame);
    let duration = i32_to_text(duration_frames);
    let what = cat4("Froze ", clip_id.as_str(), " at frame ", frame.as_str());
    let summary = cat4(what.as_str(), " for ", duration.as_str(), " frame(s)");
    transact_timeline(
        state,
        "Freeze Frame",
        summary.as_str(),
        placed.timeline,
        placed.affected,
        registry_fault,
    )
}

/// The ids of trims.
pub open spec fn trim_ids(edits: Seq<TrimEditView>) -> Seq<Seq<char>> {
    edits.map_values(|e: TrimEditView| e.clip_id)
}

/// The view of an optional timeline.
pub open spec fn opt_timeline(o: Option<Timeline>) -> Option<TimelineView> {
    match o {
        Some(t) => Some(t@),
        None => None,
    }
}

/// Trimming clips: all have to exist, and the trimming engine has to have found the
/// trims possible.
pub open spec fn trim_spec(
    s: StateView,
    edits: Seq<TrimEditView>,
    trimmed: Option<TimelineView>,
    registry_fault: Option<Seq<char>>,
) -> (Result<EditResultView, Fault>, StateView) {
    if edits.len() == 0 {
        (Err(Fault::Invalid("Missing or empty trim edits"@)), s)
    } else {
        match missing_clip(s.timeline, trim_ids(edits), 0) {
            Some(id) => (Err(clip_not_found(id)), s),
            None => match trimmed {
                None => (
                    Err(
                        Fault::Invalid(
                            "trim edits produce invalid or overflowing frame arithmetic"@,
                        ),
                    ),
                    s,
                ),
                Some(t) => timeline_transacted(
                    s,
                    if edits.len() == 1 {
                        "Trim Clip"@
                    } else {
                        "Trim Clips"@
                    },
                    "Trimmed "@ + nat_text(edits.len()) + " clip(s)"@,
                    t,
                    trim_ids(edits),
                    registry_fault,
                ),
            },
        }
    }
}

/// Resizes clips in place from new source-frame trims. `trimmed` is the timeline
/// that the trimming engine resized them on, or `None` where it found the trims
/// impossible.
pub fn trim(
    state: &mut EditorState,
    edits: Vec<TrimEdit>,
    trimmed: Option<Timeline>,
    registry_fault: &Option<String>,
) -> (r: Result<EditResult, EditError>)
    requires
        old(state)@.version < u64::MAX,
    ensures
        (outcome(r), final(state)@) == trim_spec(
            old(state)@,
            trim_edit_views(edits@),
            opt_timeline(trimmed),
            opt_text(*registry_fault),
        ),
{
    if edits.len() == 0 {
        return Err(invalid("Missing or empty trim edits"));
    }
    let ghost views = trim_edit_views(edits@);
    let ghost wanted = trim_ids(views);
    let mut affected: Vec<String> = Vec::new();
    let mut i: usize = 0;
    while i < edits.len()
        invariant
            i <= edits@.len(),
            edits@.len() > 0,
            views == trim_edit_views(edits@),
            wanted == trim_ids(views),
            state@ == old(state)@,
            affected@.len() == i,
            forall|k: int| 0 <= k < i ==> (#[trigger] affected@[k])@ == wanted[k],
            missing_clip(state@.timeline, wanted, 0) == missing_clip(
                state@.timeline,
                wanted,
                i as int,
            ),
        decreases edits@.len() - i,
    {
        assert(wanted[i as int] == edits@[i as int].clip_id@);
        if let Err(e) = require_clip(&state.timeline, edits[i].clip_id.as_str()) {
            return Err(e);
        }
        affected.push(edits[i].clip_id.clone());
        i += 1;
    }
    assert(texts(affected@) =~= wanted);
    let timeline = match trimmed {
        Some(timeline) => timeline,
        None => return Err(invalid("trim edits produce invalid or overflowing frame arithmetic")),
    };
    let count = usize_to_text(edits.len());
    let summary = cat3("Trimmed ", count.as_str(), " clip(s)");
    transact_timeline(
        state,
        if edits.len() == 1 {
            "Trim Clip"
        } else {
            "Trim Clips"
        },
        summary.as_str(),
        timeline,
        affected,
        registry_fault,
    )
}

/// What a ripple delete over ranges came to: it was refused so that sync-locked
/// tracks stay in step, or it was done.
#[derive(Debug)]
pub enum RippleOutcome {
    Refused(String),
    Done {
        timeline: Timeline,
        removed_frames: i32,
        cleared_tracks: usize,
        shifted_clips: usize,
        resulting_fragments: Vec<String>,
    },
}

/// The view of a [`RippleOutcome`].
pub enum RippleView {
    Refused(Seq<char>),
    Done {
        timeline: TimelineView,
        removed_frames: i32,
        cleared_tracks: usize,
        shifted_clips: usize,
        resulting_fragments: Seq<Seq<char>>,
    },
}

impl View for RippleOutcome {
    type V = RippleView;

    open spec fn view(&self) -> RippleView {
        match self {
            RippleOutcome::Refused(reason) => RippleView::Refused(reason@),
            RippleOutcome::Done {
                timeline,
                removed_frames,
                cleared_tracks,
                shifted_clips,
                resulting_fragments,
            } => RippleView::Done {
                timeline: timeline@,
                removed_frames: *removed_frames,
                cleared_tracks: *cleared_tracks,
                shifted_clips: *shifted_clips,
                resulting_fragments: texts(resulting_fragments@),
            },
        }
    }
}

/// Settling a ripple delete: the timeline it gave has to be in order, and is
/// committed where the document differs, the media library included: one that holds a
/// NaN is never the same as before. Transitions stay as the ripple engine left them.
pub open spec fn ripple_settled(
    s: StateView,
    t: TimelineView,
    affected: Seq<Seq<char>>,
    summary: Seq<char>,
) -> (Result<EditResultView, Fault>, StateView) {
    match timeline_fault(t, "timeline"@) {
        Some(m) => (Err(Fault::Invalid(m)), s),
        None => {
            let changed = !alike(s.timeline, t) || !alike_library(s.manifest, s.manifest);
            let next = if changed {
                committed(s, t, s.manifest, "Ripple Delete"@)
            } else {
                StateView { timeline: t, ..s }
            };
            (
                Ok(report(changed, false, "Ripple Delete"@, affected, next.version, summary)),
                next,
            )
        },
    }
}

/// The complaint against a ripple delete over ranges, if any. `range_fault` is what
/// the ripple engine says against the ranges.
pub open spec fn ripple_ranges_fault(
    t: TimelineView,
    index: int,
    ranges: nat,
    range_fault: Option<Seq<char>>,
) -> Option<Seq<char>> {
    if ranges == 0 {
        Some("Missing or empty 'ranges' array"@)
    } else if index >= t.tracks.len() {
        Some("Track index out of range: "@ + nat_text(index as nat))
    } else {
        match timeline_fault(t, "timeline"@) {
            Some(m) => Some(m),
            None => range_fault,
        }
    }
}

/// Ripple-deleting ranges of a track.
pub open spec fn ripple_delete_ranges_spec(
    s: StateView,
    index: int,
    ranges: nat,
    range_fault: Option<Seq<char>>,
    ripple: RippleView,
) -> (Result<EditResultView, Fault>, StateView) {
    match ripple_ranges_fault(s.timeline, index, ranges, range_fault) {
        Some(m) => (Err(Fault::Invalid(m)), s),
        None => match ripple {
            RippleView::Refused(reason) => (Err(Fault::Refused(reason)), s),
            RippleView::Done {
                timeline,
                removed_frames,
                cleared_tracks,
                shifted_clips,
                resulting_fragments,
            } => ripple_settled(
                s,
                timeline,
                resulting_fragments,
                "Removed "@ + int_text(removed_frames as int) + " frame(s) across "@ + nat_text(
                    cleared_tracks as nat,
                ) + " track(s), shifted "@ + nat_text(shifted_clips as nat) + " clip(s)"@,
            ),
        },
    }
}

fn settle_ripple(state: &mut EditorState, timeline: Timeline, affected: Vec<String>, summary: &str) -> (r: Result<
    EditResult,
    EditError,
>)
    requires
        old(state)@.version < u64::MAX,
    ensures
        (outcome(r), final(state)@) == ripple_settled(
            old(state)@,
            timeline@,
            texts(affected@),
            summary@,
        ),
{
    if let Err(e) = validate_timeline_frame_arithmetic(&timeline, "timeline") {
        return Err(e);
    }
    let changed = !state.timeline.same(&timeline) || !state.manifest.same(&state.manifest);
    if changed {
        let manifest = state.manifest.copy();
        state.commit(timeline, manifest, "Ripple Delete");
    } else {
        state.timeline = timeline;
    }
    Ok(result(state, changed, false, "Ripple Delete", affected, summary))
}

/// Ripple-deletes project-frame ranges on a track, closing the gaps.
/// `range_fault` is what the ripple engine says against the ranges, if anything,
/// and `ripple` what its work came to.
pub fn ripple_delete_ranges(
    state: &mut EditorState,
    track_index: usize,
    ranges: Vec<FrameRange>,
    range_fault: &Option<String>,
    ripple: RippleOutcome,
) -> (r: Result<EditResult, EditError>)
    requires
        old(state)@.version < u64::MAX,
    ensures
        (outcome(r), final(state)@) == ripple_delete_ranges_spec(
            old(state)@,
            track_index as int,
            ranges@.len(),
            opt_text(*range_fault),
            ripple@,
        ),
{
    if ranges.len() == 0 {
        return Err(invalid("Missing or empty 'ranges' array"));
    }
    assert(state.timeline.tracks@.len() == state@.timeline.tracks.len());
    if track_index >= state.timeline.tracks.len() {
        let index = usize_to_text(track_index);
        return Err(EditError::Invalid(cat2("Track index out of range: ", index.as_str())));
    }
    if let Err(e) = validate_timeline_frame_arithmetic(&state.timeline, "timeline") {
        return Err(e);
    }
    if let Some(reason) = range_fault {
        return Err(EditError::Invalid(reason.clone()));
    }
    match ripple {
        RippleOutcome::Refused(reason) => Err(EditError::Refused(reason)),
        RippleOutcome::Done {
            timeline,
            removed_frames,
            cleared_tracks,
            shifted_clips,
            resulting_fragments,
        } => {
            let frames = i32_to_text(removed_frames);
            let tracks = usize_to_text(cleared_tracks);
            let clips = usize_to_text(shifted_clips);
            let summary = cat7(
                "Removed ",
                frames.as_str(),
                " frame(s) across ",
                tracks.as_str(),
                " track(s), shifted ",
                clips.as_str(),
                " clip(s)",
            );
            settle_ripple(state, timeline, resulting_fragments, summary.as_str())
        },
    }
}

/// The complaint against ripple-deleting clips, if any.
pub open spec fn ripple_clips_fault(t: TimelineView, ids: Seq<Seq<char>>) -> Option<Fault> {
    if ids.len() == 0 {
        Some(Fault::Invalid("Missing or empty 'clipIds' array"@))
    } else if timeline_fault(t, "timeline"@) is Some {
        Some(Fault::Invalid(timeline_fault(t, "timeline"@)->0))
    } else {
        match missing_clip(t, ids, 0) {
            Some(id) => Some(clip_not_found(id)),
            None => None,
        }
    }
}

/// The view of what a ripple delete of clips came to.
pub open spec fn ripple_view(r: Result<Timeline, String>) -> Result<TimelineView, Seq<char>> {
    match r {
        Ok(t) => Ok(t@),
        Err(m) => Err(m@),
    }
}

/// Ripple-deleting clips together with those linked to them.
pub open spec fn ripple_delete_clips_spec(
    s: StateView,
    ids: Seq<Seq<char>>,
    ripple: Result<TimelineView, Seq<char>>,
) -> (Result<EditResultView, Fault>, StateView) {
    match ripple_clips_fault(s.timeline, ids) {
        Some(f) => (Err(f), s),
        None => match ripple {
            Err(reason) => (Err(Fault::Refused(reason)), s),
            Ok(t) => {
                let all = link_expanded(s.timeline, ids);
                ripple_settled(
                    s,
                    t,
                    all,
                    "Ripple-deleted "@ + nat_text(all.len()) + " clip(s)"@,
                )
            },
        },
    }
}

/// Ripple-deletes clips and the clips linked to them. `ripple` is the timeline that
/// the ripple engine closed the gaps on, or its reason for refusing.
pub fn ripple_delete_clips(
    state: &mut EditorState,
    clip_ids: Vec<String>,
    ripple: Result<Timeline, String>,
) -> (r: Result<EditResult, EditError>)
    requires
        old(state)@.version < u64::MAX,
    ensures
        (outcome(r), final(state)@) == ripple_delete_clips_spec(
            old(state)@,
            texts(clip_ids@),
            ripple_view(ripple),
        ),
{
    if clip_ids.len() == 0 {
        return Err(invalid("Missing or empty 'clipIds' array"));
    }
    if let Err(e) = validate_timeline_frame_arithmetic(&state.timeline, "timeline") {
        return Err(e);
    }
    let ghost wanted = texts(clip_ids@);
    let mut i: usize = 0;
    while i < clip_ids.len()
        invariant
            i <= clip_ids@.len(),
            clip_ids@.len() > 0,
            wanted == texts(clip_ids@),
            state@ == old(state)@,
            timeline_fault(state@.timeline, "timeline"@) is None,
            missing_clip(state@.timeline, wanted, 0) == missing_clip(
                state@.timeline,
                wanted,
                i as int,
            ),
        decreases clip_ids@.len() - i,
    {
        if let Err(e) = require_clip(&state.timeline, clip_ids[i].as_str()) {
            return Err(e);
        }
        i += 1;
    }
    let affected = expand_to_link_group(&state.timeline, &clip_ids);
    match ripple {
        Err(reason) => Err(EditError::Refused(reason)),
        Ok(timeline) => {
            assert(texts(affected@).len() == affected@.len());
            let count = usize_to_text(affected.len());
            let summary = cat3("Ripple-deleted ", count.as_str(), " clip(s)");
            settle_ripple(state, timeline, affected, summary.as_str())
        },
    }
}

/// How many tracks from `from` to before `to` are of a kind.
pub open spec fn kind_count(tracks: Seq<TrackView>, kind: ClipType, from: int, to: int) -> nat
    decreases to - from,
{
    if from >= to {
        0
    } else {
        kind_count(tracks, kind, from, to - 1) + (if 0 <= to - 1 < tracks.len() && tracks[to
            - 1].kind == kind {
            1nat
        } else {
            0nat
        })
    }
}

/// The letter of a kind of track.
pub open spec fn kind_letter(kind: ClipType) -> Seq<char> {
    match kind {
        ClipType::Video => "V"@,
        ClipType::Audio => "A"@,
        ClipType::Image => "I"@,
        ClipType::Text => "T"@,
        ClipType::Lottie => "L"@,
    }
}

/// The label of a track: its letter, and its number among the tracks of its kind.
/// Audio tracks are numbered downwards, visual tracks upwards from the first audio
/// track.
pub open spec fn track_label(t: TimelineView, index: int) -> Seq<char> {
    if index >= t.tracks.len() {
        Seq::empty()
    } else {
        let kind = t.tracks[index].kind;
        let edge = first_audio(t.tracks, 0);
        let number = if kind is Audio {
            kind_count(t.tracks, kind, 0, index + 1)
        } else {
            kind_count(
                t.tracks,
                kind,
                index,
                if edge > index + 1 {
                    edge
                } else {
                    index + 1
                },
            )
        };
        kind_letter(kind) + nat_text(number)
    }
}

fn count_kind(timeline: &Timeline, kind: ClipType, from: usize, to: usize) -> (r: usize)
    requires
        from <= to <= timeline.tracks@.len(),
    ensures
        r == kind_count(timeline@.tracks, kind, from as int, to as int),
{
    let mut count: usize = 0;
    let mut i: usize = from;
    while i < to
        invariant
            from <= i <= to <= timeline.tracks@.len(),
            count <= i - from,
            count == kind_count(timeline@.tracks, kind, from as int, i as int),
        decreases to - i,
    {
        proof {
            lemma_timeline_parts(*timeline, i as int, 0);
        }
        if timeline.tracks[i].kind == kind {
            count += 1;
        }
        i += 1;
    }
    count
}

/// A label such as "V1" or "A1" for a track; empty where there is no such track.
pub fn track_display_label(timeline: &Timeline, track_index: usize) -> (r: String)
    ensures
        r@ == track_label(timeline@, track_index as int),
{
    let ghost tracks = timeline@.tracks;
    proof {
        lemma_timeline_parts(*timeline, track_index as int, 0);
    }
    if track_index >= timeline.tracks.len() {
        let empty = String::new();
        assert(empty@ =~= Seq::empty());
        return empty;
    }
    let kind = timeline.tracks[track_index].kind;
    let letter = match kind {
        ClipType::Video => "V",
        ClipType::Audio => "A",
        ClipType::Image => "I",
        ClipType::Text => "T",
        ClipType::Lottie => "L",
    };
    let mut edge: usize = 0;
    while edge < timeline.tracks.len() && timeline.tracks[edge].kind != ClipType::Audio
        invariant
            edge <= timeline.tracks@.len(),
            tracks == timeline@.tracks,
            first_audio(tracks, 0) == first_audio(tracks, edge as int),
        decreases timeline.tracks@.len() - edge,
    {
        edge += 1;
    }
    let number: usize = if kind == ClipType::Audio {
        count_kind(timeline, kind, 0, track_index + 1)
    } else {
        let to: usize = if edge > track_index + 1 {
            edge
        } else {
            track_index + 1
        };
        count_kind(timeline, kind, track_index, to)
    };
    let digits = usize_to_text(number);
    cat2(letter, digits.as_str())
}

} // verus!
