//! Placing media on the timeline. The placing itself (clearing the region that a
//! clip takes and putting the clip and its linked audio there) is done by the
//! placement engine; here stand the checks before it, the tracks it places on, and
//! the transaction after it.

use crate::arrange::prune_empty_tracks;
use crate::arrange::without_empty_tracks;
use crate::commands::captions::entry_label;
use crate::commands::captions::label_entry;
use crate::commands::nested::find_sequence;
use crate::commands::nested::lemma_sequence_replaced;
use crate::commands::nested::require_sequence;
use crate::commands::nested::sequence_index;
use crate::commands::nested::sequence_not_found;
use crate::commands::nested::with_sequence;
use crate::commands::settings::check_settings;
use crate::commands::settings::projection_fault;
use crate::commands::settings::settings_fault;
use crate::commands::settings::validate_settings_frame_projection;
use crate::commands::settings::with_settings;
use crate::commands::tracks::insert_track;
use crate::commands::tracks::lemma_first_audio;
use crate::commands::tracks::track_inserted;
use crate::commands::tracks::track_slot;
use crate::edit::invalid;
use crate::edit::outcome;
use crate::edit::verdict;
use crate::edit::EditError;
use crate::edit::EditResult;
use crate::edit::EditResultView;
use crate::edit::Fault;
use crate::entries::clip_entry_views;
use crate::entries::ClipEntry;
use crate::entries::ClipEntryView;
use crate::entries::ProjectTimelineSettings;
use crate::entries::UnplacedClipEntry;
use crate::entries::UnplacedClipEntryView;
use crate::frames::checked_clip_frame_arithmetic;
use crate::frames::invalid_if;
use crate::frames::placed_fault;
use crate::frames::timeline_fault;
use crate::frames::validate_timeline_frame_arithmetic;
use crate::ids::ids_after;
use crate::ids::lemma_ids_after;
use crate::ids::mint;
use crate::ids::minted;
use crate::ids::nth_id;
use crate::ids::CoreIdGen;
use crate::ids::IdsView;
use crate::locate::do_tracks_stand;
use crate::locate::find_media;
use crate::locate::find_track;
use crate::locate::lemma_timeline_parts;
use crate::locate::lost_track;
use crate::locate::media_entry;
use crate::locate::track_index;
use crate::locate::track_lost;
use crate::locate::tracks_stand;
use crate::model::compatible;
use crate::model::kind_name;
use crate::model::lemma_nested_views;
use crate::model::Clip;
use crate::model::ClipType;
use crate::model::MediaManifestView;
use crate::model::NestedSequenceView;
use crate::model::Real;
use crate::model::Timeline;
use crate::model::TimelineView;
use crate::model::Track;
use crate::state::ids_spent;
use crate::state::timeline_transacted;
use crate::state::transact;
use crate::state::transact_timeline;
use crate::state::transacted;
use crate::state::EditorState;
use crate::state::Placed;
use crate::state::PlacedView;
use crate::state::StateView;
use crate::state::Work;
use crate::state::WorkView;
use crate::text::cat2;
use crate::text::cat3;
use crate::text::cat4;
use crate::text::i32_to_text;
use crate::text::int_text;
use crate::text::join;
use crate::text::joined;
use crate::text::nat_text;
use crate::text::opt_text;
use crate::text::same_text;
use crate::text::texts;
use crate::text::usize_to_text;
use vstd::prelude::*;

verus! {

/// Stable destination for one media-placement gesture.
#[derive(Debug)]
pub enum PlaceMediaTarget {
    ExistingTrack { track_id: String },
    NewTrack { kind: ClipType, at: Option<usize> },
}

/// The view of a [`PlaceMediaTarget`].
pub enum TargetView {
    ExistingTrack { track_id: Seq<char> },
    NewTrack { kind: ClipType, at: Option<usize> },
}

impl View for PlaceMediaTarget {
    type V = TargetView;

    open spec fn view(&self) -> TargetView {
        match self {
            PlaceMediaTarget::ExistingTrack { track_id } => TargetView::ExistingTrack {
                track_id: track_id@,
            },
            PlaceMediaTarget::NewTrack { kind, at } => TargetView::NewTrack {
                kind: *kind,
                at: *at,
            },
        }
    }
}

/// An optional frame number, 0 where there is none.
pub open spec fn or_zero(frame: Option<i32>) -> int {
    match frame {
        Some(f) => f as int,
        None => 0,
    }
}

fn frame_or_zero(frame: Option<i32>) -> (r: i32)
    ensures
        r == or_zero(frame),
{
    match frame {
        Some(f) => f,
        None => 0,
    }
}

/// The complaint against the frames of a clip to be placed, if any.
pub open spec fn entry_frames_fault(e: ClipEntryView, i: int) -> Option<Seq<char>> {
    placed_fault(
        e.start_frame as int,
        e.duration_frames as int,
        or_zero(e.trim_start_frame),
        or_zero(e.trim_end_frame),
        Real::one(),
        e.media_type,
        entry_label(i),
    )
}

/// The complaint against a clip for a given track, if any.
pub open spec fn entry_fault(t: TimelineView, e: ClipEntryView, i: int) -> Option<Seq<char>> {
    if e.track_index >= t.tracks.len() {
        Some(
            entry_label(i) + ": track index "@ + nat_text(e.track_index as nat)
                + " out of range"@,
        )
    } else if !compatible(e.media_type, t.tracks[e.track_index as int].kind) {
        Some(entry_label(i) + ": asset type is not compatible with the destination track"@)
    } else {
        entry_frames_fault(e, i)
    }
}

/// The first complaint, from `from` on, against clips for given tracks.
pub open spec fn entries_fault(
    t: TimelineView,
    entries: Seq<ClipEntryView>,
    from: int,
) -> Option<Seq<char>>
    decreases entries.len() - from,
{
    if from < 0 || from >= entries.len() {
        None
    } else {
        match entry_fault(t, entries[from], from) {
            Some(m) => Some(m),
            None => entries_fault(t, entries, from + 1),
        }
    }
}

/// The first complaint, from `from` on, against clips for fresh tracks.
pub open spec fn auto_entries_fault(entries: Seq<ClipEntryView>, from: int) -> Option<Seq<char>>
    decreases entries.len() - from,
{
    if from < 0 || from >= entries.len() {
        None
    } else {
        match entry_frames_fault(entries[from], from) {
            Some(m) => Some(m),
            None => auto_entries_fault(entries, from + 1),
        }
    }
}

/// The complaint against clips for given tracks, if any.
pub open spec fn add_clips_fault(t: TimelineView, entries: Seq<ClipEntryView>) -> Option<Seq<char>> {
    if entries.len() == 0 {
        Some("Missing or empty 'entries' array"@)
    } else {
        entries_fault(t, entries, 0)
    }
}

/// The complaint against clips for fresh tracks, if any.
pub open spec fn add_clips_auto_fault(entries: Seq<ClipEntryView>) -> Option<Seq<char>> {
    if entries.len() == 0 {
        Some("Missing or empty 'entries' array"@)
    } else {
        auto_entries_fault(entries, 0)
    }
}

fn check_entry_frames(e: &ClipEntry, i: usize) -> (r: Result<i32, EditError>)
    ensures
        crate::frames::frame_verdict(r) == invalid_if(entry_frames_fault(e@, i as int)),
        r matches Ok(end) ==> end == e.start_frame + e.duration_frames,
{
    let label = label_entry(i);
    checked_clip_frame_arithmetic(
        e.start_frame,
        e.duration_frames,
        frame_or_zero(e.trim_start_frame),
        frame_or_zero(e.trim_end_frame),
        Real::one(),
        e.media_type,
        label.as_str(),
    )
}

/// Checks a clip for a given track and returns the frame after its last.
pub fn validate_entry(state: &EditorState, e: &ClipEntry, i: usize) -> (r: Result<i32, EditError>)
    ensures
        crate::frames::frame_verdict(r) == invalid_if(entry_fault(state@.timeline, e@, i as int)),
        r matches Ok(end) ==> end == e.start_frame + e.duration_frames,
{
    proof {
        lemma_timeline_parts(state.timeline, e.track_index as int, 0);
    }
    if e.track_index >= state.timeline.tracks.len() {
        let label = label_entry(i);
        let index = usize_to_text(e.track_index);
        return Err(
            EditError::Invalid(
                cat4(label.as_str(), ": track index ", index.as_str(), " out of range"),
            ),
        );
    }
    if !e.media_type.is_compatible(state.timeline.tracks[e.track_index].kind) {
        let label = label_entry(i);
        return Err(
            EditError::Invalid(
                cat2(
                    label.as_str(),
                    ": asset type is not compatible with the destination track",
                ),
            ),
        );
    }
    check_entry_frames(e, i)
}

/// Checks a clip for a fresh track, which takes any clip of its kind, and returns
/// the frame after its last.
pub fn validate_auto_track_entry(e: &ClipEntry, i: usize) -> (r: Result<i32, EditError>)
    ensures
        crate::frames::frame_verdict(r) == invalid_if(entry_frames_fault(e@, i as int)),
        r matches Ok(end) ==> end == e.start_frame + e.duration_frames,
{
    check_entry_frames(e, i)
}

/// Checks clips for given tracks.
pub fn check_clips(state: &EditorState, entries: &Vec<ClipEntry>) -> (r: Result<(), EditError>)
    ensures
        verdict(r) == invalid_if(add_clips_fault(state@.timeline, clip_entry_views(entries@))),
{
    if entries.len() == 0 {
        return Err(invalid("Missing or empty 'entries' array"));
    }
    let ghost t = state@.timeline;
    let ghost views = clip_entry_views(entries@);
    let mut i: usize = 0;
    while i < entries.len()
        invariant
            i <= entries@.len(),
            entries@.len() > 0,
            t == state@.timeline,
            views == clip_entry_views(entries@),
            entries_fault(t, views, 0) == entries_fault(t, views, i as int),
        decreases entries@.len() - i,
    {
        if let Err(e) = validate_entry(state, &entries[i], i) {
            return Err(e);
        }
        i += 1;
    }
    Ok(())
}

/// Checks clips for fresh tracks.
pub fn check_auto_clips(entries: &Vec<ClipEntry>) -> (r: Result<(), EditError>)
    ensures
        verdict(r) == invalid_if(add_clips_auto_fault(clip_entry_views(entries@))),
{
    if entries.len() == 0 {
        return Err(invalid("Missing or empty 'entries' array"));
    }
    let ghost views = clip_entry_views(entries@);
    let mut i: usize = 0;
    while i < entries.len()
        invariant
            i <= entries@.len(),
            entries@.len() > 0,
            views == clip_entry_views(entries@),
            auto_entries_fault(views, 0) == auto_entries_fault(views, i as int),
        decreases entries@.len() - i,
    {
        if let Err(e) = validate_auto_track_entry(&entries[i], i) {
            return Err(e);
        }
        i += 1;
    }
    Ok(())
}

/// The label of adding `n` clips.
pub open spec fn add_clip_action(n: nat) -> Seq<char> {
    if n == 1 {
        "Add Clip"@
    } else {
        "Add Clips"@
    }
}

/// The summary of adding clips.
pub open spec fn added_summary(ids: Seq<Seq<char>>) -> Seq<char> {
    "Added "@ + nat_text(ids.len()) + " clip(s): "@ + joined(ids, ", "@)
}

fn summarize_added(added: &Vec<String>) -> (r: String)
    ensures
        r@ == added_summary(texts(added@)),
{
    let count = usize_to_text(added.len());
    let list = join(added, ", ");
    cat4("Added ", count.as_str(), " clip(s): ", list.as_str())
}

fn add_clip_label(n: usize) -> (r: &'static str)
    ensures
        r@ == add_clip_action(n as nat),
{
    if n == 1 {
        "Add Clip"
    } else {
        "Add Clips"
    }
}

/// Adding clips to given tracks.
pub open spec fn add_clips_spec(
    s: StateView,
    entries: Seq<ClipEntryView>,
    placed: PlacedView,
    registry_fault: Option<Seq<char>>,
) -> (Result<EditResultView, Fault>, StateView) {
    match add_clips_fault(s.timeline, entries) {
        Some(m) => (Err(Fault::Invalid(m)), s),
        None => timeline_transacted(
            s,
            add_clip_action(entries.len()),
            added_summary(placed.affected),
            without_empty_tracks(placed.timeline),
            placed.affected,
            registry_fault,
        ),
    }
}

/// Adds clips to given tracks, overwriting what stands there, and drops the tracks that
/// are left empty. `placed` is what clearing the entries' regions and placing the clips,
/// one after the other, made of the timeline.
pub fn add_clips(
    state: &mut EditorState,
    entries: Vec<ClipEntry>,
    placed: Placed,
    registry_fault: &Option<String>,
) -> (r: Result<EditResult, EditError>)
    requires
        old(state)@.version < u64::MAX,
    ensures
        (outcome(r), final(state)@) == add_clips_spec(
            old(state)@,
            clip_entry_views(entries@),
            placed@,
            opt_text(*registry_fault),
        ),
{
    if let Err(e) = check_clips(state, &entries) {
        return Err(e);
    }
    let Placed { mut timeline, affected } = placed;
    prune_empty_tracks(&mut timeline);
    let summary = summarize_added(&affected);
    transact_timeline(
        state,
        add_clip_label(entries.len()),
        summary.as_str(),
        timeline,
        affected,
        registry_fault,
    )
}

/// What the engines placed, provided that nothing it needs was lost on the way.
pub open spec fn placed_work(s: StateView, placed: PlacedView, kept: bool) -> Result<
    WorkView,
    Fault,
> {
    if kept {
        Ok(
            WorkView {
                timeline: placed.timeline,
                manifest: s.manifest,
                affected: placed.affected,
            },
        )
    } else {
        Err(track_lost())
    }
}

/// How many fresh tracks clips share.
pub open spec fn shared_count(entries: Seq<ClipEntryView>) -> int {
    (if any_visual(entries) {
        1int
    } else {
        0
    }) + (if any_audio(entries) {
        1int
    } else {
        0
    })
}

/// Whether the tracks that clips share stand where they were added: the one for pictures
/// on top, so that nothing hides it.
pub open spec fn shared_tracks_stand(
    t: TimelineView,
    entries: Seq<ClipEntryView>,
    ids: IdsView,
) -> bool {
    &&& any_visual(entries) ==> t.tracks.len() > 0 && t.tracks[0].id == nth_id(ids, 1)
    &&& any_audio(entries) ==> track_index(t.tracks, nth_id(ids, shared_count(entries)), 0) is Some
}

/// Adding clips to fresh shared tracks.
pub open spec fn add_clips_auto_track_spec(
    s: StateView,
    entries: Seq<ClipEntryView>,
    ids: IdsView,
    placed: PlacedView,
    registry_fault: Option<Seq<char>>,
) -> (Result<EditResultView, Fault>, StateView) {
    match add_clips_auto_fault(entries) {
        Some(m) => (Err(Fault::Invalid(m)), s),
        None => transacted(
            s,
            add_clip_action(entries.len()),
            added_summary(placed.affected),
            placed_work(s, placed, shared_tracks_stand(placed.timeline, entries, ids)),
            registry_fault,
        ),
    }
}

/// The id generator after clips have gone to fresh shared tracks.
pub open spec fn shared_ids(s: StateView, entries: Seq<ClipEntryView>, ids: IdsView) -> IdsView {
    if add_clips_auto_fault(entries) is Some {
        ids
    } else {
        ids_spent(s, ids, shared_count(entries))
    }
}

/// Adds clips to fresh shared tracks chosen by media type, those that
/// [`add_shared_tracks`] adds. `placed` is what adding the tracks and placing the
/// clips on them made of the timeline.
pub fn add_clips_auto_track(
    state: &mut EditorState,
    entries: Vec<ClipEntry>,
    ids: &mut CoreIdGen,
    placed: Placed,
    registry_fault: &Option<String>,
) -> (r: Result<EditResult, EditError>)
    requires
        old(state)@.version < u64::MAX,
    ensures
        (outcome(r), final(state)@) == add_clips_auto_track_spec(
            old(state)@,
            clip_entry_views(entries@),
            old(ids)@,
            placed@,
            opt_text(*registry_fault),
        ),
        final(ids)@ == shared_ids(old(state)@, clip_entry_views(entries@), old(ids)@),
{
    if let Err(e) = check_auto_clips(&entries) {
        return Err(e);
    }
    if let Err(e) = validate_timeline_frame_arithmetic(&state.timeline, "timeline") {
        return Err(e);
    }
    let mut fresh = state.timeline.copy();
    let (visual, audio) = add_shared_tracks(&mut fresh, &entries, ids);
    let Placed { timeline, affected } = placed;
    assert(timeline@.tracks.len() == timeline.tracks@.len());
    assert(fresh@.tracks.len() == fresh.tracks@.len());
    let on_top = match visual {
        None => true,
        Some(i) => {
            proof {
                lemma_timeline_parts(timeline, 0, 0);
                lemma_timeline_parts(fresh, i as int, 0);
            }
            timeline.tracks.len() > 0 && same_text(
                timeline.tracks[0].id.as_str(),
                fresh.tracks[i].id.as_str(),
            )
        },
    };
    let heard = match audio {
        None => true,
        Some(i) => {
            proof {
                lemma_timeline_parts(fresh, i as int, 0);
            }
            find_track(&timeline.tracks, fresh.tracks[i].id.as_str()).is_some()
        },
    };
    let summary = summarize_added(&affected);
    let work = if on_top && heard {
        Ok(Work { timeline, manifest: state.manifest.copy(), affected })
    } else {
        Err(lost_track())
    };
    transact(state, add_clip_label(entries.len()), summary.as_str(), work, registry_fault)
}

/// Adding clips each to a fresh track of its own.
pub open spec fn add_clips_to_separate_auto_tracks_spec(
    s: StateView,
    entries: Seq<ClipEntryView>,
    ids: IdsView,
    placed: PlacedView,
    registry_fault: Option<Seq<char>>,
) -> (Result<EditResultView, Fault>, StateView) {
    match add_clips_auto_fault(entries) {
        Some(m) => (Err(Fault::Invalid(m)), s),
        None => transacted(
            s,
            "Import Stems To Tracks"@,
            "Imported "@ + nat_text(placed.affected.len()) + " aligned stem(s): "@ + joined(
                placed.affected,
                ", "@,
            ),
            placed_work(
                s,
                placed,
                tracks_stand(placed.timeline, minted(entries.len(), ids)),
            ),
            registry_fault,
        ),
    }
}

/// Adds clips each to a fresh track of its own, the one that [`add_own_track`]
/// adds. `placed` is what adding the tracks and placing the clips made of the
/// timeline.
pub fn add_clips_to_separate_auto_tracks(
    state: &mut EditorState,
    entries: Vec<ClipEntry>,
    ids: &mut CoreIdGen,
    placed: Placed,
    registry_fault: &Option<String>,
) -> (r: Result<EditResult, EditError>)
    requires
        old(state)@.version < u64::MAX,
    ensures
        (outcome(r), final(state)@) == add_clips_to_separate_auto_tracks_spec(
            old(state)@,
            clip_entry_views(entries@),
            old(ids)@,
            placed@,
            opt_text(*registry_fault),
        ),
        final(ids)@ == (if add_clips_auto_fault(clip_entry_views(entries@)) is Some {
            old(ids)@
        } else {
            ids_spent(old(state)@, old(ids)@, entries@.len() as int)
        }),
{
    if let Err(e) = check_auto_clips(&entries) {
        return Err(e);
    }
    if let Err(e) = validate_timeline_frame_arithmetic(&state.timeline, "timeline") {
        return Err(e);
    }
    let fresh = mint(entries.len(), ids);
    let Placed { timeline, affected } = placed;
    let count = usize_to_text(affected.len());
    let list = join(&affected, ", ");
    assert(texts(affected@).len() == affected@.len());
    let summary = cat4("Imported ", count.as_str(), " aligned stem(s): ", list.as_str());
    let work = if do_tracks_stand(&timeline, &fresh) {
        Ok(Work { timeline, manifest: state.manifest.copy(), affected })
    } else {
        Err(lost_track())
    };
    transact(state, "Import Stems To Tracks", summary.as_str(), work, registry_fault)
}

/// The kind of track that a clip of the given source goes on.
pub open spec fn lane_kind(source: ClipType) -> ClipType {
    if source is Audio {
        ClipType::Audio
    } else {
        ClipType::Video
    }
}

/// Whether some clip comes from an audio source.
pub open spec fn any_audio(entries: Seq<ClipEntryView>) -> bool {
    exists|i: int| 0 <= i < entries.len() && (#[trigger] entries[i]).source_clip_type is Audio
}

/// Whether some clip comes from a visual source.
pub open spec fn any_visual(entries: Seq<ClipEntryView>) -> bool {
    exists|i: int| 0 <= i < entries.len() && !((#[trigger] entries[i]).source_clip_type is Audio)
}

/// The timeline with the tracks that clips share: one on top for those with a
/// picture, one at the end for those with sound alone.
pub open spec fn with_shared_tracks(
    t: TimelineView,
    entries: Seq<ClipEntryView>,
    ids: IdsView,
) -> TimelineView {
    let seen = if any_visual(entries) {
        track_inserted(t, 0, ClipType::Video, nth_id(ids, 1))
    } else {
        t
    };
    let next = if any_visual(entries) {
        2
    } else {
        1
    };
    if any_audio(entries) {
        track_inserted(seen, seen.tracks.len() as int, ClipType::Audio, nth_id(ids, next))
    } else {
        seen
    }
}

/// Adds the tracks that clips share, and returns the position of the one for
/// pictures and of the one for sound.
pub fn add_shared_tracks(
    timeline: &mut Timeline,
    entries: &Vec<ClipEntry>,
    ids: &mut CoreIdGen,
) -> (r: (Option<usize>, Option<usize>))
    ensures
        final(timeline)@ == with_shared_tracks(
            old(timeline)@,
            clip_entry_views(entries@),
            old(ids)@,
        ),
        r.0 is Some == any_visual(clip_entry_views(entries@)),
        r.1 is Some == any_audio(clip_entry_views(entries@)),
        r.0 matches Some(i) ==> i == 0 && i < final(timeline).tracks@.len(),
        r.1 matches Some(i) ==> i + 1 == final(timeline).tracks@.len() && i == old(
            timeline,
        ).tracks@.len() + (if r.0 is Some {
            1int
        } else {
            0
        }),
        r.0 is Some ==> final(timeline)@.tracks[0].id == nth_id(old(ids)@, 1),
        r.1 matches Some(i) ==> final(timeline)@.tracks[i as int].id == nth_id(
            old(ids)@,
            shared_count(clip_entry_views(entries@)),
        ),
        final(ids)@ == ids_after(old(ids)@, shared_count(clip_entry_views(entries@))),
{
    let ghost views = clip_entry_views(entries@);
    let ghost first = ids@;
    let ghost t = timeline@;
    let mut visual = false;
    let mut audio = false;
    let mut i: usize = 0;
    while i < entries.len()
        invariant
            i <= entries@.len(),
            views == clip_entry_views(entries@),
            visual == (exists|k: int|
                0 <= k < i && !((#[trigger] views[k]).source_clip_type is Audio)),
            audio == (exists|k: int|
                0 <= k < i && (#[trigger] views[k]).source_clip_type is Audio),
        decreases entries@.len() - i,
    {
        assert(views[i as int].source_clip_type == entries@[i as int].source_clip_type);
        if entries[i].source_clip_type == ClipType::Audio {
            audio = true;
        } else {
            visual = true;
        }
        i += 1;
    }
    proof {
        lemma_ids_after(first, 0, 0);
        lemma_ids_after(first, 1, 1);
        lemma_first_audio(t.tracks, 0);
    }
    let top = if visual {
        Some(insert_track(timeline, 0, ClipType::Video, ids))
    } else {
        None
    };
    let ghost seen = timeline@;
    assert(timeline.tracks@.len() == seen.tracks.len());
    let end = if audio {
        let requested: usize = timeline.tracks.len();
        proof {
            lemma_first_audio(seen.tracks, 0);
        }
        let at = insert_track(timeline, requested, ClipType::Audio, ids);
        assert(timeline.tracks@.len() == timeline@.tracks.len());
        Some(at)
    } else {
        None
    };
    (top, end)
}

/// Where clips go once the tracks that they share have been added: the track on top for
/// pictures, the one at the end for sound alone.
pub open spec fn on_shared_tracks(t: TimelineView, entries: Seq<ClipEntryView>) -> Seq<
    ClipEntryView,
> {
    entries.map_values(
        |e: ClipEntryView|
            ClipEntryView {
                track_index: if e.source_clip_type is Audio {
                    (t.tracks.len() + if any_visual(entries) {
                        1int
                    } else {
                        0
                    }) as usize
                } else {
                    0
                },
                ..e
            },
    )
}

/// Plans clips for automatic tracks: adds the tracks that they share, and returns the
/// clips with their tracks.
pub fn plan_shared_tracks(
    timeline: &mut Timeline,
    entries: &Vec<ClipEntry>,
    ids: &mut CoreIdGen,
) -> (r: Vec<ClipEntry>)
    ensures
        final(timeline)@ == with_shared_tracks(
            old(timeline)@,
            clip_entry_views(entries@),
            old(ids)@,
        ),
        clip_entry_views(r@) == on_shared_tracks(old(timeline)@, clip_entry_views(entries@)),
        final(ids)@ == ids_after(old(ids)@, shared_count(clip_entry_views(entries@))),
{
    let ghost views = clip_entry_views(entries@);
    let ghost t = timeline@;
    let (visual, audio) = add_shared_tracks(timeline, entries, ids);
    assert(timeline.tracks@.len() == timeline@.tracks.len());
    let mut out: Vec<ClipEntry> = Vec::new();
    let mut i: usize = 0;
    while i < entries.len()
        invariant
            i <= entries@.len(),
            views == clip_entry_views(entries@),
            out@.len() == i,
            visual is Some == any_visual(views),
            audio is Some == any_audio(views),
            visual matches Some(k) ==> k == 0,
            audio matches Some(k) ==> k == t.tracks.len() + (if any_visual(views) {
                1int
            } else {
                0
            }),
            forall|k: int|
                0 <= k < i ==> (#[trigger] out@[k])@ == on_shared_tracks(t, views)[k],
        decreases entries@.len() - i,
    {
        assert(views[i as int] == entries@[i as int]@);
        let mut entry = entries[i].copy();
        let lane = if entry.source_clip_type == ClipType::Audio {
            audio
        } else {
            visual
        };
        if let Some(track) = lane {
            entry.track_index = track;
        }
        out.push(entry);
        i += 1;
    }
    assert(clip_entry_views(out@) =~= on_shared_tracks(t, views));
    out
}

/// Adds a fresh track for one clip behind those of its kind, and returns its
/// position.
pub fn add_own_track(timeline: &mut Timeline, source: ClipType, ids: &mut CoreIdGen) -> (r: usize)
    ensures
        final(timeline)@ == track_inserted(
            old(timeline)@,
            old(timeline)@.tracks.len() as int,
            lane_kind(source),
            nth_id(old(ids)@, 1),
        ),
        r == track_slot(
            old(timeline)@.tracks,
            old(timeline)@.tracks.len() as int,
            lane_kind(source),
        ),
        r < final(timeline).tracks@.len(),
        final(ids)@ == ids_after(old(ids)@, 1),
{
    assert(timeline.tracks@.len() == timeline@.tracks.len());
    let requested: usize = timeline.tracks.len();
    let kind = if source == ClipType::Audio {
        ClipType::Audio
    } else {
        ClipType::Video
    };
    insert_track(timeline, requested, kind, ids)
}

/// The first complaint, from `from` on, against clips to be inserted into a track.
pub open spec fn inserted_fault(
    entries: Seq<ClipEntryView>,
    kind: ClipType,
    from: int,
) -> Option<Seq<char>>
    decreases entries.len() - from,
{
    if from < 0 || from >= entries.len() {
        None
    } else if !compatible(entries[from].media_type, kind) {
        Some(entry_label(from) + ": asset type is not compatible with the target track"@)
    } else {
        inserted_fault(entries, kind, from + 1)
    }
}

/// The complaint against clips to be inserted, if any. `ripple_fault` is what the
/// ripple engine says against pushing the later clips on.
pub open spec fn insert_clips_fault(
    t: TimelineView,
    index: int,
    at_frame: int,
    entries: Seq<ClipEntryView>,
    ripple_fault: Option<Seq<char>>,
) -> Option<Seq<char>> {
    if entries.len() == 0 {
        Some("Missing or empty 'entries' array"@)
    } else if index >= t.tracks.len() {
        Some("trackIndex "@ + nat_text(index as nat) + " out of range"@)
    } else if at_frame < 0 {
        Some("atFrame must be >= 0 (got "@ + int_text(at_frame) + ")"@)
    } else {
        match inserted_fault(entries, t.tracks[index].kind, 0) {
            Some(m) => Some(m),
            None => ripple_fault,
        }
    }
}

/// Inserting clips.
pub open spec fn insert_clips_spec(
    s: StateView,
    index: int,
    at_frame: int,
    entries: Seq<ClipEntryView>,
    ripple_fault: Option<Seq<char>>,
    placed: PlacedView,
    registry_fault: Option<Seq<char>>,
) -> (Result<EditResultView, Fault>, StateView) {
    match insert_clips_fault(s.timeline, index, at_frame, entries, ripple_fault) {
        Some(m) => (Err(Fault::Invalid(m)), s),
        None => timeline_transacted(
            s,
            if entries.len() == 1 {
                "Ripple Insert Clip"@
            } else {
                "Ripple Insert Clips"@
            },
            "Inserted "@ + nat_text(placed.affected.len()) + " clip(s): "@ + joined(
                placed.affected,
                ", "@,
            ),
            placed.timeline,
            placed.affected,
            registry_fault,
        ),
    }
}

/// Checks clips to be inserted; the ripple engine has its own say after that.
pub fn check_insert(
    state: &EditorState,
    track_index: usize,
    at_frame: i32,
    entries: &Vec<ClipEntry>,
) -> (r: Result<(), EditError>)
    ensures
        verdict(r) == invalid_if(
            insert_clips_fault(
                state@.timeline,
                track_index as int,
                at_frame as int,
                clip_entry_views(entries@),
                None,
            ),
        ),
{
    if entries.len() == 0 {
        return Err(invalid("Missing or empty 'entries' array"));
    }
    proof {
        lemma_timeline_parts(state.timeline, track_index as int, 0);
    }
    if track_index >= state.timeline.tracks.len() {
        let index = usize_to_text(track_index);
        return Err(EditError::Invalid(cat3("trackIndex ", index.as_str(), " out of range")));
    }
    if at_frame < 0 {
        let frame = i32_to_text(at_frame);
        return Err(EditError::Invalid(cat3("atFrame must be >= 0 (got ", frame.as_str(), ")")));
    }
    let kind = state.timeline.tracks[track_index].kind;
    let ghost views = clip_entry_views(entries@);
    let mut i: usize = 0;
    while i < entries.len()
        invariant
            i <= entries@.len(),
            entries@.len() > 0,
            at_frame >= 0,
            track_index < state@.timeline.tracks.len(),
            kind == state@.timeline.tracks[track_index as int].kind,
            views == clip_entry_views(entries@),
            inserted_fault(views, kind, 0) == inserted_fault(views, kind, i as int),
        decreases entries@.len() - i,
    {
        if !entries[i].media_type.is_compatible(kind) {
            let label = label_entry(i);
            return Err(
                EditError::Invalid(
                    cat2(
                        label.as_str(),
                        ": asset type is not compatible with the target track",
                    ),
                ),
            );
        }
        i += 1;
    }
    Ok(())
}

/// Ripple-inserts clips, pushing later clips to the right. `ripple_fault` is what
/// the ripple engine says against it, if anything, and `placed` what it made of the
/// document.
pub fn insert_clips(
    state: &mut EditorState,
    track_index: usize,
    at_frame: i32,
    entries: Vec<ClipEntry>,
    ripple_fault: &Option<String>,
    placed: Placed,
    registry_fault: &Option<String>,
) -> (r: Result<EditResult, EditError>)
    requires
        old(state)@.version < u64::MAX,
    ensures
        (outcome(r), final(state)@) == insert_clips_spec(
            old(state)@,
            track_index as int,
            at_frame as int,
            clip_entry_views(entries@),
            opt_text(*ripple_fault),
            placed@,
            opt_text(*registry_fault),
        ),
{
    if let Err(e) = check_insert(state, track_index, at_frame, &entries) {
        return Err(e);
    }
    if let Some(reason) = ripple_fault {
        return Err(EditError::Invalid(reason.clone()));
    }
    let count = usize_to_text(placed.affected.len());
    let list = join(&placed.affected, ", ");
    assert(texts(placed.affected@).len() == placed.affected@.len());
    let summary = cat4("Inserted ", count.as_str(), " clip(s): ", list.as_str());
    transact_timeline(
        state,
        if entries.len() == 1 {
            "Ripple Insert Clip"
        } else {
            "Ripple Insert Clips"
        },
        summary.as_str(),
        placed.timeline,
        placed.affected,
        registry_fault,
    )
}

/// `true` or `false`.
pub open spec fn bool_text(b: bool) -> Seq<char> {
    if b {
        "true"@
    } else {
        "false"@
    }
}

fn bool_str(b: bool) -> (r: &'static str)
    ensures
        r@ == bool_text(b),
{
    if b {
        "true"
    } else {
        "false"
    }
}

/// The complaint against media that the library does not describe so, if any.
pub open spec fn place_manifest_fault(m: MediaManifestView, e: UnplacedClipEntryView) -> Option<
    Seq<char>,
> {
    match media_entry(m, e.media_ref) {
        None => Some("Media not found in manifest: "@ + e.media_ref),
        Some(media) => {
            let audible = media.has_audio == Some(true);
            if e.source_clip_type != media.kind {
                Some(
                    "sourceClipType "@ + kind_name(e.source_clip_type)
                        + " does not match manifest type "@ + kind_name(media.kind),
                )
            } else if e.media_type != media.kind {
                Some(
                    "mediaType "@ + kind_name(e.media_type) + " does not match manifest type "@
                        + kind_name(media.kind),
                )
            } else if e.has_audio != audible {
                Some(
                    "hasAudio "@ + bool_text(e.has_audio) + " does not match manifest value "@
                        + bool_text(audible),
                )
            } else if e.add_linked_audio && !(media.kind is Video && audible) {
                Some("linked audio requires a video manifest with an audio stream"@)
            } else {
                None
            }
        },
    }
}

/// The timeline that an edit aims at: the root or a nested sequence.
pub open spec fn aimed_timeline(t: TimelineView, sequence_id: Option<Seq<char>>) -> Option<
    TimelineView,
> {
    match sequence_id {
        None => Some(t),
        Some(id) => match sequence_index(t.nested_sequences, id, 0) {
            Some(i) => Some(t.nested_sequences[i].timeline),
            None => None,
        },
    }
}

/// The complaint against a destination, if any.
pub open spec fn target_fault(
    t: TimelineView,
    target: TargetView,
    media_type: ClipType,
) -> Option<Seq<char>> {
    match target {
        TargetView::ExistingTrack { track_id } => match track_index(t.tracks, track_id, 0) {
            None => Some("Track not found: "@ + track_id),
            Some(i) => if !compatible(media_type, t.tracks[i].kind) {
                Some("media is not compatible with the destination track"@)
            } else {
                None
            },
        },
        TargetView::NewTrack { kind, at } => if kind != lane_kind(media_type) {
            Some(
                "new track type "@ + kind_name(kind) + " is incompatible with media type "@
                    + kind_name(media_type),
            )
        } else {
            None
        },
    }
}

/// The complaint against the frames of media to be placed, if any.
pub open spec fn unplaced_fault(e: UnplacedClipEntryView, label: Seq<char>) -> Option<Seq<char>> {
    placed_fault(
        e.start_frame as int,
        e.duration_frames as int,
        or_zero(e.trim_start_frame),
        or_zero(e.trim_end_frame),
        Real::one(),
        e.media_type,
        label,
    )
}

/// The complaint against requested settings, if any.
pub open spec fn wanted_settings_fault(settings: Option<ProjectTimelineSettings>) -> Option<
    Seq<char>,
> {
    match settings {
        Some(p) => settings_fault(p.fps as int, p.width as int, p.height as int),
        None => None,
    }
}

/// The complaint against the timeline at the requested rate, if any.
pub open spec fn wanted_projection_fault(
    t: TimelineView,
    settings: Option<ProjectTimelineSettings>,
) -> Option<Seq<char>> {
    match settings {
        Some(p) => projection_fault(t, p.fps as int, "timeline"@),
        None => None,
    }
}

/// The complaint against one placement of media, if any.
pub open spec fn place_media_fault(
    s: StateView,
    sequence_id: Option<Seq<char>>,
    settings: Option<ProjectTimelineSettings>,
    target: TargetView,
    e: UnplacedClipEntryView,
) -> Option<Fault> {
    if unplaced_fault(e, "entry"@) is Some {
        invalid_if(unplaced_fault(e, "entry"@))
    } else if place_manifest_fault(s.manifest, e) is Some {
        invalid_if(place_manifest_fault(s.manifest, e))
    } else if wanted_settings_fault(settings) is Some {
        invalid_if(wanted_settings_fault(settings))
    } else if timeline_fault(s.timeline, "timeline"@) is Some {
        invalid_if(timeline_fault(s.timeline, "timeline"@))
    } else if wanted_projection_fault(s.timeline, settings) is Some {
        invalid_if(wanted_projection_fault(s.timeline, settings))
    } else {
        match aimed_timeline(s.timeline, sequence_id) {
            None => Some(sequence_not_found(sequence_id->0)),
            Some(t) => invalid_if(target_fault(t, target, e.media_type)),
        }
    }
}

/// A timeline with the empty tracks dropped where media was placed: on the root, or in a
/// nested sequence.
pub open spec fn tidied(t: TimelineView, sequence_id: Option<Seq<char>>) -> Option<TimelineView> {
    match sequence_id {
        None => Some(without_empty_tracks(t)),
        Some(id) => match sequence_index(t.nested_sequences, id, 0) {
            None => None,
            Some(i) => {
                let sequence = t.nested_sequences[i];
                Some(
                    with_sequence(
                        t,
                        i,
                        NestedSequenceView {
                            timeline: without_empty_tracks(sequence.timeline),
                            ..sequence
                        },
                    ),
                )
            },
        },
    }
}

fn tidy(timeline: Timeline, sequence_id: &Option<String>) -> (r: Option<Timeline>)
    ensures
        match r {
            Some(t) => tidied(timeline@, opt_text(*sequence_id)) == Some(t@),
            None => tidied(timeline@, opt_text(*sequence_id)) is None,
        },
{
    let mut edited = timeline;
    match sequence_id {
        None => {
            prune_empty_tracks(&mut edited);
            Some(edited)
        },
        Some(id) => match find_sequence(&edited, id.as_str()) {
            None => None,
            Some(i) => {
                let ghost before = edited;
                proof {
                    lemma_nested_views(before);
                }
                prune_empty_tracks(&mut edited.nested_sequences[i].timeline);
                proof {
                    lemma_nested_views(edited);
                    lemma_sequence_replaced(before, edited, i as int);
                }
                Some(edited)
            },
        },
    }
}

/// A timeline with the settings that placing media brings along, if any.
pub open spec fn settled(t: TimelineView, settings: Option<ProjectTimelineSettings>) -> TimelineView {
    match settings {
        Some(x) => with_settings(t, x.fps, x.width, x.height),
        None => t,
    }
}

/// The track that media goes on.
pub open spec fn destination(target: TargetView, ids: IdsView) -> Seq<char> {
    match target {
        TargetView::ExistingTrack { track_id } => track_id,
        TargetView::NewTrack { .. } => nth_id(ids, 1),
    }
}

/// Whether a track stands on the root or in a nested sequence.
pub open spec fn destination_stands(
    t: TimelineView,
    sequence_id: Option<Seq<char>>,
    track_id: Seq<char>,
) -> bool {
    match sequence_id {
        None => track_index(t.tracks, track_id, 0) is Some,
        Some(id) => match sequence_index(t.nested_sequences, id, 0) {
            None => false,
            Some(i) => track_index(t.nested_sequences[i].timeline.tracks, track_id, 0) is Some,
        },
    }
}

fn does_destination_stand(
    timeline: &Timeline,
    sequence_id: &Option<String>,
    track_id: &str,
) -> (r: bool)
    ensures
        r == destination_stands(timeline@, opt_text(*sequence_id), track_id@),
{
    match sequence_id {
        None => find_track(&timeline.tracks, track_id).is_some(),
        Some(id) => match find_sequence(timeline, id.as_str()) {
            None => false,
            Some(i) => {
                proof {
                    lemma_nested_views(*timeline);
                }
                find_track(&timeline.nested_sequences[i].timeline.tracks, track_id).is_some()
            },
        },
    }
}

/// The id generator after media has been placed: a fresh track takes an id.
pub open spec fn placing_ids(
    s: StateView,
    sequence_id: Option<Seq<char>>,
    settings: Option<ProjectTimelineSettings>,
    target: TargetView,
    e: UnplacedClipEntryView,
    ids: IdsView,
) -> IdsView {
    if place_media_fault(s, sequence_id, settings, target, e) is None && target is NewTrack {
        ids_spent(s, ids, 1)
    } else {
        ids
    }
}

/// Placing media.
pub open spec fn place_media_spec(
    s: StateView,
    sequence_id: Option<Seq<char>>,
    settings: Option<ProjectTimelineSettings>,
    target: TargetView,
    e: UnplacedClipEntryView,
    ids: IdsView,
    placed: PlacedView,
    registry_fault: Option<Seq<char>>,
) -> (Result<EditResultView, Fault>, StateView) {
    match place_media_fault(s, sequence_id, settings, target, e) {
        Some(f) => (Err(f), s),
        None => transacted(
            s,
            "Place Media"@,
            "Placed media as "@ + nat_text(placed.affected.len()) + " clip(s)"@,
            match tidied(settled(placed.timeline, settings), sequence_id) {
                Some(timeline) => placed_work(
                    s,
                    PlacedView { timeline, ..placed },
                    destination_stands(timeline, sequence_id, destination(target, ids)),
                ),
                None => Err(track_lost()),
            },
            registry_fault,
        ),
    }
}

/// Checks the frames of media to be placed.
pub fn validate_unplaced_entry(entry: &UnplacedClipEntry, label: &str) -> (r: Result<(), EditError>)
    ensures
        verdict(r) == invalid_if(unplaced_fault(entry@, label@)),
{
    match checked_clip_frame_arithmetic(
        entry.start_frame,
        entry.duration_frames,
        frame_or_zero(entry.trim_start_frame),
        frame_or_zero(entry.trim_end_frame),
        Real::one(),
        entry.media_type,
        label,
    ) {
        Ok(_) => Ok(()),
        Err(e) => Err(e),
    }
}

/// Checks media to be placed against the library.
pub fn validate_place_media_manifest(state: &EditorState, entry: &UnplacedClipEntry) -> (r: Result<
    (),
    EditError,
>)
    ensures
        verdict(r) == invalid_if(place_manifest_fault(state@.manifest, entry@)),
{
    let index: usize = match find_media(&state.manifest, entry.media_ref.as_str()) {
        Some(index) => index,
        None => return Err(
            EditError::Invalid(cat2("Media not found in manifest: ", entry.media_ref.as_str())),
        ),
    };
    let media = &state.manifest.entries[index];
    if entry.source_clip_type != media.kind {
        return Err(
            EditError::Invalid(
                cat4(
                    "sourceClipType ",
                    entry.source_clip_type.name(),
                    " does not match manifest type ",
                    media.kind.name(),
                ),
            ),
        );
    }
    if entry.media_type != media.kind {
        return Err(
            EditError::Invalid(
                cat4(
                    "mediaType ",
                    entry.media_type.name(),
                    " does not match manifest type ",
                    media.kind.name(),
                ),
            ),
        );
    }
    let audible = match media.has_audio {
        Some(b) => b,
        None => false,
    };
    if entry.has_audio != audible {
        return Err(
            EditError::Invalid(
                cat4(
                    "hasAudio ",
                    bool_str(entry.has_audio),
                    " does not match manifest value ",
                    bool_str(audible),
                ),
            ),
        );
    }
    if entry.add_linked_audio && !(media.kind == ClipType::Video && audible) {
        return Err(invalid("linked audio requires a video manifest with an audio stream"));
    }
    Ok(())
}

/// The timeline that an edit aims at.
pub fn timeline_for_sequence<'a>(timeline: &'a Timeline, sequence_id: &Option<String>) -> (r: Result<
    &'a Timeline,
    EditError,
>)
    ensures
        match r {
            Ok(found) => aimed_timeline(timeline@, opt_text(*sequence_id)) == Some(found@),
            Err(e) => aimed_timeline(timeline@, opt_text(*sequence_id)) is None && e@
                == sequence_not_found(opt_text(*sequence_id)->0),
        },
{
    match sequence_id {
        None => Ok(timeline),
        Some(id) => match require_sequence(timeline, id.as_str()) {
            Ok(i) => {
                proof {
                    lemma_nested_views(*timeline);
                }
                Ok(&timeline.nested_sequences[i].timeline)
            },
            Err(e) => Err(e),
        },
    }
}

fn check_target(timeline: &Timeline, target: &PlaceMediaTarget, media_type: ClipType) -> (r: Result<
    (),
    EditError,
>)
    ensures
        verdict(r) == invalid_if(target_fault(timeline@, target@, media_type)),
{
    match target {
        PlaceMediaTarget::ExistingTrack { track_id } => match find_track(
            &timeline.tracks,
            track_id.as_str(),
        ) {
            None => Err(EditError::Invalid(cat2("Track not found: ", track_id.as_str()))),
            Some(i) => {
                proof {
                    lemma_timeline_parts(*timeline, i as int, 0);
                }
                if media_type.is_compatible(timeline.tracks[i].kind) {
                    Ok(())
                } else {
                    Err(invalid("media is not compatible with the destination track"))
                }
            },
        },
        PlaceMediaTarget::NewTrack { kind, .. } => {
            let expected = if media_type == ClipType::Audio {
                ClipType::Audio
            } else {
                ClipType::Video
            };
            if *kind == expected {
                Ok(())
            } else {
                Err(
                    EditError::Invalid(
                        cat4(
                            "new track type ",
                            kind.name(),
                            " is incompatible with media type ",
                            media_type.name(),
                        ),
                    ),
                )
            }
        },
    }
}

/// Checks one placement of media.
pub fn check_place_media(
    state: &EditorState,
    sequence_id: &Option<String>,
    settings: &Option<ProjectTimelineSettings>,
    target: &PlaceMediaTarget,
    entry: &UnplacedClipEntry,
) -> (r: Result<(), EditError>)
    ensures
        verdict(r) == place_media_fault(
            state@,
            opt_text(*sequence_id),
            *settings,
            target@,
            entry@,
        ),
{
    if let Err(e) = validate_unplaced_entry(entry, "entry") {
        return Err(e);
    }
    if let Err(e) = validate_place_media_manifest(state, entry) {
        return Err(e);
    }
    if let Some(p) = settings {
        if let Err(e) = check_settings(p.fps, p.width, p.height) {
            return Err(e);
        }
    }
    if let Err(e) = validate_timeline_frame_arithmetic(&state.timeline, "timeline") {
        return Err(e);
    }
    if let Some(p) = settings {
        if let Err(e) = validate_settings_frame_projection(&state.timeline, p.fps, "timeline") {
            return Err(e);
        }
    }
    match timeline_for_sequence(&state.timeline, sequence_id) {
        Ok(found) => check_target(found, target, entry.media_type),
        Err(e) => Err(e),
    }
}

/// The timeline with the destination track in place, and its position.
pub open spec fn with_destination(t: TimelineView, target: TargetView, ids: IdsView) -> (
    TimelineView,
    Option<int>,
) {
    match target {
        TargetView::ExistingTrack { track_id } => (t, track_index(t.tracks, track_id, 0)),
        TargetView::NewTrack { kind, at } => {
            let requested = match at {
                Some(i) => i as int,
                None => t.tracks.len() as int,
            };
            (
                track_inserted(t, requested, kind, nth_id(ids, 1)),
                Some(track_slot(t.tracks, requested, kind)),
            )
        },
    }
}

/// Finds the destination track on the timeline aimed at, or adds it.
pub fn resolve_destination(
    timeline: &mut Timeline,
    target: &PlaceMediaTarget,
    ids: &mut CoreIdGen,
) -> (r: Option<usize>)
    ensures
        ({
            let (t, place) = with_destination(old(timeline)@, target@, old(ids)@);
            &&& final(timeline)@ == t
            &&& match r {
                Some(i) => place == Some(i as int) && i < final(timeline).tracks@.len(),
                None => place is None,
            }
        }),
        final(ids)@ == (if target@ is NewTrack {
            ids_after(old(ids)@, 1)
        } else {
            old(ids)@
        }),
{
    match target {
        PlaceMediaTarget::ExistingTrack { track_id } => find_track(
            &timeline.tracks,
            track_id.as_str(),
        ),
        PlaceMediaTarget::NewTrack { kind, at } => {
            assert(timeline.tracks@.len() == timeline@.tracks.len());
            let requested: usize = match at {
                Some(i) => *i,
                None => timeline.tracks.len(),
            };
            Some(insert_track(timeline, requested, *kind, ids))
        },
    }
}

impl UnplacedClipEntry {
    /// The entry with its destination track.
    pub fn at_track(&self, track_index: usize) -> (r: ClipEntry)
        ensures
            r@ == (ClipEntryView {
                media_ref: self@.media_ref,
                media_type: self@.media_type,
                source_clip_type: self@.source_clip_type,
                track_index,
                start_frame: self@.start_frame,
                duration_frames: self@.duration_frames,
                trim_start_frame: self@.trim_start_frame,
                trim_end_frame: self@.trim_end_frame,
                has_audio: self@.has_audio,
                add_linked_audio: self@.add_linked_audio,
                transform: self@.transform,
            }),
    {
        ClipEntry {
            media_ref: self.media_ref.clone(),
            media_type: self.media_type,
            source_clip_type: self.source_clip_type,
            track_index,
            start_frame: self.start_frame,
            duration_frames: self.duration_frames,
            trim_start_frame: self.trim_start_frame,
            trim_end_frame: self.trim_end_frame,
            has_audio: self.has_audio,
            add_linked_audio: self.add_linked_audio,
            transform: self.transform,
        }
    }
}

/// Applies optional root settings, resolves one destination and places media there
/// in one transaction; the tracks that are left empty there go. `placed` is what the
/// settings, the clearing and the placing made of the timeline.
pub fn place_media(
    state: &mut EditorState,
    sequence_id: Option<String>,
    settings: Option<ProjectTimelineSettings>,
    target: PlaceMediaTarget,
    entry: UnplacedClipEntry,
    ids: &mut CoreIdGen,
    placed: Placed,
    registry_fault: &Option<String>,
) -> (r: Result<EditResult, EditError>)
    requires
        old(state)@.version < u64::MAX,
    ensures
        (outcome(r), final(state)@) == place_media_spec(
            old(state)@,
            opt_text(sequence_id),
            settings,
            target@,
            entry@,
            old(ids)@,
            placed@,
            opt_text(*registry_fault),
        ),
        final(ids)@ == placing_ids(
            old(state)@,
            opt_text(sequence_id),
            settings,
            target@,
            entry@,
            old(ids)@,
        ),
{
    if let Err(e) = check_place_media(state, &sequence_id, &settings, &target, &entry) {
        return Err(e);
    }
    if let Err(e) = validate_timeline_frame_arithmetic(&state.timeline, "timeline") {
        return Err(e);
    }
    let track_id = match target {
        PlaceMediaTarget::ExistingTrack { track_id } => track_id,
        PlaceMediaTarget::NewTrack { .. } => ids.next_id(),
    };
    let Placed { mut timeline, affected } = placed;
    if let Some(x) = settings {
        let ghost before = timeline;
        timeline.fps = x.fps;
        timeline.width = x.width;
        timeline.height = x.height;
        timeline.settings_configured = true;
        proof {
            lemma_nested_views(before);
            lemma_nested_views(timeline);
            assert(timeline@ =~= settled(before@, settings));
        }
    }
    let count = usize_to_text(affected.len());
    assert(texts(affected@).len() == affected@.len());
    let summary = cat3("Placed media as ", count.as_str(), " clip(s)");
    let work = match tidy(timeline, &sequence_id) {
        Some(timeline) => if does_destination_stand(&timeline, &sequence_id, track_id.as_str()) {
            Ok(Work { timeline, manifest: state.manifest.copy(), affected })
        } else {
            Err(lost_track())
        },
        None => Err(lost_track()),
    };
    transact(state, "Place Media", summary.as_str(), work, registry_fault)
}

} // verus!
