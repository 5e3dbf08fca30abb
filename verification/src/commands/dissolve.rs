//! Dissolving a compound clip into the clips of its nested sequence.

use crate::arrange::by_start;
use crate::arrange::prune_empty_tracks;
use crate::arrange::remove_clips_from;
use crate::arrange::sort_clips;
use crate::arrange::without_clips;
use crate::arrange::without_empty_tracks;
use crate::binary64::apart_from_one;
use crate::binary64::lemma_scaled_none;
use crate::binary64::same_number;
use crate::binary64::scale_frames;
use crate::binary64::scaled_frames;
use crate::commands::compound::lemma_flat_holds;
use crate::commands::compound::lemma_flat_sound;
use crate::commands::compound::pulled;
use crate::commands::compound::rows_sound;
use crate::commands::keyframes::end_of;
use crate::commands::nested::require_sequence;
use crate::commands::nested::sequence_index;
use crate::commands::nested::sequence_not_found;
use crate::commands::tracks::insert_track;
use crate::commands::tracks::lemma_first_audio;
use crate::commands::tracks::track_inserted;
use crate::commands::tracks::track_slot;
use crate::edit::invalid;
use crate::edit::outcome;
use crate::edit::verdict;
use crate::edit::EditError;
use crate::edit::EditResult;
use crate::edit::EditResultView;
use crate::edit::Fault;
use crate::frames::checked_clip_frame_arithmetic;
use crate::frames::fits;
use crate::frames::invalid_if;
use crate::frames::placed_fault;
use crate::frames::timeline_fault;
use crate::frames::validate_timeline_frame_arithmetic;
use crate::ids::ids_after;
use crate::ids::lemma_ids_after;
use crate::ids::mint;
use crate::ids::minted;
use crate::ids::nth_id;
use crate::ids::CoreIdGen;
use crate::ids::IdsView;
use crate::links::find_id;
use crate::links::flat_clips;
use crate::links::flat_until;
use crate::links::id_index;
use crate::links::lemma_flat_step;
use crate::links::lemma_id_recorded;
use crate::locate::clip_at;
use crate::locate::clip_not_found;
use crate::locate::lemma_timeline_parts;
use crate::locate::lemma_track_replaced;
use crate::locate::locate;
use crate::locate::require_clip;
use crate::locate::with_track;
use crate::model::clip_views;
use crate::model::full_canvas;
use crate::model::lemma_nested_views;
use crate::model::no_crop;
use crate::model::opt_transition;
use crate::model::track_views;
use crate::model::Clip;
use crate::model::ClipView;
use crate::model::Crop;
use crate::model::Timeline;
use crate::model::TimelineView;
use crate::model::Track;
use crate::model::TrackView;
use crate::model::Transform;
use crate::model::Transition;
use crate::model::TransitionView;
use crate::state::timeline_transacted;
use crate::state::transact_timeline;
use crate::state::EditorState;
use crate::state::StateView;
use crate::text::cat2;
use crate::text::cat3;
use crate::text::nat_text;
use crate::text::opt_text;
use crate::text::same_text;
use crate::text::texts;
use crate::text::trim;
use crate::text::usize_to_text;
use crate::transitions::clip_sound;
use crate::transitions::clips_sound;
use crate::transitions::lemma_timeline_sound;
use crate::transitions::timeline_sound;
use vstd::prelude::*;

verus! {

/// Whether a transform leaves a clip centred on the full canvas.
pub open spec fn plain_transform(x: Transform) -> bool {
    let full = full_canvas();
    &&& same_number(x.center_x, full.center_x)
    &&& same_number(x.center_y, full.center_y)
    &&& same_number(x.width, full.width)
    &&& same_number(x.height, full.height)
    &&& same_number(x.rotation, full.rotation)
    &&& x.flip_horizontal == full.flip_horizontal
    &&& x.flip_vertical == full.flip_vertical
}

/// Whether a crop cuts nothing off.
pub open spec fn plain_crop(x: Crop) -> bool {
    let none = no_crop();
    &&& same_number(x.left, none.left)
    &&& same_number(x.top, none.top)
    &&& same_number(x.right, none.right)
    &&& same_number(x.bottom, none.bottom)
}

/// Whether a compound clip carries edits of its own, which the clips of its
/// sequence could not take over.
pub open spec fn parent_edits(c: ClipView) -> bool {
    ||| apart_from_one(c.volume)
    ||| c.fade_in_frames != 0
    ||| c.fade_out_frames != 0
    ||| apart_from_one(c.opacity)
    ||| !plain_transform(c.transform)
    ||| !plain_crop(c.crop)
    ||| c.link_group_id is Some
    ||| c.caption_group_id is Some
    ||| c.text_content is Some
    ||| c.text_style is Some
    ||| c.opacity_track is Some
    ||| c.position_track is Some
    ||| c.scale_track is Some
    ||| c.rotation_track is Some
    ||| c.crop_track is Some
    ||| c.volume_track is Some
    ||| c.color_grade is Some
    ||| c.chroma_key is Some
    ||| c.masks.len() > 0
    ||| c.effects.len() > 0
    ||| c.transition_out is Some
}

/// The first frame of a child clip that the compound shows.
pub open spec fn shown_from(compound: ClipView, c: ClipView) -> int {
    if c.start_frame > compound.trim_start_frame {
        c.start_frame as int
    } else {
        compound.trim_start_frame as int
    }
}

/// The frame after the last of a child clip that the compound shows.
pub open spec fn shown_to(compound: ClipView, c: ClipView) -> int {
    let source_end = compound.trim_start_frame + compound.duration_frames;
    if end_of(c) < source_end {
        end_of(c)
    } else {
        source_end
    }
}

/// Whether the compound shows any of a child clip.
pub open spec fn shown(compound: ClipView, c: ClipView) -> bool {
    shown_from(compound, c) < shown_to(compound, c)
}

/// Source frames that fall away at the head of a child clip.
pub open spec fn head_loss(compound: ClipView, c: ClipView) -> int {
    scaled_frames((shown_from(compound, c) - c.start_frame) as nat, c.speed) as int
}

/// Source frames that fall away at the tail of a child clip.
pub open spec fn tail_loss(compound: ClipView, c: ClipView) -> int {
    scaled_frames((end_of(c) - shown_to(compound, c)) as nat, c.speed) as int
}

/// The complaint against what a child clip would become, if any.
pub open spec fn piece_fault(compound: ClipView, c: ClipView) -> Option<Seq<char>> {
    if !shown(compound, c) {
        None
    } else if head_loss(compound, c) > i32::MAX || tail_loss(compound, c) > i32::MAX {
        Some("dissolve source trim delta is out of range"@)
    } else if !fits(c.trim_start_frame + head_loss(compound, c)) {
        Some("dissolve trimStart overflows"@)
    } else if !fits(c.trim_end_frame + tail_loss(compound, c)) {
        Some("dissolve trimEnd overflows"@)
    } else {
        placed_fault(
            compound.start_frame + shown_from(compound, c) - compound.trim_start_frame,
            shown_to(compound, c) - shown_from(compound, c),
            c.trim_start_frame + head_loss(compound, c),
            c.trim_end_frame + tail_loss(compound, c),
            c.speed,
            c.media_type,
            "dissolved clip "@ + c.id,
        )
    }
}

/// The first complaint, from `from` on, against what child clips would become.
pub open spec fn pieces_fault(compound: ClipView, clips: Seq<ClipView>, from: int) -> Option<
    Seq<char>,
>
    decreases clips.len() - from,
{
    if from < 0 || from >= clips.len() {
        None
    } else {
        match piece_fault(compound, clips[from]) {
            Some(m) => Some(m),
            None => pieces_fault(compound, clips, from + 1),
        }
    }
}

/// The complaint against dissolving a clip, if any.
pub open spec fn dissolve_fault(t: TimelineView, clip_id: Seq<char>) -> Option<Fault> {
    if timeline_fault(t, "timeline"@) is Some {
        Some(Fault::Invalid(timeline_fault(t, "timeline"@)->0))
    } else {
        match locate(t, clip_id) {
            None => Some(clip_not_found(clip_id)),
            Some(p) => {
                let compound = clip_at(t, p);
                match compound.nested_sequence_id {
                    None => Some(Fault::Invalid("Clip is not a compound clip: "@ + clip_id)),
                    Some(sequence_id) => {
                        if apart_from_one(compound.speed) || compound.reversed {
                            Some(
                                Fault::Invalid(
                                    "retimed or reversed compound clips must be normalized before dissolve"@,
                                ),
                            )
                        } else if parent_edits(compound) {
                            Some(
                                Fault::Invalid(
                                    "compound clips with parent-level edits must be normalized before dissolve"@,
                                ),
                            )
                        } else {
                            match sequence_index(t.nested_sequences, sequence_id, 0) {
                                None => Some(sequence_not_found(sequence_id)),
                                Some(i) => invalid_if(
                                    pieces_fault(
                                        compound,
                                        flat_clips(t.nested_sequences[i].timeline.tracks),
                                        0,
                                    ),
                                ),
                            }
                        }
                    },
                }
            },
        }
    }
}

/// The child clips that a compound shows.
pub open spec fn shown_clips(compound: ClipView, clips: Seq<ClipView>) -> Seq<ClipView>
    decreases clips.len(),
{
    if clips.len() == 0 {
        Seq::empty()
    } else {
        let rest = shown_clips(compound, clips.drop_last());
        if shown(compound, clips.last()) {
            rest.push(clips.last())
        } else {
            rest
        }
    }
}

/// The position of the last clip with an id among the first `n`.
pub open spec fn last_with_id(clips: Seq<ClipView>, id: Seq<char>, n: int) -> Option<int>
    decreases n,
{
    if n <= 0 || n > clips.len() {
        None
    } else if clips[n - 1].id == id {
        Some(n - 1)
    } else {
        last_with_id(clips, id, n - 1)
    }
}

/// How many clips belong to a link group.
pub open spec fn group_size(clips: Seq<ClipView>, group: Seq<char>) -> nat
    decreases clips.len(),
{
    if clips.len() == 0 {
        0
    } else {
        let rest = group_size(clips.drop_last(), group);
        if clips.last().link_group_id == Some(group) {
            rest + 1
        } else {
            rest
        }
    }
}

/// What stays the same while a compound is being dissolved: the compound, the
/// child clips it shows, and the ids at the outset.
#[verifier::ext_equal]
pub struct Dissolving {
    pub compound: ClipView,
    pub pieces: Seq<ClipView>,
    pub ids: IdsView,
}

/// The id that a shown child clip gets.
pub open spec fn piece_id(d: Dissolving, id: Seq<char>) -> Option<Seq<char>> {
    match last_with_id(d.pieces, id, d.pieces.len() as int) {
        Some(k) => Some(nth_id(d.ids, k + 1)),
        None => None,
    }
}

/// The state while a compound is being dissolved: the timeline, the link groups
/// met so far with their new ids, the number of ids minted and the new clips.
#[verifier::ext_equal]
pub struct Dissolved {
    pub timeline: TimelineView,
    pub groups: Seq<Seq<char>>,
    pub group_ids: Seq<Seq<char>>,
    pub minted: int,
    pub affected: Seq<Seq<char>>,
}

/// The state after a clip's link group was looked up: a group that is shared gets
/// a new id when it is met first.
pub open spec fn group_met(d: Dissolving, x: Dissolved, link: Option<Seq<char>>) -> Dissolved {
    match link {
        Some(g) => if group_size(d.pieces, g) > 1 && id_index(x.groups, g, 0) is None {
            Dissolved {
                groups: x.groups.push(g),
                group_ids: x.group_ids.push(nth_id(d.ids, x.minted + 1)),
                minted: x.minted + 1,
                ..x
            }
        } else {
            x
        },
        None => x,
    }
}

/// The new link group of a clip, once its group was looked up.
pub open spec fn new_link(d: Dissolving, x: Dissolved, link: Option<Seq<char>>) -> Option<Seq<char>> {
    match link {
        Some(g) => if group_size(d.pieces, g) > 1 {
            match id_index(x.groups, g, 0) {
                Some(i) => Some(x.group_ids[i]),
                None => None,
            }
        } else {
            None
        },
        None => None,
    }
}

/// A transition between two shown clips, under their new ids.
pub open spec fn new_transition(
    d: Dissolving,
    from_id: Seq<char>,
    transition: Option<TransitionView>,
) -> Option<TransitionView> {
    match transition {
        Some(tr) => match piece_id(d, tr.to_clip_id) {
            Some(to) => Some(TransitionView { from_clip_id: from_id, to_clip_id: to, ..tr }),
            None => None,
        },
        None => None,
    }
}

/// What a child clip becomes on the root timeline.
pub open spec fn piece(d: Dissolving, x: Dissolved, c: ClipView) -> ClipView {
    let id = piece_id(d, c.id)->0;
    ClipView {
        id,
        link_group_id: new_link(d, x, c.link_group_id),
        transition_out: new_transition(d, id, c.transition_out),
        start_frame: (d.compound.start_frame + shown_from(d.compound, c)
            - d.compound.trim_start_frame) as i32,
        duration_frames: (shown_to(d.compound, c) - shown_from(d.compound, c)) as i32,
        trim_start_frame: (c.trim_start_frame + head_loss(d.compound, c)) as i32,
        trim_end_frame: (c.trim_end_frame + tail_loss(d.compound, c)) as i32,
        ..c
    }
}

/// The timeline with a clip put behind those of a track.
pub open spec fn appended(t: TimelineView, ti: int, c: ClipView) -> TimelineView {
    with_track(t, ti, TrackView { clips: t.tracks[ti].clips.push(c), ..t.tracks[ti] })
}

/// The state after one child clip.
pub open spec fn clip_dissolved(d: Dissolving, x: Dissolved, ti: int, c: ClipView) -> Dissolved {
    if shown(d.compound, c) {
        let y = group_met(d, x, c.link_group_id);
        let p = piece(d, y, c);
        Dissolved {
            timeline: appended(y.timeline, ti, p),
            affected: y.affected.push(p.id),
            ..y
        }
    } else {
        x
    }
}

/// The state after the first `n` clips of a child track.
pub open spec fn clips_dissolved(
    d: Dissolving,
    x: Dissolved,
    ti: int,
    clips: Seq<ClipView>,
    n: int,
) -> Dissolved
    decreases n,
{
    if n <= 0 {
        x
    } else {
        clip_dissolved(d, clips_dissolved(d, x, ti, clips, n - 1), ti, clips[n - 1])
    }
}

/// The timeline with one more track behind those of its kind.
pub open spec fn row_added(t: TimelineView, row: TrackView, id: Seq<char>) -> TimelineView {
    let slot = track_slot(t.tracks, t.tracks.len() as int, row.kind);
    let grown = track_inserted(t, t.tracks.len() as int, row.kind, id);
    with_track(
        grown,
        slot,
        TrackView {
            muted: row.muted,
            hidden: row.hidden,
            sync_locked: row.sync_locked,
            ..grown.tracks[slot]
        },
    )
}

/// The timeline with the clips of one track sorted.
pub open spec fn row_sorted(t: TimelineView, ti: int) -> TimelineView {
    with_track(t, ti, TrackView { clips: by_start(t.tracks[ti].clips), ..t.tracks[ti] })
}

/// The state after one child track.
pub open spec fn row_dissolved(d: Dissolving, x: Dissolved, row: TrackView) -> Dissolved {
    let ti = track_slot(x.timeline.tracks, x.timeline.tracks.len() as int, row.kind);
    let begun = Dissolved {
        timeline: row_added(x.timeline, row, nth_id(d.ids, x.minted + 1)),
        minted: x.minted + 1,
        ..x
    };
    let filled = clips_dissolved(d, begun, ti, row.clips, row.clips.len() as int);
    Dissolved { timeline: row_sorted(filled.timeline, ti), ..filled }
}

/// The state after the first `n` child tracks.
pub open spec fn rows_dissolved(d: Dissolving, x: Dissolved, rows: Seq<TrackView>, n: int) -> Dissolved
    decreases n,
{
    if n <= 0 {
        x
    } else {
        row_dissolved(d, rows_dissolved(d, x, rows, n - 1), rows[n - 1])
    }
}

/// The end of dissolving a compound that may be dissolved.
pub open spec fn dissolved(t: TimelineView, clip_id: Seq<char>, ids: IdsView) -> Dissolved {
    let compound = clip_at(t, locate(t, clip_id)->0);
    let i = sequence_index(t.nested_sequences, compound.nested_sequence_id->0, 0)->0;
    let rows = t.nested_sequences[i].timeline.tracks;
    let d = Dissolving { compound, pieces: shown_clips(compound, flat_clips(rows)), ids };
    let x = Dissolved {
        timeline: without_clips(t, seq![clip_id]),
        groups: Seq::empty(),
        group_ids: Seq::empty(),
        minted: d.pieces.len() as int,
        affected: Seq::empty(),
    };
    let end = rows_dissolved(d, x, rows, rows.len() as int);
    Dissolved { timeline: without_empty_tracks(end.timeline), ..end }
}

/// Dissolving a compound clip.
pub open spec fn dissolve_nested_sequence_spec(
    s: StateView,
    clip_id: Seq<char>,
    ids: IdsView,
    registry_fault: Option<Seq<char>>,
) -> (Result<EditResultView, Fault>, StateView) {
    match dissolve_fault(s.timeline, clip_id) {
        Some(f) => (Err(f), s),
        None => {
            let end = dissolved(s.timeline, clip_id, ids);
            timeline_transacted(
                s,
                "Dissolve Compound Clip"@,
                "Dissolved compound into "@ + nat_text(end.affected.len()) + " clip(s)"@,
                end.timeline,
                end.affected,
                registry_fault,
            )
        },
    }
}

/// A clip that went into a compound comes out of it as it was, in its place: only its
/// id, its link group and the transition behind it are made anew.
pub proof fn law_dissolving_gives_clips_back(
    c: ClipView,
    start: i32,
    duration: i32,
    d: Dissolving,
    x: Dissolved,
)
    requires
        clip_sound(c),
        0 <= start <= c.start_frame,
        end_of(c) <= start + duration <= i32::MAX,
        d.compound.start_frame == start,
        d.compound.duration_frames == duration,
        d.compound.trim_start_frame == 0,
    ensures
        shown(d.compound, pulled(c, start as int)),
        piece_fault(d.compound, pulled(c, start as int)) is None,
        ({
            let back = piece(d, x, pulled(c, start as int));
            back == ClipView {
                id: back.id,
                link_group_id: back.link_group_id,
                transition_out: back.transition_out,
                ..c
            }
        }),
{
    lemma_scaled_none(c.speed);
}

/// What a compound dissolves into lies within the frames that the compound took.
pub proof fn law_pieces_stay_within_the_compound(c: ClipView, d: Dissolving, x: Dissolved)
    requires
        shown(d.compound, c),
        piece_fault(d.compound, c) is None,
        fits(end_of(d.compound)),
    ensures
        ({
            let p = piece(d, x, c);
            d.compound.start_frame <= p.start_frame && end_of(p) <= end_of(d.compound)
                && p.duration_frames >= 1
        }),
{
}

proof fn lemma_clips_reported(
    d: Dissolving,
    x: Dissolved,
    rows: Seq<TrackView>,
    ri: int,
    ti: int,
    n: int,
)
    requires
        0 <= ri < rows.len(),
        0 <= n <= rows[ri].clips.len(),
    ensures
        clips_dissolved(d, x, ti, rows[ri].clips, n).affected.len() - x.affected.len()
            == shown_clips(d.compound, flat_until(rows, ri, n)).len() - shown_clips(
            d.compound,
            flat_clips(rows.take(ri)),
        ).len(),
    decreases n,
{
    lemma_flat_step(rows, ri, n);
    if n > 0 {
        lemma_clips_reported(d, x, rows, ri, ti, n - 1);
        lemma_flat_step(rows, ri, n - 1);
        let longer = flat_until(rows, ri, n);
        assert(longer.drop_last() =~= flat_until(rows, ri, n - 1));
    }
}

proof fn lemma_rows_reported(d: Dissolving, x: Dissolved, rows: Seq<TrackView>, n: int)
    requires
        0 <= n <= rows.len(),
    ensures
        rows_dissolved(d, x, rows, n).affected.len() - x.affected.len() == shown_clips(
            d.compound,
            flat_clips(rows.take(n)),
        ).len(),
    decreases n,
{
    if n == 0 {
        assert(rows.take(0) =~= Seq::empty());
    } else {
        let before = rows_dissolved(d, x, rows, n - 1);
        let row = rows[n - 1];
        let ti = track_slot(before.timeline.tracks, before.timeline.tracks.len() as int, row.kind);
        let begun = Dissolved {
            timeline: row_added(before.timeline, row, nth_id(d.ids, before.minted + 1)),
            minted: before.minted + 1,
            ..before
        };
        lemma_rows_reported(d, x, rows, n - 1);
        lemma_clips_reported(d, begun, rows, n - 1, ti, row.clips.len() as int);
        lemma_flat_step(rows, n - 1, row.clips.len() as int);
    }
}

/// Dissolving a compound makes one clip, and reports one, for each that it shows.
pub proof fn law_every_shown_clip_comes_out(t: TimelineView, clip_id: Seq<char>, ids: IdsView)
    requires
        dissolve_fault(t, clip_id) is None,
    ensures
        ({
            let compound = clip_at(t, locate(t, clip_id)->0);
            let i = sequence_index(t.nested_sequences, compound.nested_sequence_id->0, 0)->0;
            dissolved(t, clip_id, ids).affected.len() == shown_clips(
                compound,
                flat_clips(t.nested_sequences[i].timeline.tracks),
            ).len()
        }),
{
    let compound = clip_at(t, locate(t, clip_id)->0);
    let i = sequence_index(t.nested_sequences, compound.nested_sequence_id->0, 0)->0;
    let rows = t.nested_sequences[i].timeline.tracks;
    let d = Dissolving { compound, pieces: shown_clips(compound, flat_clips(rows)), ids };
    let x = Dissolved {
        timeline: without_clips(t, seq![clip_id]),
        groups: Seq::empty(),
        group_ids: Seq::empty(),
        minted: d.pieces.len() as int,
        affected: Seq::empty(),
    };
    lemma_rows_reported(d, x, rows, rows.len() as int);
    assert(rows.take(rows.len() as int) =~= rows);
}

fn is_plain_transform(x: &Transform) -> (r: bool)
    ensures
        r == plain_transform(*x),
{
    let full = Transform::identity();
    x.center_x.equals(full.center_x) && x.center_y.equals(full.center_y) && x.width.equals(
        full.width,
    ) && x.height.equals(full.height) && x.rotation.equals(full.rotation) && x.flip_horizontal
        == full.flip_horizontal && x.flip_vertical == full.flip_vertical
}

/// Whether a crop cuts nothing off.
pub fn is_plain_crop(x: &Crop) -> (r: bool)
    ensures
        r == plain_crop(*x),
{
    let none = Crop::none();
    x.left.equals(none.left) && x.top.equals(none.top) && x.right.equals(none.right)
        && x.bottom.equals(none.bottom)
}

fn has_parent_edits(c: &Clip) -> (r: bool)
    ensures
        r == parent_edits(c@),
{
    assert(c@.masks.len() == c.masks@.len());
    assert(c@.effects.len() == c.effects@.len());
    c.volume.is_apart_from_one() || c.fade_in_frames != 0 || c.fade_out_frames != 0
        || c.opacity.is_apart_from_one() || !is_plain_transform(&c.transform) || !is_plain_crop(
        &c.crop,
    ) || c.link_group_id.is_some() || c.caption_group_id.is_some() || c.text_content.is_some()
        || c.text_style.is_some() || c.opacity_track.is_some() || c.position_track.is_some()
        || c.scale_track.is_some() || c.rotation_track.is_some() || c.crop_track.is_some()
        || c.volume_track.is_some() || c.color_grade.is_some() || c.chroma_key.is_some()
        || c.masks.len() > 0 || c.effects.len() > 0 || c.transition_out.is_some()
}

/// All clips of some tracks, track after track.
fn flatten(tracks: &Vec<Track>) -> (r: Vec<Clip>)
    ensures
        clip_views(r@) == flat_clips(track_views(tracks@)),
{
    let ghost views = track_views(tracks@);
    let mut out: Vec<Clip> = Vec::new();
    let mut i: usize = 0;
    proof {
        assert(views.take(0) =~= Seq::empty());
        assert(clip_views(out@) =~= Seq::empty());
    }
    while i < tracks.len()
        invariant
            i <= tracks@.len(),
            views == track_views(tracks@),
            clip_views(out@) == flat_clips(views.take(i as int)),
        decreases tracks@.len() - i,
    {
        proof {
            lemma_flat_step(views, i as int, 0);
        }
        let mut j: usize = 0;
        while j < tracks[i].clips.len()
            invariant
                i < tracks@.len(),
                j <= tracks@[i as int].clips@.len(),
                views == track_views(tracks@),
                clip_views(out@) == flat_until(views, i as int, j as int),
            decreases tracks@[i as int].clips@.len() - j,
        {
            let ghost before = clip_views(out@);
            proof {
                lemma_flat_step(views, i as int, j as int);
            }
            out.push(tracks[i].clips[j].copy());
            assert(clip_views(out@) =~= before.push(views[i as int].clips[j as int]));
            j += 1;
        }
        proof {
            assert(views[i as int].clips.len() == tracks@[i as int].clips@.len());
            lemma_flat_step(views, i as int, j as int);
        }
        i += 1;
    }
    assert(views.take(i as int) =~= views);
    out
}

/// The frames of a child clip that the compound shows.
fn shown_span(compound: &Clip, c: &Clip) -> (r: Option<(i32, i32)>)
    requires
        clip_sound(compound@),
        clip_sound(c@),
    ensures
        r == (if shown(compound@, c@) {
            Some((shown_from(compound@, c@) as i32, shown_to(compound@, c@) as i32))
        } else {
            None
        }),
{
    let source_end: i32 = compound.trim_start_frame + compound.duration_frames;
    let end: i32 = c.start_frame + c.duration_frames;
    let from: i32 = if c.start_frame > compound.trim_start_frame {
        c.start_frame
    } else {
        compound.trim_start_frame
    };
    let to: i32 = if end < source_end {
        end
    } else {
        source_end
    };
    if from < to {
        Some((from, to))
    } else {
        None
    }
}

fn check_piece(compound: &Clip, c: &Clip) -> (r: Result<(), EditError>)
    requires
        clip_sound(compound@),
        clip_sound(c@),
    ensures
        verdict(r) == invalid_if(piece_fault(compound@, c@)),
{
    let (from, to) = match shown_span(compound, c) {
        Some(span) => span,
        None => return Ok(()),
    };
    let head = scale_frames(from - c.start_frame, c.speed);
    let tail = scale_frames(c.start_frame + c.duration_frames - to, c.speed);
    let (head, tail) = match (head, tail) {
        (Some(head), Some(tail)) => (head, tail),
        _ => return Err(invalid("dissolve source trim delta is out of range")),
    };
    let trim_start: i32 = match c.trim_start_frame.checked_add(head) {
        Some(value) => value,
        None => return Err(invalid("dissolve trimStart overflows")),
    };
    let trim_end: i32 = match c.trim_end_frame.checked_add(tail) {
        Some(value) => value,
        None => return Err(invalid("dissolve trimEnd overflows")),
    };
    let label = cat2("dissolved clip ", c.id.as_str());
    match checked_clip_frame_arithmetic(
        compound.start_frame + (from - compound.trim_start_frame),
        to - from,
        trim_start,
        trim_end,
        c.speed,
        c.media_type,
        label.as_str(),
    ) {
        Ok(_) => Ok(()),
        Err(e) => Err(e),
    }
}

fn check_pieces(compound: &Clip, clips: &Vec<Clip>) -> (r: Result<(), EditError>)
    requires
        clip_sound(compound@),
        clips_sound(clip_views(clips@)),
    ensures
        verdict(r) == invalid_if(pieces_fault(compound@, clip_views(clips@), 0)),
{
    let ghost views = clip_views(clips@);
    let mut i: usize = 0;
    while i < clips.len()
        invariant
            i <= clips@.len(),
            views == clip_views(clips@),
            clip_sound(compound@),
            clips_sound(views),
            pieces_fault(compound@, views, 0) == pieces_fault(compound@, views, i as int),
        decreases clips@.len() - i,
    {
        assert(clip_sound(views[i as int]));
        if let Err(e) = check_piece(compound, &clips[i]) {
            return Err(e);
        }
        i += 1;
    }
    Ok(())
}

/// What stays the same while a compound is being dissolved.
struct Plan {
    compound: Clip,
    pieces: Vec<Clip>,
    new_ids: Vec<String>,
}

/// What a plan stands for, with the ids at the outset.
spec fn plan_view(p: Plan, ids: IdsView) -> Dissolving {
    Dissolving { compound: p.compound@, pieces: clip_views(p.pieces@), ids }
}

/// Whether the new ids of a plan are the first that the generator minted.
spec fn plan_ok(p: Plan, ids: IdsView) -> bool {
    &&& clip_sound(p.compound@)
    &&& p.new_ids@.len() == p.pieces@.len()
    &&& forall|k: int|
        0 <= k < p.new_ids@.len() ==> (#[trigger] p.new_ids@[k])@ == nth_id(ids, k + 1)
}

/// The state while a compound is being dissolved.
struct Spill {
    timeline: Timeline,
    groups: Vec<String>,
    group_ids: Vec<String>,
    affected: Vec<String>,
}

spec fn spill_view(x: Spill, minted: int) -> Dissolved {
    Dissolved {
        timeline: x.timeline@,
        groups: texts(x.groups@),
        group_ids: texts(x.group_ids@),
        minted,
        affected: texts(x.affected@),
    }
}

fn pick_shown(compound: &Clip, clips: &Vec<Clip>) -> (r: Vec<Clip>)
    requires
        clip_sound(compound@),
        clips_sound(clip_views(clips@)),
    ensures
        clip_views(r@) == shown_clips(compound@, clip_views(clips@)),
{
    let ghost views = clip_views(clips@);
    let mut out: Vec<Clip> = Vec::new();
    let mut i: usize = 0;
    proof {
        assert(views.take(0) =~= Seq::empty());
        assert(clip_views(out@) =~= Seq::empty());
    }
    while i < clips.len()
        invariant
            i <= clips@.len(),
            views == clip_views(clips@),
            clip_sound(compound@),
            clips_sound(views),
            clip_views(out@) == shown_clips(compound@, views.take(i as int)),
        decreases clips@.len() - i,
    {
        let ghost before = clip_views(out@);
        assert(clip_sound(views[i as int]));
        assert(views.take(i as int + 1).drop_last() =~= views.take(i as int));
        if shown_span(compound, &clips[i]).is_some() {
            out.push(clips[i].copy());
            assert(clip_views(out@) =~= before.push(views[i as int]));
        }
        i += 1;
    }
    assert(views.take(i as int) =~= views);
    out
}

fn find_piece(pieces: &Vec<Clip>, id: &str) -> (r: Option<usize>)
    ensures
        match r {
            Some(k) => last_with_id(clip_views(pieces@), id@, pieces@.len() as int) == Some(
                k as int,
            ) && k < pieces@.len(),
            None => last_with_id(clip_views(pieces@), id@, pieces@.len() as int) is None,
        },
{
    let ghost views = clip_views(pieces@);
    let mut n: usize = pieces.len();
    while n > 0
        invariant
            n <= pieces@.len(),
            views == clip_views(pieces@),
            last_with_id(views, id@, pieces@.len() as int) == last_with_id(views, id@, n as int),
        decreases n,
    {
        if same_text(pieces[n - 1].id.as_str(), id) {
            return Some(n - 1);
        }
        n -= 1;
    }
    None
}

fn is_shared(pieces: &Vec<Clip>, group: &String) -> (r: bool)
    ensures
        r == (group_size(clip_views(pieces@), group@) > 1),
{
    let ghost views = clip_views(pieces@);
    let mut count: usize = 0;
    let mut i: usize = 0;
    assert(views.take(0) =~= Seq::empty());
    while i < pieces.len()
        invariant
            i <= pieces@.len(),
            count <= i,
            views == clip_views(pieces@),
            count == group_size(views.take(i as int), group@),
        decreases pieces@.len() - i,
    {
        assert(views.take(i as int + 1).drop_last() =~= views.take(i as int));
        if let Some(g) = &pieces[i].link_group_id {
            if *g == *group {
                count += 1;
            }
        }
        i += 1;
    }
    assert(views.take(i as int) =~= views);
    count > 1
}

/// Gives a clip's link group its new id.
fn relink(
    plan: &Plan,
    x: &mut Spill,
    link: &Option<String>,
    ids: &mut CoreIdGen,
    Ghost(first): Ghost<IdsView>,
    Ghost(minted): Ghost<int>,
) -> (r: Option<String>)
    requires
        minted >= 0,
        old(ids)@ == ids_after(first, minted),
        old(x).groups@.len() == old(x).group_ids@.len(),
    ensures
        ({
            let d = plan_view(*plan, first);
            let after = group_met(d, spill_view(*old(x), minted), opt_text(*link));
            &&& spill_view(*final(x), after.minted) == after
            &&& after.minted >= minted
            &&& final(ids)@ == ids_after(first, after.minted)
            &&& opt_text(r) == new_link(d, after, opt_text(*link))
        }),
        final(x).timeline == old(x).timeline,
        final(x).groups@.len() == final(x).group_ids@.len(),
{
    let ghost d = plan_view(*plan, first);
    let ghost before = spill_view(*x, minted);
    let group = match link {
        Some(group) => group,
        None => return None,
    };
    if !is_shared(&plan.pieces, group) {
        return None;
    }
    match find_id(&x.groups, group) {
        Some(i) => {
            assert(before.group_ids[i as int] == x.group_ids@[i as int]@);
            Some(x.group_ids[i].clone())
        },
        None => {
            proof {
                lemma_ids_after(first, minted, 1);
                lemma_id_recorded(before.groups, group@, 0);
            }
            let id = ids.next_id();
            x.groups.push(group.clone());
            x.group_ids.push(id.clone());
            proof {
                let after = group_met(d, before, opt_text(*link));
                assert(texts(x.groups@) =~= after.groups);
                assert(texts(x.group_ids@) =~= after.group_ids);
                assert(after.group_ids[before.groups.len() as int] == id@);
            }
            Some(id)
        },
    }
}

/// A transition between two shown clips, under their new ids.
fn retarget(
    plan: &Plan,
    from_id: &String,
    transition: &Option<Transition>,
    Ghost(first): Ghost<IdsView>,
) -> (r: Option<Transition>)
    requires
        plan_ok(*plan, first),
    ensures
        opt_transition(r) == new_transition(
            plan_view(*plan, first),
            from_id@,
            opt_transition(*transition),
        ),
{
    match transition {
        None => None,
        Some(tr) => match find_piece(&plan.pieces, tr.to_clip_id.as_str()) {
            None => None,
            Some(k) => Some(
                Transition {
                    from_clip_id: from_id.clone(),
                    to_clip_id: plan.new_ids[k].clone(),
                    kind: tr.kind,
                    duration_frames: tr.duration_frames,
                },
            ),
        },
    }
}

/// Moves one child clip to the root timeline.
fn dissolve_clip(
    plan: &Plan,
    x: &mut Spill,
    ti: usize,
    c: &Clip,
    ids: &mut CoreIdGen,
    Ghost(first): Ghost<IdsView>,
    Ghost(minted): Ghost<int>,
)
    requires
        plan_ok(*plan, first),
        minted >= 0,
        clip_sound(c@),
        piece_fault(plan.compound@, c@) is None,
        shown(plan.compound@, c@) ==> piece_id(plan_view(*plan, first), c@.id) is Some,
        old(ids)@ == ids_after(first, minted),
        old(x).groups@.len() == old(x).group_ids@.len(),
        ti < old(x).timeline.tracks@.len(),
    ensures
        ({
            let d = plan_view(*plan, first);
            let after = clip_dissolved(d, spill_view(*old(x), minted), ti as int, c@);
            &&& spill_view(*final(x), after.minted) == after
            &&& after.minted >= minted
            &&& final(ids)@ == ids_after(first, after.minted)
        }),
        final(x).groups@.len() == final(x).group_ids@.len(),
        final(x).timeline.tracks@.len() == old(x).timeline.tracks@.len(),
{
    let ghost d = plan_view(*plan, first);
    let ghost before = spill_view(*x, minted);
    let (from, to) = match shown_span(&plan.compound, c) {
        Some(span) => span,
        None => return,
    };
    let head: i32 = match scale_frames(from - c.start_frame, c.speed) {
        Some(value) => value,
        None => return,
    };
    let tail: i32 = match scale_frames(c.start_frame + c.duration_frames - to, c.speed) {
        Some(value) => value,
        None => return,
    };
    let id = match find_piece(&plan.pieces, c.id.as_str()) {
        Some(k) => plan.new_ids[k].clone(),
        None => return,
    };
    let mut piece_clip = c.copy();
    piece_clip.link_group_id = relink(plan, x, &c.link_group_id, ids, Ghost(first), Ghost(minted));
    let ghost met = group_met(d, before, c@.link_group_id);
    piece_clip.transition_out = retarget(plan, &id, &c.transition_out, Ghost(first));
    piece_clip.start_frame = plan.compound.start_frame + (from - plan.compound.trim_start_frame);
    piece_clip.duration_frames = to - from;
    piece_clip.trim_start_frame = c.trim_start_frame + head;
    piece_clip.trim_end_frame = c.trim_end_frame + tail;
    piece_clip.id = id.clone();
    assert(piece_clip@ =~= piece(d, met, c@));
    let ghost listed = texts(x.affected@);
    let ghost timeline = x.timeline;
    x.affected.push(id);
    assert(texts(x.affected@) =~= listed.push(id@));
    x.timeline.tracks[ti].clips.push(piece_clip);
    proof {
        lemma_timeline_parts(timeline, ti as int, 0);
        lemma_track_replaced(timeline, x.timeline, ti as int);
        assert(x.timeline.tracks@[ti as int]@.clips =~= timeline@.tracks[ti as int].clips.push(
            piece_clip@,
        ));
        assert(x.timeline@ =~= appended(timeline@, ti as int, piece_clip@));
    }
}

/// Adds an empty track for the clips of a child track.
fn add_row(timeline: &mut Timeline, row: &Track, ids: &mut CoreIdGen) -> (r: usize)
    ensures
        final(timeline)@ == row_added(old(timeline)@, row@, nth_id(old(ids)@, 1)),
        r == track_slot(old(timeline)@.tracks, old(timeline)@.tracks.len() as int, row@.kind),
        r < final(timeline).tracks@.len(),
        final(ids)@ == ids_after(old(ids)@, 1),
{
    let ghost t = timeline@;
    assert(timeline.tracks@.len() == timeline@.tracks.len());
    let requested: usize = timeline.tracks.len();
    let target = insert_track(timeline, requested, row.kind, ids);
    let ghost grown = *timeline;
    proof {
        lemma_first_audio(t.tracks, 0);
        lemma_timeline_parts(grown, target as int, 0);
    }
    timeline.tracks[target].muted = row.muted;
    timeline.tracks[target].hidden = row.hidden;
    timeline.tracks[target].sync_locked = row.sync_locked;
    proof {
        lemma_track_replaced(grown, *timeline, target as int);
    }
    target
}

/// Moves the clips of one child track to the root timeline.
fn dissolve_row(
    plan: &Plan,
    x: &mut Spill,
    row: &Track,
    ids: &mut CoreIdGen,
    Ghost(first): Ghost<IdsView>,
    Ghost(minted): Ghost<int>,
)
    requires
        plan_ok(*plan, first),
        minted >= 0,
        clips_sound(row@.clips),
        forall|j: int|
            0 <= j < row@.clips.len() ==> piece_fault(plan.compound@, #[trigger] row@.clips[j]) is None,
        forall|j: int|
            0 <= j < row@.clips.len() && shown(plan.compound@, #[trigger] row@.clips[j])
                ==> piece_id(plan_view(*plan, first), row@.clips[j].id) is Some,
        old(ids)@ == ids_after(first, minted),
        old(x).groups@.len() == old(x).group_ids@.len(),
    ensures
        ({
            let d = plan_view(*plan, first);
            let after = row_dissolved(d, spill_view(*old(x), minted), row@);
            &&& spill_view(*final(x), after.minted) == after
            &&& after.minted >= minted
            &&& final(ids)@ == ids_after(first, after.minted)
        }),
        final(x).groups@.len() == final(x).group_ids@.len(),
{
    let ghost d = plan_view(*plan, first);
    let ghost before = spill_view(*x, minted);
    proof {
        lemma_ids_after(first, minted, 1);
    }
    let target = add_row(&mut x.timeline, row, ids);
    let ghost begun = spill_view(*x, minted + 1);
    assert(begun =~= Dissolved {
        timeline: row_added(before.timeline, row@, nth_id(first, minted + 1)),
        minted: minted + 1,
        ..before
    });
    let ghost mut count: int = minted + 1;
    let mut j: usize = 0;
    while j < row.clips.len()
        invariant
            j <= row.clips@.len(),
            row@.clips.len() == row.clips@.len(),
            plan_ok(*plan, first),
            d == plan_view(*plan, first),
            count > minted >= 0,
            clips_sound(row@.clips),
            forall|k: int|
                0 <= k < row@.clips.len() ==> piece_fault(
                    plan.compound@,
                    #[trigger] row@.clips[k],
                ) is None,
            forall|k: int|
                0 <= k < row@.clips.len() && shown(plan.compound@, #[trigger] row@.clips[k])
                    ==> piece_id(d, row@.clips[k].id) is Some,
            ids@ == ids_after(first, count),
            x.groups@.len() == x.group_ids@.len(),
            target < x.timeline.tracks@.len(),
            spill_view(*x, count) == clips_dissolved(
                d,
                begun,
                target as int,
                row@.clips,
                j as int,
            ),
        decreases row.clips@.len() - j,
    {
        let ghost now = spill_view(*x, count);
        assert(row@.clips[j as int] == row.clips@[j as int]@);
        assert(clip_sound(row@.clips[j as int]));
        assert(piece_fault(plan.compound@, row@.clips[j as int]) is None);
        dissolve_clip(plan, x, target, &row.clips[j], ids, Ghost(first), Ghost(count));
        proof {
            count = clip_dissolved(d, now, target as int, row@.clips[j as int]).minted;
        }
        j += 1;
    }
    let ghost timeline = x.timeline;
    proof {
        lemma_timeline_parts(timeline, target as int, 0);
    }
    sort_clips(&mut x.timeline.tracks[target]);
    proof {
        lemma_track_replaced(timeline, x.timeline, target as int);
    }
}

/// A shown clip is among the shown ones.
pub proof fn lemma_shown_listed(compound: ClipView, clips: Seq<ClipView>, i: int) -> (k: int)
    requires
        0 <= i < clips.len(),
        shown(compound, clips[i]),
    ensures
        0 <= k < shown_clips(compound, clips).len(),
        shown_clips(compound, clips)[k] == clips[i],
    decreases clips.len(),
{
    let rest = shown_clips(compound, clips.drop_last());
    if i == clips.len() - 1 {
        rest.len() as int
    } else {
        assert(clips.drop_last()[i] == clips[i]);
        lemma_shown_listed(compound, clips.drop_last(), i)
    }
}

pub proof fn lemma_last_found(clips: Seq<ClipView>, k: int, n: int)
    requires
        0 <= k < n <= clips.len(),
    ensures
        last_with_id(clips, clips[k].id, n) is Some,
    decreases n,
{
    if clips[n - 1].id != clips[k].id {
        lemma_last_found(clips, k, n - 1);
    }
}

pub proof fn lemma_no_piece_fault(compound: ClipView, clips: Seq<ClipView>, from: int, i: int)
    requires
        0 <= from <= i < clips.len(),
        pieces_fault(compound, clips, from) is None,
    ensures
        piece_fault(compound, clips[i]) is None,
    decreases i - from,
{
    if from < i {
        lemma_no_piece_fault(compound, clips, from + 1, i);
    }
}

/// What every clip of a child row satisfies once the preflight has passed.
proof fn lemma_row_ready(d: Dissolving, rows: Seq<TrackView>, i: int, j: int)
    requires
        d.pieces == shown_clips(d.compound, flat_clips(rows)),
        pieces_fault(d.compound, flat_clips(rows), 0) is None,
        0 <= i < rows.len(),
        0 <= j < rows[i].clips.len(),
    ensures
        piece_fault(d.compound, rows[i].clips[j]) is None,
        shown(d.compound, rows[i].clips[j]) ==> piece_id(d, rows[i].clips[j].id) is Some,
{
    let flat = flat_clips(rows);
    let k = lemma_flat_holds(rows, i, j);
    lemma_no_piece_fault(d.compound, flat, 0, k);
    if shown(d.compound, rows[i].clips[j]) {
        let p = lemma_shown_listed(d.compound, flat, k);
        lemma_last_found(d.pieces, p, d.pieces.len() as int);
    }
}

/// Checks that a clip can be dissolved; hands out the compound and the tracks of
/// its sequence.
fn check_dissolve(timeline: &Timeline, clip_id: &String) -> (r: Result<
    (Clip, Vec<Track>),
    EditError,
>)
    ensures
        match r {
            Err(e) => dissolve_fault(timeline@, clip_id@) == Some(e@),
            Ok((compound, rows)) => {
                let t = timeline@;
                let i = sequence_index(
                    t.nested_sequences,
                    compound@.nested_sequence_id->0,
                    0,
                )->0;
                &&& dissolve_fault(t, clip_id@) is None
                &&& compound@ == clip_at(t, locate(t, clip_id@)->0)
                &&& track_views(rows@) == t.nested_sequences[i].timeline.tracks
                &&& clip_sound(compound@)
                &&& rows_sound(track_views(rows@))
                &&& pieces_fault(compound@, flat_clips(track_views(rows@)), 0) is None
            },
        },
{
    let ghost t = timeline@;
    if let Err(e) = validate_timeline_frame_arithmetic(timeline, "timeline") {
        return Err(e);
    }
    proof {
        lemma_timeline_sound(t, "timeline"@);
    }
    let (ti, ci) = match require_clip(timeline, clip_id.as_str()) {
        Ok(place) => place,
        Err(e) => return Err(e),
    };
    proof {
        lemma_timeline_parts(*timeline, ti as int, ci as int);
        assert(clips_sound(t.tracks[ti as int].clips));
        assert(clip_sound(t.tracks[ti as int].clips[ci as int]));
    }
    let compound = timeline.tracks[ti].clips[ci].copy();
    let sequence_id = match &compound.nested_sequence_id {
        Some(id) => id,
        None => return Err(
            EditError::Invalid(cat2("Clip is not a compound clip: ", clip_id.as_str())),
        ),
    };
    if compound.speed.is_apart_from_one() || compound.reversed {
        return Err(
            invalid("retimed or reversed compound clips must be normalized before dissolve"),
        );
    }
    if has_parent_edits(&compound) {
        return Err(
            invalid("compound clips with parent-level edits must be normalized before dissolve"),
        );
    }
    let index: usize = match require_sequence(timeline, sequence_id.as_str()) {
        Ok(index) => index,
        Err(e) => return Err(e),
    };
    proof {
        lemma_nested_views(*timeline);
        assert(t.nested_sequences[index as int] == timeline.nested_sequences@[index as int]@);
    }
    let child = timeline.nested_sequences[index].timeline.copy();
    let rows = child.tracks;
    proof {
        assert(track_views(rows@) =~= t.nested_sequences[index as int].timeline.tracks);
        assert(timeline_sound(t.nested_sequences[index as int].timeline));
        assert(rows_sound(track_views(rows@)));
        lemma_flat_sound(track_views(rows@));
    }
    let flat = flatten(&rows);
    if let Err(e) = check_pieces(&compound, &flat) {
        return Err(e);
    }
    Ok((compound, rows))
}

/// Replaces one compound clip with clipped copies of the tracks of its sequence.
pub fn dissolve_nested_sequence(
    state: &mut EditorState,
    clip_id: String,
    ids: &mut CoreIdGen,
    registry_fault: &Option<String>,
) -> (r: Result<EditResult, EditError>)
    requires
        old(state)@.version < u64::MAX,
    ensures
        (outcome(r), final(state)@) == dissolve_nested_sequence_spec(
            old(state)@,
            clip_id@,
            old(ids)@,
            opt_text(*registry_fault),
        ),
        final(ids)@ == (if dissolve_fault(old(state)@.timeline, clip_id@) is Some {
            old(ids)@
        } else {
            ids_after(
                old(ids)@,
                dissolved(old(state)@.timeline, clip_id@, old(ids)@).minted,
            )
        }),
{
    let ghost t = state@.timeline;
    let ghost first = ids@;
    let (compound, rows) = match check_dissolve(&state.timeline, &clip_id) {
        Ok(found) => found,
        Err(e) => return Err(e),
    };
    let ghost views = track_views(rows@);
    let flat = flatten(&rows);
    proof {
        lemma_flat_sound(views);
    }
    let pieces = pick_shown(&compound, &flat);
    let new_ids = mint(pieces.len(), ids);
    let plan = Plan { compound, pieces, new_ids };
    let ghost d = plan_view(plan, first);
    let mut timeline = state.timeline.copy();
    let gone: Vec<String> = vec![clip_id.clone()];
    assert(texts(gone@) =~= seq![clip_id@]);
    remove_clips_from(&mut timeline, &gone);
    let mut x = Spill {
        timeline,
        groups: Vec::new(),
        group_ids: Vec::new(),
        affected: Vec::new(),
    };
    let ghost mut count: int = d.pieces.len() as int;
    let ghost begun = spill_view(x, count);
    proof {
        assert(begun =~= Dissolved {
            timeline: without_clips(t, seq![clip_id@]),
            groups: Seq::empty(),
            group_ids: Seq::empty(),
            minted: count,
            affected: Seq::empty(),
        });
    }
    let mut i: usize = 0;
    while i < rows.len()
        invariant
            i <= rows@.len(),
            views == track_views(rows@),
            rows_sound(views),
            plan_ok(plan, first),
            d == plan_view(plan, first),
            d.pieces == shown_clips(d.compound, flat_clips(views)),
            pieces_fault(d.compound, flat_clips(views), 0) is None,
            count >= 0,
            ids@ == ids_after(first, count),
            x.groups@.len() == x.group_ids@.len(),
            spill_view(x, count) == rows_dissolved(d, begun, views, i as int),
        decreases rows@.len() - i,
    {
        let ghost now = spill_view(x, count);
        proof {
            let row = views[i as int];
            assert(row == rows@[i as int]@);
            assert(clips_sound(row.clips));
            assert forall|j: int| 0 <= j < row.clips.len() implies piece_fault(
                plan.compound@,
                #[trigger] row.clips[j],
            ) is None by {
                lemma_row_ready(d, views, i as int, j);
            }
            assert forall|j: int|
                0 <= j < row.clips.len() && shown(plan.compound@, #[trigger] row.clips[j]) implies piece_id(
                d,
                row.clips[j].id,
            ) is Some by {
                lemma_row_ready(d, views, i as int, j);
            }
        }
        dissolve_row(&plan, &mut x, &rows[i], ids, Ghost(first), Ghost(count));
        proof {
            count = row_dissolved(d, now, views[i as int]).minted;
        }
        i += 1;
    }
    let Spill { timeline: spilled, affected, .. } = x;
    let mut timeline = spilled;
    prune_empty_tracks(&mut timeline);
    let number = usize_to_text(affected.len());
    assert(texts(affected@).len() == affected@.len());
    let summary = cat3("Dissolved compound into ", number.as_str(), " clip(s)");
    transact_timeline(
        state,
        "Dissolve Compound Clip",
        summary.as_str(),
        timeline,
        affected,
        registry_fault,
    )
}

} // verus!
