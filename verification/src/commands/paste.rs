//! Pasting complete clip snapshots under fresh ids.

use crate::arrange::by_start;
use crate::arrange::prune_empty_tracks;
use crate::arrange::sort_clips;
use crate::arrange::without_empty_tracks;
use crate::commands::captions::entry_label;
use crate::commands::captions::label_entry;
use crate::commands::dissolve::appended;
use crate::commands::moving::among_first;
use crate::commands::nested::find_sequence;
use crate::commands::nested::sequence_index;
use crate::commands::nested::sequence_not_found;
use crate::edit::invalid;
use crate::edit::outcome;
use crate::edit::verdict;
use crate::edit::EditError;
use crate::edit::EditResult;
use crate::edit::EditResultView;
use crate::edit::Fault;
use crate::entries::paste_clip_entry_views;
use crate::entries::PasteClipEntry;
use crate::entries::PasteClipEntryView;
use crate::frames::clip_fault;
use crate::frames::clip_fault_at;
use crate::frames::timeline_fault;
use crate::frames::validate_clip_frame_arithmetic;
use crate::frames::validate_clip_frame_arithmetic_at;
use crate::frames::validate_timeline_frame_arithmetic;
use crate::ids::ids_after;
use crate::ids::law_ids_are_distinct;
use crate::ids::lemma_ids_after;
use crate::ids::minted;
use crate::ids::nth_id;
use crate::ids::COUNTER_SPAN;
use crate::ids::CoreIdGen;
use crate::ids::IdsView;
use crate::links::find_id;
use crate::links::id_index;
use crate::links::lemma_id_found;
use crate::links::lemma_id_index;
use crate::locate::do_tracks_stand;
use crate::locate::find_media;
use crate::locate::find_track;
use crate::locate::lemma_timeline_parts;
use crate::locate::lemma_track_replaced;
use crate::locate::lemma_tracks_replaced;
use crate::locate::lost_track;
use crate::locate::media_entry;
use crate::locate::track_index;
use crate::locate::track_lost;
use crate::locate::tracks_stand;
use crate::model::compatible;
use crate::model::kind_name;
use crate::model::opt_transition;
use crate::model::track_views;
use crate::model::Clip;
use crate::model::ClipType;
use crate::model::ClipView;
use crate::model::Timeline;
use crate::model::TimelineView;
use crate::model::Track;
use crate::model::TrackView;
use crate::model::Transition;
use crate::model::TransitionView;
use crate::state::transact;
use crate::state::transact_timeline;
use crate::state::transacted;
use crate::state::EditorState;
use crate::state::StateView;
use crate::state::WorkView;
use crate::text::cat2;
use crate::text::cat3;
use crate::text::nat_text;
use crate::text::opt_text;
use crate::text::texts;
use crate::text::trim;
use crate::text::trimmed;
use crate::text::usize_to_text;
use vstd::prelude::*;

verus! {

/// The complaint against what a pasted clip shows, if any: a nested sequence has to
/// exist, media have to be in the library with a type that fits.
pub open spec fn paste_media_fault(s: StateView, c: ClipView) -> Option<Fault> {
    match c.nested_sequence_id {
        Some(sequence_id) => {
            if sequence_index(s.timeline.nested_sequences, sequence_id, 0) is None {
                Some(sequence_not_found(sequence_id))
            } else if c.media_ref.len() > 0 {
                Some(Fault::Invalid("compound clips must not carry a mediaRef"@))
            } else {
                None
            }
        },
        None => {
            if c.media_type is Text {
                if !(c.source_clip_type is Text) {
                    Some(Fault::Invalid("text clip sourceClipType must be text"@))
                } else {
                    None
                }
            } else {
                match media_entry(s.manifest, c.media_ref) {
                    None => Some(Fault::Invalid("Media not found in manifest: "@ + c.media_ref)),
                    Some(media) => {
                        let linked_audio = c.media_type is Audio && media.kind is Video
                            && media.has_audio == Some(true);
                        if c.source_clip_type != media.kind {
                            Some(
                                Fault::Invalid(
                                    "clip "@ + c.id + " sourceClipType "@ + kind_name(
                                        c.source_clip_type,
                                    ) + " does not match manifest type "@ + kind_name(media.kind),
                                ),
                            )
                        } else if c.media_type != media.kind && !linked_audio {
                            Some(
                                Fault::Invalid(
                                    "clip "@ + c.id + " mediaType "@ + kind_name(c.media_type)
                                        + " is not valid for manifest type "@ + kind_name(
                                        media.kind,
                                    ),
                                ),
                            )
                        } else {
                            None
                        }
                    },
                }
            }
        },
    }
}

/// The ids of the clips to paste.
pub open spec fn pasted_sources(entries: Seq<PasteClipEntryView>) -> Seq<Seq<char>> {
    entries.map_values(|e: PasteClipEntryView| e.clip.id)
}

/// The complaint against one clip to paste, if any.
pub open spec fn paste_entry_fault(
    s: StateView,
    entries: Seq<PasteClipEntryView>,
    i: int,
) -> Option<Fault> {
    let e = entries[i];
    if trimmed(e.clip.id).len() == 0 || among_first(pasted_sources(entries), e.clip.id, i) {
        Some(
            Fault::Invalid(
                entry_label(i) + ": source clip ids must be non-empty and unique"@,
            ),
        )
    } else if clip_fault(e.clip, entry_label(i) + ".clip"@) is Some {
        Some(Fault::Invalid(clip_fault(e.clip, entry_label(i) + ".clip"@)->0))
    } else if clip_fault_at(e.clip, e.start_frame as int, entry_label(i)) is Some {
        Some(Fault::Invalid(clip_fault_at(e.clip, e.start_frame as int, entry_label(i))->0))
    } else {
        match track_index(s.timeline.tracks, e.target_track_id, 0) {
            None => Some(Fault::Invalid("Track not found: "@ + e.target_track_id)),
            Some(ti) => {
                if !compatible(e.clip.media_type, s.timeline.tracks[ti].kind) {
                    Some(
                        Fault::Invalid(
                            entry_label(i) + ": clip is incompatible with destination track"@,
                        ),
                    )
                } else {
                    paste_media_fault(s, e.clip)
                }
            },
        }
    }
}

/// The first complaint, from `from` on, against clips to paste.
pub open spec fn paste_entries_fault(
    s: StateView,
    entries: Seq<PasteClipEntryView>,
    from: int,
) -> Option<Fault>
    decreases entries.len() - from,
{
    if from < 0 || from >= entries.len() {
        None
    } else {
        match paste_entry_fault(s, entries, from) {
            Some(f) => Some(f),
            None => paste_entries_fault(s, entries, from + 1),
        }
    }
}

/// The complaint against pasting clips, if any.
pub open spec fn paste_fault(s: StateView, entries: Seq<PasteClipEntryView>) -> Option<Fault> {
    if entries.len() == 0 {
        Some(Fault::Invalid("Missing or empty 'entries' array"@))
    } else {
        match timeline_fault(s.timeline, "timeline"@) {
            Some(m) => Some(Fault::Invalid(m)),
            None => paste_entries_fault(s, entries, 0),
        }
    }
}

/// Groups with the ids that they get, and the number of ids minted.
#[verifier::ext_equal]
pub struct Regrouping {
    pub links: Seq<Seq<char>>,
    pub link_ids: Seq<Seq<char>>,
    pub captions: Seq<Seq<char>>,
    pub caption_ids: Seq<Seq<char>>,
    pub minted: int,
}

/// The groups after a link group was met.
pub open spec fn link_met(x: Regrouping, group: Option<Seq<char>>, ids: IdsView) -> Regrouping {
    match group {
        Some(g) => if id_index(x.links, g, 0) is None {
            Regrouping {
                links: x.links.push(g),
                link_ids: x.link_ids.push(nth_id(ids, x.minted + 1)),
                minted: x.minted + 1,
                ..x
            }
        } else {
            x
        },
        None => x,
    }
}

/// The groups after a caption group was met.
pub open spec fn caption_met(x: Regrouping, group: Option<Seq<char>>, ids: IdsView) -> Regrouping {
    match group {
        Some(g) => if id_index(x.captions, g, 0) is None {
            Regrouping {
                captions: x.captions.push(g),
                caption_ids: x.caption_ids.push(nth_id(ids, x.minted + 1)),
                minted: x.minted + 1,
                ..x
            }
        } else {
            x
        },
        None => x,
    }
}

/// The groups after the first `n` clips; the clips' own ids come before them.
pub open spec fn groups_met(entries: Seq<PasteClipEntryView>, ids: IdsView, n: int) -> Regrouping
    decreases n,
{
    if n <= 0 {
        Regrouping {
            links: Seq::empty(),
            link_ids: Seq::empty(),
            captions: Seq::empty(),
            caption_ids: Seq::empty(),
            minted: entries.len() as int,
        }
    } else {
        let c = entries[n - 1].clip;
        caption_met(
            link_met(groups_met(entries, ids, n - 1), c.link_group_id, ids),
            c.caption_group_id,
            ids,
        )
    }
}

/// The new id of a group.
pub open spec fn regrouped_id(
    groups: Seq<Seq<char>>,
    new_ids: Seq<Seq<char>>,
    group: Option<Seq<char>>,
) -> Option<Seq<char>> {
    match group {
        Some(g) => match id_index(groups, g, 0) {
            Some(i) => Some(new_ids[i]),
            None => None,
        },
        None => None,
    }
}

/// A transition between two pasted clips, under their new ids.
pub open spec fn pasted_transition(
    entries: Seq<PasteClipEntryView>,
    ids: IdsView,
    i: int,
) -> Option<TransitionView> {
    let c = entries[i].clip;
    match c.transition_out {
        None => None,
        Some(tr) => match id_index(pasted_sources(entries), tr.to_clip_id, 0) {
            None => None,
            Some(to) => if tr.from_clip_id.len() > 0 && tr.from_clip_id != c.id {
                None
            } else {
                Some(
                    TransitionView {
                        from_clip_id: nth_id(ids, i + 1),
                        to_clip_id: nth_id(ids, to + 1),
                        ..tr
                    },
                )
            },
        },
    }
}

/// What a clip becomes when it is pasted.
pub open spec fn pasted_clip(entries: Seq<PasteClipEntryView>, ids: IdsView, i: int) -> ClipView {
    let e = entries[i];
    let x = groups_met(entries, ids, entries.len() as int);
    ClipView {
        id: nth_id(ids, i + 1),
        start_frame: e.start_frame,
        link_group_id: regrouped_id(x.links, x.link_ids, e.clip.link_group_id),
        caption_group_id: regrouped_id(x.captions, x.caption_ids, e.clip.caption_group_id),
        transition_out: pasted_transition(entries, ids, i),
        ..e.clip
    }
}

/// The timeline after the first `n` clips were put on their tracks.
pub open spec fn clips_pasted(
    cleared: TimelineView,
    entries: Seq<PasteClipEntryView>,
    ids: IdsView,
    n: int,
) -> TimelineView
    decreases n,
{
    if n <= 0 {
        cleared
    } else {
        let before = clips_pasted(cleared, entries, ids, n - 1);
        match track_index(before.tracks, entries[n - 1].target_track_id, 0) {
            Some(ti) => appended(before, ti, pasted_clip(entries, ids, n - 1)),
            None => before,
        }
    }
}

/// The timeline with the clips of every track sorted.
pub open spec fn all_sorted(t: TimelineView) -> TimelineView {
    TimelineView {
        tracks: t.tracks.map_values(
            |track: TrackView| TrackView { clips: by_start(track.clips), ..track },
        ),
        ..t
    }
}

/// The timeline after pasting.
pub open spec fn pasted(
    cleared: TimelineView,
    entries: Seq<PasteClipEntryView>,
    ids: IdsView,
) -> TimelineView {
    without_empty_tracks(
        all_sorted(clips_pasted(cleared, entries, ids, entries.len() as int)),
    )
}

/// The ids that pasted clips get.
pub open spec fn pasted_ids(n: nat, ids: IdsView) -> Seq<Seq<char>> {
    Seq::new(n, |i: int| nth_id(ids, i + 1))
}

/// The tracks that clips are to be pasted on.
pub open spec fn targets(entries: Seq<PasteClipEntryView>) -> Seq<Seq<char>> {
    entries.map_values(|e: PasteClipEntryView| e.target_track_id)
}

/// Pasting clips: they have to be in order; then they go onto the timeline on which
/// every region that they take was cleared. One that lost a track is refused.
pub open spec fn paste_clips_spec(
    s: StateView,
    entries: Seq<PasteClipEntryView>,
    ids: IdsView,
    cleared: TimelineView,
    registry_fault: Option<Seq<char>>,
) -> (Result<EditResultView, Fault>, StateView) {
    match paste_fault(s, entries) {
        Some(f) => (Err(f), s),
        None => transacted(
            s,
            "Paste Clips"@,
            "Pasted "@ + nat_text(entries.len()) + " clip(s)"@,
            if tracks_stand(cleared, targets(entries)) {
                Ok(
                    WorkView {
                        timeline: pasted(cleared, entries, ids),
                        manifest: s.manifest,
                        affected: pasted_ids(entries.len(), ids),
                    },
                )
            } else {
                Err(track_lost())
            },
            registry_fault,
        ),
    }
}

/// Whether an id is one of those minted for groups.
pub open spec fn minted_for_group(ids: IdsView, first: int, last: int, id: Seq<char>) -> bool {
    exists|m: int| first < m <= last && id == #[trigger] nth_id(ids, m)
}

proof fn lemma_minted_longer(ids: IdsView, first: int, last: int, id: Seq<char>)
    requires
        minted_for_group(ids, first, last, id),
        0 <= first,
        last < COUNTER_SPAN,
    ensures
        minted_for_group(ids, first, last + 1, id),
        id != nth_id(ids, last + 1),
{
    let m = choose|m: int| first < m <= last && id == #[trigger] nth_id(ids, m);
    assert(first < m <= last + 1 && id == nth_id(ids, m));
    law_ids_are_distinct(ids, m, last + 1);
}

/// Whether groups have ids of their own, each minted for it.
pub open spec fn well_regrouped(x: Regrouping, ids: IdsView, first: int) -> bool {
    &&& first <= x.minted
    &&& x.links.len() == x.link_ids.len()
    &&& forall|a: int|
        0 <= a < x.link_ids.len() ==> minted_for_group(
            ids,
            first,
            x.minted,
            #[trigger] x.link_ids[a],
        )
    &&& forall|a: int, b: int|
        0 <= a < b < x.link_ids.len() ==> #[trigger] x.link_ids[a] != #[trigger] x.link_ids[b]
}

proof fn lemma_link_met(x: Regrouping, group: Option<Seq<char>>, ids: IdsView, first: int)
    requires
        well_regrouped(x, ids, first),
        0 <= first,
        x.minted < COUNTER_SPAN,
    ensures
        well_regrouped(link_met(x, group, ids), ids, first),
        group matches Some(g) ==> link_met(x, group, ids).links.contains(g),
        forall|g: Seq<char>|
            x.links.contains(g) ==> #[trigger] link_met(x, group, ids).links.contains(g),
        x.minted <= link_met(x, group, ids).minted <= x.minted + 1,
{
    let y = link_met(x, group, ids);
    if group is Some {
        let g = group->0;
        lemma_id_index(x.links, g, 0);
        if id_index(x.links, g, 0) is None {
            assert(y.links.last() == g);
            assert forall|a: int| 0 <= a < y.link_ids.len() implies minted_for_group(
                ids,
                first,
                y.minted,
                #[trigger] y.link_ids[a],
            ) by {
                if a < x.link_ids.len() {
                    lemma_minted_longer(ids, first, x.minted, x.link_ids[a]);
                }
            }
            assert forall|a: int, b: int| 0 <= a < b < y.link_ids.len() implies
                #[trigger] y.link_ids[a] != #[trigger] y.link_ids[b] by {
                lemma_minted_longer(ids, first, x.minted, x.link_ids[a]);
            }
            assert forall|h: Seq<char>| x.links.contains(h) implies
                #[trigger] y.links.contains(h) by {
                let k = choose|k: int| 0 <= k < x.links.len() && x.links[k] == h;
                assert(y.links[k] == h);
            }
        }
    }
}

proof fn lemma_caption_met(x: Regrouping, group: Option<Seq<char>>, ids: IdsView, first: int)
    requires
        well_regrouped(x, ids, first),
        0 <= first,
        x.minted < COUNTER_SPAN,
    ensures
        well_regrouped(caption_met(x, group, ids), ids, first),
        caption_met(x, group, ids).links == x.links,
        x.minted <= caption_met(x, group, ids).minted <= x.minted + 1,
{
    let y = caption_met(x, group, ids);
    if y.minted > x.minted {
        assert forall|a: int| 0 <= a < y.link_ids.len() implies minted_for_group(
            ids,
            first,
            y.minted,
            #[trigger] y.link_ids[a],
        ) by {
            lemma_minted_longer(ids, first, x.minted, x.link_ids[a]);
        }
    }
}

proof fn lemma_groups_met(entries: Seq<PasteClipEntryView>, ids: IdsView, n: int)
    requires
        0 <= n <= entries.len(),
        3 * entries.len() < COUNTER_SPAN,
    ensures
        well_regrouped(groups_met(entries, ids, n), ids, entries.len() as int),
        groups_met(entries, ids, n).minted <= entries.len() + 2 * n,
        forall|k: int|
            0 <= k < n && (#[trigger] entries[k]).clip.link_group_id is Some ==> groups_met(
                entries,
                ids,
                n,
            ).links.contains(entries[k].clip.link_group_id->0),
    decreases n,
{
    if n > 0 {
        let c = entries[n - 1].clip;
        let before = groups_met(entries, ids, n - 1);
        let linked = link_met(before, c.link_group_id, ids);
        lemma_groups_met(entries, ids, n - 1);
        lemma_link_met(before, c.link_group_id, ids, entries.len() as int);
        lemma_caption_met(linked, c.caption_group_id, ids, entries.len() as int);
        assert forall|k: int|
            0 <= k < n && (#[trigger] entries[k]).clip.link_group_id is Some implies linked.links.contains(
            entries[k].clip.link_group_id->0,
        ) by {
            if k < n - 1 {
                assert(before.links.contains(entries[k].clip.link_group_id->0));
            }
        }
    }
}

/// Pasted clips are linked to each other exactly as the clips they were taken from,
/// and to nothing else: their groups are new.
pub proof fn law_pasted_clips_stay_linked(
    entries: Seq<PasteClipEntryView>,
    ids: IdsView,
    i: int,
    j: int,
)
    requires
        0 <= i < entries.len(),
        0 <= j < entries.len(),
        3 * entries.len() < COUNTER_SPAN,
    ensures
        pasted_clip(entries, ids, i).link_group_id is Some == entries[i].clip.link_group_id is Some,
        (pasted_clip(entries, ids, i).link_group_id == pasted_clip(entries, ids, j).link_group_id)
            == (entries[i].clip.link_group_id == entries[j].clip.link_group_id),
        pasted_clip(entries, ids, i).link_group_id matches Some(g) ==> minted_for_group(
            ids,
            entries.len() as int,
            3 * entries.len() as int,
            g,
        ),
{
    let n = entries.len() as int;
    let x = groups_met(entries, ids, n);
    lemma_groups_met(entries, ids, n);
    lemma_new_link(x, entries[i].clip.link_group_id, ids, n, 3 * n);
    lemma_new_link(x, entries[j].clip.link_group_id, ids, n, 3 * n);
}

proof fn lemma_new_link(x: Regrouping, group: Option<Seq<char>>, ids: IdsView, first: int, last: int)
    requires
        well_regrouped(x, ids, first),
        x.minted <= last,
        group matches Some(g) ==> x.links.contains(g),
    ensures
        group matches Some(g) ==> {
            &&& id_index(x.links, g, 0) matches Some(k) && 0 <= k < x.links.len() && x.links[k] == g
            &&& minted_for_group(ids, first, last, regrouped_id(x.links, x.link_ids, group)->0)
        },
{
    if group is Some {
        let g = group->0;
        let k = choose|k: int| 0 <= k < x.links.len() && x.links[k] == g;
        lemma_id_found(x.links, k, 0);
        lemma_id_index(x.links, g, 0);
        let at = id_index(x.links, g, 0)->0;
        let id = x.link_ids[at];
        assert(minted_for_group(ids, first, x.minted, id));
        let m = choose|m: int| first < m <= x.minted && id == #[trigger] nth_id(ids, m);
        assert(first < m <= last && id == nth_id(ids, m));
    }
}

/// Checks what a pasted clip shows.
pub fn validate_paste_media(state: &EditorState, clip: &Clip) -> (r: Result<(), EditError>)
    ensures
        verdict(r) == paste_media_fault(state@, clip@),
{
    if let Some(sequence_id) = &clip.nested_sequence_id {
        if find_sequence(&state.timeline, sequence_id.as_str()).is_none() {
            return Err(
                EditError::Invalid(cat2("Nested sequence not found: ", sequence_id.as_str())),
            );
        }
        if !clip.media_ref.as_str().is_empty() {
            return Err(invalid("compound clips must not carry a mediaRef"));
        }
        return Ok(());
    }
    if clip.media_type == ClipType::Text {
        if clip.source_clip_type != ClipType::Text {
            return Err(invalid("text clip sourceClipType must be text"));
        }
        return Ok(());
    }
    let index: usize = match find_media(&state.manifest, clip.media_ref.as_str()) {
        Some(index) => index,
        None => return Err(
            EditError::Invalid(cat2("Media not found in manifest: ", clip.media_ref.as_str())),
        ),
    };
    let media = &state.manifest.entries[index];
    if clip.source_clip_type != media.kind {
        let what = cat3("clip ", clip.id.as_str(), " sourceClipType ");
        return Err(
            EditError::Invalid(
                crate::text::cat4(
                    what.as_str(),
                    clip.source_clip_type.name(),
                    " does not match manifest type ",
                    media.kind.name(),
                ),
            ),
        );
    }
    let audible = match media.has_audio {
        Some(b) => b,
        None => false,
    };
    let linked_audio = clip.media_type == ClipType::Audio && media.kind == ClipType::Video
        && audible;
    if clip.media_type != media.kind && !linked_audio {
        let what = cat3("clip ", clip.id.as_str(), " mediaType ");
        return Err(
            EditError::Invalid(
                crate::text::cat4(
                    what.as_str(),
                    clip.media_type.name(),
                    " is not valid for manifest type ",
                    media.kind.name(),
                ),
            ),
        );
    }
    Ok(())
}

fn check_paste_entry(state: &EditorState, entries: &Vec<PasteClipEntry>, i: usize) -> (r: Result<
    (),
    EditError,
>)
    requires
        i < entries@.len(),
    ensures
        verdict(r) == paste_entry_fault(state@, paste_clip_entry_views(entries@), i as int),
{
    let ghost views = paste_clip_entry_views(entries@);
    let ghost sources = pasted_sources(views);
    let e = &entries[i];
    assert(views[i as int] == e@);
    let label = label_entry(i);
    let stripped = trim(e.clip.id.as_str());
    let mut taken = false;
    let mut k: usize = 0;
    while k < i
        invariant
            k <= i < entries@.len(),
            views == paste_clip_entry_views(entries@),
            sources == pasted_sources(views),
            e == entries@[i as int],
            taken == among_first(sources, e.clip.id@, k as int),
        decreases i - k,
    {
        assert(sources[k as int] == entries@[k as int].clip.id@);
        if entries[k].clip.id == e.clip.id {
            taken = true;
        }
        k += 1;
    }
    if stripped.as_str().is_empty() || taken {
        return Err(
            EditError::Invalid(
                cat2(label.as_str(), ": source clip ids must be non-empty and unique"),
            ),
        );
    }
    let clip_label = cat2(label.as_str(), ".clip");
    if let Err(e) = validate_clip_frame_arithmetic(&e.clip, clip_label.as_str()) {
        return Err(e);
    }
    if let Err(e) = validate_clip_frame_arithmetic_at(&e.clip, e.start_frame, label.as_str()) {
        return Err(e);
    }
    let ti: usize = match find_track(&state.timeline.tracks, e.target_track_id.as_str()) {
        Some(ti) => ti,
        None => return Err(
            EditError::Invalid(cat2("Track not found: ", e.target_track_id.as_str())),
        ),
    };
    proof {
        lemma_timeline_parts(state.timeline, ti as int, 0);
    }
    if !e.clip.media_type.is_compatible(state.timeline.tracks[ti].kind) {
        return Err(
            EditError::Invalid(
                cat2(label.as_str(), ": clip is incompatible with destination track"),
            ),
        );
    }
    validate_paste_media(state, &e.clip)
}

/// Checks clips to paste. Every region that they take is to be cleared before any
/// is put there, so that no clip of the batch overwrites another.
pub fn check_paste(state: &EditorState, entries: &Vec<PasteClipEntry>) -> (r: Result<(), EditError>)
    ensures
        verdict(r) == paste_fault(state@, paste_clip_entry_views(entries@)),
{
    if entries.len() == 0 {
        return Err(invalid("Missing or empty 'entries' array"));
    }
    if let Err(e) = validate_timeline_frame_arithmetic(&state.timeline, "timeline") {
        return Err(e);
    }
    let ghost s = state@;
    let ghost views = paste_clip_entry_views(entries@);
    let mut i: usize = 0;
    while i < entries.len()
        invariant
            i <= entries@.len(),
            entries@.len() > 0,
            s == state@,
            timeline_fault(s.timeline, "timeline"@) is None,
            views == paste_clip_entry_views(entries@),
            paste_entries_fault(s, views, 0) == paste_entries_fault(s, views, i as int),
        decreases entries@.len() - i,
    {
        if let Err(e) = check_paste_entry(state, entries, i) {
            return Err(e);
        }
        i += 1;
    }
    Ok(())
}

/// Groups with the ids that they get.
struct Groups {
    links: Vec<String>,
    link_ids: Vec<String>,
    captions: Vec<String>,
    caption_ids: Vec<String>,
}

spec fn groups_view(g: Groups, minted: int) -> Regrouping {
    Regrouping {
        links: texts(g.links@),
        link_ids: texts(g.link_ids@),
        captions: texts(g.captions@),
        caption_ids: texts(g.caption_ids@),
        minted,
    }
}

spec fn groups_ok(g: Groups) -> bool {
    g.links@.len() == g.link_ids@.len() && g.captions@.len() == g.caption_ids@.len()
}

fn meet_link(
    g: &mut Groups,
    group: &Option<String>,
    ids: &mut CoreIdGen,
    Ghost(first): Ghost<IdsView>,
    Ghost(minted): Ghost<int>,
)
    requires
        minted >= 0,
        groups_ok(*old(g)),
        old(ids)@ == ids_after(first, minted),
    ensures
        groups_ok(*final(g)),
        ({
            let after = link_met(groups_view(*old(g), minted), opt_text(*group), first);
            &&& groups_view(*final(g), after.minted) == after
            &&& after.minted >= minted
            &&& final(ids)@ == ids_after(first, after.minted)
        }),
{
    let ghost before = groups_view(*g, minted);
    if let Some(group) = group {
        if find_id(&g.links, group).is_none() {
            proof {
                lemma_ids_after(first, minted, 1);
            }
            g.links.push(group.clone());
            g.link_ids.push(ids.next_id());
            proof {
                let after = link_met(before, Some(group@), first);
                assert(texts(g.links@) =~= after.links);
                assert(texts(g.link_ids@) =~= after.link_ids);
            }
        }
    }
}

fn meet_caption(
    g: &mut Groups,
    group: &Option<String>,
    ids: &mut CoreIdGen,
    Ghost(first): Ghost<IdsView>,
    Ghost(minted): Ghost<int>,
)
    requires
        minted >= 0,
        groups_ok(*old(g)),
        old(ids)@ == ids_after(first, minted),
    ensures
        groups_ok(*final(g)),
        ({
            let after = caption_met(groups_view(*old(g), minted), opt_text(*group), first);
            &&& groups_view(*final(g), after.minted) == after
            &&& after.minted >= minted
            &&& final(ids)@ == ids_after(first, after.minted)
        }),
{
    let ghost before = groups_view(*g, minted);
    if let Some(group) = group {
        if find_id(&g.captions, group).is_none() {
            proof {
                lemma_ids_after(first, minted, 1);
            }
            g.captions.push(group.clone());
            g.caption_ids.push(ids.next_id());
            proof {
                let after = caption_met(before, Some(group@), first);
                assert(texts(g.captions@) =~= after.captions);
                assert(texts(g.caption_ids@) =~= after.caption_ids);
            }
        }
    }
}

fn new_group(groups: &Vec<String>, new_ids: &Vec<String>, group: &Option<String>) -> (r: Option<
    String,
>)
    requires
        groups@.len() == new_ids@.len(),
    ensures
        opt_text(r) == regrouped_id(texts(groups@), texts(new_ids@), opt_text(*group)),
{
    match group {
        None => None,
        Some(group) => match find_id(groups, group) {
            Some(i) => Some(new_ids[i].clone()),
            None => None,
        },
    }
}

fn list_sources(entries: &Vec<PasteClipEntry>) -> (r: Vec<String>)
    ensures
        texts(r@) == pasted_sources(paste_clip_entry_views(entries@)),
        r@.len() == entries@.len(),
{
    let ghost expected = pasted_sources(paste_clip_entry_views(entries@));
    let mut out: Vec<String> = Vec::new();
    let mut i: usize = 0;
    while i < entries.len()
        invariant
            i <= entries@.len(),
            out@.len() == i,
            expected == pasted_sources(paste_clip_entry_views(entries@)),
            forall|k: int| 0 <= k < i ==> (#[trigger] out@[k])@ == expected[k],
        decreases entries@.len() - i,
    {
        out.push(entries[i].clip.id.clone());
        i += 1;
    }
    assert(texts(out@) =~= expected);
    out
}

fn paste_transition(
    entries: &Vec<PasteClipEntry>,
    sources: &Vec<String>,
    new_ids: &Vec<String>,
    i: usize,
    Ghost(first): Ghost<IdsView>,
) -> (r: Option<Transition>)
    requires
        i < entries@.len(),
        new_ids@.len() == entries@.len(),
        sources@.len() == entries@.len(),
        texts(sources@) == pasted_sources(paste_clip_entry_views(entries@)),
        texts(new_ids@) == pasted_ids(entries@.len(), first),
    ensures
        opt_transition(r) == pasted_transition(
            paste_clip_entry_views(entries@),
            first,
            i as int,
        ),
{
    let clip = &entries[i].clip;
    assert(paste_clip_entry_views(entries@)[i as int].clip == clip@);
    match &clip.transition_out {
        None => None,
        Some(tr) => match find_id(sources, &tr.to_clip_id) {
            None => None,
            Some(to) => {
                if !tr.from_clip_id.as_str().is_empty() && tr.from_clip_id != clip.id {
                    None
                } else {
                    assert(texts(new_ids@)[i as int] == new_ids@[i as int]@);
                    assert(texts(new_ids@)[to as int] == new_ids@[to as int]@);
                    Some(
                        Transition {
                            from_clip_id: new_ids[i].clone(),
                            to_clip_id: new_ids[to].clone(),
                            kind: tr.kind,
                            duration_frames: tr.duration_frames,
                        },
                    )
                }
            },
        },
    }
}

fn sort_all(timeline: &mut Timeline)
    ensures
        final(timeline)@ == all_sorted(old(timeline)@),
{
    let ghost before = *timeline;
    let ghost expected = all_sorted(before@);
    let mut i: usize = 0;
    while i < timeline.tracks.len()
        invariant
            i <= timeline.tracks@.len(),
            expected == all_sorted(before@),
            timeline.tracks@.len() == before.tracks@.len(),
            timeline.fps == before.fps,
            timeline.width == before.width,
            timeline.height == before.height,
            timeline.settings_configured == before.settings_configured,
            timeline.nested_sequences == before.nested_sequences,
            timeline.script_assembly_plans == before.script_assembly_plans,
            timeline.voice_models == before.voice_models,
            forall|k: int| 0 <= k < i ==> (#[trigger] timeline.tracks@[k])@ == expected.tracks[k],
            forall|k: int|
                i <= k < before.tracks@.len() ==> #[trigger] timeline.tracks@[k]
                    == before.tracks@[k],
        decreases timeline.tracks@.len() - i,
    {
        sort_clips(&mut timeline.tracks[i]);
        assert(timeline.tracks@[i as int]@ =~= expected.tracks[i as int]);
        i += 1;
    }
    proof {
        lemma_tracks_replaced(before, *timeline);
        assert(track_views(timeline.tracks@) =~= expected.tracks);
    }
}

fn list_targets(entries: &Vec<PasteClipEntry>) -> (r: Vec<String>)
    ensures
        texts(r@) == targets(paste_clip_entry_views(entries@)),
{
    let ghost expected = targets(paste_clip_entry_views(entries@));
    let mut out: Vec<String> = Vec::new();
    let mut i: usize = 0;
    while i < entries.len()
        invariant
            i <= entries@.len(),
            expected == targets(paste_clip_entry_views(entries@)),
            out@.len() == i,
            forall|k: int| 0 <= k < i ==> (#[trigger] out@[k])@ == expected[k],
        decreases entries@.len() - i,
    {
        out.push(entries[i].target_track_id.clone());
        i += 1;
    }
    assert(texts(out@) =~= expected);
    out
}

/// Pastes clip snapshots with fresh clip, link and caption ids. `cleared` is the
/// timeline on which every region that the clips take was cleared.
pub fn paste_clips(
    state: &mut EditorState,
    entries: Vec<PasteClipEntry>,
    ids: &mut CoreIdGen,
    cleared: Timeline,
    registry_fault: &Option<String>,
) -> (r: Result<EditResult, EditError>)
    requires
        old(state)@.version < u64::MAX,
    ensures
        (outcome(r), final(state)@) == paste_clips_spec(
            old(state)@,
            paste_clip_entry_views(entries@),
            old(ids)@,
            cleared@,
            opt_text(*registry_fault),
        ),
        final(ids)@ == (if paste_fault(old(state)@, paste_clip_entry_views(entries@)) is Some {
            old(ids)@
        } else {
            ids_after(
                old(ids)@,
                groups_met(
                    paste_clip_entry_views(entries@),
                    old(ids)@,
                    entries@.len() as int,
                ).minted,
            )
        }),
{
    let ghost views = paste_clip_entry_views(entries@);
    let ghost first = ids@;
    if let Err(e) = check_paste(state, &entries) {
        return Err(e);
    }
    let mut new_ids: Vec<String> = Vec::new();
    let mut n: usize = 0;
    proof {
        lemma_ids_after(first, 0, 0);
    }
    while n < entries.len()
        invariant
            n <= entries@.len(),
            new_ids@.len() == n,
            ids@ == ids_after(first, n as int),
            forall|k: int| 0 <= k < n ==> (#[trigger] new_ids@[k])@ == nth_id(first, k + 1),
        decreases entries@.len() - n,
    {
        proof {
            lemma_ids_after(first, n as int, 1);
        }
        new_ids.push(ids.next_id());
        n += 1;
    }
    assert(texts(new_ids@) =~= pasted_ids(entries@.len(), first));
    let mut groups = Groups {
        links: Vec::new(),
        link_ids: Vec::new(),
        captions: Vec::new(),
        caption_ids: Vec::new(),
    };
    let ghost mut minted: int = entries@.len() as int;
    proof {
        assert(groups_view(groups, minted) =~= groups_met(views, first, 0));
    }
    let mut m: usize = 0;
    while m < entries.len()
        invariant
            m <= entries@.len(),
            views == paste_clip_entry_views(entries@),
            minted >= 0,
            groups_ok(groups),
            groups_view(groups, minted) == groups_met(views, first, m as int),
            ids@ == ids_after(first, minted),
        decreases entries@.len() - m,
    {
        let ghost before = groups_view(groups, minted);
        assert(views[m as int].clip == entries@[m as int].clip@);
        meet_link(
            &mut groups,
            &entries[m].clip.link_group_id,
            ids,
            Ghost(first),
            Ghost(minted),
        );
        let ghost linked = link_met(before, views[m as int].clip.link_group_id, first);
        meet_caption(
            &mut groups,
            &entries[m].clip.caption_group_id,
            ids,
            Ghost(first),
            Ghost(linked.minted),
        );
        proof {
            minted = caption_met(linked, views[m as int].clip.caption_group_id, first).minted;
        }
        m += 1;
    }
    let count = usize_to_text(new_ids.len());
    let summary = cat3("Pasted ", count.as_str(), " clip(s)");
    if !do_tracks_stand(&cleared, &list_targets(&entries)) {
        return transact(
            state,
            "Paste Clips",
            summary.as_str(),
            Err(lost_track()),
            registry_fault,
        );
    }
    let sources = list_sources(&entries);
    let mut timeline = cleared;
    let mut i: usize = 0;
    while i < entries.len()
        invariant
            i <= entries@.len(),
            views == paste_clip_entry_views(entries@),
            new_ids@.len() == entries@.len(),
            texts(new_ids@) == pasted_ids(entries@.len(), first),
            sources@.len() == entries@.len(),
            texts(sources@) == pasted_sources(views),
            groups_ok(groups),
            groups_view(groups, minted) == groups_met(views, first, entries@.len() as int),
            timeline@ == clips_pasted(cleared@, views, first, i as int),
        decreases entries@.len() - i,
    {
        let entry = &entries[i];
        assert(views[i as int] == entry@);
        if let Some(ti) = find_track(&timeline.tracks, entry.target_track_id.as_str()) {
            let mut clip = entry.clip.copy();
            clip.id = new_ids[i].clone();
            clip.start_frame = entry.start_frame;
            clip.link_group_id = new_group(
                &groups.links,
                &groups.link_ids,
                &entry.clip.link_group_id,
            );
            clip.caption_group_id = new_group(
                &groups.captions,
                &groups.caption_ids,
                &entry.clip.caption_group_id,
            );
            clip.transition_out = paste_transition(&entries, &sources, &new_ids, i, Ghost(first));
            proof {
                assert(texts(new_ids@)[i as int] == new_ids@[i as int]@);
                assert(clip@ =~= pasted_clip(views, first, i as int));
            }
            let ghost before = timeline;
            timeline.tracks[ti].clips.push(clip);
            proof {
                lemma_timeline_parts(before, ti as int, 0);
                lemma_track_replaced(before, timeline, ti as int);
                assert(timeline.tracks@[ti as int]@.clips
                    =~= before@.tracks[ti as int].clips.push(clip@));
                assert(timeline@ =~= appended(before@, ti as int, clip@));
            }
        }
        i += 1;
    }
    sort_all(&mut timeline);
    prune_empty_tracks(&mut timeline);
    transact_timeline(
        state,
        "Paste Clips",
        summary.as_str(),
        timeline,
        new_ids,
        registry_fault,
    )
}

} // verus!
