//! What commands do that give clips other media, or bring new media in with a clip.

use crate::commands::effects::ClipChangeView;
use crate::commands::effects::clips_changed;
use crate::commands::placement::add_clips_auto_track_spec;
use crate::commands::placement::add_clips_spec;
use crate::commands::registration::register_media_and_add_clip_spec;
use crate::commands::registration::register_media_and_freeze_frame_spec;
use crate::commands::registration::register_media_and_swap_clip_spec;
use crate::commands::registration::registered;
use crate::commands::registration::registration_fault;
use crate::commands::registration::showing;
use crate::commands::registration::swap_media_spec;
use crate::commands::registration::swap_targets;
use crate::commands::ripple::freeze_frame_spec;
use crate::entries::ClipEntryView;
use crate::ids::IdsView;
use crate::laws::cutting::law_frames_are_frozen_inside;
use crate::laws::document::first_clip;
use crate::laws::document::first_entry;
use crate::laws::document::has_clip;
use crate::laws::document::has_entry;
use crate::laws::document::law_clips_are_found_by_id;
use crate::laws::document::law_media_are_found_by_id;
use crate::laws::document::law_pruning_changes_transitions_alone;
use crate::laws::document::same_clip;
use crate::laws::document::same_frame;
use crate::laws::document::same_sequence;
use crate::laws::document::same_timeline;
use crate::laws::document::same_track;
use crate::laws::effects::lemma_changed;
use crate::laws::effects::lemma_firsts_kept;
use crate::laws::effects::same_layout;
use crate::laws::linking::law_selections_expand_to_their_links;
use crate::laws::linking::taken_along;
use crate::laws::placing::entry_holds;
use crate::laws::placing::law_clips_are_added_to_new_tracks;
use crate::laws::placing::law_clips_are_added_where_they_may_stand;
use crate::laws::placing::may_be_placed;
use crate::laws::texts::law_trimming_takes_space_off_the_ends;
use crate::links::link_expanded;
use crate::locate::clip_at;
use crate::locate::locate;
use crate::locate::media_entry;
use crate::locate::media_index;
use crate::model::ClipView;
use crate::model::MediaManifestEntryView;
use crate::model::MediaManifestView;
use crate::model::TimelineView;
use crate::model::TrackView;
use crate::state::PlacedView;
use crate::state::StateView;
use crate::text::is_space;
use vstd::prelude::*;

verus! {

proof fn lemma_showing(
    t: TimelineView,
    ids: Seq<Seq<char>>,
    media_ref: Seq<char>,
    n: int,
    id: Seq<char>,
)
    requires
        0 <= n <= ids.len(),
    ensures
        showing(t, ids, media_ref, n).contains(id) <==> (exists|k: int|
            0 <= k < n && #[trigger] ids[k] == id) && locate(t, id) is Some && clip_at(
            t,
            locate(t, id)->0,
        ).media_ref == media_ref,
    decreases n,
{
    if n > 0 {
        lemma_showing(t, ids, media_ref, n - 1, id);
        let rest = showing(t, ids, media_ref, n - 1);
        let all = showing(t, ids, media_ref, n);
        if all.len() == rest.len() + 1 && all == rest.push(ids[n - 1]) {
            assert(all[rest.len() as int] == ids[n - 1]);
            if rest.contains(id) {
                let k = choose|k: int| 0 <= k < rest.len() && rest[k] == id;
                assert(all[k] == id);
            }
            if all.contains(id) {
                let k = choose|k: int| 0 <= k < all.len() && all[k] == id;
                assert(k < rest.len() ==> rest[k] == id);
            }
        }
        if exists|k: int| 0 <= k < n - 1 && #[trigger] ids[k] == id {
        } else if exists|k: int| 0 <= k < n && #[trigger] ids[k] == id {
            let k = choose|k: int| 0 <= k < n && #[trigger] ids[k] == id;
            assert(k == n - 1);
        }
    }
}

proof fn lemma_swap_targets(t: TimelineView, id: Seq<char>, a: int, b: int, ti: int, ci: int)
    requires
        first_clip(t, id, a, b),
        0 <= ti < t.tracks.len(),
        0 <= ci < t.tracks[ti].clips.len(),
    ensures
        ({
            let c = t.tracks[ti].clips[ci];
            first_clip(t, c.id, ti, ci) ==> (swap_targets(t, id).contains(c.id) <==> taken_along(
                t,
                seq![id],
                c.id,
            ) && c.media_ref == t.tracks[a].clips[b].media_ref)
        }),
{
    let c = t.tracks[ti].clips[ci];
    let group = link_expanded(t, seq![id]);
    law_clips_are_found_by_id(t, id);
    law_clips_are_found_by_id(t, c.id);
    assert(first_clip(t, id, a, b));
    law_selections_expand_to_their_links(t, seq![id], c.id);
    lemma_showing(
        t,
        group,
        clip_at(t, locate(t, id)->0).media_ref,
        group.len() as int,
        c.id,
    );
    if first_clip(t, c.id, ti, ci) {
        assert(locate(t, c.id) == Some((ti, ci)));
    }
}

/// Which clips take other media over when a clip is given them: the clip itself and those
/// linked to it that show the same media.
pub open spec fn takes_over(
    t: TimelineView,
    id: Seq<char>,
    a: int,
    b: int,
    ti: int,
    ci: int,
) -> bool {
    let c = t.tracks[ti].clips[ci];
    first_clip(t, c.id, ti, ci) && taken_along(t, seq![id], c.id) && c.media_ref
        == t.tracks[a].clips[b].media_ref
}

/// Giving a clip other media is refused where the clip or the media are not there or are of
/// different kinds. Otherwise the clip, and those linked to it that show the same media,
/// show the new media and lose their loudness normalization; every other clip stays as it
/// was, but for transitions.
pub proof fn law_swapped_media_are_shown(
    s: StateView,
    id: Seq<char>,
    media_ref: Seq<char>,
    registry_fault: Option<Seq<char>>,
    a: int,
    b: int,
    m: int,
    ti: int,
    ci: int,
)
    requires
        0 <= ti < s.timeline.tracks.len(),
        0 <= ci < s.timeline.tracks[ti].clips.len(),
    ensures
        ({
            let (r, next) = swap_media_spec(s, id, media_ref, registry_fault);
            let lead = s.timeline.tracks[a].clips[b];
            let c = s.timeline.tracks[ti].clips[ci];
            let d = next.timeline.tracks[ti].clips[ci];
            &&& r is Err ==> next == s
            &&& r is Ok ==> has_clip(s.timeline, id) && has_entry(s.manifest, media_ref)
            &&& next.manifest == s.manifest
            &&& first_clip(s.timeline, id, a, b) && first_entry(s.manifest, media_ref, m) ==> {
                &&& lead.media_type != s.manifest.entries[m].kind ==> r is Err
                &&& lead.media_type == s.manifest.entries[m].kind && lead.media_ref
                    == media_ref ==> r is Ok && next == s && !r->Ok_0.changed
                &&& r is Ok && lead.media_ref != media_ref ==> {
                    &&& same_layout(s.timeline, next.timeline)
                    &&& d == if takes_over(s.timeline, id, a, b, ti, ci) {
                        ClipView {
                            media_ref,
                            loudness_normalization: None,
                            transition_out: d.transition_out,
                            ..c
                        }
                    } else {
                        ClipView { transition_out: d.transition_out, ..c }
                    }
                    &&& takes_over(s.timeline, id, a, b, ti, ci)
                        ==> r->Ok_0.affected_clip_ids.contains(c.id)
                }
            }
        }),
{
    law_clips_are_found_by_id(s.timeline, id);
    law_media_are_found_by_id(s.manifest, media_ref, m);
    let (r, next) = swap_media_spec(s, id, media_ref, registry_fault);
    if first_clip(s.timeline, id, a, b) && r is Ok && first_entry(s.manifest, media_ref, m)
        && s.timeline.tracks[a].clips[b].media_ref != media_ref {
        let targets = swap_targets(s.timeline, id);
        let change = ClipChangeView::MediaSwap(media_ref);
        lemma_swap_targets(s.timeline, id, a, b, ti, ci);
        lemma_changed(s.timeline, targets, change, targets.len() as int, ti, ci);
        let work = clips_changed(
            s.timeline,
            targets,
            change,
            targets.len() as int,
        );
        law_pruning_changes_transitions_alone(work);
        assert(same_timeline(work, next.timeline));
        assert(same_track(work.tracks[ti], next.timeline.tracks[ti]));
        assert(same_clip(work.tracks[ti].clips[ci], next.timeline.tracks[ti].clips[ci]));
        assert forall|i: int| 0 <= i < s.timeline.tracks.len() implies (
        #[trigger] next.timeline.tracks[i]) == (TrackView {
            clips: next.timeline.tracks[i].clips,
            ..s.timeline.tracks[i]
        }) && next.timeline.tracks[i].clips.len() == s.timeline.tracks[i].clips.len() by {
            assert(same_track(work.tracks[i], next.timeline.tracks[i]));
        }
    }
}

/// Whether media may be brought in: they have an id that is not blank, and neither the id
/// nor the source is in the library already.
pub open spec fn may_register(m: MediaManifestView, media: MediaManifestEntryView) -> bool {
    &&& exists|k: int| 0 <= k < media.id.len() && !is_space(#[trigger] media.id[k])
    &&& forall|i: int|
        0 <= i < m.entries.len() ==> (#[trigger] m.entries[i]).id != media.id
            && m.entries[i].source != media.source
}

/// Media that may not be brought in are refused, and no others.
pub proof fn law_registrations_are_checked(m: MediaManifestView, media: MediaManifestEntryView)
    ensures
        registration_fault(m, media) is None <==> may_register(m, media),
{
    law_trimming_takes_space_off_the_ends(media.id);
    law_media_are_found_by_id(m, media.id, 0);
    if exists|i: int| 0 <= i < m.entries.len() && (#[trigger] m.entries[i]).id == media.id {
        assert(has_entry(m, media.id));
    }
    assert(media_entry(m, media.id) is Some <==> media_index(m.entries, media.id, 0) is Some);
}

/// New media that a clip is to show come into the library, and nothing else does.
pub proof fn lemma_registered_swap(
    s: StateView,
    media: MediaManifestEntryView,
    id: Seq<char>,
    clear_masks: bool,
    registry_fault: Option<Seq<char>>,
)
    ensures
        ({
            let (r, next) = register_media_and_swap_clip_spec(
                s,
                media,
                id,
                clear_masks,
                registry_fault,
            );
            r is Ok ==> may_register(s.manifest, media) && has_clip(s.timeline, id)
                && next.manifest.entries == s.manifest.entries.push(media)
                && next.manifest.folders == s.manifest.folders
        }),
{
    law_registrations_are_checked(s.manifest, media);
    law_clips_are_found_by_id(s.timeline, id);
}

/// New media that a clip is to show are brought in behind the library's own, or nothing
/// changes: the media may be brought in and have the clip's kind, and the clip, with those
/// linked to it that show the same media, shows them. The clip loses its masks where they
/// are to be cleared; everything else stays as it was, but for transitions.
pub proof fn law_registered_media_are_shown(
    s: StateView,
    media: MediaManifestEntryView,
    id: Seq<char>,
    clear_masks: bool,
    registry_fault: Option<Seq<char>>,
    a: int,
    b: int,
    ti: int,
    ci: int,
)
    requires
        0 <= ti < s.timeline.tracks.len(),
        0 <= ci < s.timeline.tracks[ti].clips.len(),
    ensures
        ({
            let (r, next) = register_media_and_swap_clip_spec(
                s,
                media,
                id,
                clear_masks,
                registry_fault,
            );
            let lead = s.timeline.tracks[a].clips[b];
            let c = s.timeline.tracks[ti].clips[ci];
            let d = next.timeline.tracks[ti].clips[ci];
            &&& r is Err ==> next == s
            &&& r is Ok ==> {
                &&& may_register(s.manifest, media)
                &&& has_clip(s.timeline, id)
                &&& next.manifest.entries == s.manifest.entries.push(media)
                &&& next.manifest.folders == s.manifest.folders
            }
            &&& r is Ok && first_clip(s.timeline, id, a, b) && lead.media_ref != media.id ==> {
                &&& lead.media_type == media.kind
                &&& same_layout(s.timeline, next.timeline)
                &&& d == (ClipView {
                    media_ref: if takes_over(s.timeline, id, a, b, ti, ci) {
                        media.id
                    } else {
                        c.media_ref
                    },
                    loudness_normalization: if takes_over(s.timeline, id, a, b, ti, ci) {
                        None
                    } else {
                        c.loudness_normalization
                    },
                    masks: if clear_masks && ti == a && ci == b {
                        Seq::empty()
                    } else {
                        c.masks
                    },
                    transition_out: d.transition_out,
                    ..c
                })
            }
        }),
{
    let (r, next) = register_media_and_swap_clip_spec(s, media, id, clear_masks, registry_fault);
    let candidate = registered(s, media);
    let trial = swap_media_spec(candidate, id, media.id, registry_fault);
    let m = s.manifest.entries.len() as int;
    law_registrations_are_checked(s.manifest, media);
    law_clips_are_found_by_id(s.timeline, id);
    law_swapped_media_are_shown(candidate, id, media.id, registry_fault, a, b, m, ti, ci);
    if r is Ok {
        assert(candidate.manifest.entries[m] == media);
        assert(first_entry(candidate.manifest, media.id, m));
        if first_clip(s.timeline, id, a, b) && s.timeline.tracks[a].clips[b].media_ref
            != media.id {
            let u = trial.1.timeline;
            lemma_every_id_kept(candidate, id, media.id, registry_fault, a, b, m);
            lemma_firsts_kept(s.timeline, u, id);
            lemma_firsts_kept(s.timeline, u, s.timeline.tracks[ti].clips[ci].id);
            law_clips_are_found_by_id(u, id);
            assert(first_clip(u, id, a, b));
            let cleared = clips_changed(u, seq![id], ClipChangeView::Masks(Seq::empty()), 1);
            lemma_changed(u, seq![id], ClipChangeView::Masks(Seq::empty()), 1, ti, ci);
            let work = if clear_masks {
                cleared
            } else {
                u
            };
            law_pruning_changes_transitions_alone(work);
            assert(same_timeline(work, next.timeline));
            assert(same_track(work.tracks[ti], next.timeline.tracks[ti]));
            assert(same_clip(work.tracks[ti].clips[ci], next.timeline.tracks[ti].clips[ci]));
            lemma_same_frame_twice(s.timeline, work, next.timeline);
            assert(seq![id][0] == id);
            let c = s.timeline.tracks[ti].clips[ci];
            if c.id == id {
                assert(first_clip(s.timeline, id, ti, ci) ==> ti == a && ci == b);
            }
            assert forall|i: int| 0 <= i < s.timeline.tracks.len() implies (
            #[trigger] next.timeline.tracks[i]) == (TrackView {
                clips: next.timeline.tracks[i].clips,
                ..s.timeline.tracks[i]
            }) && next.timeline.tracks[i].clips.len() == s.timeline.tracks[i].clips.len() by {
                assert(u.tracks[i].clips.len() == s.timeline.tracks[i].clips.len());
                assert(same_track(work.tracks[i], next.timeline.tracks[i]));
            }
        }
    }
}

proof fn lemma_every_id_kept(
    s: StateView,
    id: Seq<char>,
    media_ref: Seq<char>,
    registry_fault: Option<Seq<char>>,
    a: int,
    b: int,
    m: int,
)
    requires
        first_clip(s.timeline, id, a, b),
        first_entry(s.manifest, media_ref, m),
        s.timeline.tracks[a].clips[b].media_ref != media_ref,
        swap_media_spec(s, id, media_ref, registry_fault).0 is Ok,
    ensures
        ({
            let u = swap_media_spec(s, id, media_ref, registry_fault).1.timeline;
            &&& u.tracks.len() == s.timeline.tracks.len()
            &&& forall|i: int|
                0 <= i < s.timeline.tracks.len() ==> (#[trigger] u.tracks[i]).clips.len()
                    == s.timeline.tracks[i].clips.len()
            &&& forall|i: int, j: int|
                0 <= i < s.timeline.tracks.len() && 0 <= j < s.timeline.tracks[i].clips.len() ==> (
                #[trigger] u.tracks[i].clips[j]).id == s.timeline.tracks[i].clips[j].id
        }),
{
    let u = swap_media_spec(s, id, media_ref, registry_fault).1.timeline;
    law_swapped_media_are_shown(s, id, media_ref, registry_fault, a, b, m, a, b);
    assert forall|i: int, j: int|
        0 <= i < s.timeline.tracks.len() && 0 <= j < s.timeline.tracks[i].clips.len() implies (
    #[trigger] u.tracks[i].clips[j]).id == s.timeline.tracks[i].clips[j].id by {
        law_swapped_media_are_shown(s, id, media_ref, registry_fault, a, b, m, i, j);
    }
}

/// New media that come in with a clip of their own are brought in behind the library's own,
/// or nothing changes: the media may be brought in, and the clip shows them and has their
/// kind.
pub proof fn law_registered_media_come_with_their_clip(
    s: StateView,
    media: MediaManifestEntryView,
    entry: ClipEntryView,
    auto_track: bool,
    ids: IdsView,
    placed: PlacedView,
    registry_fault: Option<Seq<char>>,
)
    ensures
        ({
            let (r, next) = register_media_and_add_clip_spec(
                s,
                media,
                entry,
                auto_track,
                ids,
                placed,
                registry_fault,
            );
            &&& r is Err ==> next == s
            &&& r is Ok ==> {
                &&& may_register(s.manifest, media)
                &&& entry.media_ref == media.id
                &&& entry.media_type == media.kind
                &&& entry.source_clip_type == media.kind
                &&& auto_track || may_be_placed(s.timeline, entry)
                &&& entry_holds(entry)
                &&& next.manifest.entries == s.manifest.entries.push(media)
                &&& next.manifest.folders == s.manifest.folders
                &&& r->Ok_0.affected_clip_ids == placed.affected
                &&& auto_track ==> same_timeline(placed.timeline, next.timeline)
                &&& !auto_track ==> same_timeline(
                    TimelineView {
                        tracks: placed.timeline.tracks.filter(
                            |track: TrackView| track.clips.len() > 0,
                        ),
                        ..placed.timeline
                    },
                    next.timeline,
                )
            }
        }),
{
    let (r, next) = register_media_and_add_clip_spec(
        s,
        media,
        entry,
        auto_track,
        ids,
        placed,
        registry_fault,
    );
    let candidate = registered(s, media);
    law_registrations_are_checked(s.manifest, media);
    law_clips_are_added_where_they_may_stand(candidate, seq![entry], placed, registry_fault);
    law_clips_are_added_to_new_tracks(candidate, seq![entry], ids, placed, registry_fault);
    if r is Ok {
        assert(seq![entry][0] == entry);
        let trial = if auto_track {
            add_clips_auto_track_spec(candidate, seq![entry], ids, placed, registry_fault)
        } else {
            add_clips_spec(candidate, seq![entry], placed, registry_fault)
        };
        law_pruning_changes_transitions_alone(trial.1.timeline);
        let u = trial.1.timeline;
        let w = next.timeline;
        assert(same_timeline(u, w));
        let p = if auto_track {
            placed.timeline
        } else {
            TimelineView {
                tracks: placed.timeline.tracks.filter(|track: TrackView| track.clips.len() > 0),
                ..placed.timeline
            }
        };
        assert(same_timeline(p, u));
        lemma_same_twice(p, u, w);
    }
}

proof fn lemma_same_twice(p: TimelineView, u: TimelineView, w: TimelineView)
    requires
        same_timeline(p, u),
        same_timeline(u, w),
    ensures
        same_timeline(p, w),
{
    assert forall|i: int| 0 <= i < p.tracks.len() implies #[trigger] same_track(
        p.tracks[i],
        w.tracks[i],
    ) by {
        lemma_same_track_twice(p.tracks[i], u.tracks[i], w.tracks[i]);
    }
    lemma_same_frame_twice(p, u, w);
}

proof fn lemma_same_frame_twice(p: TimelineView, u: TimelineView, w: TimelineView)
    requires
        same_frame(p, u),
        same_frame(u, w),
    ensures
        same_frame(p, w),
{
    assert forall|k: int| 0 <= k < p.nested_sequences.len() implies #[trigger] same_sequence(
        p.nested_sequences[k],
        w.nested_sequences[k],
    ) by {
        let a = p.nested_sequences[k];
        let b = u.nested_sequences[k];
        let c = w.nested_sequences[k];
        assert(same_sequence(a, b));
        assert(same_sequence(b, c));
        assert forall|i: int| 0 <= i < a.timeline.tracks.len() implies #[trigger] same_track(
            a.timeline.tracks[i],
            c.timeline.tracks[i],
        ) by {
            lemma_same_track_twice(
                a.timeline.tracks[i],
                b.timeline.tracks[i],
                c.timeline.tracks[i],
            );
        }
    }
}

proof fn lemma_same_track_twice(p: TrackView, u: TrackView, w: TrackView)
    requires
        same_track(p, u),
        same_track(u, w),
    ensures
        same_track(p, w),
{
    assert forall|j: int| 0 <= j < p.clips.len() implies #[trigger] same_clip(
        p.clips[j],
        w.clips[j],
    ) by {
        assert(same_clip(p.clips[j], u.clips[j]));
        assert(same_clip(u.clips[j], w.clips[j]));
    }
}

/// A still that freezes a frame is brought in behind the library's own media, or nothing
/// changes: it is an image that may be brought in, the frame lies within a clip that shows
/// a picture, and the still lasts.
pub proof fn law_registered_stills_freeze_their_frame(
    s: StateView,
    media: MediaManifestEntryView,
    id: Seq<char>,
    at_frame: i32,
    duration: i32,
    ripple_fault: Option<Seq<char>>,
    placed: PlacedView,
    registry_fault: Option<Seq<char>>,
    ti: int,
    ci: int,
)
    requires
        first_clip(s.timeline, id, ti, ci),
    ensures
        ({
            let (r, next) = register_media_and_freeze_frame_spec(
                s,
                media,
                id,
                at_frame as int,
                duration as int,
                ripple_fault,
                placed,
                registry_fault,
            );
            let c = s.timeline.tracks[ti].clips[ci];
            &&& r is Err ==> next == s
            &&& r is Ok ==> {
                &&& may_register(s.manifest, media)
                &&& media.kind is Image
                &&& c.start_frame < at_frame < c.start_frame + c.duration_frames
                &&& duration >= 1
                &&& c.media_type is Video || c.media_type is Image
                &&& next.manifest.entries == s.manifest.entries.push(media)
                &&& next.manifest.folders == s.manifest.folders
                &&& same_timeline(placed.timeline, next.timeline)
                &&& r->Ok_0.affected_clip_ids == placed.affected
            }
        }),
{
    let (r, next) = register_media_and_freeze_frame_spec(
        s,
        media,
        id,
        at_frame as int,
        duration as int,
        ripple_fault,
        placed,
        registry_fault,
    );
    let candidate = registered(s, media);
    law_registrations_are_checked(s.manifest, media);
    law_frames_are_frozen_inside(
        candidate,
        id,
        at_frame,
        duration,
        media.id,
        ripple_fault,
        placed,
        registry_fault,
        ti,
        ci,
    );
    if r is Ok {
        let u = freeze_frame_spec(
            candidate,
            id,
            at_frame as int,
            duration as int,
            ripple_fault,
            placed,
            registry_fault,
        ).1.timeline;
        law_pruning_changes_transitions_alone(u);
        lemma_same_twice(placed.timeline, u, next.timeline);
    }
}

} // verus!
