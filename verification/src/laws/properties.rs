//! What assigning properties does to the clips that are named, to those linked with
//! them, and to all others.

use crate::binary64::apart_from_one;
use crate::binary64::retimed_frames;
use crate::binary64::same_number;
use crate::commands::properties::Takeover;
use crate::commands::properties::all_taken_over;
use crate::commands::properties::assigned;
use crate::commands::properties::assigned_duration;
use crate::commands::properties::assigned_ids;
use crate::commands::properties::assigned_props;
use crate::commands::properties::assignment_fault;
use crate::commands::properties::changes_timing;
use crate::commands::properties::clip_assigned;
use crate::commands::properties::clips_assigned;
use crate::commands::properties::fitted_of;
use crate::commands::properties::follower_timings;
use crate::commands::properties::followers;
use crate::commands::properties::list_taken_over;
use crate::commands::properties::partner_timing;
use crate::commands::properties::partners_at;
use crate::commands::properties::per_clip_fault;
use crate::commands::properties::repeated;
use crate::commands::properties::same_timing;
use crate::commands::properties::set_clip_properties_per_clip_spec;
use crate::commands::properties::set_clip_properties_spec;
use crate::commands::properties::taken_over;
use crate::commands::properties::timing_of;
use crate::entries::ClipPropertiesView;
use crate::entries::ClipPropertyAssignmentView;
use crate::laws::document::first_clip;
use crate::laws::document::law_clips_are_found_by_id;
use crate::laws::document::law_pruning_changes_transitions_alone;
use crate::laws::document::same_clip;
use crate::laws::document::same_track;
use crate::laws::frames::law_frame_numbers_are_checked;
use crate::laws::frames::typed_frames_hold;
use crate::laws::numbers::law_encodings_are_told_apart;
use crate::links::id_index;
use crate::locate::locate;
use crate::model::ClipView;
use crate::model::Real;
use crate::model::TimelineView;
use crate::model::TrackView;
use crate::state::StateView;
use crate::transitions::pruned;
use vstd::prelude::*;

verus! {

/// Whether an assignment names a duration, a trim or a speed.
pub open spec fn names_timing(p: ClipPropertiesView) -> bool {
    p.duration_frames is Some || p.trim_start_frame is Some || p.trim_end_frame is Some
        || p.speed is Some
}

/// Whether a clip has the duration, trims and speed that an assignment names.
pub open spec fn has_named_timing(d: ClipView, p: ClipPropertiesView) -> bool {
    &&& p.duration_frames matches Some(n) ==> d.duration_frames == n
    &&& p.trim_start_frame matches Some(n) ==> d.trim_start_frame == n
    &&& p.trim_end_frame matches Some(n) ==> d.trim_end_frame == n
    &&& p.speed matches Some(v) ==> d.speed == v
}

/// Whether a clip has kept the timing that an assignment leaves open: the trims and the
/// speed that it does not name, the duration where it names neither a duration nor a
/// speed, and then its fades and keyframes too.
pub open spec fn kept_open_timing(c: ClipView, d: ClipView, p: ClipPropertiesView) -> bool {
    &&& p.trim_start_frame is None ==> d.trim_start_frame == c.trim_start_frame
    &&& p.trim_end_frame is None ==> d.trim_end_frame == c.trim_end_frame
    &&& p.speed is None ==> d.speed == c.speed
    &&& p.duration_frames is None && p.speed is None ==> d.duration_frames == c.duration_frames
}

/// Whether two clips agree in everything but timing and what follows from it: the
/// fades and keyframes fitted to the length, the measured loudness, and the transition
/// at the end.
pub open spec fn same_beyond_timing(c: ClipView, d: ClipView) -> bool {
    d == (ClipView {
        duration_frames: d.duration_frames,
        trim_start_frame: d.trim_start_frame,
        trim_end_frame: d.trim_end_frame,
        speed: d.speed,
        fade_in_frames: d.fade_in_frames,
        fade_out_frames: d.fade_out_frames,
        opacity_track: d.opacity_track,
        position_track: d.position_track,
        scale_track: d.scale_track,
        rotation_track: d.rotation_track,
        crop_track: d.crop_track,
        volume_track: d.volume_track,
        loudness_normalization: d.loudness_normalization,
        transition_out: d.transition_out,
        ..c
    })
}

/// Whether two clips have the same fades and keyframes.
pub open spec fn same_motion(c: ClipView, d: ClipView) -> bool {
    &&& d.fade_in_frames == c.fade_in_frames
    &&& d.fade_out_frames == c.fade_out_frames
    &&& d.opacity_track == c.opacity_track
    &&& d.position_track == c.position_track
    &&& d.scale_track == c.scale_track
    &&& d.rotation_track == c.rotation_track
    &&& d.crop_track == c.crop_track
    &&& d.volume_track == c.volume_track
}

/// Whether a clip looks and sounds as an assignment says, and as before where the
/// assignment says nothing.
pub open spec fn has_named_looks(c: ClipView, d: ClipView, p: ClipPropertiesView) -> bool {
    &&& d.volume == (if p.volume is Some {
        p.volume->0
    } else {
        c.volume
    })
    &&& d.opacity == (if p.opacity is Some {
        p.opacity->0
    } else {
        c.opacity
    })
    &&& d.crop == (if p.crop is Some {
        p.crop->0
    } else {
        c.crop
    })
    &&& d.text_content == (if p.text_content is Some {
        p.text_content
    } else {
        c.text_content
    })
    &&& d.text_style == (if p.text_style is Some {
        p.text_style
    } else {
        c.text_style
    })
    &&& d.fade_in_interpolation == (if p.fade_in_interpolation is Some {
        p.fade_in_interpolation->0
    } else {
        c.fade_in_interpolation
    })
    &&& d.fade_out_interpolation == (if p.fade_out_interpolation is Some {
        p.fade_out_interpolation->0
    } else {
        c.fade_out_interpolation
    })
    &&& d.reversed == (if p.reversed is Some {
        p.reversed->0
    } else {
        c.reversed
    })
    &&& p.flip_horizontal matches Some(f) ==> d.transform.flip_horizontal == f
    &&& p.flip_vertical matches Some(f) ==> d.transform.flip_vertical == f
    &&& p.transform matches Some(x) ==> {
        &&& d.transform.center_x == x.center_x
        &&& d.transform.center_y == x.center_y
        &&& d.transform.width == x.width
        &&& d.transform.height == x.height
        &&& d.transform.rotation == x.rotation
        &&& p.flip_horizontal is None ==> d.transform.flip_horizontal == x.flip_horizontal
        &&& p.flip_vertical is None ==> d.transform.flip_vertical == x.flip_vertical
    }
    &&& p.transform is None ==> {
        &&& d.transform.center_x == c.transform.center_x
        &&& d.transform.center_y == c.transform.center_y
        &&& d.transform.width == c.transform.width
        &&& d.transform.height == c.transform.height
        &&& d.transform.rotation == c.transform.rotation
        &&& p.flip_horizontal is None ==> d.transform.flip_horizontal
            == c.transform.flip_horizontal
        &&& p.flip_vertical is None ==> d.transform.flip_vertical == c.transform.flip_vertical
    }
    &&& d.caption_translation_input == (if p.text_content is Some {
        None
    } else {
        c.caption_translation_input
    })
}

/// Whether a clip lost the keyframes of the properties that an assignment fixes, and
/// its measured loudness where the assignment changes what is heard.
pub open spec fn lost_fixed_tracks(c: ClipView, d: ClipView, p: ClipPropertiesView) -> bool {
    &&& p.opacity is Some ==> d.opacity_track is None
    &&& p.volume is Some ==> d.volume_track is None
    &&& p.crop is Some ==> d.crop_track is None
    &&& names_timing(p) || p.reversed is Some ==> d.loudness_normalization is None
    &&& !names_timing(p) && p.reversed is None ==> d.loudness_normalization
        == c.loudness_normalization
    &&& p.duration_frames is None && p.speed is None ==> {
        &&& d.position_track == c.position_track
        &&& d.scale_track == c.scale_track
        &&& d.rotation_track == c.rotation_track
        &&& p.opacity is None ==> d.opacity_track == c.opacity_track
        &&& p.volume is None ==> d.volume_track == c.volume_track
        &&& p.crop is None ==> d.crop_track == c.crop_track
        &&& p.fade_in_frames is None && p.fade_out_frames is None ==> d.fade_in_frames
            == c.fade_in_frames && d.fade_out_frames == c.fade_out_frames
    }
}

/// Whether two clips agree in what no assignment touches: identity, medium, place,
/// links, grading, effects, masks and the like.
pub open spec fn same_identity(c: ClipView, d: ClipView) -> bool {
    d == (ClipView {
        duration_frames: d.duration_frames,
        trim_start_frame: d.trim_start_frame,
        trim_end_frame: d.trim_end_frame,
        speed: d.speed,
        volume: d.volume,
        opacity: d.opacity,
        fade_in_frames: d.fade_in_frames,
        fade_out_frames: d.fade_out_frames,
        fade_in_interpolation: d.fade_in_interpolation,
        fade_out_interpolation: d.fade_out_interpolation,
        transform: d.transform,
        crop: d.crop,
        text_content: d.text_content,
        text_style: d.text_style,
        opacity_track: d.opacity_track,
        position_track: d.position_track,
        scale_track: d.scale_track,
        rotation_track: d.rotation_track,
        crop_track: d.crop_track,
        volume_track: d.volume_track,
        reversed: d.reversed,
        loudness_normalization: d.loudness_normalization,
        transition_out: d.transition_out,
        caption_translation_input: d.caption_translation_input,
        ..c
    })
}

/// Whether an assignment takes its timing from another and names nothing else, or names
/// nothing at all.
spec fn only_timing(q: ClipPropertiesView) -> bool {
    q.volume is None && q.opacity is None && q.transform is None && q.text_content is None
        && q.text_style is None && q.crop is None && q.fade_in_frames is None
        && q.fade_out_frames is None && q.fade_in_interpolation is None
        && q.fade_out_interpolation is None && q.flip_horizontal is None && q.flip_vertical is None
        && q.reversed is None
}

spec fn names_nothing(q: ClipPropertiesView) -> bool {
    only_timing(q) && !names_timing(q)
}

/// Whether two timelines have the same clips at the same places, whatever the clips
/// have been assigned.
pub open spec fn same_places(a: TimelineView, b: TimelineView) -> bool {
    &&& b == (TimelineView { tracks: b.tracks, ..a })
    &&& b.tracks.len() == a.tracks.len()
    &&& forall|i: int|
        0 <= i < a.tracks.len() ==> (#[trigger] b.tracks[i]) == (TrackView {
            clips: b.tracks[i].clips,
            ..a.tracks[i]
        }) && b.tracks[i].clips.len() == a.tracks[i].clips.len()
    &&& forall|i: int, j: int|
        0 <= i < a.tracks.len() && 0 <= j < a.tracks[i].clips.len() ==> same_identity(
            a.tracks[i].clips[j],
            #[trigger] b.tracks[i].clips[j],
        )
}

proof fn lemma_places_first(a: TimelineView, b: TimelineView, id: Seq<char>, ti: int, ci: int)
    requires
        same_places(a, b),
        first_clip(a, id, ti, ci),
    ensures
        first_clip(b, id, ti, ci),
        locate(b, id) == Some((ti, ci)),
{
    assert forall|i: int, j: int|
        0 <= i < a.tracks.len() && 0 <= j < a.tracks[i].clips.len() implies (
    #[trigger] b.tracks[i].clips[j]).id == a.tracks[i].clips[j].id by {
        assert(same_identity(a.tracks[i].clips[j], b.tracks[i].clips[j]));
    }
    assert forall|i: int, j: int|
        0 <= i < ti && 0 <= j < b.tracks[i].clips.len() implies (
    #[trigger] b.tracks[i].clips[j]).id != id by {
        assert(a.tracks[i].clips[j].id != id);
    }
    assert forall|j: int| 0 <= j < ci implies (#[trigger] b.tracks[ti].clips[j]).id != id by {
        assert(a.tracks[ti].clips[j].id != id);
    }
    law_clips_are_found_by_id(b, id);
}

proof fn lemma_step(
    t: TimelineView,
    id: Seq<char>,
    q: ClipPropertiesView,
    fitted: Seq<ClipView>,
    ti: int,
    ci: int,
)
    requires
        0 <= ti < t.tracks.len(),
        0 <= ci < t.tracks[ti].clips.len(),
    ensures
        same_places(t, clip_assigned(t, id, q, fitted)),
        ({
            let c = t.tracks[ti].clips[ci];
            let d = clip_assigned(t, id, q, fitted).tracks[ti].clips[ci];
            if locate(t, id) == Some((ti, ci)) {
                d == assigned(c, q, fitted_of(c, q, fitted))
            } else {
                d == c
            }
        }),
{
    law_clips_are_found_by_id(t, id);
    if locate(t, id) is Some {
        let (x, y) = locate(t, id)->0;
        assert(first_clip(t, id, x, y));
    }
}

proof fn lemma_same_places_chain(a: TimelineView, b: TimelineView, c: TimelineView)
    requires
        same_places(a, b),
        same_places(b, c),
    ensures
        same_places(a, c),
{
    assert forall|i: int| 0 <= i < a.tracks.len() implies (#[trigger] c.tracks[i]) == (
    TrackView { clips: c.tracks[i].clips, ..a.tracks[i] })
        && c.tracks[i].clips.len() == a.tracks[i].clips.len() by {
        assert(b.tracks[i].clips.len() == a.tracks[i].clips.len());
    }
    assert forall|i: int, j: int|
        0 <= i < a.tracks.len() && 0 <= j < a.tracks[i].clips.len() implies same_identity(
        a.tracks[i].clips[j],
        #[trigger] c.tracks[i].clips[j],
    ) by {
        assert(same_identity(a.tracks[i].clips[j], b.tracks[i].clips[j]));
        assert(b.tracks[i].clips.len() == a.tracks[i].clips.len());
    }
}

/// What a list of assignments does to the first clip with an id: nothing where none is
/// to that id; otherwise what they have in common.
proof fn lemma_fold(
    t: TimelineView,
    ids: Seq<Seq<char>>,
    props: Seq<ClipPropertiesView>,
    fitted: Seq<ClipView>,
    n: int,
    id: Seq<char>,
    p: ClipPropertiesView,
    ti: int,
    ci: int,
)
    requires
        first_clip(t, id, ti, ci),
        0 <= n <= ids.len(),
        props.len() == ids.len(),
        forall|k: int|
            0 <= k < ids.len() && #[trigger] ids[k] == id ==> props[k].duration_frames
                == p.duration_frames && props[k].trim_start_frame == p.trim_start_frame
                && props[k].trim_end_frame == p.trim_end_frame && props[k].speed == p.speed,
    ensures
        ({
            let c = t.tracks[ti].clips[ci];
            let u = clips_assigned(t, ids, props, fitted, n);
            let d = u.tracks[ti].clips[ci];
            &&& same_places(t, u)
            &&& kept_open_timing(c, d, p)
            &&& has_named_timing(c, p) ==> has_named_timing(d, p)
            &&& (exists|k: int| 0 <= k < n && #[trigger] ids[k] == id) ==> has_named_timing(d, p)
            &&& (forall|k: int| 0 <= k < n && #[trigger] ids[k] == id ==> only_timing(props[k]))
                ==> same_beyond_timing(c, d) && (p.duration_frames is None && p.speed is None
                ==> same_motion(c, d))
            &&& (forall|k: int| 0 <= k < n && #[trigger] ids[k] == id ==> names_nothing(props[k]))
                ==> d == c
            &&& (forall|k: int| 0 <= k < n ==> #[trigger] ids[k] != id) ==> d == c
        }),
    decreases n,
{
    if n > 0 {
        lemma_fold(t, ids, props, fitted, n - 1, id, p, ti, ci);
        let c = t.tracks[ti].clips[ci];
        let u = clips_assigned(t, ids, props, fitted, n - 1);
        let m = u.tracks[ti].clips[ci];
        let q = props[n - 1];
        lemma_places_first(t, u, id, ti, ci);
        lemma_step(u, ids[n - 1], q, fitted, ti, ci);
        let w = clips_assigned(t, ids, props, fitted, n);
        lemma_same_places_chain(t, u, w);
        let d = w.tracks[ti].clips[ci];
        law_clips_are_found_by_id(u, ids[n - 1]);
        if ids[n - 1] != id {
            assert(m.id == id);
            if locate(u, ids[n - 1]) == Some((ti, ci)) {
                assert(first_clip(u, ids[n - 1], ti, ci));
            }
            assert(d == m);
        } else {
            assert(d == assigned(m, q, fitted_of(m, q, fitted)));
            if exists|k: int| 0 <= k < n && #[trigger] ids[k] == id {
                assert(has_named_timing(d, p));
            }
            if names_nothing(q) {
                assert(d == m);
            }
        }
    }
}

/// The clip at a place is as assigned on the timeline that a transaction leaves, but
/// for the transition at its end.
proof fn lemma_pruned_clip(work: TimelineView, ti: int, ci: int)
    requires
        0 <= ti < work.tracks.len(),
        0 <= ci < work.tracks[ti].clips.len(),
    ensures
        same_clip(work.tracks[ti].clips[ci], pruned(work).tracks[ti].clips[ci]),
        pruned(work).tracks.len() == work.tracks.len(),
        pruned(work).tracks[ti].clips.len() == work.tracks[ti].clips.len(),
{
    law_pruning_changes_transitions_alone(work);
    assert(same_track(work.tracks[ti], pruned(work).tracks[ti]));
}

/// Assigning properties to clips, with the clips linked to them following: every linked
/// clip that is no text clip has the duration, trims and speed that were named, keeps
/// the timing that was left open, and changes in nothing but timing and what follows
/// from it. Linked clips that are texts, linked clips where no timing was named or where
/// nothing is to follow, and clips that are neither named nor linked stay as they were.
pub proof fn law_linked_clips_follow_in_timing(
    s: StateView,
    ids: Seq<Seq<char>>,
    p: ClipPropertiesView,
    propagate: bool,
    partners: Seq<Seq<char>>,
    fitted: Seq<ClipView>,
    registry_fault: Option<Seq<char>>,
    id: Seq<char>,
    ti: int,
    ci: int,
)
    requires
        set_clip_properties_spec(s, ids, p, propagate, partners, fitted, registry_fault).0 is Ok,
        first_clip(s.timeline, id, ti, ci),
    ensures
        ({
            let next = set_clip_properties_spec(
                s,
                ids,
                p,
                propagate,
                partners,
                fitted,
                registry_fault,
            ).1;
            let c = s.timeline.tracks[ti].clips[ci];
            let d = next.timeline.tracks[ti].clips[ci];
            let follows = propagate && names_timing(p) && partners.contains(id)
                && !(c.media_type is Text);
            &&& next.manifest == s.manifest
            &&& same_identity(c, d)
            &&& follows ==> has_named_timing(d, p) && kept_open_timing(c, d, p)
            &&& follows && !ids.contains(id) ==> same_beyond_timing(c, d) && (
            p.duration_frames is None && p.speed is None ==> same_motion(c, d))
            &&& !follows && !ids.contains(id) ==> same_clip(c, d)
        }),
{
    let (r, next) = set_clip_properties_spec(
        s,
        ids,
        p,
        propagate,
        partners,
        fitted,
        registry_fault,
    );
    let linked = followers(p, propagate, partners);
    let props1 = repeated(p, ids.len());
    let direct = clips_assigned(s.timeline, ids, props1, fitted, ids.len() as int);
    let props2 = follower_timings(s.timeline, linked, p);
    let work = clips_assigned(direct, linked, props2, fitted, linked.len() as int);
    assert(next.timeline == pruned(work));
    let c = s.timeline.tracks[ti].clips[ci];
    law_clips_are_found_by_id(s.timeline, id);
    lemma_fold(s.timeline, ids, props1, fitted, ids.len() as int, id, p, ti, ci);
    lemma_places_first(s.timeline, direct, id, ti, ci);
    let m = direct.tracks[ti].clips[ci];
    if c.media_type is Text {
        let none = timing_of(p, true);
        lemma_fold(direct, linked, props2, fitted, linked.len() as int, id, none, ti, ci);
        assert forall|k: int| 0 <= k < linked.len() && #[trigger] linked[k] == id implies names_nothing(
            props2[k],
        ) by {}
    } else {
        lemma_fold(direct, linked, props2, fitted, linked.len() as int, id, p, ti, ci);
        assert forall|k: int| 0 <= k < linked.len() && #[trigger] linked[k] == id implies only_timing(
            props2[k],
        ) by {}
    }
    lemma_same_places_chain(s.timeline, direct, work);
    lemma_pruned_clip(work, ti, ci);
    assert(same_identity(c, work.tracks[ti].clips[ci]));
    if !ids.contains(id) {
        assert forall|k: int| 0 <= k < ids.len() implies #[trigger] ids[k] != id by {}
        assert(m == c);
    }
    if propagate && names_timing(p) && partners.contains(id) {
        let k = choose|k: int| 0 <= k < partners.len() && partners[k] == id;
        assert(linked[k] == id);
    } else {
        assert forall|k: int| 0 <= k < linked.len() implies #[trigger] linked[k] != id by {
            if linked[k] == id {
                assert(partners.contains(linked[k]));
            }
        }
    }
}

/// Assigning properties to clips: every clip that is named has each property that was
/// named and keeps each that was not; where it does not follow another too, fixing the
/// opacity, the volume or the crop drops its keyframes.
pub proof fn law_named_clips_take_what_is_named(
    s: StateView,
    ids: Seq<Seq<char>>,
    p: ClipPropertiesView,
    propagate: bool,
    partners: Seq<Seq<char>>,
    fitted: Seq<ClipView>,
    registry_fault: Option<Seq<char>>,
    i: int,
    ti: int,
    ci: int,
)
    requires
        set_clip_properties_spec(s, ids, p, propagate, partners, fitted, registry_fault).0 is Ok,
        0 <= i < ids.len(),
        first_clip(s.timeline, ids[i], ti, ci),
    ensures
        ({
            let next = set_clip_properties_spec(
                s,
                ids,
                p,
                propagate,
                partners,
                fitted,
                registry_fault,
            ).1;
            let c = s.timeline.tracks[ti].clips[ci];
            let d = next.timeline.tracks[ti].clips[ci];
            &&& same_identity(c, d)
            &&& has_named_timing(d, p)
            &&& kept_open_timing(c, d, p)
            &&& has_named_looks(c, d, p)
            &&& !partners.contains(ids[i]) ==> lost_fixed_tracks(c, d, p)
        }),
{
    let id = ids[i];
    law_linked_clips_follow_in_timing(
        s,
        ids,
        p,
        propagate,
        partners,
        fitted,
        registry_fault,
        id,
        ti,
        ci,
    );
    let next = set_clip_properties_spec(
        s,
        ids,
        p,
        propagate,
        partners,
        fitted,
        registry_fault,
    ).1;
    let linked = followers(p, propagate, partners);
    let props1 = repeated(p, ids.len());
    let direct = clips_assigned(s.timeline, ids, props1, fitted, ids.len() as int);
    let props2 = follower_timings(s.timeline, linked, p);
    let work = clips_assigned(direct, linked, props2, fitted, linked.len() as int);
    assert(next.timeline == pruned(work));
    let c = s.timeline.tracks[ti].clips[ci];
    law_clips_are_found_by_id(s.timeline, id);
    lemma_fold(s.timeline, ids, props1, fitted, ids.len() as int, id, p, ti, ci);
    lemma_looks(s.timeline, ids, props1, fitted, ids.len() as int, id, p, ti, ci);
    assert(ids[i] == id);
    lemma_places_first(s.timeline, direct, id, ti, ci);
    let m = direct.tracks[ti].clips[ci];
    assert(has_named_looks(c, m, p));
    if c.media_type is Text {
        let none = timing_of(p, true);
        lemma_fold(direct, linked, props2, fitted, linked.len() as int, id, none, ti, ci);
        assert forall|k: int| 0 <= k < linked.len() && #[trigger] linked[k] == id implies names_nothing(
            props2[k],
        ) by {}
    } else {
        lemma_fold(direct, linked, props2, fitted, linked.len() as int, id, p, ti, ci);
        assert forall|k: int| 0 <= k < linked.len() && #[trigger] linked[k] == id implies only_timing(
            props2[k],
        ) by {}
    }
    lemma_same_places_chain(s.timeline, direct, work);
    lemma_pruned_clip(work, ti, ci);
    let w = work.tracks[ti].clips[ci];
    assert(same_beyond_timing(m, w));
    if !partners.contains(id) {
        assert forall|k: int| 0 <= k < linked.len() implies #[trigger] linked[k] != id by {
            if linked[k] == id {
                assert(partners.contains(linked[k]));
            }
        }
        assert(w == m);
    }
}

/// What the same assignment, made once or more to a clip, leaves of it.
proof fn lemma_looks(
    t: TimelineView,
    ids: Seq<Seq<char>>,
    props: Seq<ClipPropertiesView>,
    fitted: Seq<ClipView>,
    n: int,
    id: Seq<char>,
    p: ClipPropertiesView,
    ti: int,
    ci: int,
)
    requires
        first_clip(t, id, ti, ci),
        0 <= n <= ids.len(),
        props.len() == ids.len(),
        forall|k: int| 0 <= k < ids.len() && #[trigger] ids[k] == id ==> props[k] == p,
    ensures
        ({
            let c = t.tracks[ti].clips[ci];
            let d = clips_assigned(t, ids, props, fitted, n).tracks[ti].clips[ci];
            if exists|k: int| 0 <= k < n && #[trigger] ids[k] == id {
                has_named_looks(c, d, p) && lost_fixed_tracks(c, d, p)
            } else {
                d == c
            }
        }),
    decreases n,
{
    if n > 0 {
        lemma_fold(t, ids, props, fitted, n - 1, id, p, ti, ci);
        lemma_looks(t, ids, props, fitted, n - 1, id, p, ti, ci);
        let u = clips_assigned(t, ids, props, fitted, n - 1);
        let m = u.tracks[ti].clips[ci];
        lemma_places_first(t, u, id, ti, ci);
        lemma_step(u, ids[n - 1], props[n - 1], fitted, ti, ci);
        let d = clips_assigned(t, ids, props, fitted, n).tracks[ti].clips[ci];
        law_clips_are_found_by_id(u, ids[n - 1]);
        if ids[n - 1] != id {
            if locate(u, ids[n - 1]) == Some((ti, ci)) {
                assert(first_clip(u, ids[n - 1], ti, ci));
            }
            assert(d == m);
        } else {
            assert(d == assigned(m, p, fitted_of(m, p, fitted)));
            assert(ids[n - 1] == id);
        }
    }
}

/// Whether a clip has the timing that was named, its speed as a number.
pub open spec fn has_told_timing(d: ClipView, p: ClipPropertiesView) -> bool {
    &&& p.duration_frames matches Some(n) ==> d.duration_frames == n
    &&& p.trim_start_frame matches Some(n) ==> d.trim_start_frame == n
    &&& p.trim_end_frame matches Some(n) ==> d.trim_end_frame == n
    &&& p.speed matches Some(v) ==> d.speed == v || same_number(d.speed, v)
}

spec fn apart(x: Takeover, direct: Seq<Seq<char>>) -> bool {
    &&& x.ids.len() == x.props.len()
    &&& x.ids.no_duplicates()
    &&& forall|k: int| 0 <= k < x.ids.len() ==> !direct.contains(#[trigger] x.ids[k])
}

spec fn covers(t: TimelineView, x: Takeover, id: Seq<char>, p: ClipPropertiesView) -> bool {
    exists|k: int| #[trigger] covers_at(t, x, id, p, k)
}

spec fn covers_at(
    t: TimelineView,
    x: Takeover,
    id: Seq<char>,
    p: ClipPropertiesView,
    k: int,
) -> bool {
    0 <= k < x.ids.len() && x.ids[k] == id && (x.props[k] == partner_timing(t, id, p)
        || same_timing(x.props[k], partner_timing(t, id, p)))
}

spec fn extends(x: Takeover, y: Takeover) -> bool {
    x.ids.len() <= y.ids.len() && forall|k: int|
        0 <= k < x.ids.len() ==> #[trigger] y.ids[k] == x.ids[k] && y.props[k] == x.props[k]
}

proof fn lemma_id_place(ids: Seq<Seq<char>>, id: Seq<char>, from: int)
    requires
        0 <= from,
    ensures
        match id_index(ids, id, from) {
            Some(p) => from <= p < ids.len() && ids[p] == id,
            None => forall|k: int| from <= k < ids.len() ==> #[trigger] ids[k] != id,
        },
    decreases ids.len() - from,
{
    if from < ids.len() && ids[from] != id {
        lemma_id_place(ids, id, from + 1);
    }
}

proof fn lemma_taken(
    t: TimelineView,
    x: Takeover,
    direct: Seq<Seq<char>>,
    p: ClipPropertiesView,
    id: Seq<char>,
)
    requires
        x.conflict is None ==> apart(x, direct),
        taken_over(t, x, direct, p, id).conflict is None,
    ensures
        ({
            let y = taken_over(t, x, direct, p, id);
            &&& x.conflict is None
            &&& apart(y, direct)
            &&& extends(x, y)
            &&& direct.contains(id) || covers(t, y, id, p)
            &&& forall|k: int|
                x.ids.len() <= k < y.ids.len() ==> #[trigger] y.ids[k] == id && y.props[k]
                    == partner_timing(t, id, p)
        }),
{
    let y = taken_over(t, x, direct, p, id);
    lemma_id_place(x.ids, id, 0);
    if !direct.contains(id) {
        match id_index(x.ids, id, 0) {
            Some(k) => {
                assert(covers_at(t, y, id, p, k));
            },
            None => {
                assert(covers_at(t, y, id, p, x.ids.len() as int));
                assert forall|i: int, j: int|
                    0 <= i < y.ids.len() && 0 <= j < y.ids.len() && i != j implies y.ids[i]
                    != y.ids[j] by {
                    if i < x.ids.len() && j < x.ids.len() {
                        assert(x.ids[i] != x.ids[j]);
                    }
                }
            },
        }
    }
}

/// Where each of the clips that follow comes from.
spec fn comes_from(
    t: TimelineView,
    a: Seq<ClipPropertyAssignmentView>,
    partners: Seq<Seq<Seq<char>>>,
    id: Seq<char>,
    q: ClipPropertiesView,
    n: int,
) -> bool {
    exists|m: int|
        0 <= m < n && names_timing((#[trigger] a[m]).properties) && partners_at(
            partners,
            m,
        ).contains(id) && q == partner_timing(t, id, a[m].properties)
}

proof fn lemma_list_taken(
    t: TimelineView,
    x: Takeover,
    direct: Seq<Seq<char>>,
    p: ClipPropertiesView,
    list: Seq<Seq<char>>,
    n: int,
)
    requires
        0 <= n <= list.len(),
        x.conflict is None ==> apart(x, direct),
        list_taken_over(t, x, direct, p, list, n).conflict is None,
    ensures
        ({
            let y = list_taken_over(t, x, direct, p, list, n);
            &&& x.conflict is None
            &&& apart(y, direct)
            &&& extends(x, y)
            &&& forall|l: int|
                0 <= l < n ==> direct.contains(#[trigger] list[l]) || covers(t, y, list[l], p)
            &&& forall|k: int|
                x.ids.len() <= k < y.ids.len() ==> list.contains(#[trigger] y.ids[k])
                    && y.props[k] == partner_timing(t, y.ids[k], p)
        }),
    decreases n,
{
    if n > 0 {
        let z = list_taken_over(t, x, direct, p, list, n - 1);
        let y = list_taken_over(t, x, direct, p, list, n);
        if z.conflict is None {
            lemma_list_taken(t, x, direct, p, list, n - 1);
        }
        lemma_taken(t, z, direct, p, list[n - 1]);
        assert forall|l: int| 0 <= l < n implies direct.contains(#[trigger] list[l]) || covers(
            t,
            y,
            list[l],
            p,
        ) by {
            if l < n - 1 && !direct.contains(list[l]) {
                let k = choose|k: int| #[trigger] covers_at(t, z, list[l], p, k);
                assert(covers_at(t, y, list[l], p, k));
            }
        }
        assert forall|k: int| x.ids.len() <= k < y.ids.len() implies list.contains(
            #[trigger] y.ids[k],
        ) && y.props[k] == partner_timing(t, y.ids[k], p) by {
            if k < z.ids.len() {
                assert(y.ids[k] == z.ids[k]);
                assert(list.contains(z.ids[k]));
            } else {
                assert(list[n - 1] == y.ids[k]);
            }
        }
    }
}

proof fn lemma_all_taken(
    t: TimelineView,
    a: Seq<ClipPropertyAssignmentView>,
    partners: Seq<Seq<Seq<char>>>,
    n: int,
)
    requires
        0 <= n <= a.len(),
        all_taken_over(t, a, partners, n).conflict is None,
    ensures
        ({
            let y = all_taken_over(t, a, partners, n);
            let direct = assigned_ids(a);
            &&& apart(y, direct)
            &&& forall|m: int, id: Seq<char>|
                #![trigger partners_at(partners, m).contains(id)]
                0 <= m < n && names_timing(a[m].properties) && partners_at(partners, m).contains(id)
                    && !direct.contains(id) ==> covers(t, y, id, a[m].properties)
            &&& forall|k: int|
                0 <= k < y.ids.len() ==> comes_from(
                    t,
                    a,
                    partners,
                    #[trigger] y.ids[k],
                    y.props[k],
                    n,
                )
        }),
    decreases n,
{
    if n > 0 {
        let direct = assigned_ids(a);
        let x = all_taken_over(t, a, partners, n - 1);
        let y = all_taken_over(t, a, partners, n);
        let list = partners_at(partners, n - 1);
        let p = a[n - 1].properties;
        if x.conflict is None {
            lemma_all_taken(t, a, partners, n - 1);
        }
        if changes_timing(p) {
            lemma_list_taken(t, x, direct, p, list, list.len() as int);
        }
        assert(x.conflict is None);
        assert forall|m: int, id: Seq<char>|
            #![trigger partners_at(partners, m).contains(id)]
            0 <= m < n && names_timing(a[m].properties) && partners_at(partners, m).contains(id)
                && !direct.contains(id) implies covers(t, y, id, a[m].properties) by {
            if m < n - 1 {
                let k = choose|k: int| #[trigger] covers_at(t, x, id, a[m].properties, k);
                assert(covers_at(t, y, id, a[m].properties, k));
            } else {
                let l = choose|l: int| 0 <= l < list.len() && list[l] == id;
                assert(direct.contains(list[l]) || covers(t, y, list[l], p));
            }
        }
        assert forall|k: int| 0 <= k < y.ids.len() implies comes_from(
            t,
            a,
            partners,
            #[trigger] y.ids[k],
            y.props[k],
            n,
        ) by {
            if k < x.ids.len() {
                assert(comes_from(t, a, partners, x.ids[k], x.props[k], n - 1));
                let m = choose|m: int|
                    0 <= m < n - 1 && names_timing((#[trigger] a[m]).properties) && partners_at(
                        partners,
                        m,
                    ).contains(x.ids[k]) && x.props[k] == partner_timing(
                        t,
                        x.ids[k],
                        a[m].properties,
                    );
                assert(names_timing(a[m].properties));
            } else {
                assert(names_timing(a[n - 1].properties));
            }
        }
    }
}

proof fn lemma_assigned_once(t: TimelineView, a: Seq<ClipPropertyAssignmentView>, from: int)
    requires
        0 <= from,
        per_clip_fault(t, a, from) is None,
    ensures
        forall|i: int, j: int|
            from <= i < a.len() && 0 <= j < i ==> (#[trigger] a[j]).clip_id != (
            #[trigger] a[i]).clip_id,
    decreases a.len() - from,
{
    if from < a.len() {
        lemma_assigned_once(t, a, from + 1);
        assert forall|i: int, j: int| from <= i < a.len() && 0 <= j < i implies (
        #[trigger] a[j]).clip_id != (#[trigger] a[i]).clip_id by {
            if i == from {
                assert(assigned_ids(a)[j] == a[j].clip_id);
            }
        }
    }
}

/// Assigning each clip properties of its own: every clip that is assigned some has each
/// property that was named for it and keeps each that was not; fixing the opacity, the
/// volume or the crop drops its keyframes. No clip is assigned properties twice.
pub proof fn law_each_clip_takes_its_own(
    s: StateView,
    a: Seq<ClipPropertyAssignmentView>,
    partners: Seq<Seq<Seq<char>>>,
    fitted: Seq<ClipView>,
    registry_fault: Option<Seq<char>>,
    i: int,
    ti: int,
    ci: int,
)
    requires
        set_clip_properties_per_clip_spec(s, a, partners, fitted, registry_fault).0 is Ok,
        0 <= i < a.len(),
        first_clip(s.timeline, a[i].clip_id, ti, ci),
    ensures
        ({
            let next = set_clip_properties_per_clip_spec(
                s,
                a,
                partners,
                fitted,
                registry_fault,
            ).1;
            let p = a[i].properties;
            let c = s.timeline.tracks[ti].clips[ci];
            let d = next.timeline.tracks[ti].clips[ci];
            &&& next.manifest == s.manifest
            &&& same_identity(c, d)
            &&& has_named_timing(d, p)
            &&& kept_open_timing(c, d, p)
            &&& has_named_looks(c, d, p)
            &&& lost_fixed_tracks(c, d, p)
            &&& forall|j: int| 0 <= j < a.len() && j != i ==> (#[trigger] a[j]).clip_id
                != a[i].clip_id
        }),
{
    let next = set_clip_properties_per_clip_spec(s, a, partners, fitted, registry_fault).1;
    let t = s.timeline;
    let ids = assigned_ids(a);
    let props = assigned_props(a);
    let id = a[i].clip_id;
    let p = a[i].properties;
    let x = all_taken_over(t, a, partners, a.len() as int);
    let direct = clips_assigned(t, ids, props, fitted, a.len() as int);
    let work = clips_assigned(direct, x.ids, x.props, fitted, x.ids.len() as int);
    assert(next.timeline == pruned(work));
    lemma_assigned_once(t, a, 0);
    lemma_all_taken(t, a, partners, a.len() as int);
    assert(ids[i] == id);
    assert forall|k: int| 0 <= k < ids.len() && #[trigger] ids[k] == id implies props[k] == p by {
        assert(ids[k] == a[k].clip_id);
        assert(k == i);
    }
    lemma_fold(t, ids, props, fitted, a.len() as int, id, p, ti, ci);
    lemma_looks(t, ids, props, fitted, a.len() as int, id, p, ti, ci);
    lemma_places_first(t, direct, id, ti, ci);
    assert forall|k: int| 0 <= k < x.ids.len() implies #[trigger] x.ids[k] != id by {
        assert(!ids.contains(x.ids[k]));
        assert(ids.contains(id));
    }
    lemma_fold(direct, x.ids, x.props, fitted, x.ids.len() as int, id, p, ti, ci);
    lemma_same_places_chain(t, direct, work);
    lemma_pruned_clip(work, ti, ci);
}

/// Assigning each clip properties of its own, with the clips linked to them following: a
/// linked clip that is assigned none itself and is no text clip has the timing that was
/// named for the clip it is linked to; it changes in nothing else. A clip that neither is
/// assigned properties nor follows stays as it was, but for transitions.
pub proof fn law_linked_clips_follow_their_own(
    s: StateView,
    a: Seq<ClipPropertyAssignmentView>,
    partners: Seq<Seq<Seq<char>>>,
    fitted: Seq<ClipView>,
    registry_fault: Option<Seq<char>>,
    id: Seq<char>,
    ti: int,
    ci: int,
)
    requires
        set_clip_properties_per_clip_spec(s, a, partners, fitted, registry_fault).0 is Ok,
        first_clip(s.timeline, id, ti, ci),
        forall|j: int| 0 <= j < a.len() ==> (#[trigger] a[j]).clip_id != id,
    ensures
        ({
            let next = set_clip_properties_per_clip_spec(
                s,
                a,
                partners,
                fitted,
                registry_fault,
            ).1;
            let c = s.timeline.tracks[ti].clips[ci];
            let d = next.timeline.tracks[ti].clips[ci];
            &&& same_identity(c, d)
            &&& forall|m: int|
                0 <= m < a.len() && m < partners.len() && names_timing(
                    (#[trigger] a[m]).properties,
                ) && partners[m].contains(id) && !(c.media_type is Text) ==> has_told_timing(
                    d,
                    a[m].properties,
                )
            &&& same_beyond_timing(c, d)
            &&& (forall|m: int|
                0 <= m < a.len() && m < partners.len() && names_timing(
                    (#[trigger] a[m]).properties,
                ) ==> !partners[m].contains(id)) ==> same_clip(c, d)
        }),
{
    let next = set_clip_properties_per_clip_spec(s, a, partners, fitted, registry_fault).1;
    let t = s.timeline;
    let ids = assigned_ids(a);
    let props = assigned_props(a);
    let c = t.tracks[ti].clips[ci];
    let x = all_taken_over(t, a, partners, a.len() as int);
    let direct = clips_assigned(t, ids, props, fitted, a.len() as int);
    let work = clips_assigned(direct, x.ids, x.props, fitted, x.ids.len() as int);
    let none = timing_of(a[0].properties, true);
    assert(next.timeline == pruned(work));
    law_clips_are_found_by_id(t, id);
    lemma_all_taken(t, a, partners, a.len() as int);
    assert forall|k: int| 0 <= k < ids.len() implies #[trigger] ids[k] != id by {
        assert(ids[k] == a[k].clip_id);
    }
    assert(!ids.contains(id));
    lemma_fold(t, ids, props, fitted, a.len() as int, id, none, ti, ci);
    lemma_places_first(t, direct, id, ti, ci);
    assert(direct.tracks[ti].clips[ci] == c);
    lemma_id_place(x.ids, id, 0);
    match id_index(x.ids, id, 0) {
        None => {
            lemma_fold(direct, x.ids, x.props, fitted, x.ids.len() as int, id, none, ti, ci);
        },
        Some(k0) => {
            let q = x.props[k0];
            assert forall|k: int| 0 <= k < x.ids.len() && #[trigger] x.ids[k] == id implies k
                == k0 by {}
            assert(comes_from(t, a, partners, x.ids[k0], q, a.len() as int));
            assert(only_timing(q));
            lemma_fold(direct, x.ids, x.props, fitted, x.ids.len() as int, id, q, ti, ci);
            assert(x.ids[k0] == id);
            let w = work.tracks[ti].clips[ci];
            assert(has_named_timing(w, q));
        },
    }
    lemma_same_places_chain(t, direct, work);
    lemma_pruned_clip(work, ti, ci);
    let d = next.timeline.tracks[ti].clips[ci];
    assert forall|m: int|
        0 <= m < a.len() && m < partners.len() && names_timing((#[trigger] a[m]).properties)
            && partners[m].contains(id) && !(c.media_type is Text) implies has_told_timing(
        d,
        a[m].properties,
    ) by {
        assert(partners_at(partners, m).contains(id));
        assert(covers(t, x, id, a[m].properties));
        let k = choose|k: int| #[trigger] covers_at(t, x, id, a[m].properties, k);
        assert(x.ids[k] == id);
    }
}

/// How long a clip is once properties are assigned to it: as long as named; where a speed is
/// named alone, as long as it takes to show the same at that speed, a frame at least.
pub open spec fn named_duration(c: ClipView, p: ClipPropertiesView) -> int {
    if p.duration_frames is Some {
        p.duration_frames->0 as int
    } else if p.speed is Some && c.duration_frames > 0 && 1 <= c.speed.bits
        <= 0x7FEF_FFFF_FFFF_FFFF {
        let frames = retimed_frames(c.duration_frames as nat, c.speed, p.speed->0);
        if frames >= 1 {
            frames as int
        } else {
            1
        }
    } else {
        c.duration_frames as int
    }
}

/// Properties may be assigned to a clip exactly where its speed would be a positive number,
/// its frame numbers would hold, and, on a clip that shows a sequence, neither another
/// speed, a reversal, a crop nor a text is named.
pub proof fn law_assignments_are_checked(
    t: TimelineView,
    id: Seq<char>,
    p: ClipPropertiesView,
    ti: int,
    ci: int,
)
    requires
        first_clip(t, id, ti, ci),
    ensures
        ({
            let c = t.tracks[ti].clips[ci];
            let speed = if p.speed is Some {
                p.speed->0
            } else {
                c.speed
            };
            let zero = Real { bits: 0 };
            assignment_fault(t, id, p) is None <==> {
                &&& c.nested_sequence_id is Some ==> {
                    &&& p.speed is None || !apart_from_one(p.speed->0)
                    &&& p.reversed != Some(true)
                    &&& p.text_content is None
                    &&& p.text_style is None
                    &&& p.crop is None || (same_number((p.crop->0).left, zero) && same_number(
                        (p.crop->0).top,
                        zero,
                    ) && same_number((p.crop->0).right, zero) && same_number(
                        (p.crop->0).bottom,
                        zero,
                    ))
                }
                &&& 1 <= speed.bits <= 0x7FEF_FFFF_FFFF_FFFF
                &&& p.speed is Some && p.duration_frames is None ==> retimed_frames(
                    c.duration_frames as nat,
                    c.speed,
                    speed,
                ) <= i32::MAX
                &&& typed_frames_hold(
                    c.start_frame as int,
                    named_duration(c, p),
                    if p.trim_start_frame is Some {
                        p.trim_start_frame->0 as int
                    } else {
                        c.trim_start_frame as int
                    },
                    if p.trim_end_frame is Some {
                        p.trim_end_frame->0 as int
                    } else {
                        c.trim_end_frame as int
                    },
                    speed,
                    c.media_type,
                )
            }
        }),
{
    let c = t.tracks[ti].clips[ci];
    law_clips_are_found_by_id(t, id);
    assert(locate(t, id) == Some((ti, ci)));
    let speed = if p.speed is Some {
        p.speed->0
    } else {
        c.speed
    };
    law_encodings_are_told_apart(speed);
    law_encodings_are_told_apart(c.speed);
    law_frame_numbers_are_checked(
        c.start_frame as int,
        assigned_duration(c, p),
        if p.trim_start_frame is Some {
            p.trim_start_frame->0 as int
        } else {
            c.trim_start_frame as int
        },
        if p.trim_end_frame is Some {
            p.trim_end_frame->0 as int
        } else {
            c.trim_end_frame as int
        },
        speed,
        c.media_type,
        "clip "@ + id,
    );
}

} // verus!
