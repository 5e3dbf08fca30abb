//! What setting an effect does to the clips that are named and to all others.

use crate::commands::effects::ClipChangeView;
use crate::commands::effects::MaskLimits;
use crate::commands::effects::adjust_stabilization_spec;
use crate::commands::effects::apply_color_match_spec;
use crate::commands::effects::apply_stabilization_spec;
use crate::commands::effects::changed_clip;
use crate::commands::effects::clips_changed;
use crate::commands::effects::compound_target;
use crate::commands::effects::law_assignments_last;
use crate::commands::effects::mask_fault;
use crate::commands::effects::masks_fault;
use crate::commands::effects::pixel_effect_spec;
use crate::commands::effects::reset_stabilization_spec;
use crate::commands::effects::set_audio_denoise_spec;
use crate::commands::effects::set_chroma_key_spec;
use crate::commands::effects::set_color_grade_spec;
use crate::commands::effects::set_effects_spec;
use crate::commands::effects::set_field_spec;
use crate::commands::effects::set_loudness_normalization_spec;
use crate::commands::effects::set_lut_spec;
use crate::commands::effects::set_masks_spec;
use crate::commands::effects::setting_fault;
use crate::laws::document::first_clip;
use crate::laws::document::has_clip;
use crate::laws::document::law_clips_are_found_by_id;
use crate::laws::document::law_pruning_changes_transitions_alone;
use crate::laws::document::same_clip;
use crate::laws::document::same_frame;
use crate::laws::document::same_track;
use crate::laws::keyframes::lemma_one_clip_edited;
use crate::laws::keyframes::same_elsewhere;
use crate::laws::linking::law_missing_clips_are_told;
use crate::locate::locate;
use crate::model::ClipView;
use crate::model::Interpolation;
use crate::model::MaskView;
use crate::model::Real;
use crate::model::SettingView;
use crate::model::StabilizationTrackView;
use crate::model::TimelineView;
use crate::model::TrackView;
use crate::model::Transform;
use crate::state::StateView;
use crate::transitions::pruned;
use vstd::prelude::*;

verus! {

/// Whether two timelines have the same clips at the same places: the same ids, spans and
/// tracks.
pub open spec fn same_layout(a: TimelineView, b: TimelineView) -> bool {
    &&& same_frame(a, b)
    &&& b.tracks.len() == a.tracks.len()
    &&& forall|i: int|
        0 <= i < a.tracks.len() ==> (#[trigger] b.tracks[i]) == (TrackView {
            clips: b.tracks[i].clips,
            ..a.tracks[i]
        }) && b.tracks[i].clips.len() == a.tracks[i].clips.len()
}

/// Whether some of the named clips is a compound.
pub open spec fn names_compound(t: TimelineView, ids: Seq<Seq<char>>) -> bool {
    exists|k: int, ti: int, ci: int|
        0 <= k < ids.len() && #[trigger] first_clip(t, ids[k], ti, ci)
            && t.tracks[ti].clips[ci].nested_sequence_id is Some
}

/// Whether all named clips are there, and there is one.
pub open spec fn all_there(t: TimelineView, ids: Seq<Seq<char>>) -> bool {
    ids.len() > 0 && forall|k: int| 0 <= k < ids.len() ==> has_clip(t, #[trigger] ids[k])
}

pub proof fn lemma_changed(
    t: TimelineView,
    ids: Seq<Seq<char>>,
    change: ClipChangeView,
    n: int,
    ti: int,
    ci: int,
)
    requires
        0 <= n <= ids.len(),
        0 <= ti < t.tracks.len(),
        0 <= ci < t.tracks[ti].clips.len(),
    ensures
        ({
            let u = clips_changed(t, ids, change, n);
            let c = t.tracks[ti].clips[ci];
            let d = u.tracks[ti].clips[ci];
            &&& u == (TimelineView { tracks: u.tracks, ..t })
            &&& u.tracks.len() == t.tracks.len()
            &&& forall|i: int|
                0 <= i < t.tracks.len() ==> (#[trigger] u.tracks[i]) == (TrackView {
                    clips: u.tracks[i].clips,
                    ..t.tracks[i]
                }) && u.tracks[i].clips.len() == t.tracks[i].clips.len()
            &&& forall|i: int, j: int|
                0 <= i < t.tracks.len() && 0 <= j < t.tracks[i].clips.len() ==> (
                #[trigger] u.tracks[i].clips[j]).id == t.tracks[i].clips[j].id
            &&& d == (if first_clip(t, c.id, ti, ci) && exists|k: int|
                0 <= k < n && #[trigger] ids[k] == c.id {
                changed_clip(c, change)
            } else {
                c
            })
        }),
    decreases n,
{
    if n > 0 {
        lemma_changed(t, ids, change, n - 1, ti, ci);
        let u = clips_changed(t, ids, change, n - 1);
        let w = clips_changed(t, ids, change, n);
        let id = ids[n - 1];
        let c = t.tracks[ti].clips[ci];
        law_clips_are_found_by_id(u, id);
        law_clips_are_found_by_id(t, id);
        lemma_firsts_kept(t, u, id);
        law_assignments_last(c, change);
        if let Some((x, y)) = locate(u, id) {
            assert(first_clip(u, id, x, y));
        }
        if id == c.id {
            assert(ids[n - 1] == c.id);
        }
        if exists|k: int| 0 <= k < n - 1 && #[trigger] ids[k] == c.id {
            let k = choose|k: int| 0 <= k < n - 1 && #[trigger] ids[k] == c.id;
            assert(ids[k] == c.id);
        }
    }
}

/// Clips that keep their ids keep being the first with them.
pub proof fn lemma_firsts_kept(a: TimelineView, b: TimelineView, id: Seq<char>)
    requires
        b.tracks.len() == a.tracks.len(),
        forall|i: int|
            0 <= i < a.tracks.len() ==> (#[trigger] b.tracks[i]).clips.len()
                == a.tracks[i].clips.len(),
        forall|i: int, j: int|
            0 <= i < a.tracks.len() && 0 <= j < a.tracks[i].clips.len() ==> (
            #[trigger] b.tracks[i].clips[j]).id == a.tracks[i].clips[j].id,
    ensures
        forall|x: int, y: int| #[trigger] first_clip(a, id, x, y) <==> first_clip(b, id, x, y),
{
    assert forall|x: int, y: int| #[trigger] first_clip(a, id, x, y) implies first_clip(
        b,
        id,
        x,
        y,
    ) by {
        assert forall|i: int, j: int|
            0 <= i < x && 0 <= j < b.tracks[i].clips.len() implies (
        #[trigger] b.tracks[i].clips[j]).id != id by {
            assert(a.tracks[i].clips[j].id != id);
        }
        assert forall|j: int| 0 <= j < y implies (#[trigger] b.tracks[x].clips[j]).id != id by {
            assert(a.tracks[x].clips[j].id != id);
        }
    }
    assert forall|x: int, y: int| first_clip(b, id, x, y) implies #[trigger] first_clip(
        a,
        id,
        x,
        y,
    ) by {
        assert forall|i: int, j: int|
            0 <= i < x && 0 <= j < a.tracks[i].clips.len() implies (
        #[trigger] a.tracks[i].clips[j]).id != id by {
            assert(b.tracks[i].clips[j].id != id);
        }
        assert forall|j: int| 0 <= j < y implies (#[trigger] a.tracks[x].clips[j]).id != id by {
            assert(b.tracks[x].clips[j].id != id);
        }
    }
}

/// Setting a field of clips: the first clip with each named id is changed, all other
/// clips stay as they were, and all named clips have to be there.
proof fn lemma_field_set(
    s: StateView,
    ids: Seq<Seq<char>>,
    action: Seq<char>,
    change: ClipChangeView,
    registry_fault: Option<Seq<char>>,
    ti: int,
    ci: int,
)
    requires
        0 <= ti < s.timeline.tracks.len(),
        0 <= ci < s.timeline.tracks[ti].clips.len(),
    ensures
        ({
            let (r, next) = set_field_spec(s, ids, action, change, registry_fault);
            let c = s.timeline.tracks[ti].clips[ci];
            let d = next.timeline.tracks[ti].clips[ci];
            &&& r is Err ==> next == s
            &&& r is Ok ==> {
                &&& all_there(s.timeline, ids)
                &&& next.manifest == s.manifest
                &&& same_layout(s.timeline, next.timeline)
                &&& if ids.contains(c.id) && first_clip(s.timeline, c.id, ti, ci) {
                    same_clip(changed_clip(c, change), d)
                } else {
                    same_clip(c, d)
                }
            }
        }),
{
    let t = s.timeline;
    let (r, next) = set_field_spec(s, ids, action, change, registry_fault);
    law_missing_clips_are_told(t, ids, 0);
    if r is Ok {
        let n = ids.len() as int;
        let work = clips_changed(t, ids, change, n);
        assert(next.timeline == pruned(work));
        law_pruning_changes_transitions_alone(work);
        lemma_changed(t, ids, change, n, ti, ci);
        assert forall|i: int| 0 <= i < t.tracks.len() implies (#[trigger] next.timeline.tracks[i])
            == (TrackView { clips: next.timeline.tracks[i].clips, ..t.tracks[i] })
            && next.timeline.tracks[i].clips.len() == t.tracks[i].clips.len() by {
            assert(same_track(work.tracks[i], next.timeline.tracks[i]));
        }
        assert(same_track(work.tracks[ti], next.timeline.tracks[ti]));
        let c = t.tracks[ti].clips[ci];
        if ids.contains(c.id) {
            let k = choose|k: int| 0 <= k < ids.len() && ids[k] == c.id;
            assert(ids[k] == c.id);
        } else {
            assert forall|k: int| 0 <= k < n implies #[trigger] ids[k] != c.id by {}
        }
    }
}

proof fn lemma_compound_named(t: TimelineView, ids: Seq<Seq<char>>, from: int)
    requires
        0 <= from,
    ensures
        compound_target(t, ids, from) is None ==> forall|k: int, ti: int, ci: int|
            from <= k < ids.len() && #[trigger] first_clip(t, ids[k], ti, ci)
                ==> t.tracks[ti].clips[ci].nested_sequence_id is None,
    decreases ids.len() - from,
{
    if from < ids.len() {
        law_clips_are_found_by_id(t, ids[from]);
        lemma_compound_named(t, ids, from + 1);
    }
}

/// A pixel effect: what setting a field promises; adding one is refused where its
/// setting is faulty or a named clip is a compound.
proof fn lemma_pixel_effect(
    s: StateView,
    ids: Seq<Seq<char>>,
    fault: Option<Seq<char>>,
    adding: bool,
    action: Seq<char>,
    change: ClipChangeView,
    registry_fault: Option<Seq<char>>,
    ti: int,
    ci: int,
)
    requires
        0 <= ti < s.timeline.tracks.len(),
        0 <= ci < s.timeline.tracks[ti].clips.len(),
    ensures
        ({
            let (r, next) = pixel_effect_spec(
                s,
                ids,
                fault,
                adding,
                action,
                change,
                registry_fault,
            );
            let c = s.timeline.tracks[ti].clips[ci];
            let d = next.timeline.tracks[ti].clips[ci];
            &&& r is Err ==> next == s
            &&& fault is Some ==> r is Err
            &&& adding && names_compound(s.timeline, ids) ==> r is Err
            &&& r is Ok ==> {
                &&& all_there(s.timeline, ids)
                &&& next.manifest == s.manifest
                &&& same_layout(s.timeline, next.timeline)
                &&& if ids.contains(c.id) && first_clip(s.timeline, c.id, ti, ci) {
                    same_clip(changed_clip(c, change), d)
                } else {
                    same_clip(c, d)
                }
            }
        }),
{
    lemma_field_set(s, ids, action, change, registry_fault, ti, ci);
    lemma_compound_named(s.timeline, ids, 0);
}

/// Setting a color grade sets it on the named clips, forgets what it was matched to, and
/// changes nothing else. A faulty grade, or one for a compound, is refused.
pub proof fn law_color_grades_are_set(
    s: StateView,
    ids: Seq<Seq<char>>,
    grade: Option<SettingView>,
    fault: Option<Seq<char>>,
    registry_fault: Option<Seq<char>>,
    ti: int,
    ci: int,
)
    requires
        0 <= ti < s.timeline.tracks.len(),
        0 <= ci < s.timeline.tracks[ti].clips.len(),
    ensures
        ({
            let (r, next) = set_color_grade_spec(s, ids, grade, fault, registry_fault);
            let c = s.timeline.tracks[ti].clips[ci];
            let d = next.timeline.tracks[ti].clips[ci];
            &&& r is Err ==> next == s
            &&& grade is Some && (fault is Some || names_compound(s.timeline, ids)) ==> r is Err
            &&& r is Ok ==> {
                &&& all_there(s.timeline, ids)
                &&& next.manifest == s.manifest
                &&& same_layout(s.timeline, next.timeline)
                &&& if ids.contains(c.id) && first_clip(s.timeline, c.id, ti, ci) {
                    d == (ClipView { color_grade: grade, color_match_input: None, transition_out: d.transition_out, ..c })
                } else {
                    same_clip(c, d)
                }
            }
        }),
{
    lemma_pixel_effect(
        s,
        ids,
        setting_fault("invalid color grade: "@, fault, grade is Some),
        grade is Some,
        "Set Color Grade"@,
        ClipChangeView::ColorGrade(grade),
        registry_fault,
        ti,
        ci,
    );
}

/// Matching colors sets the grade and what it was matched to on the named clip, and
/// changes nothing else.
pub proof fn law_color_matches_are_set(
    s: StateView,
    id: Seq<char>,
    grade: SettingView,
    input: SettingView,
    fault: Option<Seq<char>>,
    registry_fault: Option<Seq<char>>,
    ti: int,
    ci: int,
)
    requires
        0 <= ti < s.timeline.tracks.len(),
        0 <= ci < s.timeline.tracks[ti].clips.len(),
    ensures
        ({
            let (r, next) = apply_color_match_spec(s, id, grade, input, fault, registry_fault);
            let c = s.timeline.tracks[ti].clips[ci];
            let d = next.timeline.tracks[ti].clips[ci];
            &&& r is Err ==> next == s
            &&& fault is Some || names_compound(s.timeline, seq![id]) ==> r is Err
            &&& r is Ok ==> {
                &&& all_there(s.timeline, seq![id])
                &&& next.manifest == s.manifest
                &&& same_layout(s.timeline, next.timeline)
                &&& if seq![id].contains(c.id) && first_clip(s.timeline, c.id, ti, ci) {
                    d == (ClipView { color_grade: Some(grade), color_match_input: Some(input), transition_out: d.transition_out, ..c })
                } else {
                    same_clip(c, d)
                }
            }
        }),
{
    lemma_pixel_effect(
        s,
        seq![id],
        setting_fault("invalid color match grade: "@, fault, true),
        true,
        "Match Color"@,
        ClipChangeView::ColorMatch { grade, input },
        registry_fault,
        ti,
        ci,
    );
}

/// Setting a lookup table sets it on the named clips and changes nothing else. A faulty
/// one, or one for a compound, is refused.
pub proof fn law_luts_are_set(
    s: StateView,
    ids: Seq<Seq<char>>,
    lut: Option<SettingView>,
    fault: Option<Seq<char>>,
    registry_fault: Option<Seq<char>>,
    ti: int,
    ci: int,
)
    requires
        0 <= ti < s.timeline.tracks.len(),
        0 <= ci < s.timeline.tracks[ti].clips.len(),
    ensures
        ({
            let (r, next) = set_lut_spec(s, ids, lut, fault, registry_fault);
            let c = s.timeline.tracks[ti].clips[ci];
            let d = next.timeline.tracks[ti].clips[ci];
            &&& r is Err ==> next == s
            &&& lut is Some && (fault is Some || names_compound(s.timeline, ids)) ==> r is Err
            &&& r is Ok ==> {
                &&& all_there(s.timeline, ids)
                &&& next.manifest == s.manifest
                &&& same_layout(s.timeline, next.timeline)
                &&& if ids.contains(c.id) && first_clip(s.timeline, c.id, ti, ci) {
                    d == (ClipView { lut: lut, transition_out: d.transition_out, ..c })
                } else {
                    same_clip(c, d)
                }
            }
        }),
{
    lemma_pixel_effect(
        s,
        ids,
        setting_fault("invalid LUT reference: "@, fault, lut is Some),
        lut is Some,
        "Set LUT"@,
        ClipChangeView::Lut(lut),
        registry_fault,
        ti,
        ci,
    );
}

/// Setting a chroma key sets it on the named clips and changes nothing else. One for a
/// compound is refused.
pub proof fn law_chroma_keys_are_set(
    s: StateView,
    ids: Seq<Seq<char>>,
    key: Option<SettingView>,
    registry_fault: Option<Seq<char>>,
    ti: int,
    ci: int,
)
    requires
        0 <= ti < s.timeline.tracks.len(),
        0 <= ci < s.timeline.tracks[ti].clips.len(),
    ensures
        ({
            let (r, next) = set_chroma_key_spec(s, ids, key, registry_fault);
            let c = s.timeline.tracks[ti].clips[ci];
            let d = next.timeline.tracks[ti].clips[ci];
            &&& r is Err ==> next == s
            &&& key is Some && names_compound(s.timeline, ids) ==> r is Err
            &&& r is Ok ==> {
                &&& all_there(s.timeline, ids)
                &&& next.manifest == s.manifest
                &&& same_layout(s.timeline, next.timeline)
                &&& if ids.contains(c.id) && first_clip(s.timeline, c.id, ti, ci) {
                    d == (ClipView { chroma_key: key, transition_out: d.transition_out, ..c })
                } else {
                    same_clip(c, d)
                }
            }
        }),
{
    lemma_pixel_effect(
        s,
        ids,
        None,
        key is Some,
        "Set Chroma Key"@,
        ClipChangeView::ChromaKey(key),
        registry_fault,
        ti,
        ci,
    );
}

/// Setting effects sets them on the named clips and changes nothing else. Faulty ones, or
/// any for a compound, are refused.
pub proof fn law_effects_are_set(
    s: StateView,
    ids: Seq<Seq<char>>,
    effects: Seq<SettingView>,
    fault: Option<Seq<char>>,
    registry_fault: Option<Seq<char>>,
    ti: int,
    ci: int,
)
    requires
        0 <= ti < s.timeline.tracks.len(),
        0 <= ci < s.timeline.tracks[ti].clips.len(),
    ensures
        ({
            let (r, next) = set_effects_spec(s, ids, effects, fault, registry_fault);
            let c = s.timeline.tracks[ti].clips[ci];
            let d = next.timeline.tracks[ti].clips[ci];
            &&& r is Err ==> next == s
            &&& fault is Some || (effects.len() > 0 && names_compound(s.timeline, ids)) ==> r is Err
            &&& r is Ok ==> {
                &&& all_there(s.timeline, ids)
                &&& next.manifest == s.manifest
                &&& same_layout(s.timeline, next.timeline)
                &&& if ids.contains(c.id) && first_clip(s.timeline, c.id, ti, ci) {
                    d == (ClipView { effects: effects, transition_out: d.transition_out, ..c })
                } else {
                    same_clip(c, d)
                }
            }
        }),
{
    lemma_pixel_effect(
        s,
        ids,
        fault,
        effects.len() > 0,
        "Set Effects"@,
        ClipChangeView::Effects(effects),
        registry_fault,
        ti,
        ci,
    );
}

/// Masks are at fault exactly when there are too many, or one is a polygon of fewer than
/// three or too many points.
pub proof fn law_masks_within_limits(masks: Seq<MaskView>, limits: MaskLimits)
    ensures
        masks_fault(masks, limits) is None <==> masks.len() <= limits.per_clip && forall|k: int|
            0 <= k < masks.len() ==> ((#[trigger] masks[k]).polygon_points is Some ==> 3
                <= masks[k].polygon_points->0 <= limits.polygon_points),
{
    lemma_mask_fault(masks, limits, 0);
}

proof fn lemma_mask_fault(masks: Seq<MaskView>, limits: MaskLimits, from: int)
    requires
        0 <= from,
    ensures
        mask_fault(masks, limits, from) is None <==> forall|k: int|
            from <= k < masks.len() ==> ((#[trigger] masks[k]).polygon_points is Some ==> 3
                <= masks[k].polygon_points->0 <= limits.polygon_points),
    decreases masks.len() - from,
{
    if from < masks.len() {
        lemma_mask_fault(masks, limits, from + 1);
    }
}

/// Setting masks sets them on the named clips and changes nothing else. Masks beyond the
/// limits, or any for a compound, are refused.
pub proof fn law_masks_are_set(
    s: StateView,
    ids: Seq<Seq<char>>,
    masks: Seq<MaskView>,
    limits: MaskLimits,
    registry_fault: Option<Seq<char>>,
    ti: int,
    ci: int,
)
    requires
        0 <= ti < s.timeline.tracks.len(),
        0 <= ci < s.timeline.tracks[ti].clips.len(),
    ensures
        ({
            let (r, next) = set_masks_spec(s, ids, masks, limits, registry_fault);
            let c = s.timeline.tracks[ti].clips[ci];
            let d = next.timeline.tracks[ti].clips[ci];
            &&& r is Err ==> next == s
            &&& masks.len() > limits.per_clip || (masks.len() > 0 && names_compound(s.timeline, ids)) ==> r is Err
            &&& r is Ok ==> {
                &&& all_there(s.timeline, ids)
                &&& next.manifest == s.manifest
                &&& same_layout(s.timeline, next.timeline)
                &&& if ids.contains(c.id) && first_clip(s.timeline, c.id, ti, ci) {
                    d == (ClipView { masks: masks, transition_out: d.transition_out, ..c })
                } else {
                    same_clip(c, d)
                }
            }
        }),
{
    lemma_pixel_effect(
        s,
        ids,
        masks_fault(masks, limits),
        masks.len() > 0,
        "Set Masks"@,
        ClipChangeView::Masks(masks),
        registry_fault,
        ti,
        ci,
    );
}

/// Normalizing loudness sets the measure on the named clip, or takes it off, and changes
/// nothing else; the clip carries sound and is no compound.
pub proof fn law_loudness_is_set(
    s: StateView,
    id: Seq<char>,
    setting: Option<SettingView>,
    fault: Option<Seq<char>>,
    registry_fault: Option<Seq<char>>,
    ti: int,
    ci: int,
)
    requires
        first_clip(s.timeline, id, ti, ci),
    ensures
        ({
            let (r, next) = set_loudness_normalization_spec(s, id, setting, fault, registry_fault);
            let c = s.timeline.tracks[ti].clips[ci];
            let d = next.timeline.tracks[ti].clips[ci];
            &&& r is Err ==> next == s
            &&& setting is Some && fault is Some ==> r is Err
            &&& r is Ok ==> {
                &&& c.media_type is Audio || c.media_type is Video
                &&& c.nested_sequence_id is None
                &&& next.manifest == s.manifest
                &&& same_elsewhere(s.timeline, next.timeline, ti, ci)
                &&& d == (ClipView {
                    loudness_normalization: setting,
                    transition_out: d.transition_out,
                    ..c
                })
            }
        }),
{
    law_clips_are_found_by_id(s.timeline, id);
    let (r, next) = set_loudness_normalization_spec(s, id, setting, fault, registry_fault);
    if r is Ok {
        lemma_one_clip_edited(
            s,
            if setting is Some {
                "Normalize Loudness"@
            } else {
                "Reset Loudness"@
            },
            "Updated clip loudness"@,
            id,
            ClipView { loudness_normalization: setting, ..s.timeline.tracks[ti].clips[ci] },
            registry_fault,
            ti,
            ci,
        );
    }
}

/// Denoising sets the setting on the named clip, or takes it off, and changes nothing
/// else; the clip carries sound and is no compound.
pub proof fn law_denoising_is_set(
    s: StateView,
    id: Seq<char>,
    setting: Option<SettingView>,
    fault: Option<Seq<char>>,
    registry_fault: Option<Seq<char>>,
    ti: int,
    ci: int,
)
    requires
        first_clip(s.timeline, id, ti, ci),
    ensures
        ({
            let (r, next) = set_audio_denoise_spec(s, id, setting, fault, registry_fault);
            let c = s.timeline.tracks[ti].clips[ci];
            let d = next.timeline.tracks[ti].clips[ci];
            &&& r is Err ==> next == s
            &&& setting is Some && fault is Some ==> r is Err
            &&& r is Ok ==> {
                &&& c.media_type is Audio || c.media_type is Video
                &&& c.nested_sequence_id is None
                &&& next.manifest == s.manifest
                &&& same_elsewhere(s.timeline, next.timeline, ti, ci)
                &&& d == (ClipView {
                    audio_denoise: setting,
                    transition_out: d.transition_out,
                    ..c
                })
            }
        }),
{
    law_clips_are_found_by_id(s.timeline, id);
    let (r, next) = set_audio_denoise_spec(s, id, setting, fault, registry_fault);
    if r is Ok {
        lemma_one_clip_edited(
            s,
            if setting is Some {
                "Apply Audio Denoise"@
            } else {
                "Reset Audio Denoise"@
            },
            "Updated clip audio denoise"@,
            id,
            ClipView { audio_denoise: setting, ..s.timeline.tracks[ti].clips[ci] },
            registry_fault,
            ti,
            ci,
        );
    }
}

/// Applying a stabilization sets it on the named clip and changes nothing else; the clip is
/// an ordinary video clip of the medium that was analysed.
pub proof fn law_stabilization_is_applied(
    s: StateView,
    id: Seq<char>,
    solution: StabilizationTrackView,
    fault: Option<Seq<char>>,
    registry_fault: Option<Seq<char>>,
    ti: int,
    ci: int,
)
    requires
        first_clip(s.timeline, id, ti, ci),
    ensures
        ({
            let (r, next) = apply_stabilization_spec(s, id, solution, fault, registry_fault);
            let c = s.timeline.tracks[ti].clips[ci];
            let d = next.timeline.tracks[ti].clips[ci];
            &&& r is Err ==> next == s
            &&& r is Ok ==> {
                &&& c.media_type is Video
                &&& c.nested_sequence_id is None
                &&& fault is None
                &&& solution.source_identity == c.media_ref
                &&& next.manifest == s.manifest
                &&& same_layout(s.timeline, next.timeline)
                &&& d == (ClipView {
                    stabilization: Some(solution),
                    transition_out: d.transition_out,
                    ..c
                })
            }
        }),
{
    law_clips_are_found_by_id(s.timeline, id);
    lemma_field_set(s, seq![id], "Apply Stabilization"@, ClipChangeView::Stabilization(solution), registry_fault, ti, ci);
    assert(seq![id][0] == id);
    assert(seq![id].contains(id));
}

/// Adjusting a stabilization sets the strength and the margin that are named on the one
/// that the clip has, and changes nothing else.
pub proof fn law_stabilization_is_adjusted(
    s: StateView,
    id: Seq<char>,
    strength: Option<Real>,
    margin: Option<Real>,
    registry_fault: Option<Seq<char>>,
    ti: int,
    ci: int,
)
    requires
        first_clip(s.timeline, id, ti, ci),
    ensures
        ({
            let (r, next) = adjust_stabilization_spec(s, id, strength, margin, registry_fault);
            let c = s.timeline.tracks[ti].clips[ci];
            let d = next.timeline.tracks[ti].clips[ci];
            &&& r is Err ==> next == s
            &&& r is Ok ==> {
                &&& c.media_type is Video
                &&& c.nested_sequence_id is None
                &&& strength is Some || margin is Some
                &&& strength matches Some(v) ==> v.bits <= 0x3FF0_0000_0000_0000 || v.bits
                    == 0x8000_0000_0000_0000
                &&& margin matches Some(v) ==> v.bits <= 0x3FE0_0000_0000_0000 || v.bits
                    == 0x8000_0000_0000_0000
                &&& c.stabilization is Some
                &&& next.manifest == s.manifest
                &&& same_layout(s.timeline, next.timeline)
                &&& d == (ClipView {
                    stabilization: Some(
                        StabilizationTrackView {
                            strength: if strength is Some {
                                strength->0
                            } else {
                                c.stabilization->0.strength
                            },
                            crop_margin: if margin is Some {
                                margin->0
                            } else {
                                c.stabilization->0.crop_margin
                            },
                            ..c.stabilization->0
                        },
                    ),
                    transition_out: d.transition_out,
                    ..c
                })
            }
        }),
{
    law_clips_are_found_by_id(s.timeline, id);
    lemma_field_set(s, seq![id], "Adjust Stabilization"@, ClipChangeView::StabilizationTuning { strength, crop_margin: margin }, registry_fault, ti, ci);
    assert(seq![id][0] == id);
    assert(seq![id].contains(id));
}

/// Resetting a stabilization takes it off the clip and changes nothing else.
pub proof fn law_stabilization_is_reset(
    s: StateView,
    id: Seq<char>,
    registry_fault: Option<Seq<char>>,
    ti: int,
    ci: int,
)
    requires
        first_clip(s.timeline, id, ti, ci),
    ensures
        ({
            let (r, next) = reset_stabilization_spec(s, id, registry_fault);
            let c = s.timeline.tracks[ti].clips[ci];
            let d = next.timeline.tracks[ti].clips[ci];
            &&& r is Err ==> next == s
            &&& r is Ok ==> {
                &&& c.media_type is Video
                &&& c.nested_sequence_id is None
                &&& next.manifest == s.manifest
                &&& same_layout(s.timeline, next.timeline)
                &&& d == (ClipView {
                    stabilization: None,
                    transition_out: d.transition_out,
                    ..c
                })
            }
        }),
{
    law_clips_are_found_by_id(s.timeline, id);
    lemma_field_set(s, seq![id], "Reset Stabilization"@, ClipChangeView::StabilizationReset, registry_fault, ti, ci);
    assert(seq![id][0] == id);
    assert(seq![id].contains(id));
}

/// Resetting transforms puts the named clips back on the full canvas, opaque, without
/// fades and without keyframes of opacity, position, scale and rotation, and changes
/// nothing else of them.
pub proof fn law_transforms_are_reset(
    s: StateView,
    ids: Seq<Seq<char>>,
    action: Seq<char>,
    registry_fault: Option<Seq<char>>,
    ti: int,
    ci: int,
)
    requires
        0 <= ti < s.timeline.tracks.len(),
        0 <= ci < s.timeline.tracks[ti].clips.len(),
    ensures
        ({
            let (r, next) = set_field_spec(
                s,
                ids,
                action,
                ClipChangeView::TransformReset,
                registry_fault,
            );
            let c = s.timeline.tracks[ti].clips[ci];
            let d = next.timeline.tracks[ti].clips[ci];
            let one = Real { bits: 0x3FF0_0000_0000_0000 };
            let half = Real { bits: 0x3FE0_0000_0000_0000 };
            &&& r is Err ==> next == s
            &&& r is Ok ==> {
                &&& all_there(s.timeline, ids)
                &&& next.manifest == s.manifest
                &&& same_layout(s.timeline, next.timeline)
                &&& if ids.contains(c.id) && first_clip(s.timeline, c.id, ti, ci) {
                    d == (ClipView {
                        transform: Transform {
                            center_x: half,
                            center_y: half,
                            width: one,
                            height: one,
                            rotation: Real { bits: 0 },
                            flip_horizontal: false,
                            flip_vertical: false,
                        },
                        opacity: one,
                        opacity_track: None,
                        position_track: None,
                        scale_track: None,
                        rotation_track: None,
                        fade_in_frames: 0,
                        fade_out_frames: 0,
                        fade_in_interpolation: Interpolation::Linear,
                        fade_out_interpolation: Interpolation::Linear,
                        transition_out: d.transition_out,
                        ..c
                    })
                } else {
                    same_clip(c, d)
                }
            }
        }),
{
    lemma_field_set(s, ids, action, ClipChangeView::TransformReset, registry_fault, ti, ci);
}

} // verus!
