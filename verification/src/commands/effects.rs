//! Commands that set one field on one or more clips: grades, LUTs, keys, masks,
//! effects, stabilization, loudness, denoising and the transform reset.

use crate::binary64::finite;
use crate::binary64::from_zero_to;
use crate::commands::keyframes::clip_edited;
use crate::edit::invalid;
use crate::edit::outcome;
use crate::edit::verdict;
use crate::edit::EditError;
use crate::edit::EditResult;
use crate::edit::EditResultView;
use crate::edit::Fault;
use crate::locate::clip_at;
use crate::locate::clip_not_found;
use crate::locate::copy_around;
use crate::locate::find;
use crate::locate::lemma_clip_replaced;
use crate::locate::lemma_located;
use crate::locate::locate;
use crate::locate::require_clip;
use crate::locate::with_clip;
use crate::model::copy_masks;
use crate::model::copy_opt_setting;
use crate::model::copy_settings;
use crate::model::full_canvas;
use crate::model::mask_views;
use crate::model::opt_setting;
use crate::model::setting_views;
use crate::model::Clip;
use crate::model::ClipType;
use crate::model::ClipView;
use crate::model::Interpolation;
use crate::model::Mask;
use crate::model::MaskView;
use crate::model::Real;
use crate::model::Setting;
use crate::model::SettingView;
use crate::model::StabilizationTrack;
use crate::model::StabilizationTrackView;
use crate::model::Timeline;
use crate::model::TimelineView;
use crate::model::Transform;
use crate::state::timeline_transacted;
use crate::state::transact_timeline;
use crate::state::EditorState;
use crate::state::StateView;
use crate::text::cat2;
use crate::text::cat3;
use crate::text::cat4;
use crate::text::cat5;
use crate::text::copy_opt;
use crate::text::nat_text;
use crate::text::opt_text;
use crate::text::texts;
use crate::text::usize_to_text;
use vstd::prelude::*;

verus! {

/// One change of a clip's fields.
#[derive(Debug)]
pub enum ClipChange {
    ColorGrade(Option<Setting>),
    ColorMatch { grade: Setting, input: Setting },
    Lut(Option<Setting>),
    ChromaKey(Option<Setting>),
    Masks(Vec<Mask>),
    Effects(Vec<Setting>),
    Stabilization(StabilizationTrack),
    StabilizationTuning { strength: Option<Real>, crop_margin: Option<Real> },
    StabilizationReset,
    TransformReset,
    /// Another medium, which the measured loudness does not hold for.
    MediaSwap(String),
}

/// The view of a [`ClipChange`].
pub enum ClipChangeView {
    ColorGrade(Option<SettingView>),
    ColorMatch { grade: SettingView, input: SettingView },
    Lut(Option<SettingView>),
    ChromaKey(Option<SettingView>),
    Masks(Seq<MaskView>),
    Effects(Seq<SettingView>),
    Stabilization(StabilizationTrackView),
    StabilizationTuning { strength: Option<Real>, crop_margin: Option<Real> },
    StabilizationReset,
    TransformReset,
    MediaSwap(Seq<char>),
}

impl View for ClipChange {
    type V = ClipChangeView;

    open spec fn view(&self) -> ClipChangeView {
        match self {
            ClipChange::ColorGrade(g) => ClipChangeView::ColorGrade(opt_setting(*g)),
            ClipChange::ColorMatch { grade, input } => ClipChangeView::ColorMatch {
                grade: grade@,
                input: input@,
            },
            ClipChange::Lut(l) => ClipChangeView::Lut(opt_setting(*l)),
            ClipChange::ChromaKey(k) => ClipChangeView::ChromaKey(opt_setting(*k)),
            ClipChange::Masks(m) => ClipChangeView::Masks(mask_views(m@)),
            ClipChange::Effects(e) => ClipChangeView::Effects(setting_views(e@)),
            ClipChange::Stabilization(s) => ClipChangeView::Stabilization(s@),
            ClipChange::StabilizationTuning { strength, crop_margin } =>
                ClipChangeView::StabilizationTuning {
                strength: *strength,
                crop_margin: *crop_margin,
            },
            ClipChange::StabilizationReset => ClipChangeView::StabilizationReset,
            ClipChange::TransformReset => ClipChangeView::TransformReset,
            ClipChange::MediaSwap(m) => ClipChangeView::MediaSwap(m@),
        }
    }
}

/// A clip after a change.
pub open spec fn changed_clip(c: ClipView, change: ClipChangeView) -> ClipView {
    match change {
        ClipChangeView::ColorGrade(g) => ClipView { color_grade: g, color_match_input: None, ..c },
        ClipChangeView::ColorMatch { grade, input } => ClipView {
            color_grade: Some(grade),
            color_match_input: Some(input),
            ..c
        },
        ClipChangeView::Lut(l) => ClipView { lut: l, ..c },
        ClipChangeView::ChromaKey(k) => ClipView { chroma_key: k, ..c },
        ClipChangeView::Masks(m) => ClipView { masks: m, ..c },
        ClipChangeView::Effects(e) => ClipView { effects: e, ..c },
        ClipChangeView::Stabilization(s) => ClipView { stabilization: Some(s), ..c },
        ClipChangeView::StabilizationTuning { strength, crop_margin } => ClipView {
            stabilization: match c.stabilization {
                None => None,
                Some(s) => Some(
                    StabilizationTrackView {
                        strength: match strength {
                            Some(v) => v,
                            None => s.strength,
                        },
                        crop_margin: match crop_margin {
                            Some(v) => v,
                            None => s.crop_margin,
                        },
                        ..s
                    },
                ),
            },
            ..c
        },
        ClipChangeView::StabilizationReset => ClipView { stabilization: None, ..c },
        ClipChangeView::TransformReset => ClipView {
            transform: full_canvas(),
            opacity: Real { bits: 0x3FF0_0000_0000_0000 },
            opacity_track: None,
            position_track: None,
            scale_track: None,
            rotation_track: None,
            fade_in_frames: 0,
            fade_out_frames: 0,
            fade_in_interpolation: Interpolation::Linear,
            fade_out_interpolation: Interpolation::Linear,
            ..c
        },
        ClipChangeView::MediaSwap(m) => ClipView {
            media_ref: m,
            loudness_normalization: None,
            ..c
        },
    }
}

/// The timeline after the clips with the first `n` ids have been changed.
pub open spec fn clips_changed(
    t: TimelineView,
    ids: Seq<Seq<char>>,
    change: ClipChangeView,
    n: int,
) -> TimelineView
    decreases n,
{
    if n <= 0 {
        t
    } else {
        let before = clips_changed(t, ids, change, n - 1);
        match locate(before, ids[n - 1]) {
            None => before,
            Some(place) => with_clip(before, place, changed_clip(clip_at(before, place), change)),
        }
    }
}

/// The first id, from `from` on, that no clip has.
pub open spec fn missing_clip(t: TimelineView, ids: Seq<Seq<char>>, from: int) -> Option<Seq<char>>
    decreases ids.len() - from,
{
    if from < 0 || from >= ids.len() {
        None
    } else if locate(t, ids[from]) is None {
        Some(ids[from])
    } else {
        missing_clip(t, ids, from + 1)
    }
}

/// Changing clips through a transaction: there has to be at least one, and all
/// have to exist.
pub open spec fn set_field_spec(
    s: StateView,
    ids: Seq<Seq<char>>,
    action: Seq<char>,
    change: ClipChangeView,
    registry_fault: Option<Seq<char>>,
) -> (Result<EditResultView, Fault>, StateView) {
    if ids.len() == 0 {
        (Err(Fault::Invalid("Missing or empty 'clipIds' array"@)), s)
    } else {
        match missing_clip(s.timeline, ids, 0) {
            Some(id) => (Err(clip_not_found(id)), s),
            None => timeline_transacted(
                s,
                action,
                "Updated "@ + nat_text(ids.len()) + " clip(s)"@,
                clips_changed(s.timeline, ids, change, ids.len() as int),
                ids,
                registry_fault,
            ),
        }
    }
}

/// The first complaint, from `from` on, against giving clips a pixel effect: the
/// clip has to exist and must not be a compound clip.
pub open spec fn compound_target(t: TimelineView, ids: Seq<Seq<char>>, from: int) -> Option<Fault>
    decreases ids.len() - from,
{
    if from < 0 || from >= ids.len() {
        None
    } else {
        match locate(t, ids[from]) {
            None => Some(clip_not_found(ids[from])),
            Some(place) => {
                if clip_at(t, place).nested_sequence_id is Some {
                    Some(
                        Fault::Invalid(
                            "compound clip "@ + ids[from]
                                + " does not support direct pixel effects"@,
                        ),
                    )
                } else {
                    compound_target(t, ids, from + 1)
                }
            },
        }
    }
}

fn change_clip(clip: &mut Clip, change: &ClipChange)
    ensures
        final(clip)@ == changed_clip(old(clip)@, change@),
{
    match change {
        ClipChange::ColorGrade(g) => {
            clip.color_grade = copy_opt_setting(g);
            clip.color_match_input = None;
        },
        ClipChange::ColorMatch { grade, input } => {
            clip.color_grade = Some(grade.clone());
            clip.color_match_input = Some(input.clone());
        },
        ClipChange::Lut(l) => {
            clip.lut = copy_opt_setting(l);
        },
        ClipChange::ChromaKey(k) => {
            clip.chroma_key = copy_opt_setting(k);
        },
        ClipChange::Masks(m) => {
            clip.masks = copy_masks(m);
        },
        ClipChange::Effects(e) => {
            clip.effects = copy_settings(e);
        },
        ClipChange::Stabilization(s) => {
            clip.stabilization = Some(s.copy());
        },
        ClipChange::StabilizationTuning { strength, crop_margin } => {
            match clip.stabilization.take() {
                None => {},
                Some(solution) => {
                    let mut solution = solution;
                    if let Some(v) = strength {
                        solution.strength = *v;
                    }
                    if let Some(v) = crop_margin {
                        solution.crop_margin = *v;
                    }
                    clip.stabilization = Some(solution);
                },
            }
        },
        ClipChange::StabilizationReset => {
            clip.stabilization = None;
        },
        ClipChange::TransformReset => {
            clip.transform = Transform::identity();
            clip.opacity = Real::one();
            clip.opacity_track = None;
            clip.position_track = None;
            clip.scale_track = None;
            clip.rotation_track = None;
            clip.fade_in_frames = 0;
            clip.fade_out_frames = 0;
            clip.fade_in_interpolation = Interpolation::Linear;
            clip.fade_out_interpolation = Interpolation::Linear;
        },
        ClipChange::MediaSwap(m) => {
            clip.media_ref = m.clone();
            clip.loudness_normalization = None;
        },
    }
}

/// Changes the clips with the given ids.
pub fn change_clips(timeline: &mut Timeline, clip_ids: &Vec<String>, change: &ClipChange)
    ensures
        final(timeline)@ == clips_changed(
            old(timeline)@,
            texts(clip_ids@),
            change@,
            clip_ids@.len() as int,
        ),
{
    let ghost first = timeline@;
    let ghost ids = texts(clip_ids@);
    let mut i: usize = 0;
    while i < clip_ids.len()
        invariant
            i <= clip_ids@.len(),
            ids == texts(clip_ids@),
            timeline@ == clips_changed(first, ids, change@, i as int),
        decreases clip_ids@.len() - i,
    {
        if let Some((ti, ci)) = find(timeline, clip_ids[i].as_str()) {
            let ghost before = *timeline;
            proof {
                crate::locate::lemma_timeline_parts(before, ti as int, ci as int);
            }
            change_clip(&mut timeline.tracks[ti].clips[ci], change);
            proof {
                lemma_clip_replaced(before, *timeline, ti as int, ci as int);
            }
        }
        i += 1;
    }
}

fn require_clips(timeline: &Timeline, clip_ids: &Vec<String>) -> (r: Result<(), EditError>)
    ensures
        verdict(r) == (match missing_clip(timeline@, texts(clip_ids@), 0) {
            Some(id) => Some(clip_not_found(id)),
            None => None,
        }),
{
    let ghost ids = texts(clip_ids@);
    let mut i: usize = 0;
    while i < clip_ids.len()
        invariant
            i <= clip_ids@.len(),
            ids == texts(clip_ids@),
            missing_clip(timeline@, ids, 0) == missing_clip(timeline@, ids, i as int),
        decreases clip_ids@.len() - i,
    {
        if let Err(e) = require_clip(timeline, clip_ids[i].as_str()) {
            return Err(e);
        }
        i += 1;
    }
    Ok(())
}

/// Changes one or more clips in one transaction.
pub fn set_clip_effect_field(
    state: &mut EditorState,
    clip_ids: Vec<String>,
    action_name: &str,
    change: &ClipChange,
    registry_fault: &Option<String>,
) -> (r: Result<EditResult, EditError>)
    requires
        old(state)@.version < u64::MAX,
    ensures
        (outcome(r), final(state)@) == set_field_spec(
            old(state)@,
            texts(clip_ids@),
            action_name@,
            change@,
            opt_text(*registry_fault),
        ),
{
    if clip_ids.len() == 0 {
        return Err(invalid("Missing or empty 'clipIds' array"));
    }
    if let Err(e) = require_clips(&state.timeline, &clip_ids) {
        return Err(e);
    }
    let count = usize_to_text(clip_ids.len());
    let summary = cat3("Updated ", count.as_str(), " clip(s)");
    let mut timeline = state.timeline.copy();
    change_clips(&mut timeline, &clip_ids, change);
    transact_timeline(state, action_name, summary.as_str(), timeline, clip_ids, registry_fault)
}

/// Refuses compound clips as targets of a pixel effect.
pub fn reject_compound_effect_targets(
    state: &EditorState,
    clip_ids: &Vec<String>,
    adding_effect: bool,
) -> (r: Result<(), EditError>)
    ensures
        verdict(r) == (if adding_effect {
            compound_target(state@.timeline, texts(clip_ids@), 0)
        } else {
            None
        }),
{
    if !adding_effect {
        return Ok(());
    }
    let ghost ids = texts(clip_ids@);
    let mut i: usize = 0;
    while i < clip_ids.len()
        invariant
            i <= clip_ids@.len(),
            ids == texts(clip_ids@),
            adding_effect,
            compound_target(state@.timeline, ids, 0) == compound_target(
                state@.timeline,
                ids,
                i as int,
            ),
        decreases clip_ids@.len() - i,
    {
        let id = clip_ids[i].as_str();
        let (ti, ci) = match require_clip(&state.timeline, id) {
            Ok(place) => place,
            Err(e) => return Err(e),
        };
        if state.timeline.tracks[ti].clips[ci].nested_sequence_id.is_some() {
            return Err(
                EditError::Invalid(
                    cat3("compound clip ", id, " does not support direct pixel effects"),
                ),
            );
        }
        i += 1;
    }
    Ok(())
}

/// A change that pixel effects are made of: first the setting's own fault, then
/// compound targets, then the change itself.
pub open spec fn pixel_effect_spec(
    s: StateView,
    ids: Seq<Seq<char>>,
    fault: Option<Seq<char>>,
    adding: bool,
    action: Seq<char>,
    change: ClipChangeView,
    registry_fault: Option<Seq<char>>,
) -> (Result<EditResultView, Fault>, StateView) {
    if fault is Some {
        (Err(Fault::Invalid(fault->0)), s)
    } else if adding && compound_target(s.timeline, ids, 0) is Some {
        (Err(compound_target(s.timeline, ids, 0)->0), s)
    } else {
        set_field_spec(s, ids, action, change, registry_fault)
    }
}

fn set_pixel_effect(
    state: &mut EditorState,
    clip_ids: Vec<String>,
    fault: Option<String>,
    adding: bool,
    action_name: &str,
    change: ClipChange,
    registry_fault: &Option<String>,
) -> (r: Result<EditResult, EditError>)
    requires
        old(state)@.version < u64::MAX,
    ensures
        (outcome(r), final(state)@) == pixel_effect_spec(
            old(state)@,
            texts(clip_ids@),
            opt_text(fault),
            adding,
            action_name@,
            change@,
            opt_text(*registry_fault),
        ),
{
    if let Some(m) = fault {
        return Err(EditError::Invalid(m));
    }
    if let Err(e) = reject_compound_effect_targets(state, &clip_ids, adding) {
        return Err(e);
    }
    set_clip_effect_field(state, clip_ids, action_name, &change, registry_fault)
}

/// The complaint of a setting's own check, told after `what`.
pub open spec fn setting_fault(what: Seq<char>, fault: Option<Seq<char>>, present: bool) -> Option<
    Seq<char>,
> {
    if present && fault is Some {
        Some(what + fault->0)
    } else {
        None
    }
}

fn name_fault(what: &str, fault: &Option<String>, present: bool) -> (r: Option<String>)
    ensures
        opt_text(r) == setting_fault(what@, opt_text(*fault), present),
{
    if !present {
        return None;
    }
    match fault {
        Some(m) => Some(cat2(what, m.as_str())),
        None => None,
    }
}

/// Setting or clearing the colour grade.
pub open spec fn set_color_grade_spec(
    s: StateView,
    ids: Seq<Seq<char>>,
    grade: Option<SettingView>,
    fault: Option<Seq<char>>,
    registry_fault: Option<Seq<char>>,
) -> (Result<EditResultView, Fault>, StateView) {
    pixel_effect_spec(
        s,
        ids,
        setting_fault("invalid color grade: "@, fault, grade is Some),
        grade is Some,
        "Set Color Grade"@,
        ClipChangeView::ColorGrade(grade),
        registry_fault,
    )
}

/// Sets or clears the colour grade. `grade_fault` is what the grade's own check
/// says against it. A manual grade drops the record of a colour match.
pub fn set_color_grade(
    state: &mut EditorState,
    clip_ids: Vec<String>,
    grade: Option<Setting>,
    grade_fault: &Option<String>,
    registry_fault: &Option<String>,
) -> (r: Result<EditResult, EditError>)
    requires
        old(state)@.version < u64::MAX,
    ensures
        (outcome(r), final(state)@) == set_color_grade_spec(
            old(state)@,
            texts(clip_ids@),
            opt_setting(grade),
            opt_text(*grade_fault),
            opt_text(*registry_fault),
        ),
{
    let adding = grade.is_some();
    let fault = name_fault("invalid color grade: ", grade_fault, adding);
    set_pixel_effect(
        state,
        clip_ids,
        fault,
        adding,
        "Set Color Grade",
        ClipChange::ColorGrade(grade),
        registry_fault,
    )
}

/// Applying a sampled match of one clip.
pub open spec fn apply_color_match_spec(
    s: StateView,
    id: Seq<char>,
    grade: SettingView,
    input: SettingView,
    fault: Option<Seq<char>>,
    registry_fault: Option<Seq<char>>,
) -> (Result<EditResultView, Fault>, StateView) {
    pixel_effect_spec(
        s,
        seq![id],
        setting_fault("invalid color match grade: "@, fault, true),
        true,
        "Match Color"@,
        ClipChangeView::ColorMatch { grade: grade, input: input },
        registry_fault,
    )
}

/// Applies a sampled reference match and its provenance together.
pub fn apply_color_match(
    state: &mut EditorState,
    clip_id: String,
    grade: Setting,
    input: Setting,
    grade_fault: &Option<String>,
    registry_fault: &Option<String>,
) -> (r: Result<EditResult, EditError>)
    requires
        old(state)@.version < u64::MAX,
    ensures
        (outcome(r), final(state)@) == apply_color_match_spec(
            old(state)@,
            clip_id@,
            grade@,
            input@,
            opt_text(*grade_fault),
            opt_text(*registry_fault),
        ),
{
    let fault = name_fault("invalid color match grade: ", grade_fault, true);
    let clip_ids: Vec<String> = vec![clip_id];
    assert(texts(clip_ids@) =~= seq![clip_id@]);
    set_pixel_effect(
        state,
        clip_ids,
        fault,
        true,
        "Match Color",
        ClipChange::ColorMatch { grade, input },
        registry_fault,
    )
}

/// Setting or clearing the LUT.
pub open spec fn set_lut_spec(
    s: StateView,
    ids: Seq<Seq<char>>,
    lut: Option<SettingView>,
    fault: Option<Seq<char>>,
    registry_fault: Option<Seq<char>>,
) -> (Result<EditResultView, Fault>, StateView) {
    pixel_effect_spec(
        s,
        ids,
        setting_fault("invalid LUT reference: "@, fault, lut is Some),
        lut is Some,
        "Set LUT"@,
        ClipChangeView::Lut(lut),
        registry_fault,
    )
}

/// Sets or clears one project-managed LUT.
pub fn set_lut(
    state: &mut EditorState,
    clip_ids: Vec<String>,
    lut: Option<Setting>,
    lut_fault: &Option<String>,
    registry_fault: &Option<String>,
) -> (r: Result<EditResult, EditError>)
    requires
        old(state)@.version < u64::MAX,
    ensures
        (outcome(r), final(state)@) == set_lut_spec(
            old(state)@,
            texts(clip_ids@),
            opt_setting(lut),
            opt_text(*lut_fault),
            opt_text(*registry_fault),
        ),
{
    let adding = lut.is_some();
    let fault = name_fault("invalid LUT reference: ", lut_fault, adding);
    set_pixel_effect(
        state,
        clip_ids,
        fault,
        adding,
        "Set LUT",
        ClipChange::Lut(lut),
        registry_fault,
    )
}

/// Setting or clearing the chroma key.
pub open spec fn set_chroma_key_spec(
    s: StateView,
    ids: Seq<Seq<char>>,
    chroma_key: Option<SettingView>,
    registry_fault: Option<Seq<char>>,
) -> (Result<EditResultView, Fault>, StateView) {
    pixel_effect_spec(
        s,
        ids,
        None,
        chroma_key is Some,
        "Set Chroma Key"@,
        ClipChangeView::ChromaKey(chroma_key),
        registry_fault,
    )
}

/// Sets or clears the chroma key.
pub fn set_chroma_key(
    state: &mut EditorState,
    clip_ids: Vec<String>,
    chroma_key: Option<Setting>,
    registry_fault: &Option<String>,
) -> (r: Result<EditResult, EditError>)
    requires
        old(state)@.version < u64::MAX,
    ensures
        (outcome(r), final(state)@) == set_chroma_key_spec(
            old(state)@,
            texts(clip_ids@),
            opt_setting(chroma_key),
            opt_text(*registry_fault),
        ),
{
    let adding = chroma_key.is_some();
    set_pixel_effect(
        state,
        clip_ids,
        None,
        adding,
        "Set Chroma Key",
        ClipChange::ChromaKey(chroma_key),
        registry_fault,
    )
}

/// How many masks a clip may carry and how many corners a polygon may have.
#[derive(Clone, Copy, Debug)]
pub struct MaskLimits {
    pub per_clip: usize,
    pub polygon_points: usize,
}

/// The first complaint, from `from` on, against a list of masks.
pub open spec fn mask_fault(masks: Seq<MaskView>, limits: MaskLimits, from: int) -> Option<Seq<char>>
    decreases masks.len() - from,
{
    if from < 0 || from >= masks.len() {
        None
    } else if masks[from].polygon_points matches Some(n) && (n < 3 || n > limits.polygon_points) {
        Some(
            "mask "@ + nat_text(from as nat) + " polygon must contain 3..="@ + nat_text(
                limits.polygon_points as nat,
            ) + " points"@,
        )
    } else {
        mask_fault(masks, limits, from + 1)
    }
}

/// The complaint against a list of masks, if any: too many, or a polygon with too
/// few or too many corners.
pub open spec fn masks_fault(masks: Seq<MaskView>, limits: MaskLimits) -> Option<Seq<char>> {
    if masks.len() > limits.per_clip {
        Some("a clip supports at most "@ + nat_text(limits.per_clip as nat) + " masks"@)
    } else {
        mask_fault(masks, limits, 0)
    }
}

fn check_masks(masks: &Vec<Mask>, limits: MaskLimits) -> (r: Option<String>)
    ensures
        opt_text(r) == masks_fault(mask_views(masks@), limits),
{
    let most = usize_to_text(limits.per_clip);
    let corners = usize_to_text(limits.polygon_points);
    if masks.len() > limits.per_clip {
        return Some(cat3("a clip supports at most ", most.as_str(), " masks"));
    }
    let ghost views = mask_views(masks@);
    let mut i: usize = 0;
    while i < masks.len()
        invariant
            i <= masks@.len(),
            views == mask_views(masks@),
            views.len() <= limits.per_clip,
            corners@ == nat_text(limits.polygon_points as nat),
            mask_fault(views, limits, 0) == mask_fault(views, limits, i as int),
        decreases masks@.len() - i,
    {
        if let Some(n) = masks[i].polygon_points {
            if n < 3 || n > limits.polygon_points {
                let index = usize_to_text(i);
                return Some(
                    cat5(
                        "mask ",
                        index.as_str(),
                        " polygon must contain 3..=",
                        corners.as_str(),
                        " points",
                    ),
                );
            }
        }
        i += 1;
    }
    None
}

/// Replacing the masks.
pub open spec fn set_masks_spec(
    s: StateView,
    ids: Seq<Seq<char>>,
    masks: Seq<MaskView>,
    limits: MaskLimits,
    registry_fault: Option<Seq<char>>,
) -> (Result<EditResultView, Fault>, StateView) {
    pixel_effect_spec(
        s,
        ids,
        masks_fault(masks, limits),
        masks.len() > 0,
        "Set Masks"@,
        ClipChangeView::Masks(masks),
        registry_fault,
    )
}

/// Replaces the mask list on one or more clips.
pub fn set_masks(
    state: &mut EditorState,
    clip_ids: Vec<String>,
    masks: Vec<Mask>,
    limits: MaskLimits,
    registry_fault: &Option<String>,
) -> (r: Result<EditResult, EditError>)
    requires
        old(state)@.version < u64::MAX,
    ensures
        (outcome(r), final(state)@) == set_masks_spec(
            old(state)@,
            texts(clip_ids@),
            mask_views(masks@),
            limits,
            opt_text(*registry_fault),
        ),
{
    let fault = check_masks(&masks, limits);
    let adding = masks.len() > 0;
    set_pixel_effect(
        state,
        clip_ids,
        fault,
        adding,
        "Set Masks",
        ClipChange::Masks(masks),
        registry_fault,
    )
}

/// Replacing the effect chain.
pub open spec fn set_effects_spec(
    s: StateView,
    ids: Seq<Seq<char>>,
    effects: Seq<SettingView>,
    fault: Option<Seq<char>>,
    registry_fault: Option<Seq<char>>,
) -> (Result<EditResultView, Fault>, StateView) {
    pixel_effect_spec(
        s,
        ids,
        fault,
        effects.len() > 0,
        "Set Effects"@,
        ClipChangeView::Effects(effects),
        registry_fault,
    )
}

/// Replaces the effect chain on one or more clips. `chain_fault` is what the
/// check of the chain says against it.
pub fn set_effects(
    state: &mut EditorState,
    clip_ids: Vec<String>,
    effects: Vec<Setting>,
    chain_fault: &Option<String>,
    registry_fault: &Option<String>,
) -> (r: Result<EditResult, EditError>)
    requires
        old(state)@.version < u64::MAX,
    ensures
        (outcome(r), final(state)@) == set_effects_spec(
            old(state)@,
            texts(clip_ids@),
            setting_views(effects@),
            opt_text(*chain_fault),
            opt_text(*registry_fault),
        ),
{
    let fault = copy_opt(chain_fault);
    let adding = effects.len() > 0;
    set_pixel_effect(
        state,
        clip_ids,
        fault,
        adding,
        "Set Effects",
        ClipChange::Effects(effects),
        registry_fault,
    )
}

/// Resets transform, opacity and fades of one or more clips, and the keyframe
/// tracks of opacity, position, scale and rotation. The crop is left alone.
pub fn reset_transform(
    state: &mut EditorState,
    clip_ids: Vec<String>,
    registry_fault: &Option<String>,
) -> (r: Result<EditResult, EditError>)
    requires
        old(state)@.version < u64::MAX,
    ensures
        (outcome(r), final(state)@) == set_field_spec(
            old(state)@,
            texts(clip_ids@),
            "Reset Transform"@,
            ClipChangeView::TransformReset,
            opt_text(*registry_fault),
        ),
{
    set_clip_effect_field(
        state,
        clip_ids,
        "Reset Transform",
        &ClipChange::TransformReset,
        registry_fault,
    )
}

/// Whether a clip is an ordinary clip that carries sound.
pub open spec fn audio_bearing(c: ClipView) -> bool {
    (c.media_type is Audio || c.media_type is Video) && c.nested_sequence_id is None
}

/// Setting or clearing one audio setting of an ordinary audio-bearing clip.
pub open spec fn audio_setting_spec(
    s: StateView,
    id: Seq<char>,
    refusal: Seq<char>,
    fault: Option<Seq<char>>,
    action: Seq<char>,
    summary: Seq<char>,
    edited: ClipView,
    registry_fault: Option<Seq<char>>,
) -> (Result<EditResultView, Fault>, StateView) {
    match locate(s.timeline, id) {
        None => (Err(clip_not_found(id)), s),
        Some(place) => {
            if !audio_bearing(clip_at(s.timeline, place)) {
                (Err(Fault::Invalid(refusal)), s)
            } else if fault is Some {
                (Err(Fault::Invalid(fault->0)), s)
            } else {
                clip_edited(s, action, summary, id, edited, registry_fault)
            }
        },
    }
}

fn is_audio_bearing(clip: &Clip) -> (r: bool)
    ensures
        r == audio_bearing(clip@),
{
    (clip.media_type == ClipType::Audio || clip.media_type == ClipType::Video)
        && clip.nested_sequence_id.is_none()
}

/// Applying or resetting a loudness analysis.
pub open spec fn set_loudness_normalization_spec(
    s: StateView,
    id: Seq<char>,
    normalization: Option<SettingView>,
    fault: Option<Seq<char>>,
    registry_fault: Option<Seq<char>>,
) -> (Result<EditResultView, Fault>, StateView) {
    audio_setting_spec(
        s,
        id,
        "loudness normalization requires an ordinary audio-bearing clip"@,
        setting_fault(
            "invalid loudness normalization: "@,
            fault,
            normalization is Some,
        ),
        if normalization is Some {
            "Normalize Loudness"@
        } else {
            "Reset Loudness"@
        },
        "Updated clip loudness"@,
        ClipView {
            loudness_normalization: normalization,
            ..clip_at(
                s.timeline,
                locate(s.timeline, id)->0,
            )
        },
        registry_fault,
    )
}

/// Applies or resets one loudness analysis. `normalization_fault` is what its own
/// check says against it.
pub fn set_loudness_normalization(
    state: &mut EditorState,
    clip_id: String,
    normalization: Option<Setting>,
    normalization_fault: &Option<String>,
    registry_fault: &Option<String>,
) -> (r: Result<EditResult, EditError>)
    requires
        old(state)@.version < u64::MAX,
    ensures
        (outcome(r), final(state)@) == set_loudness_normalization_spec(
            old(state)@,
            clip_id@,
            opt_setting(normalization),
            opt_text(*normalization_fault),
            opt_text(*registry_fault),
        ),
{
    let (ti, ci) = match require_clip(&state.timeline, clip_id.as_str()) {
        Ok(place) => place,
        Err(e) => return Err(e),
    };
    if !is_audio_bearing(&state.timeline.tracks[ti].clips[ci]) {
        return Err(invalid("loudness normalization requires an ordinary audio-bearing clip"));
    }
    let present = normalization.is_some();
    let fault = name_fault("invalid loudness normalization: ", normalization_fault, present);
    if let Some(m) = fault {
        return Err(EditError::Invalid(m));
    }
    let mut timeline = copy_around(&state.timeline, ti, ci);
    let ghost before = timeline;
    timeline.tracks[ti].clips[ci].loudness_normalization = normalization;
    proof {
        lemma_clip_replaced(before, timeline, ti as int, ci as int);
    }
    let affected: Vec<String> = vec![clip_id];
    assert(texts(affected@) =~= seq![clip_id@]);
    transact_timeline(
        state,
        if present {
            "Normalize Loudness"
        } else {
            "Reset Loudness"
        },
        "Updated clip loudness",
        timeline,
        affected,
        registry_fault,
    )
}

/// Applying or resetting denoise parameters.
pub open spec fn set_audio_denoise_spec(
    s: StateView,
    id: Seq<char>,
    denoise: Option<SettingView>,
    fault: Option<Seq<char>>,
    registry_fault: Option<Seq<char>>,
) -> (Result<EditResultView, Fault>, StateView) {
    audio_setting_spec(
        s,
        id,
        "audio denoise requires an ordinary audio-bearing clip"@,
        setting_fault("invalid audio denoise: "@, fault, denoise is Some),
        if denoise is Some {
            "Apply Audio Denoise"@
        } else {
            "Reset Audio Denoise"@
        },
        "Updated clip audio denoise"@,
        ClipView {
            audio_denoise: denoise,
            ..clip_at(
                s.timeline,
                locate(s.timeline, id)->0,
            )
        },
        registry_fault,
    )
}

/// Applies or resets local denoise parameters. `denoise_fault` is what their own
/// check says against them.
pub fn set_audio_denoise(
    state: &mut EditorState,
    clip_id: String,
    denoise: Option<Setting>,
    denoise_fault: &Option<String>,
    registry_fault: &Option<String>,
) -> (r: Result<EditResult, EditError>)
    requires
        old(state)@.version < u64::MAX,
    ensures
        (outcome(r), final(state)@) == set_audio_denoise_spec(
            old(state)@,
            clip_id@,
            opt_setting(denoise),
            opt_text(*denoise_fault),
            opt_text(*registry_fault),
        ),
{
    let (ti, ci) = match require_clip(&state.timeline, clip_id.as_str()) {
        Ok(place) => place,
        Err(e) => return Err(e),
    };
    if !is_audio_bearing(&state.timeline.tracks[ti].clips[ci]) {
        return Err(invalid("audio denoise requires an ordinary audio-bearing clip"));
    }
    let present = denoise.is_some();
    let fault = name_fault("invalid audio denoise: ", denoise_fault, present);
    if let Some(m) = fault {
        return Err(EditError::Invalid(m));
    }
    let mut timeline = copy_around(&state.timeline, ti, ci);
    let ghost before = timeline;
    timeline.tracks[ti].clips[ci].audio_denoise = denoise;
    proof {
        lemma_clip_replaced(before, timeline, ti as int, ci as int);
    }
    let affected: Vec<String> = vec![clip_id];
    assert(texts(affected@) =~= seq![clip_id@]);
    transact_timeline(
        state,
        if present {
            "Apply Audio Denoise"
        } else {
            "Reset Audio Denoise"
        },
        "Updated clip audio denoise",
        timeline,
        affected,
        registry_fault,
    )
}

/// The complaint against stabilizing a clip: it has to be an ordinary video clip.
pub open spec fn stabilization_fault(t: TimelineView, id: Seq<char>) -> Option<Fault> {
    match locate(t, id) {
        None => Some(clip_not_found(id)),
        Some(place) => {
            let c = clip_at(t, place);
            if !(c.media_type is Video) || c.nested_sequence_id is Some {
                Some(Fault::Invalid("stabilization requires an ordinary video clip: "@ + id))
            } else {
                None
            }
        },
    }
}

/// Finds the clip to stabilize.
pub fn stabilization_clip<'a>(state: &'a EditorState, clip_id: &str) -> (r: Result<
    &'a Clip,
    EditError,
>)
    ensures
        match r {
            Ok(c) => stabilization_fault(state@.timeline, clip_id@) is None && c@ == clip_at(
                state@.timeline,
                locate(state@.timeline, clip_id@)->0,
            ),
            Err(e) => stabilization_fault(state@.timeline, clip_id@) == Some(e@),
        },
{
    let (ti, ci) = match require_clip(&state.timeline, clip_id) {
        Ok(place) => place,
        Err(e) => return Err(e),
    };
    let clip = &state.timeline.tracks[ti].clips[ci];
    if clip.media_type != ClipType::Video || clip.nested_sequence_id.is_some() {
        return Err(
            EditError::Invalid(
                cat2("stabilization requires an ordinary video clip: ", clip_id),
            ),
        );
    }
    Ok(clip)
}

/// Applying a stabilization analysis: it is in order, and made from the clip's
/// own source.
pub open spec fn apply_stabilization_spec(
    s: StateView,
    id: Seq<char>,
    solution: StabilizationTrackView,
    solution_fault: Option<Seq<char>>,
    registry_fault: Option<Seq<char>>,
) -> (Result<EditResultView, Fault>, StateView) {
    let source = clip_at(s.timeline, locate(s.timeline, id)->0).media_ref;
    if solution_fault is Some {
        (Err(Fault::Invalid(solution_fault->0)), s)
    } else if stabilization_fault(s.timeline, id) is Some {
        (Err(stabilization_fault(s.timeline, id)->0), s)
    } else if solution.source_identity != source {
        (
            Err(
                Fault::Invalid(
                    "stabilization source identity "@ + solution.source_identity
                        + " does not match clip source "@ + source,
                ),
            ),
            s,
        )
    } else {
        set_field_spec(
            s,
            seq![id],
            "Apply Stabilization"@,
            ClipChangeView::Stabilization(solution),
            registry_fault,
        )
    }
}

/// Stores a stabilization analysis on one video clip. `solution_fault` is what
/// its own check says against it.
pub fn apply_stabilization(
    state: &mut EditorState,
    clip_id: String,
    solution: StabilizationTrack,
    solution_fault: &Option<String>,
    registry_fault: &Option<String>,
) -> (r: Result<EditResult, EditError>)
    requires
        old(state)@.version < u64::MAX,
    ensures
        (outcome(r), final(state)@) == apply_stabilization_spec(
            old(state)@,
            clip_id@,
            solution@,
            opt_text(*solution_fault),
            opt_text(*registry_fault),
        ),
{
    if let Some(m) = solution_fault {
        return Err(EditError::Invalid(m.clone()));
    }
    let clip = match stabilization_clip(state, clip_id.as_str()) {
        Ok(clip) => clip,
        Err(e) => return Err(e),
    };
    if solution.source_identity != clip.media_ref {
        return Err(
            EditError::Invalid(
                cat4(
                    "stabilization source identity ",
                    solution.source_identity.as_str(),
                    " does not match clip source ",
                    clip.media_ref.as_str(),
                ),
            ),
        );
    }
    let clip_ids: Vec<String> = vec![clip_id];
    assert(texts(clip_ids@) =~= seq![clip_id@]);
    set_clip_effect_field(
        state,
        clip_ids,
        "Apply Stabilization",
        &ClipChange::Stabilization(solution),
        registry_fault,
    )
}

/// Whether an optional number is missing, or finite and from 0 to `top`.
pub open spec fn in_range(v: Option<Real>, top: Real) -> bool {
    v matches Some(x) ==> finite(x) && from_zero_to(x, top)
}

/// Tuning a stabilization that the clip has: a strength from 0 to 1, a crop
/// margin from 0 to 1/2.
pub open spec fn adjust_stabilization_spec(
    s: StateView,
    id: Seq<char>,
    strength: Option<Real>,
    crop_margin: Option<Real>,
    registry_fault: Option<Seq<char>>,
) -> (Result<EditResultView, Fault>, StateView) {
    if strength is None && crop_margin is None {
        (Err(Fault::Invalid("strength or cropMargin is required"@)), s)
    } else if !in_range(strength, Real::one()) {
        (
            Err(Fault::Invalid("stabilization strength must be finite and within 0..=1"@)),
            s,
        )
    } else if !in_range(crop_margin, Real::half()) {
        (
            Err(Fault::Invalid("stabilization crop margin must be finite and within 0..=0.5"@)),
            s,
        )
    } else if stabilization_fault(s.timeline, id) is Some {
        (Err(stabilization_fault(s.timeline, id)->0), s)
    } else if clip_at(s.timeline, locate(s.timeline, id)->0).stabilization is None {
        (Err(Fault::Invalid("Clip has no stabilization analysis: "@ + id)), s)
    } else {
        set_field_spec(
            s,
            seq![id],
            "Adjust Stabilization"@,
            ClipChangeView::StabilizationTuning { strength, crop_margin },
            registry_fault,
        )
    }
}

fn is_in_range(v: Option<Real>, top: Real) -> (r: bool)
    ensures
        r == in_range(v, top),
{
    match v {
        Some(x) => x.is_finite() && x.is_from_zero_to(top),
        None => true,
    }
}

/// Changes the strength and/or the safety crop margin of a stabilization.
pub fn adjust_stabilization(
    state: &mut EditorState,
    clip_id: String,
    strength: Option<Real>,
    crop_margin: Option<Real>,
    registry_fault: &Option<String>,
) -> (r: Result<EditResult, EditError>)
    requires
        old(state)@.version < u64::MAX,
    ensures
        (outcome(r), final(state)@) == adjust_stabilization_spec(
            old(state)@,
            clip_id@,
            strength,
            crop_margin,
            opt_text(*registry_fault),
        ),
{
    if strength.is_none() && crop_margin.is_none() {
        return Err(invalid("strength or cropMargin is required"));
    }
    if !is_in_range(strength, Real::one()) {
        return Err(invalid("stabilization strength must be finite and within 0..=1"));
    }
    if !is_in_range(crop_margin, Real::half()) {
        return Err(invalid("stabilization crop margin must be finite and within 0..=0.5"));
    }
    let clip = match stabilization_clip(state, clip_id.as_str()) {
        Ok(clip) => clip,
        Err(e) => return Err(e),
    };
    if clip.stabilization.is_none() {
        return Err(
            EditError::Invalid(cat2("Clip has no stabilization analysis: ", clip_id.as_str())),
        );
    }
    let clip_ids: Vec<String> = vec![clip_id];
    assert(texts(clip_ids@) =~= seq![clip_id@]);
    set_clip_effect_field(
        state,
        clip_ids,
        "Adjust Stabilization",
        &ClipChange::StabilizationTuning { strength, crop_margin },
        registry_fault,
    )
}

/// Removing a stabilization.
pub open spec fn reset_stabilization_spec(
    s: StateView,
    id: Seq<char>,
    registry_fault: Option<Seq<char>>,
) -> (Result<EditResultView, Fault>, StateView) {
    if stabilization_fault(s.timeline, id) is Some {
        (Err(stabilization_fault(s.timeline, id)->0), s)
    } else {
        set_field_spec(
            s,
            seq![id],
            "Reset Stabilization"@,
            ClipChangeView::StabilizationReset,
            registry_fault,
        )
    }
}

/// Removes stabilization from one video clip.
pub fn reset_stabilization(
    state: &mut EditorState,
    clip_id: String,
    registry_fault: &Option<String>,
) -> (r: Result<EditResult, EditError>)
    requires
        old(state)@.version < u64::MAX,
    ensures
        (outcome(r), final(state)@) == reset_stabilization_spec(
            old(state)@,
            clip_id@,
            opt_text(*registry_fault),
        ),
{
    if let Err(e) = stabilization_clip(state, clip_id.as_str()) {
        return Err(e);
    }
    let clip_ids: Vec<String> = vec![clip_id];
    assert(texts(clip_ids@) =~= seq![clip_id@]);
    set_clip_effect_field(
        state,
        clip_ids,
        "Reset Stabilization",
        &ClipChange::StabilizationReset,
        registry_fault,
    )
}

/// Assigning what clips already have changes nothing, however often it is done.
pub proof fn law_repeated_assignment_changes_nothing(
    t: TimelineView,
    ids: Seq<Seq<char>>,
    change: ClipChangeView,
    n: int,
)
    requires
        n <= ids.len(),
        forall|i: int|
            0 <= i < ids.len() ==> ((#[trigger] locate(t, ids[i])) matches Some(place)
                ==> changed_clip(clip_at(t, place), change) == clip_at(t, place)),
    ensures
        clips_changed(t, ids, change, n) == t,
    decreases n,
{
    if n > 0 {
        law_repeated_assignment_changes_nothing(t, ids, change, n - 1);
        lemma_located(t, ids[n - 1], 0);
        if let Some(place) = locate(t, ids[n - 1]) {
            let c = clip_at(t, place);
            assert(t.tracks[place.0].clips.update(place.1, c) =~= t.tracks[place.0].clips);
            assert(with_clip(t, place, c).tracks =~= t.tracks);
        }
    }
}

/// A clip to which something has been assigned has it: assigning it again makes no
/// difference.
pub proof fn law_assignments_last(c: ClipView, change: ClipChangeView)
    ensures
        changed_clip(changed_clip(c, change), change) == changed_clip(c, change),
{
}

} // verus!
