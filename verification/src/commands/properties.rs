//! Assigning properties to clips. Changes of timing go on to linked clips, unless
//! the named clips are meant to part from them.

use crate::binary64::apart_from_one;
use crate::binary64::finite_positive;
use crate::binary64::retime;
use crate::binary64::retimed_frames;
use crate::binary64::same_number;
use crate::commands::dissolve::is_plain_crop;
use crate::commands::dissolve::plain_crop;
use crate::commands::moving::among_first;
use crate::commands::moving::is_among_first;
use crate::edit::invalid;
use crate::edit::outcome;
use crate::edit::verdict;
use crate::edit::EditError;
use crate::edit::EditResult;
use crate::edit::EditResultView;
use crate::edit::Fault;
use crate::entries::clip_property_assignment_views;
use crate::entries::ClipProperties;
use crate::entries::ClipPropertiesView;
use crate::entries::ClipPropertyAssignment;
use crate::entries::ClipPropertyAssignmentView;
use crate::frames::checked_clip_frame_arithmetic;
use crate::frames::invalid_if;
use crate::frames::placed_fault;
use crate::frames::timeline_fault;
use crate::frames::validate_timeline_frame_arithmetic;
use crate::links::find_id;
use crate::links::id_index;
use crate::links::listed;
use crate::locate::clip_at;
use crate::locate::clip_index;
use crate::locate::clip_not_found;
use crate::locate::find;
use crate::locate::lemma_clip_replaced;
use crate::locate::lemma_timeline_parts;
use crate::locate::locate;
use crate::locate::require_clip;
use crate::locate::with_clip;
use crate::model::clip_views;
use crate::model::copy_opt_setting;
use crate::model::copy_track;
use crate::model::opt_setting;
use crate::model::Clip;
use crate::model::ClipType;
use crate::model::ClipView;
use crate::model::Real;
use crate::model::Setting;
use crate::model::SettingView;
use crate::model::Timeline;
use crate::model::TimelineView;
use crate::state::timeline_transacted;
use crate::state::transact_timeline;
use crate::state::EditorState;
use crate::state::StateView;
use crate::text::cat2;
use crate::text::cat3;
use crate::text::copy_opt;
use crate::text::nat_text;
use crate::text::opt_text;
use crate::text::same_text;
use crate::text::texts;
use crate::text::usize_to_text;
use crate::transitions::clip_sound;
use crate::transitions::clips_sound;
use crate::transitions::lemma_timeline_sound;
use vstd::prelude::*;

verus! {

/// Whether an assignment changes timing.
pub open spec fn changes_timing(p: ClipPropertiesView) -> bool {
    p.duration_frames is Some || p.trim_start_frame is Some || p.trim_end_frame is Some
        || p.speed is Some
}

/// The timing of an assignment alone; a text clip takes none of it.
pub open spec fn timing_of(p: ClipPropertiesView, is_text: bool) -> ClipPropertiesView {
    ClipPropertiesView {
        duration_frames: if is_text {
            None
        } else {
            p.duration_frames
        },
        trim_start_frame: if is_text {
            None
        } else {
            p.trim_start_frame
        },
        trim_end_frame: if is_text {
            None
        } else {
            p.trim_end_frame
        },
        speed: if is_text {
            None
        } else {
            p.speed
        },
        volume: None,
        opacity: None,
        transform: None,
        text_content: None,
        text_style: None,
        crop: None,
        fade_in_frames: None,
        fade_out_frames: None,
        fade_in_interpolation: None,
        fade_out_interpolation: None,
        flip_horizontal: None,
        flip_vertical: None,
        reversed: None,
    }
}

/// Whether two optional speeds are the same.
pub open spec fn same_speed(a: Option<Real>, b: Option<Real>) -> bool {
    match (a, b) {
        (Some(x), Some(y)) => same_number(x, y),
        (None, None) => true,
        _ => false,
    }
}

/// Whether two assignments have the same timing.
pub open spec fn same_timing(a: ClipPropertiesView, b: ClipPropertiesView) -> bool {
    a.duration_frames == b.duration_frames && a.trim_start_frame == b.trim_start_frame
        && a.trim_end_frame == b.trim_end_frame && same_speed(a.speed, b.speed)
}

/// The length of a clip after an assignment: the given one, or the one at which the
/// same source span plays at the given speed, or its own.
pub open spec fn assigned_duration(c: ClipView, p: ClipPropertiesView) -> int {
    match p.duration_frames {
        Some(d) => d as int,
        None => match p.speed {
            Some(v) => if finite_positive(v) && finite_positive(c.speed) && c.duration_frames
                > 0 {
                let frames = retimed_frames(c.duration_frames as nat, c.speed, v);
                if frames < 1 {
                    1
                } else if frames > i32::MAX {
                    i32::MAX as int
                } else {
                    frames as int
                }
            } else {
                c.duration_frames as int
            },
            None => c.duration_frames as int,
        },
    }
}

/// The complaint against a clip's timing after an assignment, if any.
pub open spec fn assigned_timing_fault(c: ClipView, p: ClipPropertiesView, label: Seq<char>) -> Option<
    Seq<char>,
> {
    let speed = match p.speed {
        Some(v) => v,
        None => c.speed,
    };
    if !finite_positive(speed) {
        Some(label + ": speed must be finite and > 0"@)
    } else if p.speed is Some && p.duration_frames is None && retimed_frames(
        c.duration_frames as nat,
        c.speed,
        speed,
    ) > i32::MAX {
        Some(label + ": retimed duration is out of range"@)
    } else {
        placed_fault(
            c.start_frame as int,
            assigned_duration(c, p),
            match p.trim_start_frame {
                Some(f) => f as int,
                None => c.trim_start_frame as int,
            },
            match p.trim_end_frame {
                Some(f) => f as int,
                None => c.trim_end_frame as int,
            },
            speed,
            c.media_type,
            label,
        )
    }
}

/// Whether an assignment asks of a compound clip what only its sequence can have.
pub open spec fn beyond_compound(p: ClipPropertiesView) -> bool {
    (p.speed matches Some(v) && apart_from_one(v)) || p.reversed == Some(true) || (
    p.crop matches Some(x) && !plain_crop(x)) || p.text_content is Some || p.text_style is Some
}

/// The complaint against an assignment to a clip, if any.
pub open spec fn assignment_fault(t: TimelineView, id: Seq<char>, p: ClipPropertiesView) -> Option<
    Fault,
> {
    match locate(t, id) {
        None => Some(clip_not_found(id)),
        Some(place) => {
            let c = clip_at(t, place);
            if c.nested_sequence_id is Some && beyond_compound(p) {
                Some(
                    Fault::Invalid(
                        "compound clip "@ + id
                            + " does not support retime, reverse, crop, or text properties"@,
                    ),
                )
            } else {
                invalid_if(assigned_timing_fault(c, p, "clip "@ + id))
            }
        },
    }
}

/// A clip after an assignment. `fitted` is the clip with its keyframes and fades
/// fitted to what the assignment makes of its length and fades; a new length brings
/// its keyframes and fades, a new fade its fades.
pub open spec fn assigned(c: ClipView, p: ClipPropertiesView, fitted: ClipView) -> ClipView {
    let resized = p.duration_frames is Some || p.speed is Some;
    let refaded = resized || p.fade_in_frames is Some || p.fade_out_frames is Some;
    let held = if resized {
        fitted
    } else {
        c
    };
    let base = match p.transform {
        Some(x) => x,
        None => c.transform,
    };
    ClipView {
        duration_frames: assigned_duration(c, p) as i32,
        trim_start_frame: match p.trim_start_frame {
            Some(f) => f,
            None => c.trim_start_frame,
        },
        trim_end_frame: match p.trim_end_frame {
            Some(f) => f,
            None => c.trim_end_frame,
        },
        speed: match p.speed {
            Some(v) => v,
            None => c.speed,
        },
        volume: match p.volume {
            Some(v) => v,
            None => c.volume,
        },
        opacity: match p.opacity {
            Some(v) => v,
            None => c.opacity,
        },
        fade_in_frames: if refaded {
            fitted.fade_in_frames
        } else {
            c.fade_in_frames
        },
        fade_out_frames: if refaded {
            fitted.fade_out_frames
        } else {
            c.fade_out_frames
        },
        fade_in_interpolation: match p.fade_in_interpolation {
            Some(i) => i,
            None => c.fade_in_interpolation,
        },
        fade_out_interpolation: match p.fade_out_interpolation {
            Some(i) => i,
            None => c.fade_out_interpolation,
        },
        transform: crate::model::Transform {
            flip_horizontal: match p.flip_horizontal {
                Some(f) => f,
                None => base.flip_horizontal,
            },
            flip_vertical: match p.flip_vertical {
                Some(f) => f,
                None => base.flip_vertical,
            },
            ..base
        },
        crop: match p.crop {
            Some(x) => x,
            None => c.crop,
        },
        text_content: match p.text_content {
            Some(s) => Some(s),
            None => c.text_content,
        },
        text_style: match p.text_style {
            Some(s) => Some(s),
            None => c.text_style,
        },
        opacity_track: if p.opacity is Some {
            None
        } else {
            held.opacity_track
        },
        position_track: held.position_track,
        scale_track: held.scale_track,
        rotation_track: held.rotation_track,
        crop_track: if p.crop is Some {
            None
        } else {
            held.crop_track
        },
        volume_track: if p.volume is Some {
            None
        } else {
            held.volume_track
        },
        reversed: match p.reversed {
            Some(r) => r,
            None => c.reversed,
        },
        loudness_normalization: if changes_timing(p) || p.reversed is Some {
            None
        } else {
            c.loudness_normalization
        },
        caption_translation_input: if p.text_content is Some {
            None
        } else {
            c.caption_translation_input
        },
        ..c
    }
}

/// The fitted form of a clip: the one that was given for its id, or the clip with
/// its new fades, none of them negative.
pub open spec fn fitted_of(c: ClipView, p: ClipPropertiesView, fitted: Seq<ClipView>) -> ClipView {
    match clip_index(fitted, c.id, 0) {
        Some(i) => fitted[i],
        None => ClipView {
            fade_in_frames: match p.fade_in_frames {
                Some(f) => if f > 0 {
                    f
                } else {
                    0
                },
                None => c.fade_in_frames,
            },
            fade_out_frames: match p.fade_out_frames {
                Some(f) => if f > 0 {
                    f
                } else {
                    0
                },
                None => c.fade_out_frames,
            },
            ..c
        },
    }
}

/// The timeline after an assignment to one clip.
pub open spec fn clip_assigned(
    t: TimelineView,
    id: Seq<char>,
    p: ClipPropertiesView,
    fitted: Seq<ClipView>,
) -> TimelineView {
    match locate(t, id) {
        None => t,
        Some(place) => {
            let c = clip_at(t, place);
            with_clip(t, place, assigned(c, p, fitted_of(c, p, fitted)))
        },
    }
}

/// The timeline after the first `n` assignments.
pub open spec fn clips_assigned(
    t: TimelineView,
    ids: Seq<Seq<char>>,
    props: Seq<ClipPropertiesView>,
    fitted: Seq<ClipView>,
    n: int,
) -> TimelineView
    decreases n,
{
    if n <= 0 {
        t
    } else {
        clip_assigned(
            clips_assigned(t, ids, props, fitted, n - 1),
            ids[n - 1],
            props[n - 1],
            fitted,
        )
    }
}

/// The timing that a linked clip takes over from an assignment.
pub open spec fn partner_timing(t: TimelineView, id: Seq<char>, p: ClipPropertiesView) -> ClipPropertiesView {
    timing_of(
        p,
        locate(t, id) matches Some(place) && clip_at(t, place).media_type is Text,
    )
}

/// The complaint against what a linked clip takes over, if any.
pub open spec fn partner_fault(t: TimelineView, id: Seq<char>, p: ClipPropertiesView) -> Option<
    Fault,
> {
    match locate(t, id) {
        None => None,
        Some(place) => invalid_if(
            assigned_timing_fault(clip_at(t, place), p, "linked clip "@ + id),
        ),
    }
}

/// The first complaint, from `from` on, against one assignment to several clips.
pub open spec fn assignments_fault(
    t: TimelineView,
    ids: Seq<Seq<char>>,
    p: ClipPropertiesView,
    from: int,
) -> Option<Fault>
    decreases ids.len() - from,
{
    if from < 0 || from >= ids.len() {
        None
    } else {
        match assignment_fault(t, ids[from], p) {
            Some(f) => Some(f),
            None => assignments_fault(t, ids, p, from + 1),
        }
    }
}

/// The first complaint, from `from` on, against what linked clips take over.
pub open spec fn partners_fault(
    t: TimelineView,
    ids: Seq<Seq<char>>,
    props: Seq<ClipPropertiesView>,
    from: int,
) -> Option<Fault>
    decreases ids.len() - from,
{
    if from < 0 || from >= ids.len() {
        None
    } else {
        match partner_fault(t, ids[from], props[from]) {
            Some(f) => Some(f),
            None => partners_fault(t, ids, props, from + 1),
        }
    }
}

/// The linked clips that an assignment goes on to.
pub open spec fn followers(
    p: ClipPropertiesView,
    propagate: bool,
    partners: Seq<Seq<char>>,
) -> Seq<Seq<char>> {
    if propagate && changes_timing(p) {
        partners
    } else {
        Seq::empty()
    }
}

/// What linked clips take over from one assignment.
pub open spec fn follower_timings(t: TimelineView, ids: Seq<Seq<char>>, p: ClipPropertiesView) -> Seq<
    ClipPropertiesView,
> {
    ids.map_values(|id: Seq<char>| partner_timing(t, id, p))
}

/// The same assignment for every clip.
pub open spec fn repeated(p: ClipPropertiesView, n: nat) -> Seq<ClipPropertiesView> {
    Seq::new(n, |i: int| p)
}

/// The complaint against assigning properties to clips, if any.
pub open spec fn set_properties_fault(
    t: TimelineView,
    ids: Seq<Seq<char>>,
    p: ClipPropertiesView,
    linked: Seq<Seq<char>>,
) -> Option<Fault> {
    if timeline_fault(t, "timeline"@) is Some {
        Some(Fault::Invalid(timeline_fault(t, "timeline"@)->0))
    } else if ids.len() == 0 {
        Some(Fault::Invalid("Missing or empty 'clipIds' array"@))
    } else {
        match assignments_fault(t, ids, p, 0) {
            Some(f) => Some(f),
            None => partners_fault(t, linked, follower_timings(t, linked, p), 0),
        }
    }
}

/// The label of assigning properties to `n` clips.
pub open spec fn set_properties_action(n: nat) -> Seq<char> {
    if n == 1 {
        "Set Clip Property"@
    } else {
        "Set Clip Properties"@
    }
}

/// Assigning properties to clips.
pub open spec fn set_clip_properties_spec(
    s: StateView,
    ids: Seq<Seq<char>>,
    p: ClipPropertiesView,
    propagate: bool,
    partners: Seq<Seq<char>>,
    fitted: Seq<ClipView>,
    registry_fault: Option<Seq<char>>,
) -> (Result<EditResultView, Fault>, StateView) {
    let linked = followers(p, propagate, partners);
    match set_properties_fault(s.timeline, ids, p, linked) {
        Some(f) => (Err(f), s),
        None => {
            let direct = clips_assigned(
                s.timeline,
                ids,
                repeated(p, ids.len()),
                fitted,
                ids.len() as int,
            );
            timeline_transacted(
                s,
                set_properties_action(ids.len()),
                "Updated "@ + nat_text(ids.len()) + " clip(s)"@,
                clips_assigned(
                    direct,
                    linked,
                    follower_timings(s.timeline, linked, p),
                    fitted,
                    linked.len() as int,
                ),
                ids,
                registry_fault,
            )
        },
    }
}

/// The timing of an assignment alone.
pub fn timing_properties(props: &ClipProperties, is_text: bool) -> (r: ClipProperties)
    ensures
        r@ == timing_of(props@, is_text),
{
    ClipProperties {
        duration_frames: if is_text {
            None
        } else {
            props.duration_frames
        },
        trim_start_frame: if is_text {
            None
        } else {
            props.trim_start_frame
        },
        trim_end_frame: if is_text {
            None
        } else {
            props.trim_end_frame
        },
        speed: if is_text {
            None
        } else {
            props.speed
        },
        volume: None,
        opacity: None,
        transform: None,
        text_content: None,
        text_style: None,
        crop: None,
        fade_in_frames: None,
        fade_out_frames: None,
        fade_in_interpolation: None,
        fade_out_interpolation: None,
        flip_horizontal: None,
        flip_vertical: None,
        reversed: None,
    }
}

/// Whether two assignments have the same timing.
pub fn same_timing_properties(left: &ClipProperties, right: &ClipProperties) -> (r: bool)
    ensures
        r == same_timing(left@, right@),
{
    let speeds = match (left.speed, right.speed) {
        (Some(x), Some(y)) => x.equals(y),
        (None, None) => true,
        _ => false,
    };
    left.duration_frames == right.duration_frames && left.trim_start_frame
        == right.trim_start_frame && left.trim_end_frame == right.trim_end_frame && speeds
}

fn is_timing(props: &ClipProperties) -> (r: bool)
    ensures
        r == changes_timing(props@),
{
    props.duration_frames.is_some() || props.trim_start_frame.is_some()
        || props.trim_end_frame.is_some() || props.speed.is_some()
}

/// Checks a clip's timing after an assignment.
pub fn validate_effective_clip_timing(clip: &Clip, props: &ClipProperties, label: &str) -> (r: Result<
    (),
    EditError,
>)
    requires
        clip_sound(clip@),
    ensures
        verdict(r) == invalid_if(assigned_timing_fault(clip@, props@, label@)),
{
    let speed = match props.speed {
        Some(v) => v,
        None => clip.speed,
    };
    if !speed.is_finite_positive() {
        return Err(EditError::Invalid(cat2(label, ": speed must be finite and > 0")));
    }
    let mut duration: i32 = match props.duration_frames {
        Some(d) => d,
        None => clip.duration_frames,
    };
    if props.speed.is_some() && props.duration_frames.is_none() {
        duration = match retime(clip.duration_frames, clip.speed, speed) {
            None => return Err(
                EditError::Invalid(cat2(label, ": retimed duration is out of range")),
            ),
            Some(frames) => if frames < 1 {
                1
            } else {
                frames
            },
        };
    }
    let trim_start: i32 = match props.trim_start_frame {
        Some(f) => f,
        None => clip.trim_start_frame,
    };
    let trim_end: i32 = match props.trim_end_frame {
        Some(f) => f,
        None => clip.trim_end_frame,
    };
    match checked_clip_frame_arithmetic(
        clip.start_frame,
        duration,
        trim_start,
        trim_end,
        speed,
        clip.media_type,
        label,
    ) {
        Ok(_) => Ok(()),
        Err(e) => Err(e),
    }
}

fn is_beyond_compound(props: &ClipProperties) -> (r: bool)
    ensures
        r == beyond_compound(props@),
{
    let retimes = match props.speed {
        Some(v) => v.is_apart_from_one(),
        None => false,
    };
    let reverses = match props.reversed {
        Some(b) => b,
        None => false,
    };
    let crops = match &props.crop {
        Some(x) => !is_plain_crop(x),
        None => false,
    };
    retimes || reverses || crops || props.text_content.is_some() || props.text_style.is_some()
}

/// Checks an assignment to a clip.
pub fn validate_clip_property_target(state: &EditorState, clip_id: &str, props: &ClipProperties) -> (r: Result<
    (),
    EditError,
>)
    requires
        timeline_fault(state@.timeline, "timeline"@) is None,
    ensures
        verdict(r) == assignment_fault(state@.timeline, clip_id@, props@),
{
    let (ti, ci) = match require_clip(&state.timeline, clip_id) {
        Ok(place) => place,
        Err(e) => return Err(e),
    };
    proof {
        lemma_timeline_parts(state.timeline, ti as int, ci as int);
        lemma_timeline_sound(state@.timeline, "timeline"@);
        assert(clips_sound(state@.timeline.tracks[ti as int].clips));
        assert(clip_sound(state@.timeline.tracks[ti as int].clips[ci as int]));
    }
    let clip = &state.timeline.tracks[ti].clips[ci];
    if clip.nested_sequence_id.is_some() && is_beyond_compound(props) {
        return Err(
            EditError::Invalid(
                cat3(
                    "compound clip ",
                    clip_id,
                    " does not support retime, reverse, crop, or text properties",
                ),
            ),
        );
    }
    let label = cat2("clip ", clip_id);
    validate_effective_clip_timing(clip, props, label.as_str())
}

fn check_partner(state: &EditorState, id: &String, props: &ClipProperties) -> (r: Result<
    (),
    EditError,
>)
    requires
        timeline_fault(state@.timeline, "timeline"@) is None,
    ensures
        verdict(r) == partner_fault(state@.timeline, id@, props@),
{
    match find(&state.timeline, id.as_str()) {
        None => Ok(()),
        Some((ti, ci)) => {
            proof {
                lemma_timeline_parts(state.timeline, ti as int, ci as int);
                lemma_timeline_sound(state@.timeline, "timeline"@);
                assert(clips_sound(state@.timeline.tracks[ti as int].clips));
                assert(clip_sound(state@.timeline.tracks[ti as int].clips[ci as int]));
            }
            let label = cat2("linked clip ", id.as_str());
            validate_effective_clip_timing(
                &state.timeline.tracks[ti].clips[ci],
                props,
                label.as_str(),
            )
        },
    }
}

fn find_fitted(fitted: &Vec<Clip>, id: &str) -> (r: Option<usize>)
    ensures
        match r {
            Some(i) => clip_index(clip_views(fitted@), id@, 0) == Some(i as int) && i
                < fitted@.len(),
            None => clip_index(clip_views(fitted@), id@, 0) is None,
        },
{
    let ghost views = clip_views(fitted@);
    let mut i: usize = 0;
    while i < fitted.len()
        invariant
            i <= fitted@.len(),
            views == clip_views(fitted@),
            clip_index(views, id@, 0) == clip_index(views, id@, i as int),
        decreases fitted@.len() - i,
    {
        if same_text(fitted[i].id.as_str(), id) {
            return Some(i);
        }
        i += 1;
    }
    None
}

fn new_duration(clip: &Clip, props: &ClipProperties) -> (r: i32)
    ensures
        r == assigned_duration(clip@, props@),
{
    match props.duration_frames {
        Some(d) => d,
        None => match props.speed {
            Some(v) => {
                if v.is_finite_positive() && clip.speed.is_finite_positive() && clip.duration_frames
                    > 0 {
                    match retime(clip.duration_frames, clip.speed, v) {
                        Some(frames) => if frames < 1 {
                            1
                        } else {
                            frames
                        },
                        None => i32::MAX,
                    }
                } else {
                    clip.duration_frames
                }
            },
            None => clip.duration_frames,
        },
    }
}

fn take_over_fit(clip: &mut Clip, props: &ClipProperties, fitted: &Vec<Clip>)
    ensures
        ({
            let c = old(clip)@;
            let f = fitted_of(c, props@, clip_views(fitted@));
            let resized = props@.duration_frames is Some || props@.speed is Some;
            let refaded = resized || props@.fade_in_frames is Some || props@.fade_out_frames is Some;
            let held = if resized {
                f
            } else {
                c
            };
            final(clip)@ == (ClipView {
                opacity_track: held.opacity_track,
                position_track: held.position_track,
                scale_track: held.scale_track,
                rotation_track: held.rotation_track,
                crop_track: held.crop_track,
                volume_track: held.volume_track,
                fade_in_frames: if refaded {
                    f.fade_in_frames
                } else {
                    c.fade_in_frames
                },
                fade_out_frames: if refaded {
                    f.fade_out_frames
                } else {
                    c.fade_out_frames
                },
                ..c
            })
        }),
{
    let resized = props.duration_frames.is_some() || props.speed.is_some();
    match find_fitted(fitted, clip.id.as_str()) {
        Some(i) => {
            let f = &fitted[i];
            if resized {
                clip.opacity_track = copy_track(&f.opacity_track);
                clip.position_track = copy_track(&f.position_track);
                clip.scale_track = copy_track(&f.scale_track);
                clip.rotation_track = copy_track(&f.rotation_track);
                clip.crop_track = copy_track(&f.crop_track);
                clip.volume_track = copy_track(&f.volume_track);
            }
            if resized || props.fade_in_frames.is_some() || props.fade_out_frames.is_some() {
                clip.fade_in_frames = f.fade_in_frames;
                clip.fade_out_frames = f.fade_out_frames;
            }
        },
        None => {
            if let Some(f) = props.fade_in_frames {
                clip.fade_in_frames = if f > 0 {
                    f
                } else {
                    0
                };
            }
            if let Some(f) = props.fade_out_frames {
                clip.fade_out_frames = if f > 0 {
                    f
                } else {
                    0
                };
            }
        },
    }
}

/// The assigned value, or the one before.
spec fn picked<T>(new: Option<T>, old_value: T) -> T {
    match new {
        Some(v) => v,
        None => old_value,
    }
}

fn pick<T: Copy>(new: Option<T>, old_value: T) -> (r: T)
    ensures
        r == picked(new, old_value),
{
    match new {
        Some(v) => v,
        None => old_value,
    }
}

/// The assigned text, or the one before.
spec fn picked_text(new: Option<Seq<char>>, old_value: Option<Seq<char>>) -> Option<Seq<char>> {
    match new {
        Some(v) => Some(v),
        None => old_value,
    }
}

fn pick_text(new: &Option<String>, old_value: &Option<String>) -> (r: Option<String>)
    ensures
        opt_text(r) == picked_text(opt_text(*new), opt_text(*old_value)),
{
    match new {
        Some(v) => Some(v.clone()),
        None => copy_opt(old_value),
    }
}

spec fn picked_style(new: Option<SettingView>, old_value: Option<SettingView>) -> Option<SettingView> {
    match new {
        Some(v) => Some(v),
        None => old_value,
    }
}

fn pick_style(new: &Option<Setting>, old_value: &Option<Setting>) -> (r: Option<Setting>)
    ensures
        opt_setting(r) == picked_style(opt_setting(*new), opt_setting(*old_value)),
{
    match new {
        Some(v) => Some(v.clone()),
        None => copy_opt_setting(old_value),
    }
}

fn assign_transform(clip: &mut Clip, props: &ClipProperties)
    ensures
        ({
            let base = picked(props@.transform, old(clip)@.transform);
            final(clip)@ == (ClipView {
                transform: crate::model::Transform {
                    flip_horizontal: picked(props@.flip_horizontal, base.flip_horizontal),
                    flip_vertical: picked(props@.flip_vertical, base.flip_vertical),
                    ..base
                },
                ..old(clip)@
            })
        }),
{
    let mut transform = pick(props.transform, clip.transform);
    transform.flip_horizontal = pick(props.flip_horizontal, transform.flip_horizontal);
    transform.flip_vertical = pick(props.flip_vertical, transform.flip_vertical);
    clip.transform = transform;
}

fn assign_tracks(clip: &mut Clip, props: &ClipProperties)
    ensures
        ({
            let c = old(clip)@;
            let p = props@;
            final(clip)@ == (ClipView {
                opacity_track: if p.opacity is Some {
                    None
                } else {
                    c.opacity_track
                },
                crop_track: if p.crop is Some {
                    None
                } else {
                    c.crop_track
                },
                volume_track: if p.volume is Some {
                    None
                } else {
                    c.volume_track
                },
                ..c
            })
        }),
{
    if props.opacity.is_some() {
        clip.opacity_track = None;
    }
    if props.crop.is_some() {
        clip.crop_track = None;
    }
    if props.volume.is_some() {
        clip.volume_track = None;
    }
}

fn assign_values(clip: &mut Clip, props: &ClipProperties)
    ensures
        ({
            let c = old(clip)@;
            let p = props@;
            final(clip)@ == (ClipView {
                trim_start_frame: picked(p.trim_start_frame, c.trim_start_frame),
                trim_end_frame: picked(p.trim_end_frame, c.trim_end_frame),
                speed: picked(p.speed, c.speed),
                volume: picked(p.volume, c.volume),
                opacity: picked(p.opacity, c.opacity),
                fade_in_interpolation: picked(p.fade_in_interpolation, c.fade_in_interpolation),
                fade_out_interpolation: picked(p.fade_out_interpolation, c.fade_out_interpolation),
                crop: picked(p.crop, c.crop),
                reversed: picked(p.reversed, c.reversed),
                ..c
            })
        }),
{
    clip.trim_start_frame = pick(props.trim_start_frame, clip.trim_start_frame);
    clip.trim_end_frame = pick(props.trim_end_frame, clip.trim_end_frame);
    clip.speed = pick(props.speed, clip.speed);
    clip.volume = pick(props.volume, clip.volume);
    clip.opacity = pick(props.opacity, clip.opacity);
    clip.fade_in_interpolation = pick(props.fade_in_interpolation, clip.fade_in_interpolation);
    clip.fade_out_interpolation = pick(props.fade_out_interpolation, clip.fade_out_interpolation);
    clip.crop = pick(props.crop, clip.crop);
    clip.reversed = pick(props.reversed, clip.reversed);
}

fn assign_texts(clip: &mut Clip, props: &ClipProperties)
    ensures
        ({
            let c = old(clip)@;
            let p = props@;
            final(clip)@ == (ClipView {
                text_content: picked_text(p.text_content, c.text_content),
                text_style: picked_style(p.text_style, c.text_style),
                caption_translation_input: if p.text_content is Some {
                    None
                } else {
                    c.caption_translation_input
                },
                loudness_normalization: if changes_timing(p) || p.reversed is Some {
                    None
                } else {
                    c.loudness_normalization
                },
                ..c
            })
        }),
{
    clip.text_content = pick_text(&props.text_content, &clip.text_content);
    clip.text_style = pick_style(&props.text_style, &clip.text_style);
    if props.text_content.is_some() {
        clip.caption_translation_input = None;
    }
    if is_timing(props) || props.reversed.is_some() {
        clip.loudness_normalization = None;
    }
}

fn assign(clip: &mut Clip, props: &ClipProperties, fitted: &Vec<Clip>)
    ensures
        final(clip)@ == assigned(
            old(clip)@,
            props@,
            fitted_of(old(clip)@, props@, clip_views(fitted@)),
        ),
{
    let duration: i32 = new_duration(clip, props);
    take_over_fit(clip, props, fitted);
    assign_tracks(clip, props);
    assign_values(clip, props);
    assign_transform(clip, props);
    assign_texts(clip, props);
    clip.duration_frames = duration;
}

/// Assigns properties to one clip in place.
pub fn apply_property_changes(
    timeline: &mut Timeline,
    clip_id: &str,
    props: &ClipProperties,
    fitted: &Vec<Clip>,
)
    ensures
        final(timeline)@ == clip_assigned(
            old(timeline)@,
            clip_id@,
            props@,
            clip_views(fitted@),
        ),
{
    if let Some((ti, ci)) = find(timeline, clip_id) {
        let ghost before = *timeline;
        proof {
            lemma_timeline_parts(before, ti as int, ci as int);
        }
        assign(&mut timeline.tracks[ti].clips[ci], props, fitted);
        proof {
            lemma_clip_replaced(before, *timeline, ti as int, ci as int);
        }
    }
}

fn is_text_clip(timeline: &Timeline, id: &str) -> (r: bool)
    ensures
        r == (locate(timeline@, id@) matches Some(place) && clip_at(timeline@, place).media_type is Text),
{
    match find(timeline, id) {
        Some((ti, ci)) => {
            proof {
                lemma_timeline_parts(*timeline, ti as int, ci as int);
            }
            timeline.tracks[ti].clips[ci].media_type == ClipType::Text
        },
        None => false,
    }
}

/// Assigns properties to clips. `partners` are the linked clips that timing goes on
/// to, and `fitted` are the clips with their keyframes and fades fitted to what the
/// assignment makes of them.
pub fn set_clip_properties(
    state: &mut EditorState,
    clip_ids: Vec<String>,
    props: ClipProperties,
    propagate_timing_to_partners: bool,
    partners: &Vec<String>,
    fitted: &Vec<Clip>,
    registry_fault: &Option<String>,
) -> (r: Result<EditResult, EditError>)
    requires
        old(state)@.version < u64::MAX,
    ensures
        (outcome(r), final(state)@) == set_clip_properties_spec(
            old(state)@,
            texts(clip_ids@),
            props@,
            propagate_timing_to_partners,
            texts(partners@),
            clip_views(fitted@),
            opt_text(*registry_fault),
        ),
{
    let ghost t = state@.timeline;
    let ghost ids = texts(clip_ids@);
    let ghost p = props@;
    let ghost fits = clip_views(fitted@);
    if let Err(e) = validate_timeline_frame_arithmetic(&state.timeline, "timeline") {
        return Err(e);
    }
    if clip_ids.len() == 0 {
        return Err(invalid("Missing or empty 'clipIds' array"));
    }
    let mut i: usize = 0;
    while i < clip_ids.len()
        invariant
            i <= clip_ids@.len(),
            clip_ids@.len() > 0,
            state@ == old(state)@,
            t == state@.timeline,
            ids == texts(clip_ids@),
            p == props@,
            timeline_fault(t, "timeline"@) is None,
            assignments_fault(t, ids, p, 0) == assignments_fault(t, ids, p, i as int),
        decreases clip_ids@.len() - i,
    {
        if let Err(e) = validate_clip_property_target(state, clip_ids[i].as_str(), &props) {
            return Err(e);
        }
        i += 1;
    }
    let none: Vec<String> = Vec::new();
    let linked = if propagate_timing_to_partners && is_timing(&props) {
        partners
    } else {
        &none
    };
    let ghost follow = followers(p, propagate_timing_to_partners, texts(partners@));
    proof {
        assert(texts(none@) =~= Seq::empty());
        assert(texts(linked@) == follow);
    }
    let ghost timings = follower_timings(t, follow, p);
    let mut partner_props: Vec<ClipProperties> = Vec::new();
    let mut j: usize = 0;
    while j < linked.len()
        invariant
            j <= linked@.len(),
            state@ == old(state)@,
            t == state@.timeline,
            p == props@,
            ids == texts(clip_ids@),
            clip_ids@.len() > 0,
            follow == followers(p, propagate_timing_to_partners, texts(partners@)),
            follow == texts(linked@),
            timings == follower_timings(t, follow, p),
            timeline_fault(t, "timeline"@) is None,
            assignments_fault(t, ids, p, 0) is None,
            partners_fault(t, follow, timings, 0) == partners_fault(
                t,
                follow,
                timings,
                j as int,
            ),
            partner_props@.len() == j,
            forall|k: int| 0 <= k < j ==> (#[trigger] partner_props@[k])@ == timings[k],
        decreases linked@.len() - j,
    {
        let is_text = is_text_clip(&state.timeline, linked[j].as_str());
        let timing = timing_properties(&props, is_text);
        assert(timing@ == timings[j as int]);
        if let Err(e) = check_partner(state, &linked[j], &timing) {
            return Err(e);
        }
        partner_props.push(timing);
        j += 1;
    }
    let mut timeline = state.timeline.copy();
    let mut n: usize = 0;
    while n < clip_ids.len()
        invariant
            n <= clip_ids@.len(),
            ids == texts(clip_ids@),
            p == props@,
            fits == clip_views(fitted@),
            timeline@ == clips_assigned(t, ids, repeated(p, ids.len()), fits, n as int),
        decreases clip_ids@.len() - n,
    {
        apply_property_changes(&mut timeline, clip_ids[n].as_str(), &props, fitted);
        n += 1;
    }
    let ghost direct = timeline@;
    let mut m: usize = 0;
    while m < linked.len()
        invariant
            m <= linked@.len(),
            follow == texts(linked@),
            partner_props@.len() == linked@.len(),
            timings.len() == linked@.len(),
            forall|k: int|
                0 <= k < linked@.len() ==> (#[trigger] partner_props@[k])@ == timings[k],
            fits == clip_views(fitted@),
            timeline@ == clips_assigned(direct, follow, timings, fits, m as int),
        decreases linked@.len() - m,
    {
        apply_property_changes(&mut timeline, linked[m].as_str(), &partner_props[m], fitted);
        m += 1;
    }
    let count = usize_to_text(clip_ids.len());
    let summary = cat3("Updated ", count.as_str(), " clip(s)");
    transact_timeline(
        state,
        if clip_ids.len() == 1 {
            "Set Clip Property"
        } else {
            "Set Clip Properties"
        },
        summary.as_str(),
        timeline,
        clip_ids,
        registry_fault,
    )
}

/// The views of lists of strings.
pub open spec fn text_lists(v: Seq<Vec<String>>) -> Seq<Seq<Seq<char>>> {
    v.map_values(|x: Vec<String>| texts(x@))
}

/// What linked clips take over from assignments: their ids and timings, or the
/// first that two assignments disagree on.
#[verifier::ext_equal]
pub struct Takeover {
    pub ids: Seq<Seq<char>>,
    pub props: Seq<ClipPropertiesView>,
    pub conflict: Option<Seq<char>>,
}

/// What linked clips take over, after one more. Clips that are assigned to directly
/// take nothing over.
pub open spec fn taken_over(
    t: TimelineView,
    x: Takeover,
    direct: Seq<Seq<char>>,
    p: ClipPropertiesView,
    id: Seq<char>,
) -> Takeover {
    if x.conflict is Some || direct.contains(id) {
        x
    } else {
        let candidate = partner_timing(t, id, p);
        match id_index(x.ids, id, 0) {
            Some(k) => if same_timing(x.props[k], candidate) {
                x
            } else {
                Takeover { conflict: Some(id), ..x }
            },
            None => Takeover { ids: x.ids.push(id), props: x.props.push(candidate), ..x },
        }
    }
}

/// What linked clips take over, after the first `n` of a list.
pub open spec fn list_taken_over(
    t: TimelineView,
    x: Takeover,
    direct: Seq<Seq<char>>,
    p: ClipPropertiesView,
    list: Seq<Seq<char>>,
    n: int,
) -> Takeover
    decreases n,
{
    if n <= 0 {
        x
    } else {
        taken_over(t, list_taken_over(t, x, direct, p, list, n - 1), direct, p, list[n - 1])
    }
}

/// The ids that assignments are made to.
pub open spec fn assigned_ids(a: Seq<ClipPropertyAssignmentView>) -> Seq<Seq<char>> {
    a.map_values(|x: ClipPropertyAssignmentView| x.clip_id)
}

/// The properties of assignments.
pub open spec fn assigned_props(a: Seq<ClipPropertyAssignmentView>) -> Seq<ClipPropertiesView> {
    a.map_values(|x: ClipPropertyAssignmentView| x.properties)
}

/// The linked clips of the `i`-th assignment.
pub open spec fn partners_at(partners: Seq<Seq<Seq<char>>>, i: int) -> Seq<Seq<char>> {
    if 0 <= i < partners.len() {
        partners[i]
    } else {
        Seq::empty()
    }
}

/// What linked clips take over from the first `n` assignments.
pub open spec fn all_taken_over(
    t: TimelineView,
    a: Seq<ClipPropertyAssignmentView>,
    partners: Seq<Seq<Seq<char>>>,
    n: int,
) -> Takeover
    decreases n,
{
    if n <= 0 {
        Takeover { ids: Seq::empty(), props: Seq::empty(), conflict: None }
    } else {
        let x = all_taken_over(t, a, partners, n - 1);
        if changes_timing(a[n - 1].properties) {
            let list = partners_at(partners, n - 1);
            list_taken_over(
                t,
                x,
                assigned_ids(a),
                a[n - 1].properties,
                list,
                list.len() as int,
            )
        } else {
            x
        }
    }
}

/// The first complaint, from `from` on, against assignments.
pub open spec fn per_clip_fault(t: TimelineView, a: Seq<ClipPropertyAssignmentView>, from: int) -> Option<
    Fault,
>
    decreases a.len() - from,
{
    if from < 0 || from >= a.len() {
        None
    } else if among_first(assigned_ids(a), a[from].clip_id, from) {
        Some(Fault::Invalid("Duplicate clip property assignment: "@ + a[from].clip_id))
    } else {
        match assignment_fault(t, a[from].clip_id, a[from].properties) {
            Some(f) => Some(f),
            None => per_clip_fault(t, a, from + 1),
        }
    }
}

/// The complaint against assigning properties clip by clip, if any.
pub open spec fn set_per_clip_fault(
    t: TimelineView,
    a: Seq<ClipPropertyAssignmentView>,
    partners: Seq<Seq<Seq<char>>>,
) -> Option<Fault> {
    let x = all_taken_over(t, a, partners, a.len() as int);
    if timeline_fault(t, "timeline"@) is Some {
        Some(Fault::Invalid(timeline_fault(t, "timeline"@)->0))
    } else if a.len() == 0 {
        Some(Fault::Invalid("Missing or empty clip property assignments"@))
    } else if per_clip_fault(t, a, 0) is Some {
        per_clip_fault(t, a, 0)
    } else {
        match x.conflict {
            Some(id) => Some(
                Fault::Invalid("Conflicting timing assignments for linked clip: "@ + id),
            ),
            None => partners_fault(t, x.ids, x.props, 0),
        }
    }
}

/// Assigning properties clip by clip.
pub open spec fn set_clip_properties_per_clip_spec(
    s: StateView,
    a: Seq<ClipPropertyAssignmentView>,
    partners: Seq<Seq<Seq<char>>>,
    fitted: Seq<ClipView>,
    registry_fault: Option<Seq<char>>,
) -> (Result<EditResultView, Fault>, StateView) {
    match set_per_clip_fault(s.timeline, a, partners) {
        Some(f) => (Err(f), s),
        None => {
            let x = all_taken_over(s.timeline, a, partners, a.len() as int);
            let direct = clips_assigned(
                s.timeline,
                assigned_ids(a),
                assigned_props(a),
                fitted,
                a.len() as int,
            );
            timeline_transacted(
                s,
                set_properties_action(a.len()),
                "Updated "@ + nat_text(a.len()) + " clip(s)"@,
                clips_assigned(direct, x.ids, x.props, fitted, x.ids.len() as int),
                assigned_ids(a),
                registry_fault,
            )
        },
    }
}

fn list_assigned(assignments: &Vec<ClipPropertyAssignment>) -> (r: Vec<String>)
    ensures
        texts(r@) == assigned_ids(clip_property_assignment_views(assignments@)),
        r@.len() == assignments@.len(),
{
    let ghost expected = assigned_ids(clip_property_assignment_views(assignments@));
    let mut out: Vec<String> = Vec::new();
    let mut i: usize = 0;
    while i < assignments.len()
        invariant
            i <= assignments@.len(),
            out@.len() == i,
            expected == assigned_ids(clip_property_assignment_views(assignments@)),
            forall|k: int| 0 <= k < i ==> (#[trigger] out@[k])@ == expected[k],
        decreases assignments@.len() - i,
    {
        out.push(assignments[i].clip_id.clone());
        i += 1;
    }
    assert(texts(out@) =~= expected);
    out
}

fn check_assignments(
    state: &EditorState,
    assignments: &Vec<ClipPropertyAssignment>,
    ids: &Vec<String>,
) -> (r: Result<(), EditError>)
    requires
        timeline_fault(state@.timeline, "timeline"@) is None,
        ids@.len() == assignments@.len(),
        texts(ids@) == assigned_ids(clip_property_assignment_views(assignments@)),
    ensures
        verdict(r) == per_clip_fault(
            state@.timeline,
            clip_property_assignment_views(assignments@),
            0,
        ),
{
    let ghost t = state@.timeline;
    let ghost a = clip_property_assignment_views(assignments@);
    let mut i: usize = 0;
    while i < assignments.len()
        invariant
            i <= assignments@.len(),
            t == state@.timeline,
            a == clip_property_assignment_views(assignments@),
            timeline_fault(t, "timeline"@) is None,
            ids@.len() == assignments@.len(),
            texts(ids@) == assigned_ids(a),
            per_clip_fault(t, a, 0) == per_clip_fault(t, a, i as int),
        decreases assignments@.len() - i,
    {
        let assignment = &assignments[i];
        assert(a[i as int] == assignment@);
        if is_among_first(ids, &assignment.clip_id, i) {
            return Err(
                EditError::Invalid(
                    cat2("Duplicate clip property assignment: ", assignment.clip_id.as_str()),
                ),
            );
        }
        if let Err(e) = validate_clip_property_target(
            state,
            assignment.clip_id.as_str(),
            &assignment.properties,
        ) {
            return Err(e);
        }
        i += 1;
    }
    Ok(())
}

/// What linked clips take over, while it is being gathered.
struct Taken {
    ids: Vec<String>,
    props: Vec<ClipProperties>,
    conflict: Option<String>,
}

spec fn props_views(v: Seq<ClipProperties>) -> Seq<ClipPropertiesView> {
    v.map_values(|x: ClipProperties| x@)
}

spec fn taken_view(x: Taken) -> Takeover {
    Takeover { ids: texts(x.ids@), props: props_views(x.props@), conflict: opt_text(x.conflict) }
}

fn take_over(
    timeline: &Timeline,
    x: &mut Taken,
    direct: &Vec<String>,
    props: &ClipProperties,
    id: &String,
)
    requires
        old(x).ids@.len() == old(x).props@.len(),
    ensures
        final(x).ids@.len() == final(x).props@.len(),
        taken_view(*final(x)) == taken_over(
            timeline@,
            taken_view(*old(x)),
            texts(direct@),
            props@,
            id@,
        ),
{
    let ghost before = taken_view(*x);
    if x.conflict.is_some() || listed(direct, id.as_str()) {
        return;
    }
    let is_text = is_text_clip(timeline, id.as_str());
    let candidate = timing_properties(props, is_text);
    match find_id(&x.ids, id) {
        Some(k) => {
            assert(before.props[k as int] == x.props@[k as int]@);
            if !same_timing_properties(&x.props[k], &candidate) {
                x.conflict = Some(id.clone());
            }
        },
        None => {
            x.ids.push(id.clone());
            x.props.push(candidate);
            proof {
                let after = taken_over(timeline@, before, texts(direct@), props@, id@);
                assert(texts(x.ids@) =~= after.ids);
                assert(props_views(x.props@) =~= after.props);
            }
        },
    }
}

fn take_over_list(
    timeline: &Timeline,
    x: &mut Taken,
    direct: &Vec<String>,
    props: &ClipProperties,
    list: &Vec<String>,
)
    requires
        old(x).ids@.len() == old(x).props@.len(),
    ensures
        final(x).ids@.len() == final(x).props@.len(),
        taken_view(*final(x)) == list_taken_over(
            timeline@,
            taken_view(*old(x)),
            texts(direct@),
            props@,
            texts(list@),
            list@.len() as int,
        ),
{
    let ghost before = taken_view(*x);
    let mut j: usize = 0;
    while j < list.len()
        invariant
            j <= list@.len(),
            x.ids@.len() == x.props@.len(),
            taken_view(*x) == list_taken_over(
                timeline@,
                before,
                texts(direct@),
                props@,
                texts(list@),
                j as int,
            ),
        decreases list@.len() - j,
    {
        take_over(timeline, x, direct, props, &list[j]);
        j += 1;
    }
}

fn take_over_all(
    timeline: &Timeline,
    assignments: &Vec<ClipPropertyAssignment>,
    partners: &Vec<Vec<String>>,
    direct: &Vec<String>,
) -> (r: Taken)
    requires
        texts(direct@) == assigned_ids(clip_property_assignment_views(assignments@)),
    ensures
        r.ids@.len() == r.props@.len(),
        taken_view(r) == all_taken_over(
            timeline@,
            clip_property_assignment_views(assignments@),
            text_lists(partners@),
            assignments@.len() as int,
        ),
{
    let ghost a = clip_property_assignment_views(assignments@);
    let ghost lists = text_lists(partners@);
    let mut x = Taken { ids: Vec::new(), props: Vec::new(), conflict: None };
    let mut i: usize = 0;
    assert(taken_view(x) =~= all_taken_over(timeline@, a, lists, 0));
    while i < assignments.len()
        invariant
            i <= assignments@.len(),
            a == clip_property_assignment_views(assignments@),
            lists == text_lists(partners@),
            texts(direct@) == assigned_ids(a),
            x.ids@.len() == x.props@.len(),
            taken_view(x) == all_taken_over(timeline@, a, lists, i as int),
        decreases assignments@.len() - i,
    {
        let props = &assignments[i].properties;
        assert(a[i as int].properties == props@);
        if is_timing(props) {
            if i < partners.len() {
                assert(lists[i as int] == texts(partners@[i as int]@));
                assert(texts(partners@[i as int]@).len() == partners@[i as int]@.len());
                take_over_list(timeline, &mut x, direct, props, &partners[i]);
            }
        }
        i += 1;
    }
    x
}

/// Assigns properties clip by clip as one edit. `partners` lists, for each
/// assignment, the linked clips that its timing goes on to; `fitted` is as for
/// [`set_clip_properties`].
pub fn set_clip_properties_per_clip(
    state: &mut EditorState,
    assignments: Vec<ClipPropertyAssignment>,
    partners: &Vec<Vec<String>>,
    fitted: &Vec<Clip>,
    registry_fault: &Option<String>,
) -> (r: Result<EditResult, EditError>)
    requires
        old(state)@.version < u64::MAX,
    ensures
        (outcome(r), final(state)@) == set_clip_properties_per_clip_spec(
            old(state)@,
            clip_property_assignment_views(assignments@),
            text_lists(partners@),
            clip_views(fitted@),
            opt_text(*registry_fault),
        ),
{
    let ghost t = state@.timeline;
    let ghost a = clip_property_assignment_views(assignments@);
    let ghost fits = clip_views(fitted@);
    if let Err(e) = validate_timeline_frame_arithmetic(&state.timeline, "timeline") {
        return Err(e);
    }
    if assignments.len() == 0 {
        return Err(invalid("Missing or empty clip property assignments"));
    }
    let ids = list_assigned(&assignments);
    if let Err(e) = check_assignments(state, &assignments, &ids) {
        return Err(e);
    }
    let Taken { ids: linked, props: timings, conflict } = take_over_all(
        &state.timeline,
        &assignments,
        partners,
        &ids,
    );
    let ghost x = all_taken_over(t, a, text_lists(partners@), a.len() as int);
    if let Some(id) = conflict {
        return Err(
            EditError::Invalid(
                cat2("Conflicting timing assignments for linked clip: ", id.as_str()),
            ),
        );
    }
    let mut j: usize = 0;
    while j < linked.len()
        invariant
            j <= linked@.len(),
            state@ == old(state)@,
            t == state@.timeline,
            a == clip_property_assignment_views(assignments@),
            assignments@.len() > 0,
            x == all_taken_over(t, a, text_lists(partners@), a.len() as int),
            x.ids == texts(linked@),
            x.props == props_views(timings@),
            x.conflict is None,
            timings@.len() == linked@.len(),
            timeline_fault(t, "timeline"@) is None,
            per_clip_fault(t, a, 0) is None,
            partners_fault(t, x.ids, x.props, 0) == partners_fault(t, x.ids, x.props, j as int),
        decreases linked@.len() - j,
    {
        assert(x.props[j as int] == timings@[j as int]@);
        if let Err(e) = check_partner(state, &linked[j], &timings[j]) {
            return Err(e);
        }
        j += 1;
    }
    let mut timeline = state.timeline.copy();
    let mut n: usize = 0;
    while n < assignments.len()
        invariant
            n <= assignments@.len(),
            a == clip_property_assignment_views(assignments@),
            fits == clip_views(fitted@),
            timeline@ == clips_assigned(
                t,
                assigned_ids(a),
                assigned_props(a),
                fits,
                n as int,
            ),
        decreases assignments@.len() - n,
    {
        let assignment = &assignments[n];
        assert(a[n as int] == assignment@);
        apply_property_changes(
            &mut timeline,
            assignment.clip_id.as_str(),
            &assignment.properties,
            fitted,
        );
        n += 1;
    }
    let ghost direct = timeline@;
    let mut m: usize = 0;
    while m < linked.len()
        invariant
            m <= linked@.len(),
            x.ids == texts(linked@),
            x.props == props_views(timings@),
            timings@.len() == linked@.len(),
            fits == clip_views(fitted@),
            timeline@ == clips_assigned(direct, x.ids, x.props, fits, m as int),
        decreases linked@.len() - m,
    {
        assert(x.props[m as int] == timings@[m as int]@);
        apply_property_changes(&mut timeline, linked[m].as_str(), &timings[m], fitted);
        m += 1;
    }
    let count = usize_to_text(assignments.len());
    let summary = cat3("Updated ", count.as_str(), " clip(s)");
    transact_timeline(
        state,
        if assignments.len() == 1 {
            "Set Clip Property"
        } else {
            "Set Clip Properties"
        },
        summary.as_str(),
        timeline,
        ids,
        registry_fault,
    )
}

} // verus!
