//! Decoding frames: their size, what ffmpeg is asked for, and which frames of a
//! batch to keep.

use crate::binary64::finite;
use crate::binary64::finite_positive;
use crate::binary64::lemma_scaled_within;
use crate::binary64::less;
use crate::binary64::rank;
use crate::binary64::ratio53;
use crate::binary64::ratio_53;
use crate::binary64::times_number;
use crate::binary64::times_up_to;
use crate::media::media_plainly;
use crate::media::picture::FrameView;
use crate::media::picture::RgbaFrame;
use crate::media::push_arg;
use crate::media::MediaError;
use crate::media::MediaFault;
use crate::model::Real;
use crate::text::cat5;
use crate::text::join;
use crate::text::joined;
use crate::text::nat_text;
use crate::text::opt_text;
use crate::text::same_text;
use crate::text::texts;
use crate::text::u64_to_text;
use vstd::prelude::*;
use vstd::string::StringExecFns;

verus! {

/// Whether one side of a box makes a picture smaller.
pub open spec fn limits(side: int, bound: int) -> bool {
    0 < bound < side
}

/// The scale that makes a picture fit a box, as a quotient of integers: the smaller
/// of the two that the box's sides ask for.
pub open spec fn fitting_scale(w: int, h: int, max: (int, int)) -> (int, int) {
    if limits(w, max.0) && (!limits(h, max.1) || max.0 * h <= max.1 * w) {
        (max.0, w)
    } else {
        (max.1, h)
    }
}

/// One side of the scaled picture, to the nearest pixel and at least one.
pub open spec fn scaled_side(side: int, scale: (int, int)) -> int {
    let v = times_number(side as nat, ratio53(scale.0 as nat, scale.1 as nat));
    if v < 1 {
        1
    } else {
        v as int
    }
}

/// The size at which a picture fits a box. A zero in the box is no bound.
pub open spec fn fitted(w: int, h: int, max: (int, int)) -> (int, int) {
    if w == 0 || h == 0 {
        (
            if w < 1 {
                1
            } else {
                w
            },
            if h < 1 {
                1
            } else {
                h
            },
        )
    } else if !limits(w, max.0) && !limits(h, max.1) {
        (w, h)
    } else {
        let scale = fitting_scale(w, h, max);
        (scaled_side(w, scale), scaled_side(h, scale))
    }
}

/// Both sides of a scaled picture keep to the box and to the picture's own size.
proof fn lemma_scaled_sides(w: int, h: int, max: (int, int))
    requires
        0 < w <= u32::MAX,
        0 < h <= u32::MAX,
        0 <= max.0 <= u32::MAX,
        0 <= max.1 <= u32::MAX,
        limits(w, max.0) || limits(h, max.1),
    ensures
        ({
            let (n, d) = fitting_scale(w, h, max);
            let r = ratio53(n as nat, d as nat);
            &&& 0 < n < d <= u32::MAX
            &&& times_number(w as nat, r) <= w
            &&& times_number(h as nat, r) <= h
            &&& max.0 > 0 ==> times_number(w as nat, r) <= max.0
            &&& max.1 > 0 ==> times_number(h as nat, r) <= max.1
        }),
{
    let (n, d) = fitting_scale(w, h, max);
    assert(w * n <= w * d && h * n <= h * d) by (nonlinear_arith)
        requires
            0 < n < d,
            0 < w,
            0 < h,
    ;
    lemma_scaled_within(w as nat, n as nat, d as nat, w as nat);
    lemma_scaled_within(h as nat, n as nat, d as nat, h as nat);
    if max.0 > 0 {
        assert(w * n <= max.0 * d) by (nonlinear_arith)
            requires
                (n == max.0 && d == w) || (n == max.1 && d == h && n < d && (w <= max.0 || max.1
                    * w <= max.0 * h)),
                0 < w,
                0 < h,
                0 < n,
                0 < max.0,
        ;
        lemma_scaled_within(w as nat, n as nat, d as nat, max.0 as nat);
    }
    if max.1 > 0 {
        assert(h * n <= max.1 * d) by (nonlinear_arith)
            requires
                (n == max.1 && d == h) || (n == max.0 && d == w && n < d && (h <= max.1 || max.0
                    * h <= max.1 * w)),
                0 < w,
                0 < h,
                0 < n,
                0 < max.1,
        ;
        lemma_scaled_within(h as nat, n as nat, d as nat, max.1 as nat);
    }
}

/// Scales a size down to fit a box and keeps its proportions. A zero in either side
/// of the box is no bound.
pub fn fit_within(w: u32, h: u32, max: (u32, u32)) -> (r: (u32, u32))
    ensures
        (r.0 as int, r.1 as int) == fitted(w as int, h as int, (max.0 as int, max.1 as int)),
{
    if w == 0 || h == 0 {
        return (
            if w < 1 {
                1
            } else {
                w
            },
            if h < 1 {
                1
            } else {
                h
            },
        );
    }
    let (mw, mh) = max;
    let narrow = 0 < mw && mw < w;
    let low = 0 < mh && mh < h;
    if !narrow && !low {
        return (w, h);
    }
    proof {
        lemma_scaled_sides(w as int, h as int, (mw as int, mh as int));
        assert(mw * h <= 0xFFFF_FFFE_0000_0001 && mh * w <= 0xFFFF_FFFE_0000_0001)
            by (nonlinear_arith)
            requires
                0 <= mw <= 0xFFFF_FFFF,
                0 <= mh <= 0xFFFF_FFFF,
                0 <= w <= 0xFFFF_FFFF,
                0 <= h <= 0xFFFF_FFFF,
        ;
    }
    let scale = if narrow && (!low || mw as u64 * h as u64 <= mh as u64 * w as u64) {
        ratio_53(mw as u64, w as u64)
    } else {
        ratio_53(mh as u64, h as u64)
    };
    let nw: u32 = match times_up_to(w, scale, 0xFFFF_FFFF) {
        Some(v) => v as u32,
        None => w,
    };
    let nh: u32 = match times_up_to(h, scale, 0xFFFF_FFFF) {
        Some(v) => v as u32,
        None => h,
    };
    (
        if nw < 1 {
            1
        } else {
            nw
        },
        if nh < 1 {
            1
        } else {
            nh
        },
    )
}

/// A fitted picture is never larger than it was nor larger than the box, and has at
/// least one pixel on either side.
pub proof fn law_fitting(w: int, h: int, max: (int, int))
    requires
        0 <= w <= u32::MAX,
        0 <= h <= u32::MAX,
        0 <= max.0 <= u32::MAX,
        0 <= max.1 <= u32::MAX,
    ensures
        ({
            let (nw, nh) = fitted(w, h, max);
            &&& nw >= 1
            &&& nh >= 1
            &&& w > 0 && h > 0 ==> nw <= w && nh <= h
            &&& w > 0 && h > 0 && max.0 > 0 ==> nw <= max.0
            &&& w > 0 && h > 0 && max.1 > 0 ==> nh <= max.1
        }),
{
    if w > 0 && h > 0 && (limits(w, max.0) || limits(h, max.1)) {
        lemma_scaled_sides(w, h, max);
    }
}

/// How frames between two are made.
#[derive(Clone, Copy, Debug, PartialEq, Eq, Structural)]
pub enum FrameInterpolationMode {
    Nearest,
    Blend,
    OpticalFlow,
}

/// What to do where optical flow is not to be had.
#[derive(Clone, Copy, Debug, PartialEq, Eq, Structural)]
pub enum FrameInterpolationFallback {
    Nearest,
    Blend,
    Error,
}

/// A frame between two, with the way in which it was made.
#[derive(Debug)]
pub struct FrameInterpolationResult {
    pub frame: RgbaFrame,
    pub mode_used: FrameInterpolationMode,
}

/// The way in which a frame is made, or why none is.
pub open spec fn effective_mode(
    requested: FrameInterpolationMode,
    fallback: FrameInterpolationFallback,
    optical_flow_available: bool,
) -> Result<FrameInterpolationMode, MediaFault> {
    if requested is OpticalFlow && !optical_flow_available {
        match fallback {
            FrameInterpolationFallback::Nearest => Ok(FrameInterpolationMode::Nearest),
            FrameInterpolationFallback::Blend => Ok(FrameInterpolationMode::Blend),
            FrameInterpolationFallback::Error => Err(
                MediaFault::Decode(
                    "optical-flow interpolation is unavailable and fallback is Error"@,
                ),
            ),
        }
    } else {
        Ok(requested)
    }
}

/// What has to be done for a frame between two.
#[derive(Clone, Copy, Debug, PartialEq, Eq, Structural)]
pub enum InterpolationStep {
    /// Take the first frame.
    First,
    /// Take the last frame.
    Last,
    /// Blend the two.
    Blend,
    /// Move both along the optical flow and blend them.
    OpticalFlow,
}

/// 1/2, encoded.
pub const ONE_HALF: u64 = 0x3FE0_0000_0000_0000;

/// 1, encoded.
pub const ONE: u64 = 0x3FF0_0000_0000_0000;

/// What has to be done at a place between the two frames. At either end, and beyond
/// it, that frame itself is taken.
pub open spec fn step_at(alpha: Real, mode: FrameInterpolationMode) -> InterpolationStep {
    if rank(alpha) <= 0 {
        InterpolationStep::First
    } else if rank(alpha) >= ONE {
        InterpolationStep::Last
    } else {
        match mode {
            FrameInterpolationMode::Nearest => if rank(alpha) < ONE_HALF {
                InterpolationStep::First
            } else {
                InterpolationStep::Last
            },
            FrameInterpolationMode::Blend => InterpolationStep::Blend,
            FrameInterpolationMode::OpticalFlow => InterpolationStep::OpticalFlow,
        }
    }
}

/// What has to be done for a frame between two, and in which way, or why it cannot
/// be.
pub open spec fn interpolation(
    first: FrameView,
    last: FrameView,
    alpha: Real,
    requested: FrameInterpolationMode,
    fallback: FrameInterpolationFallback,
    optical_flow_available: bool,
) -> Result<(InterpolationStep, FrameInterpolationMode), MediaFault> {
    if first.width != last.width || first.height != last.height || first.rgba.len()
        != last.rgba.len() {
        Err(MediaFault::Decode("interpolation frames must have identical dimensions"@))
    } else if !finite(alpha) {
        Err(MediaFault::Decode("interpolation alpha must be finite"@))
    } else {
        match effective_mode(requested, fallback, optical_flow_available) {
            Err(f) => Err(f),
            Ok(mode) => Ok((step_at(alpha, mode), mode)),
        }
    }
}

fn decode_error(message: &str) -> (r: MediaError)
    ensures
        r@ == MediaFault::Decode(message@),
{
    MediaError::Decode(String::from_str(message))
}

/// Decides what has to be done for a frame between two.
pub fn plan_interpolation(
    first: &RgbaFrame,
    last: &RgbaFrame,
    alpha: Real,
    requested: FrameInterpolationMode,
    fallback: FrameInterpolationFallback,
    optical_flow_available: bool,
) -> (r: Result<(InterpolationStep, FrameInterpolationMode), MediaError>)
    ensures
        media_plainly(r) == interpolation(
            first@,
            last@,
            alpha,
            requested,
            fallback,
            optical_flow_available,
        ),
{
    if first.width != last.width || first.height != last.height || first.rgba.len()
        != last.rgba.len() {
        return Err(decode_error("interpolation frames must have identical dimensions"));
    }
    if !alpha.is_finite() {
        return Err(decode_error("interpolation alpha must be finite"));
    }
    let mode = if requested == FrameInterpolationMode::OpticalFlow && !optical_flow_available {
        match fallback {
            FrameInterpolationFallback::Nearest => FrameInterpolationMode::Nearest,
            FrameInterpolationFallback::Blend => FrameInterpolationMode::Blend,
            FrameInterpolationFallback::Error => {
                return Err(
                    decode_error(
                        "optical-flow interpolation is unavailable and fallback is Error",
                    ),
                );
            },
        }
    } else {
        requested
    };
    let step = if alpha.bits >= 0x8000_0000_0000_0000 || alpha.bits == 0 {
        InterpolationStep::First
    } else if alpha.bits >= ONE {
        InterpolationStep::Last
    } else {
        match mode {
            FrameInterpolationMode::Nearest => if alpha.bits < ONE_HALF {
                InterpolationStep::First
            } else {
                InterpolationStep::Last
            },
            FrameInterpolationMode::Blend => InterpolationStep::Blend,
            FrameInterpolationMode::OpticalFlow => InterpolationStep::OpticalFlow,
        }
    };
    Ok((step, mode))
}

/// Why frames cannot be brought to another rate, if they cannot.
pub open spec fn rates_fault(count: u64, source_fps: Real, target_fps: Real) -> Result<
    (),
    MediaFault,
> {
    if count == 0 {
        Err(MediaFault::Decode("source_frame_count must be greater than zero"@))
    } else if !finite_positive(source_fps) {
        Err(MediaFault::Decode("source_fps must be finite and greater than zero"@))
    } else if !finite_positive(target_fps) {
        Err(MediaFault::Decode("target_fps must be finite and greater than zero"@))
    } else {
        Ok(())
    }
}

/// Checks that `count` frames at one rate can be brought to another.
pub fn check_frame_rates(count: u64, source_fps: Real, target_fps: Real) -> (r: Result<
    (),
    MediaError,
>)
    ensures
        media_plainly(r) == rates_fault(count, source_fps, target_fps),
{
    if count == 0 {
        Err(decode_error("source_frame_count must be greater than zero"))
    } else if !source_fps.is_finite_positive() {
        Err(decode_error("source_fps must be finite and greater than zero"))
    } else if !target_fps.is_finite_positive() {
        Err(decode_error("target_fps must be finite and greater than zero"))
    } else {
        Ok(())
    }
}

/// The frame after one of a sequence that ends with the frame `last`; the last has
/// none after it.
pub fn following_frame(frame: u64, last: u64) -> (r: u64)
    ensures
        r == if frame < last {
            frame + 1
        } else {
            last as int
        },
{
    if frame < last {
        frame + 1
    } else {
        last
    }
}

/// What ffmpeg is asked for when it decodes a frame. Times are given in the form in
/// which ffmpeg takes them.
#[derive(Debug)]
pub struct FrameQuery {
    pub path: String,
    /// Where decoding starts.
    pub seek: String,
    /// The box that the frame has to fit, with a zero where there is no bound.
    pub max_size: (u32, u32),
    /// Arguments that a picture with a high dynamic range takes.
    pub hdr_args: Vec<String>,
    /// The filter that such a picture takes.
    pub tonemap: Option<String>,
}

/// One side of the box in a filter of ffmpeg.
pub open spec fn side_text(bound: u32, own: Seq<char>) -> Seq<char> {
    if bound > 0 {
        nat_text(bound as nat)
    } else {
        own
    }
}

/// The filters for a frame.
pub open spec fn frame_filters(q: FrameQuery) -> Seq<Seq<char>> {
    (match opt_text(q.tonemap) {
        Some(f) => seq![f],
        None => Seq::empty(),
    }) + (if q.max_size.0 > 0 || q.max_size.1 > 0 {
        seq![
            "scale=w="@ + side_text(q.max_size.0, "iw"@) + ":h="@ + side_text(
                q.max_size.1,
                "ih"@,
            ) + ":force_original_aspect_ratio=decrease"@,
        ]
    } else {
        Seq::empty()
    })
}

/// The arguments for one frame as raw pixels on ffmpeg's output.
pub open spec fn frame_arguments(q: FrameQuery) -> Seq<Seq<char>> {
    let filters = frame_filters(q);
    texts(q.hdr_args@) + seq!["-ss"@, q.seek@, "-i"@, q.path@, "-frames:v"@, "1"@] + (if filters.len()
        > 0 {
        seq!["-vf"@, joined(filters, ","@)]
    } else {
        Seq::empty()
    }) + seq!["-pix_fmt"@, "rgba"@, "-f"@, "rawvideo"@, "-"@]
}

fn side(bound: u32, own: &str) -> (r: String)
    ensures
        r@ == side_text(bound, own@),
{
    if bound > 0 {
        u64_to_text(bound as u64)
    } else {
        String::from_str(own)
    }
}

fn filters(q: &FrameQuery) -> (r: Vec<String>)
    ensures
        texts(r@) == frame_filters(*q),
{
    let mut out: Vec<String> = Vec::new();
    if let Some(f) = &q.tonemap {
        push_arg(&mut out, f.as_str());
    }
    if q.max_size.0 > 0 || q.max_size.1 > 0 {
        let w = side(q.max_size.0, "iw");
        let h = side(q.max_size.1, "ih");
        let scale = cat5(
            "scale=w=",
            w.as_str(),
            ":h=",
            h.as_str(),
            ":force_original_aspect_ratio=decrease",
        );
        push_arg(&mut out, scale.as_str());
    }
    assert(texts(out@) =~= frame_filters(*q));
    out
}

/// Builds the arguments for one frame.
pub fn frame_args(q: &FrameQuery) -> (r: Vec<String>)
    ensures
        texts(r@) == frame_arguments(*q),
{
    let mut args = crate::text::copy_texts(&q.hdr_args);
    push_arg(&mut args, "-ss");
    push_arg(&mut args, q.seek.as_str());
    push_arg(&mut args, "-i");
    push_arg(&mut args, q.path.as_str());
    push_arg(&mut args, "-frames:v");
    push_arg(&mut args, "1");
    let chain = filters(q);
    assert(texts(chain@).len() == chain@.len());
    if chain.len() > 0 {
        let text = join(&chain, ",");
        push_arg(&mut args, "-vf");
        push_arg(&mut args, text.as_str());
    }
    push_arg(&mut args, "-pix_fmt");
    push_arg(&mut args, "rgba");
    push_arg(&mut args, "-f");
    push_arg(&mut args, "rawvideo");
    push_arg(&mut args, "-");
    assert(texts(args@) =~= frame_arguments(*q));
    args
}

/// The last place, before `n`, at which an argument stands.
pub open spec fn last_place(args: Seq<Seq<char>>, arg: Seq<char>, n: int) -> Option<int>
    decreases n,
{
    if n <= 0 {
        None
    } else if args[n - 1] == arg {
        Some(n - 1)
    } else {
        last_place(args, arg, n - 1)
    }
}

/// The arguments for a stream of frames: those for one frame without the last limit
/// on their number.
pub open spec fn stream_arguments(q: FrameQuery) -> Seq<Seq<char>> {
    let args = frame_arguments(q);
    match last_place(args, "-frames:v"@, args.len() as int) {
        Some(i) => args.take(i) + args.skip(i + 2),
        None => args,
    }
}

/// The last limit stands at its own place or behind it, with its number behind it.
proof fn lemma_limit_place(args: Seq<Seq<char>>, arg: Seq<char>, at: int, n: int)
    requires
        0 <= at < n <= args.len(),
        args[at] == arg,
    ensures
        last_place(args, arg, n) matches Some(i) && at <= i < n,
    decreases n,
{
    if args[n - 1] != arg {
        lemma_limit_place(args, arg, at, n - 1);
    }
}

/// The arguments for a frame hold a limit, with its number behind it.
proof fn lemma_frame_limit(q: FrameQuery)
    ensures
        ({
            let args = frame_arguments(q);
            last_place(args, "-frames:v"@, args.len() as int) matches Some(i) && 0 <= i
                < args.len() - 1
        }),
{
    let args = frame_arguments(q);
    let at = texts(q.hdr_args@).len() + 4;
    reveal_strlit("-");
    reveal_strlit("-frames:v");
    assert(args[at as int] == "-frames:v"@);
    assert(args.last() == "-"@);
    lemma_limit_place(args, "-frames:v"@, at as int, args.len() as int);
    let i = last_place(args, "-frames:v"@, args.len() as int)->0;
    lemma_at_last_place(args, "-frames:v"@, args.len() as int);
    if i == args.len() - 1 {
        assert("-"@.len() == "-frames:v"@.len());
    }
}

proof fn lemma_at_last_place(args: Seq<Seq<char>>, arg: Seq<char>, n: int)
    requires
        0 <= n <= args.len(),
    ensures
        last_place(args, arg, n) matches Some(i) ==> 0 <= i < n && args[i] == arg,
    decreases n,
{
    if n > 0 && args[n - 1] != arg {
        lemma_at_last_place(args, arg, n - 1);
    }
}

/// Builds the arguments for a stream of frames.
pub fn frame_stream_args(q: &FrameQuery) -> (r: Vec<String>)
    ensures
        texts(r@) == stream_arguments(*q),
{
    let mut args = frame_args(q);
    let ghost views = texts(args@);
    let ghost given = args@;
    proof {
        lemma_frame_limit(*q);
        assert(views.len() == args@.len());
    }
    let mut n: usize = args.len();
    while n > 0 && !same_text(args[n - 1].as_str(), "-frames:v")
        invariant
            n <= args@.len(),
            args@ == given,
            views == texts(given),
            last_place(views, "-frames:v"@, views.len() as int) == last_place(
                views,
                "-frames:v"@,
                n as int,
            ),
        decreases n,
    {
        assert(views[n - 1] == args@[n - 1]@);
        n -= 1;
    }
    assert(n > 0);
    assert(views[n - 1] == args@[n - 1]@);
    args.remove(n - 1);
    args.remove(n - 1);
    assert(texts(args@) =~= views.take(n - 1) + views.skip(n + 1));
    args
}

/// The first place, from `from` on, at which an argument stands; the number of
/// arguments where it stands nowhere.
pub open spec fn first_place(args: Seq<Seq<char>>, arg: Seq<char>, from: int) -> int
    decreases args.len() - from,
{
    if from < 0 || from >= args.len() {
        args.len() as int
    } else if args[from] == arg {
        from
    } else {
        first_place(args, arg, from + 1)
    }
}

/// The arguments for one frame as a BMP file, which says its own size: those for raw
/// pixels up to the output format, and then the other format.
pub open spec fn bitmap_arguments(q: FrameQuery) -> Seq<Seq<char>> {
    let args = frame_arguments(q);
    args.take(first_place(args, "-f"@, 0)) + seq![
        "-frames:v"@,
        "1"@,
        "-f"@,
        "image2pipe"@,
        "-vcodec"@,
        "bmp"@,
        "pipe:1"@,
    ]
}

/// Builds the arguments for one frame of a file that is already open, as a BMP file.
pub fn retained_frame_args(q: &FrameQuery) -> (r: Vec<String>)
    ensures
        texts(r@) == bitmap_arguments(*q),
{
    let mut args = frame_args(q);
    let ghost views = texts(args@);
    assert(views.len() == args@.len());
    let mut n: usize = 0;
    while n < args.len() && !same_text(args[n].as_str(), "-f")
        invariant
            n <= args@.len(),
            views == texts(args@),
            first_place(views, "-f"@, 0) == first_place(views, "-f"@, n as int),
        decreases args@.len() - n,
    {
        assert(views[n as int] == args@[n as int]@);
        n += 1;
    }
    if n < args.len() {
        assert(views[n as int] == args@[n as int]@);
    }
    args.truncate(n);
    assert(texts(args@) =~= views.take(n as int));
    push_arg(&mut args, "-frames:v");
    push_arg(&mut args, "1");
    push_arg(&mut args, "-f");
    push_arg(&mut args, "image2pipe");
    push_arg(&mut args, "-vcodec");
    push_arg(&mut args, "bmp");
    push_arg(&mut args, "pipe:1");
    assert(texts(args@) =~= bitmap_arguments(*q));
    args
}

/// The frame of one moment, or why there is none.
#[derive(Debug)]
pub struct TimedFrame {
    /// The time in seconds that the frame was found at.
    pub at: Real,
    pub frame: RgbaFrame,
}

/// The number below all others, encoded.
pub const MINUS_INFINITY: u64 = 0xFFF0_0000_0000_0000;

/// Which results of a batch are kept, up to the `n`-th: frames whose time goes on,
/// and errors other than that there was nothing to decode.
pub open spec fn kept_frames(v: Seq<Result<TimedFrame, MediaError>>, n: int) -> (
    Seq<Result<TimedFrame, MediaError>>,
    Real,
)
    decreases n,
{
    if n <= 0 {
        (Seq::empty(), Real { bits: MINUS_INFINITY })
    } else {
        let (kept, last) = kept_frames(v, n - 1);
        match v[n - 1] {
            Ok(f) => if less(last, f.at) {
                (kept.push(v[n - 1]), f.at)
            } else {
                (kept, last)
            },
            Err(MediaError::Decode(_)) => (kept, last),
            Err(_) => (kept.push(v[n - 1]), last),
        }
    }
}

/// Keeps the frames of a batch whose time goes on, and the errors other than that
/// there was nothing to decode.
pub fn keep_advancing(results: Vec<Result<TimedFrame, MediaError>>) -> (r: Vec<
    Result<TimedFrame, MediaError>,
>)
    ensures
        r@ == kept_frames(results@, results@.len() as int).0,
{
    let ghost given = results@;
    let mut rest = results;
    let mut out: Vec<Result<TimedFrame, MediaError>> = Vec::new();
    let mut last = Real { bits: MINUS_INFINITY };
    let ghost mut i: int = 0;
    let mut turned: Vec<Result<TimedFrame, MediaError>> = Vec::new();
    while rest.len() > 0
        invariant
            turned@.len() + rest@.len() == given.len(),
            forall|k: int| 0 <= k < rest@.len() ==> #[trigger] rest@[k] == given[k],
            forall|k: int|
                0 <= k < turned@.len() ==> #[trigger] turned@[k] == given[given.len() - 1 - k],
        decreases rest@.len(),
    {
        if let Some(x) = rest.pop() {
            turned.push(x);
        }
    }
    while turned.len() > 0
        invariant
            0 <= i,
            given == results@,
            i + turned@.len() == given.len(),
            forall|k: int|
                0 <= k < turned@.len() ==> #[trigger] turned@[k] == given[given.len() - 1 - k],
            (out@, last) == kept_frames(given, i),
        decreases turned@.len(),
    {
        if let Some(x) = turned.pop() {
            assert(x == given[i]);
            proof {
                i = i + 1;
            }
            match x {
                Ok(f) => {
                    if last.is_less_than(f.at) {
                        last = f.at;
                        out.push(Ok(f));
                    }
                },
                Err(MediaError::Decode(_)) => {},
                Err(e) => {
                    out.push(Err(e));
                },
            }
        }
    }
    out
}

/// Among the frames that are kept, each is later than every frame before it, and
/// none is later than the last time.
proof fn lemma_kept_advance(v: Seq<Result<TimedFrame, MediaError>>, n: int)
    requires
        0 <= n <= v.len(),
    ensures
        ({
            let (kept, last) = kept_frames(v, n);
            &&& forall|i: int, j: int|
                0 <= i < j < kept.len() && (#[trigger] kept[i]) is Ok && (#[trigger] kept[j]) is Ok
                    ==> less(kept[i]->Ok_0.at, kept[j]->Ok_0.at)
            &&& forall|i: int|
                0 <= i < kept.len() && (#[trigger] kept[i]) is Ok ==> kept[i]->Ok_0.at
                    == last || less(kept[i]->Ok_0.at, last)
        }),
    decreases n,
{
    if n > 0 {
        lemma_kept_advance(v, n - 1);
    }
}

/// The frames of a batch go on in time, each later than the one before.
pub proof fn law_kept_frames_advance(v: Seq<Result<TimedFrame, MediaError>>, i: int, j: int)
    requires
        ({
            let kept = kept_frames(v, v.len() as int).0;
            0 <= i < j < kept.len() && kept[i] is Ok && kept[j] is Ok
        }),
    ensures
        ({
            let kept = kept_frames(v, v.len() as int).0;
            less(kept[i]->Ok_0.at, kept[j]->Ok_0.at)
        }),
{
    lemma_kept_advance(v, v.len() as int);
}

} // verus!
