//! What decoding, interpolating and encoding ask for and make of what they get.

use crate::binary64::ceil_product;
use crate::binary64::finite;
use crate::binary64::less;
use crate::binary64::nan;
use crate::laws::numbers::law_encodings_are_told_apart;
use crate::laws::numbers::law_same_numbers;
use crate::media::MediaError;
use crate::media::MediaFault;
use crate::media::engine::codec_arguments;
use crate::media::engine::extension;
use crate::media::engine::extraction;
use crate::media::engine::last_dot;
use crate::media::frames::FrameInterpolationFallback;
use crate::media::frames::FrameInterpolationMode;
use crate::media::frames::FrameQuery;
use crate::media::frames::TimedFrame;
use crate::media::frames::effective_mode;
use crate::media::frames::fitted;
use crate::media::frames::frame_arguments;
use crate::media::frames::interpolation;
use crate::media::frames::kept_frames;
use crate::media::frames::rates_fault;
use crate::media::frames::step_at;
use crate::media::motion::block_side;
use crate::media::motion::blocks_along;
use crate::media::motion::reach;
use crate::media::motion::stride;
use crate::media::motion::tried;
use crate::media::pcm::PcmFormat;
use crate::media::pcm::PcmSpec;
use crate::media::pcm::RawSample;
use crate::media::pcm::ReadView;
use crate::media::pcm::checked_output;
use crate::media::pcm::expected_bytes;
use crate::media::pcm::frame_bytes;
use crate::media::pcm::pcm_arguments;
use crate::media::pcm::sample_at;
use crate::media::pcm::slack;
use crate::media::picture::FrameView;
use crate::media::picture::decoded_frame;
use crate::media::picture::encoded_file;
use crate::media::polling::ChildState;
use crate::media::polling::WatchView;
use crate::media::polling::cuttable;
use crate::media::polling::settled;
use crate::media::polling::trim_arguments;
use crate::media::polling::watched;
use crate::media::preset::VideoCodec;
use crate::media::preset::video_encoder;
use crate::model::Real;
use crate::paths::parts;
use crate::text::nat_text;
use crate::text::opt_text;
use crate::text::texts;
use vstd::prelude::*;

verus! {

/// The way frames are made is the one asked for; only where optical flow is asked for and
/// not to be had the fallback comes in, which may be to fail.
pub proof fn law_fallbacks_stand_in_for_optical_flow(
    requested: FrameInterpolationMode,
    fallback: FrameInterpolationFallback,
    available: bool,
)
    ensures
        ({
            let r = effective_mode(requested, fallback, available);
            &&& available || !(requested is OpticalFlow) ==> r
                == Ok::<FrameInterpolationMode, MediaFault>(requested)
            &&& requested is OpticalFlow && !available ==> {
                &&& fallback is Nearest ==> r == Ok::<FrameInterpolationMode, MediaFault>(
                    FrameInterpolationMode::Nearest,
                )
                &&& fallback is Blend ==> r == Ok::<FrameInterpolationMode, MediaFault>(
                    FrameInterpolationMode::Blend,
                )
                &&& fallback is Error ==> r is Err
            }
        }),
{
}

/// Between two frames: at or before the first it is taken, at or behind the last that is
/// taken; in between the nearer is taken, the last on a tie, or they are blended, or moved
/// along the optical flow, as the mode says.
pub proof fn law_frames_between_two(alpha: Real, mode: FrameInterpolationMode)
    requires
        finite(alpha),
    ensures
        ({
            let nought = Real { bits: 0 };
            let half = Real { bits: 0x3FE0_0000_0000_0000 };
            let one = Real { bits: 0x3FF0_0000_0000_0000 };
            let step = step_at(alpha, mode);
            &&& !less(nought, alpha) ==> step is First
            &&& !less(alpha, one) ==> step is Last
            &&& less(nought, alpha) && less(alpha, one) ==> {
                &&& mode is Nearest ==> if less(alpha, half) {
                    step is First
                } else {
                    step is Last
                }
                &&& mode is Blend ==> step is Blend
                &&& mode is OpticalFlow ==> step is OpticalFlow
            }
        }),
{
    law_encodings_are_told_apart(alpha);
    law_encodings_are_told_apart(Real { bits: 0 });
    law_encodings_are_told_apart(Real { bits: 0x3FE0_0000_0000_0000 });
    law_encodings_are_told_apart(Real { bits: 0x3FF0_0000_0000_0000 });
}

/// Interpolating is refused where the frames differ in size, the place is no number, or
/// the fallback fails; otherwise the step is the one at the place for the mode that holds.
pub proof fn law_interpolation_is_checked(
    first: FrameView,
    last: FrameView,
    alpha: Real,
    requested: FrameInterpolationMode,
    fallback: FrameInterpolationFallback,
    available: bool,
)
    ensures
        ({
            let r = interpolation(first, last, alpha, requested, fallback, available);
            &&& r is Ok <==> first.width == last.width && first.height == last.height
                && first.rgba.len() == last.rgba.len() && finite(alpha) && (available
                || !(requested is OpticalFlow) || !(fallback is Error))
            &&& r matches Ok(x) ==> effective_mode(requested, fallback, available) == Ok::<
                FrameInterpolationMode,
                MediaFault,
            >(x.1) && x.0 == step_at(alpha, x.1)
        }),
{
}

/// Rates are refused exactly where there is no frame or a rate is not a positive number.
pub proof fn law_rates_are_checked(count: u64, source: Real, target: Real)
    ensures
        rates_fault(count, source, target) is Ok <==> count > 0 && 1 <= source.bits
            <= 0x7FEF_FFFF_FFFF_FFFF && 1 <= target.bits <= 0x7FEF_FFFF_FFFF_FFFF,
{
    law_encodings_are_told_apart(source);
    law_encodings_are_told_apart(target);
}

/// A picture that fits, or has no bounds, stays as it is.
pub proof fn law_fitting_pictures_stay(w: int, h: int, max: (int, int))
    requires
        w > 0,
        h > 0,
        max.0 <= 0 || w <= max.0,
        max.1 <= 0 || h <= max.1,
    ensures
        fitted(w, h, max) == (w, h),
{
}

/// The arguments for one frame: those for a high dynamic range, the place to seek to, the
/// file, one frame, the filters where there are any, and raw pixels to the output. A
/// stream is asked for the same way without the limit of one frame.
pub proof fn law_frames_are_asked_for(q: FrameQuery)
    ensures
        ({
            let args = frame_arguments(q);
            let h = texts(q.hdr_args@).len() as int;
            let f: int = if opt_text(q.tonemap) is Some || q.max_size.0 > 0 || q.max_size.1 > 0 {
                2
            } else {
                0
            };
            &&& args.len() == h + 11 + f
            &&& forall|i: int| 0 <= i < h ==> #[trigger] args[i] == texts(q.hdr_args@)[i]
            &&& args[h] == "-ss"@
            &&& args[h + 1] == q.seek@
            &&& args[h + 2] == "-i"@
            &&& args[h + 3] == q.path@
            &&& args[h + 4] == "-frames:v"@
            &&& args[h + 5] == "1"@
            &&& f == 2 ==> args[h + 6] == "-vf"@
            &&& args[h + 6 + f] == "-pix_fmt"@
            &&& args[h + 7 + f] == "rgba"@
            &&& args[h + 8 + f] == "-f"@
            &&& args[h + 9 + f] == "rawvideo"@
            &&& args[h + 10 + f] == "-"@
        }),
{
}

/// Which results of a batch are kept: errors other than that there was nothing to decode,
/// and frames whose time is later than that of every frame before it.
pub proof fn law_frames_that_advance_are_kept(v: Seq<Result<TimedFrame, MediaError>>, n: int)
    requires
        0 <= n < v.len(),
    ensures
        kept_frames(v, 0).0.len() == 0,
        ({
            let before = kept_frames(v, n).0;
            let after = kept_frames(v, n + 1).0;
            match v[n] {
                Ok(f) => if less(Real { bits: 0xFFF0_0000_0000_0000 }, f.at) && forall|k: int|
                    0 <= k < n ==> (#[trigger] v[k] matches Ok(g) ==> nan(g.at) || less(
                        g.at,
                        f.at,
                    )) {
                    after == before.push(v[n])
                } else {
                    after == before
                },
                Err(MediaError::Decode(_)) => after == before,
                Err(_) => after == before.push(v[n]),
            }
        }),
{
    lemma_last_time(v, n);
    let last = kept_frames(v, n).1;
    if let Ok(f) = v[n] {
        if less(last, f.at) {
            let low = Real { bits: 0xFFF0_0000_0000_0000 };
            assert forall|k: int| 0 <= k < n implies (#[trigger] v[k] matches Ok(g) ==> nan(g.at)
                || less(g.at, f.at)) by {
                if let Ok(g) = v[k] {
                    if !nan(g.at) {
                        lemma_between(g.at, last, f.at);
                    }
                }
            }
            lemma_between(low, last, f.at);
        } else if less(Real { bits: 0xFFF0_0000_0000_0000 }, f.at) && forall|k: int|
            0 <= k < n ==> (#[trigger] v[k] matches Ok(g) ==> nan(g.at) || less(g.at, f.at)) {
            lemma_last_is_one(v, n);
        }
    }
}

/// Nothing between a number and a later one is later than that one.
proof fn lemma_between(a: Real, b: Real, c: Real)
    requires
        !nan(a),
        !less(b, a),
        less(b, c),
    ensures
        less(a, c),
{
}

proof fn lemma_last_time(v: Seq<Result<TimedFrame, MediaError>>, n: int)
    requires
        0 <= n <= v.len(),
    ensures
        ({
            let last = kept_frames(v, n).1;
            &&& !nan(last)
            &&& !less(last, Real { bits: 0xFFF0_0000_0000_0000 })
            &&& forall|k: int|
                0 <= k < n ==> (#[trigger] v[k] matches Ok(g) ==> nan(g.at) || !less(last, g.at))
        }),
    decreases n,
{
    let low = Real { bits: 0xFFF0_0000_0000_0000 };
    law_encodings_are_told_apart(low);
    if n > 0 {
        lemma_last_time(v, n - 1);
        let before = kept_frames(v, n - 1).1;
        let last = kept_frames(v, n).1;
        if let Ok(f) = v[n - 1] {
            if less(before, f.at) {
                assert forall|k: int| 0 <= k < n implies (#[trigger] v[k] matches Ok(g) ==> nan(
                    g.at,
                ) || !less(last, g.at)) by {
                    if let Ok(g) = v[k] {
                        law_same_numbers(before, last, g.at);
                    }
                }
                law_same_numbers(before, last, low);
            }
        }
    }
}

proof fn lemma_last_is_one(v: Seq<Result<TimedFrame, MediaError>>, n: int)
    requires
        0 <= n <= v.len(),
    ensures
        ({
            let last = kept_frames(v, n).1;
            last.bits == 0xFFF0_0000_0000_0000 || exists|k: int|
                0 <= k < n && (#[trigger] v[k] matches Ok(g) && g.at == last && !nan(g.at))
        }),
    decreases n,
{
    if n > 0 {
        lemma_last_is_one(v, n - 1);
        let before = kept_frames(v, n - 1).1;
        if let Ok(f) = v[n - 1] {
            if less(before, f.at) {
                assert(v[n - 1] matches Ok(g) && g.at == kept_frames(v, n).1 && !nan(g.at));
            } else if before.bits != 0xFFF0_0000_0000_0000 {
                let k = choose|k: int|
                    0 <= k < n - 1 && (#[trigger] v[k] matches Ok(g) && g.at == before && !nan(
                        g.at,
                    ));
                assert(v[k] matches Ok(g) && g.at == before && !nan(g.at));
            }
        } else if before.bits != 0xFFF0_0000_0000_0000 {
            let k = choose|k: int|
                0 <= k < n - 1 && (#[trigger] v[k] matches Ok(g) && g.at == before && !nan(g.at));
            assert(v[k] matches Ok(g) && g.at == before && !nan(g.at));
        }
    }
}

/// How many bytes of sound a duration takes: for each moment one sample a channel, of two
/// bytes or four. Refused where there is no rate or no channel, the duration is no number,
/// or the count is beyond reckoning.
pub proof fn law_sound_takes_its_bytes(spec: PcmSpec, duration: Real)
    ensures
        ({
            let each: int = if spec.format is S16Le {
                2
            } else {
                4
            };
            let count: int = if duration.bits >= 0x8000_0000_0000_0000 {
                0
            } else {
                ceil_product(spec.sample_rate as nat, duration) as int
            };
            let total = count * (spec.channels * each);
            let r = expected_bytes(spec, duration);
            &&& r is Ok <==> spec.sample_rate > 0 && spec.channels > 0 && finite(duration) && count
                <= 0x1_0000_0000_0000_0000 && total <= u64::MAX
            &&& r matches Ok(n) ==> n == total
        }),
{
}

/// The room for sound beyond what is expected: a second, or a thirty-second part, whichever
/// is more, and 64 KiB.
pub proof fn law_room_for_more_sound(spec: PcmSpec, expected: int)
    requires
        0 <= expected,
    ensures
        ({
            let second = spec.sample_rate * frame_bytes(spec);
            let room = slack(spec, expected) - 0x1_0000;
            &&& room >= second
            &&& 32 * (room + 1) > expected
            &&& room == second || (32 * room <= expected && expected < 32 * (room + 1))
        }),
{
}

/// What comes of decoding sound: too much fails first, then a decoder that failed, then no
/// sound at all; otherwise the bytes come out as they were read.
pub proof fn law_sound_is_checked(
    path: Seq<char>,
    succeeded: bool,
    status: Seq<char>,
    out: ReadView,
    detail: Seq<char>,
    cap: int,
)
    ensures
        ({
            let r = checked_output(path, succeeded, status, out, detail, cap);
            &&& r is Ok <==> !out.exceeded_cap && succeeded && out.bytes.len() > 0
            &&& r matches Ok(bytes) ==> bytes == out.bytes
            &&& out.exceeded_cap ==> r is Err && r->Err_0 is Decode
            &&& !out.exceeded_cap && !succeeded ==> r is Err && r->Err_0 is Ffmpeg
            &&& !out.exceeded_cap && succeeded && out.bytes.len() == 0 ==> r is Err && r->Err_0
                is NoTrack && r->Err_0->path == path
        }),
{
}

/// The arguments for sound: the range where there is one, the file, no picture, the
/// channels, the rate, and raw samples of the format to the output.
pub proof fn law_sound_is_asked_for(
    path: Seq<char>,
    spec: PcmSpec,
    range: Option<(Seq<char>, Seq<char>)>,
)
    ensures
        ({
            let args = pcm_arguments(path, spec, range);
            let h: int = if range is Some {
                4
            } else {
                0
            };
            &&& args.len() == h + 10
            &&& range is Some ==> args[0] == "-ss"@ && args[1] == (range->0).0 && args[2] == "-to"@
                && args[3] == (range->0).1
            &&& args[h] == "-i"@
            &&& args[h + 1] == path
            &&& args[h + 2] == "-vn"@
            &&& args[h + 3] == "-ac"@
            &&& args[h + 4] == nat_text(spec.channels as nat)
            &&& args[h + 5] == "-ar"@
            &&& args[h + 6] == nat_text(spec.sample_rate as nat)
            &&& args[h + 7] == "-f"@
            &&& spec.format is S16Le ==> args[h + 8] == "s16le"@
            &&& spec.format is F32 ==> args[h + 8] == "f32le"@
            &&& args[h + 9] == "-"@
        }),
{
}

/// Samples are read from their bytes with the low byte first; of two bytes, the upper half
/// of the numbers stands for the negative ones.
pub proof fn law_samples_are_read_low_byte_first(bytes: Seq<u8>, at: int)
    requires
        0 <= at,
        at + 3 < bytes.len(),
    ensures
        ({
            let n = bytes[at] + 256 * bytes[at + 1];
            sample_at(PcmFormat::S16Le, bytes, at) matches RawSample::Integer(v) && (n < 32768
                ==> v == n) && (n >= 32768 ==> v == n - 65536)
        }),
        sample_at(PcmFormat::F32, bytes, at) matches RawSample::Encoded(v) && v == bytes[at] + 256
            * bytes[at + 1] + 65536 * bytes[at + 2] + 16777216 * bytes[at + 3],
{
}

/// Blocks are as long as the shorter side of the frame, from one pixel to 32, as many as
/// cover a side, searched half a block around, from one pixel to twelve, and compared at
/// every eighth of a block.
pub proof fn law_blocks_are_laid_out(width: int, height: int, side: int)
    requires
        0 <= width,
        0 <= height,
        0 <= side,
    ensures
        ({
            let b = block_side(width, height);
            let n = blocks_along(side, b);
            &&& 1 <= b <= 32
            &&& b <= width || b == 1
            &&& b <= height || b == 1
            &&& b == 32 || b == 1 || b == width || b == height
            &&& (width >= 32 && height >= 32) ==> b == 32
            &&& n * b >= side
            &&& (n - 1) * b < side || side == 0
            &&& 1 <= reach(b) <= 12
            &&& reach(b) == 12 || reach(b) == 1 || 2 * reach(b) == b || 2 * reach(b) + 1 == b
            &&& 1 <= stride(b)
            &&& 8 * stride(b) <= b || stride(b) == 1
            &&& 8 * (stride(b) + 1) > b
        }),
{
    let b = block_side(width, height);
    let n = blocks_along(side, b);
    assert(n * b >= side && ((n - 1) * b < side || side == 0)) by (nonlinear_arith)
        requires
            b >= 1,
            side >= 0,
            n == (side + b - 1) / b,
    ;
}

/// The motions that are tried are all those within the reach, each once, row by row.
pub proof fn law_every_motion_is_tried_once(radius: int, dx: int, dy: int)
    requires
        1 <= radius,
        -radius <= dx <= radius,
        -radius <= dy <= radius,
    ensures
        ({
            let side = 2 * radius + 1;
            let k = (dy + radius) * side + dx + radius;
            &&& 0 <= k < side * side
            &&& tried(k, radius) == (dx, dy)
        }),
{
    let side = 2 * radius + 1;
    let row = dy + radius;
    let column = dx + radius;
    let k = row * side + column;
    assert(0 <= k < side * side && k % side == column && k / side == row) by (nonlinear_arith)
        requires
            side >= 3,
            0 <= row < side,
            0 <= column < side,
            k == row * side + column,
    ;
}

/// Watching a decoder: a cancellation ends it first, then a reader that is done, which ends
/// the child too; otherwise a child that runs is waited for, one that left is settled, and
/// one that cannot be asked fails.
pub proof fn law_watching_ends_in_order(cancelled: bool, finished: bool, child: ChildState)
    ensures
        cancelled ==> watched(cancelled, finished, child) == WatchView::Fail(MediaFault::Cancelled),
        !cancelled && finished ==> watched(cancelled, finished, child) == (WatchView::Settle {
            end_child: true,
        }),
        !cancelled && !finished && child is Running ==> watched(cancelled, finished, child)
            is Wait,
        !cancelled && !finished && child is Exited ==> watched(cancelled, finished, child) == (
        WatchView::Settle { end_child: false }),
        !cancelled && !finished && child is Unknown ==> watched(cancelled, finished, child)
            is Fail,
{
}

/// What comes of a frame that was waited for: nothing once cancelled, else the frame.
pub proof fn law_settling_gives_the_frame<T>(cancelled: bool, found: Option<T>, time: Seq<char>)
    ensures
        settled(cancelled, found, time) is Ok <==> !cancelled && found is Some,
        !cancelled && found is Some ==> settled(cancelled, found, time) == Ok::<T, MediaFault>(
            found->0,
        ),
        cancelled ==> settled(cancelled, found, time) == Err::<T, MediaFault>(
            MediaFault::Cancelled,
        ),
{
}

/// A span may be cut out exactly when both ends are numbers, the first is not below zero
/// and comes before the second.
pub proof fn law_spans_that_may_be_cut(start: Real, end: Real)
    ensures
        cuttable(start, end) <==> finite(start) && finite(end) && !less(start, Real { bits: 0 })
            && less(start, end),
{
    law_encodings_are_told_apart(start);
    law_encodings_are_told_apart(end);
    law_encodings_are_told_apart(Real { bits: 0 });
}

/// Cutting a span out starts at the start, reads the source, lasts the duration and writes
/// the destination last, over what is there.
pub proof fn law_cuts_are_asked_for(
    source: Seq<char>,
    destination: Seq<char>,
    start: Seq<char>,
    duration: Seq<char>,
)
    ensures
        ({
            let args = trim_arguments(source, destination, start, duration);
            &&& args.len() == 26
            &&& args[4] == "-y"@
            &&& args[5] == "-ss"@ && args[6] == start
            &&& args[7] == "-i"@ && args[8] == source
            &&& args[9] == "-t"@ && args[10] == duration
            &&& args[11] == "-map"@ && args[12] == "0:v:0"@
            &&& args[13] == "-map"@ && args[14] == "0:a?"@
            &&& args[15] == "-c:v"@ && args[16] == "libx264"@
            &&& args[17] == "-preset"@ && args[18] == "veryfast"@
            &&& args[19] == "-crf"@ && args[20] == "18"@
            &&& args[21] == "-c:a"@ && args[22] == "aac"@
            &&& args[23] == "-movflags"@ && args[24] == "+faststart"@
            &&& args[25] == destination
        }),
{
}

/// A picture that was decoded comes out as it is, one that was not as a complaint; so does
/// a file that was encoded.
pub proof fn law_pictures_come_out_as_they_are(
    decoded: Result<(u32, u32, Seq<u8>), Seq<char>>,
    encoded: Result<Seq<u8>, Seq<char>>,
)
    ensures
        decoded_frame(decoded) is Ok <==> decoded is Ok,
        decoded matches Ok((w, h, rgba)) ==> decoded_frame(decoded) == Ok::<FrameView, MediaFault>(
            FrameView { width: w, height: h, rgba },
        ),
        encoded_file(encoded) is Ok <==> encoded is Ok,
        encoded matches Ok(bytes) ==> encoded_file(encoded) == Ok::<Seq<u8>, MediaFault>(bytes),
{
}

/// Which encoder a codec takes, in software and on the graphics card.
pub proof fn law_encoders_of_codecs(hardware: bool)
    ensures
        video_encoder(VideoCodec::H264, true) == "h264_nvenc"@,
        video_encoder(VideoCodec::H264, false) == "libx264"@,
        video_encoder(VideoCodec::H265, true) == "hevc_nvenc"@,
        video_encoder(VideoCodec::H265, false) == "libx265"@,
        video_encoder(VideoCodec::ProRes422, hardware) == "prores_ks"@,
        video_encoder(VideoCodec::ProRes4444, hardware) == "prores_ks"@,
{
}

proof fn lemma_last_dot(s: Seq<char>, n: int)
    requires
        0 <= n <= s.len(),
    ensures
        match last_dot(s, n) {
            Some(i) => 0 <= i < n && s[i] == '.' && forall|k: int|
                i < k < n ==> #[trigger] s[k] != '.',
            None => forall|k: int| 0 <= k < n ==> #[trigger] s[k] != '.',
        },
    decreases n,
{
    if n > 0 && s[n - 1] != '.' {
        lemma_last_dot(s, n - 1);
    }
}

/// The extension of a path is what follows the last dot of its last part, where that dot
/// is not its first character.
pub proof fn law_extensions_follow_the_last_dot(path: Seq<char>)
    ensures
        ({
            let name = parts(path).last();
            let named = parts(path).len() > 0 && name != "."@ && name != ".."@;
            match extension(path) {
                Some(ext) => named && exists|i: int|
                    0 < i < name.len() && #[trigger] name[i] == '.' && ext == name.skip(i + 1)
                        && forall|k: int| i < k < name.len() ==> #[trigger] name[k] != '.',
                None => !named || forall|k: int| 0 < k < name.len() ==> #[trigger] name[k] != '.',
            }
        }),
{
    let all = parts(path);
    if all.len() > 0 {
        lemma_last_dot(all.last(), all.last().len() as int);
    }
}

/// Extracting sound is refused exactly where the output has no extension or none that is
/// known; otherwise the input is read, its picture left out, the sound encoded as the
/// extension says and written to the output.
pub proof fn law_sound_is_extracted(input: Seq<char>, output: Seq<char>)
    ensures
        ({
            let r = extraction(input, output);
            let ext = extension(output);
            &&& r is Ok <==> ext is Some && codec_arguments(ext->0) is Some
            &&& r matches Ok(args) ==> {
                let codec = codec_arguments(ext->0)->0;
                &&& args.len() == codec.len() + 5
                &&& args[0] == "-y"@
                &&& args[1] == "-i"@
                &&& args[2] == input
                &&& args[3] == "-vn"@
                &&& forall|k: int| 0 <= k < codec.len() ==> args[k + 4] == #[trigger] codec[k]
                &&& args.last() == output
            }
        }),
        codec_arguments("wav"@) is Some,
        codec_arguments("mp3"@) is Some,
        codec_arguments("m4a"@) == Some(seq!["-c:a"@, "aac"@, "-b:a"@, "192k"@]),
        codec_arguments("aac"@) == codec_arguments("m4a"@),
        codec_arguments("m4r"@) == codec_arguments("m4a"@),
{
}

} // verus!
