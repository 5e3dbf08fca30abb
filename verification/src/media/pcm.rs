//! Decoding the audio of a file to raw samples.

use crate::binary64::ceil_product;
use crate::binary64::ceil_times;
use crate::binary64::finite;
use crate::binary64::sign_bit;
use crate::binary64::zero;
use crate::media::media_plainly;
use crate::media::push_arg;
use crate::media::MediaError;
use crate::media::MediaFault;
use crate::model::Real;
use crate::text::cat2;
use crate::text::cat4;
use crate::text::nat_text;
use crate::text::texts;
use crate::text::trim;
use crate::text::trimmed;
use crate::text::u64_to_text;
use vstd::prelude::*;
use vstd::string::StrSliceExecFns;
use vstd::string::StringExecFns;

verus! {

/// The sample format that ffmpeg is asked for.
#[derive(Clone, Copy, Debug, PartialEq, Eq, Structural)]
pub enum PcmFormat {
    S16Le,
    F32,
}

/// How many bytes one sample takes.
pub open spec fn sample_bytes(format: PcmFormat) -> int {
    match format {
        PcmFormat::S16Le => 2,
        PcmFormat::F32 => 4,
    }
}

/// The name that ffmpeg has for a sample format.
pub open spec fn format_name(format: PcmFormat) -> Seq<char> {
    match format {
        PcmFormat::S16Le => "s16le"@,
        PcmFormat::F32 => "f32le"@,
    }
}

impl PcmFormat {
    /// The name that ffmpeg has for it.
    pub fn ffmpeg_fmt(self) -> (r: &'static str)
        ensures
            r@ == format_name(self),
    {
        match self {
            PcmFormat::S16Le => "s16le",
            PcmFormat::F32 => "f32le",
        }
    }

    /// How many bytes one sample takes.
    pub fn bytes_per_sample(self) -> (r: u64)
        ensures
            r == sample_bytes(self),
            r == 2 || r == 4,
    {
        match self {
            PcmFormat::S16Le => 2,
            PcmFormat::F32 => 4,
        }
    }
}

/// The layout that is asked for.
#[derive(Clone, Copy, Debug, PartialEq, Eq, Structural)]
pub struct PcmSpec {
    pub sample_rate: u32,
    pub channels: u16,
    pub format: PcmFormat,
}

/// How many bytes the samples of all channels at one moment take.
pub open spec fn frame_bytes(spec: PcmSpec) -> int {
    spec.channels * sample_bytes(spec.format)
}

impl PcmSpec {
    /// How many bytes the samples of all channels at one moment take.
    pub fn bytes_per_frame(&self) -> (r: u64)
        ensures
            r == frame_bytes(*self),
            r <= 0x4_0000,
    {
        let sample = self.format.bytes_per_sample();
        assert(self.channels * sample <= 0x1_0000 * 4) by (nonlinear_arith)
            requires
                0 <= self.channels <= 0x1_0000,
                0 <= sample <= 4,
        ;
        self.channels as u64 * sample
    }
}

/// The largest count of bytes.
pub const COUNT_END: u128 = 0x1_0000_0000_0000_0000;

/// How many moments a duration takes: as many as it holds, and one more for what is
/// left over. A duration below zero takes none.
pub open spec fn moments(spec: PcmSpec, duration: Real) -> nat {
    if sign_bit(duration) {
        0
    } else {
        ceil_product(spec.sample_rate as nat, duration)
    }
}

/// The complaint that there would be too much audio.
pub open spec fn too_large(detail: Seq<char>) -> MediaFault {
    MediaFault::Decode("audio_buffer_too_large: "@ + detail)
}

/// How many bytes the audio of a duration takes, or why that cannot be said.
pub open spec fn expected_bytes(spec: PcmSpec, duration: Real) -> Result<int, MediaFault> {
    if spec.sample_rate == 0 || spec.channels == 0 {
        Err(MediaFault::Decode("PCM sample rate and channel count must be non-zero"@))
    } else if !finite(duration) {
        Err(too_large("non-finite duration"@))
    } else if moments(spec, duration) > COUNT_END {
        Err(too_large("PCM frame count exceeds usize"@))
    } else if moments(spec, duration) * frame_bytes(spec) > u64::MAX {
        Err(too_large("PCM output byte count overflow"@))
    } else {
        Ok(moments(spec, duration) * frame_bytes(spec))
    }
}

/// The view of a count of bytes.
pub open spec fn byte_count(r: Result<u64, MediaError>) -> Result<int, MediaFault> {
    match r {
        Ok(n) => Ok(n as int),
        Err(e) => Err(e@),
    }
}

fn audio_buffer_too_large(detail: &str) -> (r: MediaError)
    ensures
        r@ == too_large(detail@),
{
    MediaError::Decode(cat2("audio_buffer_too_large: ", detail))
}

/// How many bytes the audio of a duration in seconds takes.
pub fn expected_pcm_bytes(spec: &PcmSpec, duration: Real) -> (r: Result<u64, MediaError>)
    ensures
        byte_count(r) == expected_bytes(*spec, duration),
{
    if spec.sample_rate == 0 || spec.channels == 0 {
        return Err(
            MediaError::Decode(
                String::from_str("PCM sample rate and channel count must be non-zero"),
            ),
        );
    }
    if !duration.is_finite() {
        return Err(audio_buffer_too_large("non-finite duration"));
    }
    let frames: u128 = if duration.bits >= 0x8000_0000_0000_0000 {
        0
    } else {
        match ceil_times(spec.sample_rate, duration) {
            Some(n) => n,
            None => return Err(audio_buffer_too_large("PCM frame count exceeds usize")),
        }
    };
    let bytes = spec.bytes_per_frame();
    assert(0 <= frames * bytes <= 0x1_0000_0000_0000_0000 * 0x4_0000) by (nonlinear_arith)
        requires
            0 <= frames <= 0x1_0000_0000_0000_0000,
            0 <= bytes <= 0x4_0000,
    ;
    let total: u128 = frames * bytes as u128;
    if total > 0xFFFF_FFFF_FFFF_FFFF {
        return Err(audio_buffer_too_large("PCM output byte count overflow"));
    }
    Ok(total as u64)
}

/// Refuses a file in which no audio was found.
pub fn require_audio(path: &str, has_audio: bool) -> (r: Result<(), MediaError>)
    ensures
        media_plainly(r) == (if has_audio {
            Ok::<(), MediaFault>(())
        } else {
            Err(MediaFault::NoTrack { kind: "audio"@, path: path@ })
        }),
{
    if has_audio {
        return Ok(());
    }
    Err(MediaError::NoTrack { kind: String::from_str("audio"), path: String::from_str(path) })
}

/// How much more than expected is accepted: a second of audio, or a thirty-second
/// part of what is expected if that is more, and 64 KiB. Codecs and containers add
/// that much; a stream that runs away adds more.
pub open spec fn slack(spec: PcmSpec, expected: int) -> int {
    let second = spec.sample_rate * frame_bytes(spec);
    let part = expected / 32;
    (if second > part {
        second
    } else {
        part
    }) + 0x1_0000
}

/// How much is accepted from ffmpeg in all.
pub fn reader_cap(spec: &PcmSpec, expected: u64) -> (r: Result<u64, MediaError>)
    ensures
        byte_count(r) == (if expected + slack(*spec, expected as int) > u64::MAX {
            Err(too_large("PCM reader cap overflow"@))
        } else {
            Ok(expected + slack(*spec, expected as int))
        }),
{
    let bytes = spec.bytes_per_frame();
    assert(0 <= spec.sample_rate * bytes <= 0x1_0000_0000 * 0x4_0000) by (nonlinear_arith)
        requires
            0 <= spec.sample_rate <= 0x1_0000_0000,
            0 <= bytes <= 0x4_0000,
    ;
    let second: u64 = spec.sample_rate as u64 * bytes;
    let part: u64 = expected / 32;
    let slack: u64 = (if second > part {
        second
    } else {
        part
    }) + 0x1_0000;
    match expected.checked_add(slack) {
        Some(cap) => Ok(cap),
        None => Err(audio_buffer_too_large("PCM reader cap overflow")),
    }
}

/// What has been read from ffmpeg: the bytes up to the cap, how many there were in
/// all, and whether there were more than the cap.
#[derive(Debug)]
pub struct StdoutRead {
    pub bytes: Vec<u8>,
    pub exceeded_cap: bool,
    pub total_read: u64,
}

/// The view of a [`StdoutRead`].
#[verifier::ext_equal]
pub struct ReadView {
    pub bytes: Seq<u8>,
    pub exceeded_cap: bool,
    pub total_read: int,
}

impl View for StdoutRead {
    type V = ReadView;

    open spec fn view(&self) -> ReadView {
        ReadView {
            bytes: self.bytes@,
            exceeded_cap: self.exceeded_cap,
            total_read: self.total_read as int,
        }
    }
}

/// What has been read once `chunk` came too: no more than `cap` bytes are kept.
pub open spec fn chunk_read(s: ReadView, chunk: Seq<u8>, cap: int) -> ReadView {
    let room = if s.bytes.len() < cap {
        cap - s.bytes.len()
    } else {
        0
    };
    let kept = if room < chunk.len() {
        room
    } else {
        chunk.len() as int
    };
    let total = s.total_read + chunk.len();
    ReadView {
        bytes: s.bytes + chunk.take(kept),
        exceeded_cap: s.exceeded_cap || kept < chunk.len(),
        total_read: if total > u64::MAX {
            u64::MAX as int
        } else {
            total
        },
    }
}

impl StdoutRead {
    /// Nothing read yet.
    pub fn new() -> (r: StdoutRead)
        ensures
            r@ == (ReadView { bytes: Seq::empty(), exceeded_cap: false, total_read: 0 }),
    {
        StdoutRead { bytes: Vec::new(), exceeded_cap: false, total_read: 0 }
    }

    /// Takes one chunk in.
    pub fn accept(&mut self, chunk: &[u8], cap: u64)
        ensures
            final(self)@ == chunk_read(old(self)@, chunk@, cap as int),
    {
        let ghost before = self@;
        let len: usize = chunk.len();
        self.total_read = match self.total_read.checked_add(len as u64) {
            Some(total) => total,
            None => u64::MAX,
        };
        let ghost total = self.total_read;
        let mut i: usize = 0;
        while i < len && (self.bytes.len() as u64) < cap
            invariant
                i <= len == chunk@.len(),
                self.bytes@ == before.bytes + chunk@.take(i as int),
                self.exceeded_cap == before.exceeded_cap,
                self.total_read == total,
                i > 0 ==> before.bytes.len() + i <= cap,
            decreases len - i,
        {
            let b = chunk[i];
            self.bytes.push(b);
            assert(before.bytes + chunk@.take(i as int + 1) =~= (before.bytes + chunk@.take(
                i as int,
            )).push(b));
            i += 1;
        }
        assert(chunk@.take(0) =~= Seq::empty());
        if i < len {
            self.exceeded_cap = true;
        }
    }
}

/// No chunk makes what is kept grow beyond the cap, and bytes are left out exactly
/// when that is said.
pub proof fn law_reading_keeps_to_the_cap(s: ReadView, chunk: Seq<u8>, cap: int)
    requires
        s.bytes.len() <= cap,
    ensures
        chunk_read(s, chunk, cap).bytes.len() <= cap,
        chunk_read(s, chunk, cap).bytes.len() < s.bytes.len() + chunk.len() ==> chunk_read(
            s,
            chunk,
            cap,
        ).exceeded_cap,
        s.exceeded_cap ==> chunk_read(s, chunk, cap).exceeded_cap,
        !chunk_read(s, chunk, cap).exceeded_cap ==> chunk_read(s, chunk, cap).bytes == s.bytes
            + chunk,
{
    if chunk_read(s, chunk, cap).bytes.len() == s.bytes.len() + chunk.len() {
        assert(chunk.take(chunk.len() as int) =~= chunk);
    }
}

/// What ffmpeg's output amounts to. Too much of it is an error whatever else; a
/// failure of ffmpeg is one even where there is output; no output means that there
/// is no audio.
pub open spec fn checked_output(
    path: Seq<char>,
    succeeded: bool,
    status: Seq<char>,
    out: ReadView,
    detail: Seq<char>,
    cap: int,
) -> Result<Seq<u8>, MediaFault> {
    if out.exceeded_cap {
        Err(
            too_large(
                "FFmpeg stdout read "@ + nat_text(out.total_read as nat) + " bytes, exceeding "@
                    + nat_text(cap as nat),
            ),
        )
    } else if !succeeded {
        Err(
            MediaFault::Ffmpeg(
                "decode exited "@ + status + (if trimmed(detail).len() == 0 {
                    Seq::empty()
                } else {
                    ": "@ + trimmed(detail)
                }),
            ),
        )
    } else if out.bytes.len() == 0 {
        Err(MediaFault::NoTrack { kind: "audio"@, path })
    } else {
        Ok(out.bytes)
    }
}

/// The view of the bytes that were accepted.
pub open spec fn bytes_view(r: Result<Vec<u8>, MediaError>) -> Result<Seq<u8>, MediaFault> {
    match r {
        Ok(bytes) => Ok(bytes@),
        Err(e) => Err(e@),
    }
}

/// Decides on ffmpeg's output. `status` and `detail` are how it says that it ended
/// and what it wrote about it.
pub fn validate_pcm_output(
    path: &str,
    succeeded: bool,
    status: &str,
    out: StdoutRead,
    detail: &str,
    cap: u64,
) -> (r: Result<Vec<u8>, MediaError>)
    ensures
        bytes_view(r) == checked_output(path@, succeeded, status@, out@, detail@, cap as int),
{
    if out.exceeded_cap {
        let total = u64_to_text(out.total_read);
        let limit = u64_to_text(cap);
        let message = cat4(
            "FFmpeg stdout read ",
            total.as_str(),
            " bytes, exceeding ",
            limit.as_str(),
        );
        return Err(audio_buffer_too_large(message.as_str()));
    }
    if !succeeded {
        let said = trim(detail);
        let said = said.as_str();
        if said.is_empty() {
            assert("decode exited "@ + status@ + Seq::<char>::empty() =~= "decode exited "@
                + status@);
            return Err(MediaError::Ffmpeg(cat2("decode exited ", status)));
        }
        let message = cat4("decode exited ", status, ": ", said);
        assert(message@ =~= "decode exited "@ + status@ + (": "@ + said@));
        return Err(MediaError::Ffmpeg(message));
    }
    if out.bytes.len() == 0 {
        return Err(
            MediaError::NoTrack {
                kind: String::from_str("audio"),
                path: String::from_str(path),
            },
        );
    }
    Ok(out.bytes)
}

/// The arguments that have ffmpeg decode the first audio track to raw samples on its
/// output, for a range of seconds where one is given.
pub open spec fn pcm_arguments(
    path: Seq<char>,
    spec: PcmSpec,
    range: Option<(Seq<char>, Seq<char>)>,
) -> Seq<Seq<char>> {
    (match range {
        Some((from, to)) => seq!["-ss"@, from, "-to"@, to],
        None => Seq::empty(),
    }) + seq![
        "-i"@,
        path,
        "-vn"@,
        "-ac"@,
        nat_text(spec.channels as nat),
        "-ar"@,
        nat_text(spec.sample_rate as nat),
        "-f"@,
        format_name(spec.format),
        "-"@,
    ]
}

/// The view of a range.
pub open spec fn range_view(range: Option<(&str, &str)>) -> Option<(Seq<char>, Seq<char>)> {
    match range {
        Some((from, to)) => Some((from@, to@)),
        None => None,
    }
}

/// Builds the arguments for decoding audio. A range is given as seconds in the form
/// in which ffmpeg takes them.
pub fn pcm_args(path: &str, spec: &PcmSpec, range: Option<(&str, &str)>) -> (r: Vec<String>)
    ensures
        texts(r@) == pcm_arguments(path@, *spec, range_view(range)),
{
    let mut args: Vec<String> = Vec::new();
    assert(texts(args@) =~= Seq::empty());
    if let Some((from, to)) = range {
        push_arg(&mut args, "-ss");
        push_arg(&mut args, from);
        push_arg(&mut args, "-to");
        push_arg(&mut args, to);
        assert(texts(args@) =~= seq!["-ss"@, from@, "-to"@, to@]);
    }
    let channels = u64_to_text(spec.channels as u64);
    let rate = u64_to_text(spec.sample_rate as u64);
    push_arg(&mut args, "-i");
    push_arg(&mut args, path);
    push_arg(&mut args, "-vn");
    push_arg(&mut args, "-ac");
    push_arg(&mut args, channels.as_str());
    push_arg(&mut args, "-ar");
    push_arg(&mut args, rate.as_str());
    push_arg(&mut args, "-f");
    push_arg(&mut args, spec.format.ffmpeg_fmt());
    push_arg(&mut args, "-");
    assert(texts(args@) =~= pcm_arguments(path@, *spec, range_view(range)));
    args
}

/// All of the work, in the units in which progress is told.
pub const PCM_PROGRESS_TOTAL: u64 = 4_000;

/// The share of decoding in it; converting is the rest.
pub const PCM_DECODE_PROGRESS_END: u64 = 3_000;

/// A product that does not pass the largest count.
pub open spec fn capped(n: int) -> int {
    if n > u64::MAX {
        u64::MAX as int
    } else {
        n
    }
}

/// How far the work is once `done` of `total` bytes have been decoded.
pub open spec fn decoding_progress(done: int, total: int) -> int {
    let all = if total > 1 {
        total
    } else {
        1
    };
    let part = if done < all {
        done
    } else {
        all
    };
    capped(part * PCM_DECODE_PROGRESS_END) / all
}

/// How far the work is once `done` of `total` moments have been converted.
pub open spec fn converting_progress(done: int, total: int) -> int {
    let all = if total > 1 {
        total
    } else {
        1
    };
    PCM_DECODE_PROGRESS_END + capped(
        done * (PCM_PROGRESS_TOTAL - PCM_DECODE_PROGRESS_END),
    ) / all
}

fn share(part: u64, units: u64, all: u64) -> (r: u64)
    requires
        part <= all,
        1 <= all,
        units <= 4_000,
    ensures
        r == capped(part * units) / all as int,
        r <= units,
{
    assert(0 <= part * units <= 0x1_0000_0000_0000_0000 * 4_000) by (nonlinear_arith)
        requires
            0 <= part <= 0x1_0000_0000_0000_0000,
            0 <= units <= 4_000,
    ;
    let wide: u128 = part as u128 * units as u128;
    let product: u64 = if wide > 0xFFFF_FFFF_FFFF_FFFF {
        u64::MAX
    } else {
        wide as u64
    };
    assert(product / all <= units) by (nonlinear_arith)
        requires
            product <= part * units,
            part <= all,
            1 <= all,
    ;
    product / all
}

/// How far the work is while bytes are being decoded.
pub fn decode_progress(done: u64, total: u64) -> (r: u64)
    ensures
        r == decoding_progress(done as int, total as int),
        r <= PCM_DECODE_PROGRESS_END,
{
    let all: u64 = if total > 1 {
        total
    } else {
        1
    };
    let part: u64 = if done < all {
        done
    } else {
        all
    };
    share(part, PCM_DECODE_PROGRESS_END, all)
}

/// How far the work is while samples are being converted.
pub fn convert_progress(done: u64, total: u64) -> (r: u64)
    requires
        done <= total,
    ensures
        r == converting_progress(done as int, total as int),
        PCM_DECODE_PROGRESS_END <= r <= PCM_PROGRESS_TOTAL,
{
    let all: u64 = if total > 1 {
        total
    } else {
        1
    };
    PCM_DECODE_PROGRESS_END + share(done, PCM_PROGRESS_TOTAL - PCM_DECODE_PROGRESS_END, all)
}

/// Progress never goes back: neither while bytes are decoded, nor while samples are
/// converted, nor between the two; and it ends at the whole. This is said of all
/// counts that can be told in units of progress.
pub proof fn law_progress_never_goes_back(a: int, b: int, total: int)
    requires
        0 <= a <= b <= total,
        1 <= total,
        total * PCM_DECODE_PROGRESS_END <= u64::MAX,
    ensures
        0 <= decoding_progress(a, total) <= decoding_progress(b, total)
            <= PCM_DECODE_PROGRESS_END,
        PCM_DECODE_PROGRESS_END <= converting_progress(a, total) <= converting_progress(
            b,
            total,
        ) <= PCM_PROGRESS_TOTAL,
        decoding_progress(total, total) == converting_progress(0, total),
        converting_progress(total, total) == PCM_PROGRESS_TOTAL,
{
    assert(0 <= a * 3_000 / total <= b * 3_000 / total <= 3_000) by (nonlinear_arith)
        requires
            0 <= a <= b <= total,
            1 <= total,
    ;
    assert(0 <= a * 1_000 / total <= b * 1_000 / total <= 1_000) by (nonlinear_arith)
        requires
            0 <= a <= b <= total,
            1 <= total,
    ;
    assert(total * 3_000 / total == 3_000 && total * 1_000 / total == 1_000 && 0int * 1_000 / total
        == 0) by (nonlinear_arith)
        requires
            1 <= total,
    ;
}

/// How many channels are laid side by side; there is always one.
pub open spec fn lanes(spec: PcmSpec) -> int {
    if spec.channels == 0 {
        1
    } else {
        spec.channels as int
    }
}

/// How many moments some bytes hold in full.
pub open spec fn moments_in(spec: PcmSpec, bytes: int) -> int {
    bytes / (lanes(spec) * sample_bytes(spec.format))
}

/// Where the sample of a channel at a moment starts.
pub open spec fn sample_place(spec: PcmSpec, moment: int, channel: int) -> int {
    (moment * lanes(spec) + channel) * sample_bytes(spec.format)
}

/// A sample as it was decoded: an integer, or the encoding of a 32-bit number.
#[derive(Clone, Copy, Debug, PartialEq, Eq, Structural)]
pub enum RawSample {
    Integer(i16),
    Encoded(u32),
}

/// Two bytes, the lower first, as a number with a sign.
pub open spec fn signed_pair(low: u8, high: u8) -> int {
    let n = low + 0x100 * high;
    if n < 0x8000 {
        n
    } else {
        n - 0x1_0000
    }
}

/// Four bytes, the lowest first, as a number.
pub open spec fn quadruple(a: u8, b: u8, c: u8, d: u8) -> int {
    a + 0x100 * b + 0x1_0000 * c + 0x100_0000 * d
}

/// The sample that starts at a place.
pub open spec fn sample_at(format: PcmFormat, bytes: Seq<u8>, at: int) -> RawSample {
    match format {
        PcmFormat::S16Le => RawSample::Integer(signed_pair(bytes[at], bytes[at + 1]) as i16),
        PcmFormat::F32 => RawSample::Encoded(
            quadruple(bytes[at], bytes[at + 1], bytes[at + 2], bytes[at + 3]) as u32,
        ),
    }
}

/// Every sample of a moment that the bytes hold lies within them, and no two samples
/// share a byte.
pub proof fn law_samples_lie_in_their_bytes(
    spec: PcmSpec,
    bytes: int,
    moment: int,
    channel: int,
    other_moment: int,
    other_channel: int,
)
    requires
        0 <= bytes,
        0 <= moment < moments_in(spec, bytes),
        0 <= channel < lanes(spec),
        0 <= other_moment,
        0 <= other_channel < lanes(spec),
    ensures
        0 <= sample_place(spec, moment, channel),
        sample_place(spec, moment, channel) + sample_bytes(spec.format) <= bytes,
        moment < other_moment || (moment == other_moment && channel < other_channel)
            ==> sample_place(spec, moment, channel) + sample_bytes(spec.format) <= sample_place(
            spec,
            other_moment,
            other_channel,
        ),
{
    let n = lanes(spec);
    let b = sample_bytes(spec.format);
    let count = moments_in(spec, bytes);
    let place = moment * n + channel;
    assert(count * (n * b) <= bytes) by (nonlinear_arith)
        requires
            0 <= bytes,
            n >= 1,
            b >= 2,
            count == bytes / (n * b),
    ;
    assert(0 <= place && place + 1 <= count * n) by (nonlinear_arith)
        requires
            0 <= moment,
            moment + 1 <= count,
            0 <= channel < n,
            place == moment * n + channel,
    ;
    assert(0 <= place * b && (place + 1) * b <= count * (n * b) && (place + 1) * b == place * b
        + b) by (nonlinear_arith)
        requires
            b >= 2,
            0 <= place,
            place + 1 <= count * n,
    ;
    if moment < other_moment || (moment == other_moment && channel < other_channel) {
        let next = other_moment * n + other_channel;
        assert(place + 1 <= next) by (nonlinear_arith)
            requires
                n >= 1,
                0 <= channel < n,
                0 <= other_channel < n,
                place == moment * n + channel,
                next == other_moment * n + other_channel,
                moment < other_moment || (moment == other_moment && channel < other_channel),
        ;
        assert((place + 1) * b <= next * b) by (nonlinear_arith)
            requires
                b >= 2,
                place + 1 <= next,
        ;
    }
}

impl PcmSpec {
    fn lane_count(&self) -> (r: usize)
        ensures
            r == lanes(*self),
            1 <= r <= 0xFFFF,
    {
        if self.channels == 0 {
            1
        } else {
            self.channels as usize
        }
    }

    /// How many moments some bytes hold in full.
    pub fn moments_held(&self, bytes: &[u8]) -> (r: usize)
        ensures
            r == moments_in(*self, bytes@.len() as int),
    {
        let sample = self.format.bytes_per_sample();
        let n = self.lane_count();
        assert(2 <= n * sample <= 0x4_0000) by (nonlinear_arith)
            requires
                1 <= n <= 0xFFFF,
                2 <= sample <= 4,
        ;
        let size: usize = n * sample as usize;
        bytes.len() / size
    }

    /// The sample of a channel at a moment.
    pub fn sample(&self, bytes: &[u8], moment: usize, channel: usize) -> (r: RawSample)
        requires
            moment < moments_in(*self, bytes@.len() as int),
            channel < lanes(*self),
        ensures
            r == sample_at(
                self.format,
                bytes@,
                sample_place(*self, moment as int, channel as int),
            ),
    {
        let n = self.lane_count();
        let sample = self.format.bytes_per_sample() as usize;
        let len: usize = bytes.len();
        proof {
            law_samples_lie_in_their_bytes(
                *self,
                bytes@.len() as int,
                moment as int,
                channel as int,
                moment as int,
                channel as int,
            );
            let place = moment * n + channel;
            assert(sample_place(*self, moment as int, channel as int) == place * sample);
            assert(place * sample <= len);
            assert(0 <= moment * n <= place <= place * sample) by (nonlinear_arith)
                requires
                    0 <= moment,
                    n >= 1,
                    0 <= channel,
                    sample >= 2,
                    place == moment * n + channel,
            ;
        }
        let at: usize = (moment * n + channel) * sample;
        match self.format {
            PcmFormat::S16Le => {
                let number: i32 = bytes[at] as i32 + 0x100 * (bytes[at + 1] as i32);
                if number < 0x8000 {
                    RawSample::Integer(number as i16)
                } else {
                    RawSample::Integer((number - 0x1_0000) as i16)
                }
            },
            PcmFormat::F32 => RawSample::Encoded(
                bytes[at] as u32 + 0x100 * (bytes[at + 1] as u32) + 0x1_0000 * (bytes[at
                    + 2] as u32) + 0x100_0000 * (bytes[at + 3] as u32),
            ),
        }
    }
}

} // verus!
