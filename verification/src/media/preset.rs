//! Export presets: from codec and resolution to the arguments of ffmpeg.

use crate::media::push_arg;
use crate::text::texts;
use vstd::prelude::*;

verus! {

/// Output video codec.
#[derive(Clone, Copy, Debug, PartialEq, Eq, Structural)]
pub enum VideoCodec {
    H264,
    H265,
    ProRes422,
    /// ProRes with an alpha plane.
    ProRes4444,
}

/// Short-edge target resolution.
#[derive(Clone, Copy, Debug, PartialEq, Eq, Structural)]
pub enum ExportResolution {
    P720,
    P1080,
    P2160,
}

impl ExportResolution {
    /// The short-edge pixel count.
    pub fn short_edge(self) -> (r: u32)
        ensures
            self is P720 ==> r == 720,
            self is P1080 ==> r == 1080,
            self is P2160 ==> r == 2160,
    {
        match self {
            ExportResolution::P720 => 720,
            ExportResolution::P1080 => 1080,
            ExportResolution::P2160 => 2160,
        }
    }
}

/// An export preset.
#[derive(Clone, Copy, Debug, PartialEq, Eq, Structural)]
pub struct ExportPreset {
    pub codec: VideoCodec,
    pub resolution: ExportResolution,
}

/// The encoder of ffmpeg for a codec. The hardware encoder is used only where it was
/// asked for, and only for H.264 and H.265.
pub open spec fn video_encoder(codec: VideoCodec, hardware: bool) -> Seq<char> {
    match codec {
        VideoCodec::H264 => if hardware {
            "h264_nvenc"@
        } else {
            "libx264"@
        },
        VideoCodec::H265 => if hardware {
            "hevc_nvenc"@
        } else {
            "libx265"@
        },
        VideoCodec::ProRes422 => "prores_ks"@,
        VideoCodec::ProRes4444 => "prores_ks"@,
    }
}

/// The arguments that tag frames and stream as BT.709.
pub open spec fn bt709_args() -> Seq<Seq<char>> {
    seq![
        "-vf"@,
        "setparams=color_primaries=bt709:color_trc=bt709:colorspace=bt709"@,
        "-colorspace"@,
        "bt709"@,
        "-color_primaries"@,
        "bt709"@,
        "-color_trc"@,
        "bt709"@,
    ]
}

impl ExportPreset {
    /// A preset.
    pub fn new(codec: VideoCodec, resolution: ExportResolution) -> (r: ExportPreset)
        ensures
            r == (ExportPreset { codec, resolution }),
    {
        ExportPreset { codec, resolution }
    }

    /// The video encoder of ffmpeg. `nvenc_requested` asks for NVIDIA's hardware
    /// encoder.
    pub fn vcodec_arg(&self, nvenc_requested: bool) -> (r: &'static str)
        ensures
            r@ == video_encoder(self.codec, nvenc_requested),
    {
        match self.codec {
            VideoCodec::H264 => if nvenc_requested {
                "h264_nvenc"
            } else {
                "libx264"
            },
            VideoCodec::H265 => if nvenc_requested {
                "hevc_nvenc"
            } else {
                "libx265"
            },
            VideoCodec::ProRes422 => "prores_ks",
            VideoCodec::ProRes4444 => "prores_ks",
        }
    }

    /// The audio encoder of ffmpeg: ProRes goes with LPCM, the others with AAC.
    pub fn acodec_arg(&self) -> (r: &'static str)
        ensures
            r@ == (if self.codec is ProRes422 || self.codec is ProRes4444 {
                "pcm_s16le"@
            } else {
                "aac"@
            }),
    {
        match self.codec {
            VideoCodec::ProRes422 => "pcm_s16le",
            VideoCodec::ProRes4444 => "pcm_s16le",
            _ => "aac",
        }
    }

    /// The pixel format of the output.
    pub fn pix_fmt_arg(&self) -> (r: &'static str)
        ensures
            r@ == (match self.codec {
                VideoCodec::ProRes422 => "yuv422p10le"@,
                VideoCodec::ProRes4444 => "yuva444p10le"@,
                _ => "yuv420p"@,
            }),
    {
        match self.codec {
            VideoCodec::ProRes422 => "yuv422p10le",
            VideoCodec::ProRes4444 => "yuva444p10le",
            _ => "yuv420p",
        }
    }

    /// The arguments that tag the output as BT.709. Stream flags alone would leave
    /// primaries and transfer unknown, so every frame is tagged before it is encoded.
    pub fn color_args(&self) -> (r: Vec<String>)
        ensures
            texts(r@) == bt709_args(),
    {
        let mut args: Vec<String> = Vec::new();
        push_arg(&mut args, "-vf");
        push_arg(
            &mut args,
            "setparams=color_primaries=bt709:color_trc=bt709:colorspace=bt709",
        );
        push_arg(&mut args, "-colorspace");
        push_arg(&mut args, "bt709");
        push_arg(&mut args, "-color_primaries");
        push_arg(&mut args, "bt709");
        push_arg(&mut args, "-color_trc");
        push_arg(&mut args, "bt709");
        assert(texts(args@) =~= bt709_args());
        args
    }
}

/// The dimension that an encoder takes: the largest even one that is not above `n`,
/// and at least 2.
pub open spec fn even_below(n: int) -> int {
    if n < 2 {
        2
    } else {
        n - n % 2
    }
}

/// Rounds a dimension down to the nearest even value that is not zero.
pub fn even_dimension(n: u32) -> (r: u32)
    ensures
        r == even_below(n as int),
{
    let even: u32 = n - n % 2;
    if even < 2 {
        2
    } else {
        even
    }
}

/// An encoder's dimension is even, at least 2, and no more than one below what was
/// asked for unless that was less than 2; asking for it again changes nothing.
pub proof fn law_even_dimensions(n: int)
    requires
        0 <= n,
    ensures
        even_below(n) % 2 == 0,
        even_below(n) >= 2,
        n >= 2 ==> n - 1 <= even_below(n) <= n,
        even_below(even_below(n)) == even_below(n),
{
}

} // verus!
