//! The media layer: ffmpeg's arguments, presets, PCM accounting, pictures, transcripts.

use opentake::media::engine::audio_codec_args;
use opentake::media::engine::check_exit;
use opentake::media::engine::extract_audio_args;
use opentake::media::engine::path_extension;
use opentake::media::engine::MediaEngine;
use opentake::media::frames::check_frame_rates;
use opentake::media::frames::fit_within;
use opentake::media::frames::following_frame;
use opentake::media::frames::frame_args;
use opentake::media::frames::frame_stream_args;
use opentake::media::frames::keep_advancing;
use opentake::media::frames::plan_interpolation;
use opentake::media::frames::retained_frame_args;
use opentake::media::frames::FrameInterpolationFallback;
use opentake::media::frames::FrameInterpolationMode;
use opentake::media::frames::FrameQuery;
use opentake::media::frames::InterpolationStep;
use opentake::media::frames::TimedFrame;
use opentake::media::motion::best_motion;
use opentake::media::motion::moved_within;
use opentake::media::motion::BlockGrid;
use opentake::media::pcm::convert_progress;
use opentake::media::pcm::decode_progress;
use opentake::media::pcm::expected_pcm_bytes;
use opentake::media::pcm::pcm_args;
use opentake::media::pcm::reader_cap;
use opentake::media::pcm::require_audio;
use opentake::media::pcm::validate_pcm_output;
use opentake::media::pcm::PcmFormat;
use opentake::media::pcm::PcmSpec;
use opentake::media::pcm::RawSample;
use opentake::media::pcm::StdoutRead;
use opentake::media::picture::encode_png;
use opentake::media::picture::file_of;
use opentake::media::picture::retained_frame;
use opentake::media::picture::RgbaFrame;
use opentake::media::polling::check_trim_range;
use opentake::media::polling::settle;
use opentake::media::polling::trim_args;
use opentake::media::polling::watch;
use opentake::media::polling::watch_trim;
use opentake::media::polling::ChildState;
use opentake::media::polling::TrimStep;
use opentake::media::polling::WatchStep;
use opentake::media::preset::even_dimension;
use opentake::media::preset::ExportPreset;
use opentake::media::preset::ExportResolution;
use opentake::media::preset::VideoCodec;
use opentake::media::speech::is_non_speech_marker;
use opentake::media::speech::sanitize_transcription;
use opentake::media::speech::whisper_pcm_spec;
use opentake::media::speech::TranscriptionResult;
use opentake::media::speech::TranscriptionSegment;
use opentake::media::speech::TranscriptionWord;
use opentake::media::speech::WhisperTranscriber;
use opentake::media::MediaError;
use opentake::model::Real;

fn num(x: f64) -> Real {
    Real { bits: x.to_bits() }
}

#[test]
fn fit_within_no_box_keeps_size() {
    assert_eq!(fit_within(1920, 1080, (0, 0)), (1920, 1080));
}

#[test]
fn fit_within_never_enlarges() {
    assert_eq!(fit_within(100, 50, (1000, 1000)), (100, 50));
}

#[test]
fn fit_within_scales_down_keeping_aspect() {
    let (w, h) = fit_within(1920, 1080, (120, 68));
    assert_eq!(w, 120);
    assert_eq!(h, 68);
}

#[test]
fn fit_within_portrait_into_square_box() {
    let (w, h) = fit_within(1080, 1920, (512, 512));
    assert_eq!(h, 512);
    assert_eq!(w, 288);
}

#[test]
fn fit_within_single_dim_box() {
    let (w, h) = fit_within(600, 300, (120, 0));
    assert_eq!(w, 120);
    assert_eq!(h, 60);
}

#[test]
fn fit_within_min_one_pixel() {
    let (w, h) = fit_within(10000, 1, (5, 5));
    assert!(w >= 1 && h >= 1);
}

#[test]
fn fit_within_zero_input() {
    assert_eq!(fit_within(0, 0, (10, 10)), (1, 1));
}

/// The size as floating point arithmetic gives it.
fn fitted_by_floats(w: u32, h: u32, max: (u32, u32)) -> (u32, u32) {
    if w == 0 || h == 0 {
        return (w.max(1), h.max(1));
    }
    let sx = if max.0 == 0 { 1.0 } else { max.0 as f64 / w as f64 };
    let sy = if max.1 == 0 { 1.0 } else { max.1 as f64 / h as f64 };
    let scale = sx.min(sy).min(1.0);
    (
        ((w as f64 * scale).round() as u32).max(1),
        ((h as f64 * scale).round() as u32).max(1),
    )
}

#[test]
fn fitting_agrees_with_floating_point() {
    let sizes = [1u32, 2, 3, 7, 49, 100, 333, 720, 1080, 1921, 4096, 65535, 1_000_003];
    for w in sizes {
        for h in sizes {
            for a in [0u32, 1, 5, 68, 120, 511, 1080] {
                for b in [0u32, 1, 3, 120, 512, 2160] {
                    assert_eq!(fit_within(w, h, (a, b)), fitted_by_floats(w, h, (a, b)));
                }
            }
        }
    }
}

/// A query at a time, with the seek that its tolerance leads to.
fn query(time: f64, tolerance: f64, max_size: (u32, u32)) -> FrameQuery {
    FrameQuery {
        path: "/x.mp4".to_string(),
        seek: format!("{:.6}", (time - tolerance).max(0.0)),
        max_size,
        hdr_args: Vec::new(),
        tonemap: None,
    }
}

fn follows(args: &[String], a: &str, b: &str) -> bool {
    args.windows(2).any(|w| w[0] == a && w[1] == b)
}

#[test]
fn frame_args_seek_is_time_minus_tolerance_clamped() {
    let args = frame_args(&query(5.0, 1.0, (0, 0)));
    let ss = args.iter().position(|a| a == "-ss").unwrap();
    assert_eq!(args[ss + 1], "4.000000");
    let args0 = frame_args(&query(0.5, 2.0, (0, 0)));
    let ss0 = args0.iter().position(|a| a == "-ss").unwrap();
    assert_eq!(args0[ss0 + 1], "0.000000");
}

#[test]
fn frame_args_request_rgba_rawvideo_one_frame() {
    let args = frame_args(&query(0.0, 0.0, (0, 0)));
    assert!(follows(&args, "-pix_fmt", "rgba"));
    assert!(follows(&args, "-f", "rawvideo"));
    assert!(follows(&args, "-frames:v", "1"));
    assert_eq!(args.last().unwrap(), "-");
}

#[test]
fn frame_stream_args_only_remove_the_single_frame_limit() {
    let request = query(2.5, 0.0, (1920, 1080));
    let mut expected = frame_args(&request);
    let frame_limit = expected.iter().rposition(|argument| argument == "-frames:v").unwrap();
    expected.drain(frame_limit..frame_limit + 2);

    let actual = frame_stream_args(&request);
    assert_eq!(actual, expected);
    assert!(!actual.iter().any(|argument| argument == "-frames:v"));
}

#[test]
fn frame_args_adds_scale_filter_only_when_boxed() {
    let plain = frame_args(&query(0.0, 0.0, (0, 0)));
    assert!(!plain.iter().any(|a| a == "-vf"));

    let boxed = frame_args(&query(0.0, 0.0, (120, 68)));
    let vf = boxed.iter().position(|a| a == "-vf").unwrap();
    assert!(boxed[vf + 1].contains("force_original_aspect_ratio=decrease"));
    assert!(boxed[vf + 1].contains("w=120"));
    assert!(boxed[vf + 1].contains("h=68"));
}

fn spec(sample_rate: u32, channels: u16, format: PcmFormat) -> PcmSpec {
    PcmSpec { sample_rate, channels, format }
}

#[test]
fn pcm_args_range_emits_ss_and_to() {
    let spec = spec(16_000, 1, PcmFormat::F32);
    let start = format!("{:.6}", 1.5f64);
    let end = format!("{:.6}", 4.0f64);
    let args = pcm_args("/a.mp4", &spec, Some((start.as_str(), end.as_str())));
    let ss = args.iter().position(|a| a == "-ss").unwrap();
    assert_eq!(args[ss + 1], "1.500000");
    let to = args.iter().position(|a| a == "-to").unwrap();
    assert_eq!(args[to + 1], "4.000000");
    assert!(follows(&args, "-ar", "16000"));
    assert!(follows(&args, "-ac", "1"));
    assert!(follows(&args, "-f", "f32le"));
    assert!(args.iter().any(|a| a == "-vn"));
}

#[test]
fn pcm_args_no_range_has_no_seek() {
    let spec = spec(48_000, 2, PcmFormat::S16Le);
    let args = pcm_args("/a.mp4", &spec, None);
    assert!(!args.iter().any(|a| a == "-ss"));
    assert!(follows(&args, "-f", "s16le"));
    assert!(follows(&args, "-ac", "2"));
}

#[test]
fn resolution_short_edges() {
    assert_eq!(ExportResolution::P720.short_edge(), 720);
    assert_eq!(ExportResolution::P1080.short_edge(), 1080);
    assert_eq!(ExportResolution::P2160.short_edge(), 2160);
}

#[test]
fn codec_tokens() {
    let h264 = ExportPreset::new(VideoCodec::H264, ExportResolution::P1080);
    assert_eq!(h264.vcodec_arg(false), "libx264");
    assert_eq!(h264.acodec_arg(), "aac");
    assert_eq!(h264.pix_fmt_arg(), "yuv420p");

    let prores = ExportPreset::new(VideoCodec::ProRes422, ExportResolution::P2160);
    assert_eq!(prores.vcodec_arg(false), "prores_ks");
    assert_eq!(prores.acodec_arg(), "pcm_s16le");
    assert_eq!(prores.pix_fmt_arg(), "yuv422p10le");

    let alpha = ExportPreset::new(VideoCodec::ProRes4444, ExportResolution::P1080);
    assert_eq!(alpha.vcodec_arg(false), "prores_ks");
    assert_eq!(alpha.acodec_arg(), "pcm_s16le");
    assert_eq!(alpha.pix_fmt_arg(), "yuva444p10le");
}

#[test]
fn hardware_encoders_are_taken_on_request() {
    let h264 = ExportPreset::new(VideoCodec::H264, ExportResolution::P1080);
    assert_eq!(h264.vcodec_arg(true), "h264_nvenc");
    let h265 = ExportPreset::new(VideoCodec::H265, ExportResolution::P1080);
    assert_eq!(h265.vcodec_arg(true), "hevc_nvenc");
    assert_eq!(h265.vcodec_arg(false), "libx265");
    let prores = ExportPreset::new(VideoCodec::ProRes422, ExportResolution::P1080);
    assert_eq!(prores.vcodec_arg(true), "prores_ks");
}

#[test]
fn every_delivery_codec_gets_bt709_frame_and_stream_tags() {
    let h265 = ExportPreset::new(VideoCodec::H265, ExportResolution::P720);
    let args = h265.color_args();
    assert!(follows(&args, "-colorspace", "bt709"));
    assert!(follows(&args, "-color_primaries", "bt709"));
    assert!(follows(&args, "-color_trc", "bt709"));

    let prores = ExportPreset::new(VideoCodec::ProRes422, ExportResolution::P720);
    assert!(prores
        .color_args()
        .iter()
        .any(|arg| arg.contains("setparams=color_primaries=bt709")));
}

#[test]
fn even_dimension_rounds_down_to_even() {
    assert_eq!(even_dimension(1920), 1920);
    assert_eq!(even_dimension(1921), 1920);
    assert_eq!(even_dimension(1), 2);
    assert_eq!(even_dimension(0), 2);
    assert_eq!(even_dimension(3), 2);
    assert_eq!(even_dimension(101), 100);
}

#[test]
fn media_engine_exposes_roots() {
    let e = MediaEngine::new("/cache".to_string(), "/models".to_string());
    assert_eq!(e.cache_root(), "/cache");
    assert_eq!(e.models_dir(), "/models");
}

#[test]
fn export_pause_is_shared_from_engine() {
    let mut e = MediaEngine::new("/c".to_string(), "/m".to_string());
    e.export_pause().begin();
    assert!(e.export_pause().is_active());
    e.export_pause().end();
    assert!(!e.export_pause().is_active());
}

#[test]
fn exports_are_counted() {
    let mut e = MediaEngine::new("/c".to_string(), "/m".to_string());
    e.export_pause().begin();
    e.export_pause().begin();
    e.export_pause().end();
    assert!(e.export_pause().is_active());
    e.export_pause().end();
    e.export_pause().end();
    assert!(!e.export_pause().is_active());
    e.export_pause().begin();
    assert!(e.export_pause().is_active());
}

#[test]
fn audio_codec_args_picks_aac_for_m4a_family() {
    for ext in ["m4a", "m4r", "aac"] {
        let args = audio_codec_args(ext).unwrap_or_else(|| panic!(".{ext}"));
        assert_eq!(args, ["-c:a", "aac", "-b:a", "192k"], "mismatch for .{ext}");
    }
}

#[test]
fn audio_codec_args_picks_lame_for_mp3() {
    assert_eq!(audio_codec_args("mp3").unwrap(), ["-c:a", "libmp3lame", "-b:a", "192k"]);
}

#[test]
fn audio_codec_args_picks_pcm_for_wav() {
    assert_eq!(audio_codec_args("wav").unwrap(), ["-c:a", "pcm_s16le"]);
}

#[test]
fn audio_codec_args_rejects_unknown_extensions() {
    for ext in ["mp4", "mov", "", "M4A"] {
        assert!(audio_codec_args(ext).is_none(), ".{ext:?} should not map to a codec");
    }
}

#[test]
fn extraction_follows_the_extension_of_the_output() {
    assert_eq!(
        extract_audio_args("/in.mp4", "/out/a.wav").unwrap(),
        ["-y", "-i", "/in.mp4", "-vn", "-c:a", "pcm_s16le", "/out/a.wav"]
    );
    let error = extract_audio_args("/in.mp4", "/out/a").unwrap_err();
    assert!(matches!(error, MediaError::Ffmpeg(m)
        if m == "output path has no extension (use .m4a, .mp3, or .wav)"));
    let error = extract_audio_args("/in.mp4", "/out/a.ogg").unwrap_err();
    assert!(matches!(error, MediaError::Ffmpeg(m)
        if m == "unsupported audio extension: .ogg (use m4a, mp3, or wav)"));
}

#[test]
fn extensions_are_those_of_the_last_part() {
    assert_eq!(path_extension("/a.b/c").as_deref(), None);
    assert_eq!(path_extension("/a/b.tar.gz").as_deref(), Some("gz"));
    assert_eq!(path_extension("/a/.hidden").as_deref(), None);
    assert_eq!(path_extension("/a/b.").as_deref(), Some(""));
    assert_eq!(path_extension("/a/..").as_deref(), None);
    assert_eq!(path_extension("").as_deref(), None);
}

#[test]
fn a_bad_exit_is_told_with_what_ffmpeg_said() {
    assert!(check_exit(true, "exit status: 0", "warning").is_ok());
    let error = check_exit(false, "exit status: 1", " no such codec \n").unwrap_err();
    assert!(matches!(error, MediaError::Ffmpeg(m) if m == "ffmpeg exited exit status: 1: no such codec"));
    let error = check_exit(false, "exit status: 1", " \n").unwrap_err();
    assert!(matches!(error, MediaError::Ffmpeg(m) if m == "ffmpeg exited exit status: 1"));
}

#[test]
fn whisper_spec_is_16k_mono_f32() {
    let s = whisper_pcm_spec();
    assert_eq!(s.sample_rate, 16_000);
    assert_eq!(s.channels, 1);
    assert_eq!(s.format, PcmFormat::F32);
}

#[test]
fn non_speech_marker_matches_known_whisper_variants() {
    for text in [
        "[BLANK_AUDIO]",
        "[blank_audio]",
        "[Music]",
        "[MUSIC]",
        "[NOISE]",
        "(inaudible)",
        "(sighs)",
        "(wind_noise)",
        "{BLANK_AUDIO}",
        "[ Pause ]",
        "[ Silence ]",
        "*music*",
    ] {
        assert!(is_non_speech_marker(text), "expected marker: {text:?}");
    }
}

#[test]
fn non_speech_marker_trims_surrounding_whitespace() {
    assert!(is_non_speech_marker("  [BLANK_AUDIO]  "));
}

#[test]
fn non_speech_marker_rejects_real_speech() {
    for text in [
        "hello world",
        "",
        "a",
        "ok",
        "he said (hello) to her",
        "(hello) is what he said",
        "[42]",
        "(don't)",
        "[BLANK AUDIO!]",
        "[BLANK_AUDIO",
        "BLANK_AUDIO]",
        "[BLANK_AUDIO)",
        "**",
        "()",
        "[]",
    ] {
        assert!(!is_non_speech_marker(text), "did not expect marker: {text:?}");
    }
}

fn segment(text: &str, start: f64, end: f64) -> TranscriptionSegment {
    TranscriptionSegment { text: text.to_string(), start: num(start), end: num(end) }
}

fn word(text: &str, start: f64, end: f64) -> TranscriptionWord {
    TranscriptionWord { text: text.to_string(), start: Some(num(start)), end: Some(num(end)) }
}

fn dirty() -> TranscriptionResult {
    TranscriptionResult {
        text: "hi [BLANK_AUDIO] there".to_string(),
        language: None,
        words: vec![word("hi", 0.0, 0.5), word("[BLANK_AUDIO]", 0.5, 4.0)],
        segments: vec![
            segment("hi", 0.0, 0.5),
            segment("(inaudible)", 0.5, 4.0),
            segment("there", 4.0, 5.0),
        ],
    }
}

#[test]
fn sanitize_strips_marker_rows_and_rebuilds_text() {
    let r = sanitize_transcription(dirty());
    assert_eq!(
        r.segments.iter().map(|s| s.text.as_str()).collect::<Vec<_>>(),
        vec!["hi", "there"]
    );
    assert_eq!(r.words.len(), 1);
    assert_eq!(r.text, "hi there");
}

#[test]
fn sanitize_passes_clean_results_through_untouched() {
    let clean = || TranscriptionResult {
        text: "original text preserved".to_string(),
        language: Some("en".to_string()),
        words: Vec::new(),
        segments: vec![segment("original text preserved", 0.0, 1.0)],
    };
    let out = sanitize_transcription(clean());
    assert_eq!(format!("{:?}", out), format!("{:?}", clean()));
}

#[test]
fn sanitizing_twice_is_sanitizing_once() {
    let once = sanitize_transcription(dirty());
    let told = format!("{:?}", once);
    assert_eq!(format!("{:?}", sanitize_transcription(once)), told);
}

#[test]
fn there_is_no_recogniser() {
    let error = WhisperTranscriber::from_model_path("/models/ggml.bin").unwrap_err();
    assert!(matches!(error, MediaError::Transcribe(m) if m.contains("whisper-backend")));
}

#[test]
fn pcm_bytes_are_counted_with_the_started_moment() {
    let mono = spec(16_000, 1, PcmFormat::F32);
    assert_eq!(expected_pcm_bytes(&mono, num(2.0)).unwrap(), 128_000);
    assert_eq!(expected_pcm_bytes(&mono, num(0.00001)).unwrap(), 4);
    assert_eq!(expected_pcm_bytes(&mono, num(-3.0)).unwrap(), 0);
    let stereo = spec(44_100, 2, PcmFormat::S16Le);
    let moments = (0.1f64 * 44_100.0).ceil() as u64;
    assert_eq!(expected_pcm_bytes(&stereo, num(0.1)).unwrap(), moments * 4);
    for seconds in [0.3, 1.0 / 3.0, 7.77, 12345.678] {
        let moments = (seconds * 44_100.0f64).ceil() as u64;
        assert_eq!(expected_pcm_bytes(&stereo, num(seconds)).unwrap(), moments * 4);
    }
}

#[test]
fn pcm_that_cannot_be_counted_is_refused() {
    let mono = spec(16_000, 1, PcmFormat::F32);
    let says = |r: Result<u64, MediaError>, text: &str| match r {
        Err(MediaError::Decode(m)) => m == text,
        _ => false,
    };
    assert!(says(
        expected_pcm_bytes(&spec(0, 1, PcmFormat::F32), num(1.0)),
        "PCM sample rate and channel count must be non-zero"
    ));
    assert!(says(
        expected_pcm_bytes(&mono, num(f64::NAN)),
        "audio_buffer_too_large: non-finite duration"
    ));
    assert!(says(
        expected_pcm_bytes(&mono, num(1e300)),
        "audio_buffer_too_large: PCM frame count exceeds usize"
    ));
    assert!(says(
        expected_pcm_bytes(&spec(48_000, 8, PcmFormat::F32), num(3e14)),
        "audio_buffer_too_large: PCM output byte count overflow"
    ));
    assert!(says(reader_cap(&mono, u64::MAX), "audio_buffer_too_large: PCM reader cap overflow"));
    assert_eq!(reader_cap(&mono, 128_000).unwrap(), 128_000 + 64_000 + 65_536);
    assert_eq!(reader_cap(&mono, 6_400_000).unwrap(), 6_400_000 + 200_000 + 65_536);
}

#[test]
fn reading_stops_to_keep_at_the_cap() {
    let mut out = StdoutRead::new();
    out.accept(&[1, 2, 3], 5);
    assert!(!out.exceeded_cap);
    out.accept(&[4, 5, 6], 5);
    assert_eq!(out.bytes, [1, 2, 3, 4, 5]);
    assert!(out.exceeded_cap);
    assert_eq!(out.total_read, 6);
    let error = validate_pcm_output("/a.wav", true, "exit status: 0", out, "", 5).unwrap_err();
    assert!(matches!(error, MediaError::Decode(m)
        if m == "audio_buffer_too_large: FFmpeg stdout read 6 bytes, exceeding 5"));
}

#[test]
fn nonzero_ffmpeg_exit_with_partial_stdout_is_a_hard_error() {
    let mut out = StdoutRead::new();
    out.accept(&[0, 0, 0, 0], 1024);
    let error = validate_pcm_output(
        "/partial.wav",
        false,
        "exit status: 7",
        out,
        "decoder failed after producing bytes",
        1024,
    )
    .unwrap_err();
    assert!(matches!(error, MediaError::Ffmpeg(m) if m.contains("decoder failed")));
}

#[test]
fn no_audio_is_a_missing_track() {
    let error = validate_pcm_output("/a.mp4", true, "exit status: 0", StdoutRead::new(), "", 9)
        .unwrap_err();
    assert!(matches!(error, MediaError::NoTrack { kind, path } if kind == "audio" && path == "/a.mp4"));
    let mut out = StdoutRead::new();
    out.accept(&[7], 9);
    assert_eq!(validate_pcm_output("/a.mp4", true, "exit status: 0", out, "", 9).unwrap(), [7]);
}

#[test]
fn progress_goes_up_to_the_whole() {
    assert_eq!(decode_progress(0, 96_000), 0);
    assert_eq!(decode_progress(48_000, 96_000), 1_500);
    assert_eq!(decode_progress(200_000, 96_000), 3_000);
    assert_eq!(convert_progress(0, 96_000), 3_000);
    assert_eq!(convert_progress(48_000, 96_000), 3_500);
    assert_eq!(convert_progress(96_000, 96_000), 4_000);
    let mut last = 0;
    for done in (0..=96_000).step_by(1_000) {
        let now = decode_progress(done, 96_000);
        assert!(last <= now && now <= 3_000);
        last = now;
    }
}

/// A BMP file of two pixels side by side: red, then blue.
fn two_pixels() -> Vec<u8> {
    let mut bmp = Vec::new();
    bmp.extend_from_slice(b"BM");
    bmp.extend_from_slice(&62u32.to_le_bytes());
    bmp.extend_from_slice(&0u32.to_le_bytes());
    bmp.extend_from_slice(&54u32.to_le_bytes());
    bmp.extend_from_slice(&40u32.to_le_bytes());
    bmp.extend_from_slice(&2i32.to_le_bytes());
    bmp.extend_from_slice(&1i32.to_le_bytes());
    bmp.extend_from_slice(&1u16.to_le_bytes());
    bmp.extend_from_slice(&24u16.to_le_bytes());
    bmp.extend_from_slice(&[0; 24]);
    bmp.extend_from_slice(&[0, 0, 255, 255, 0, 0, 0, 0]);
    bmp
}

#[test]
fn a_retained_frame_is_read_from_its_bitmap() {
    let frame = retained_frame(true, &two_pixels(), "1.0").unwrap();
    assert_eq!((frame.width, frame.height), (2, 1));
    assert_eq!(frame.rgba, [255, 0, 0, 255, 0, 0, 255, 255]);

    let error = retained_frame(false, &two_pixels(), "1.0").unwrap_err();
    assert!(matches!(error, MediaError::Decode(m) if m == "no frame at 1.0s"));
    let error = retained_frame(true, &Vec::new(), "2.5").unwrap_err();
    assert!(matches!(error, MediaError::Decode(m) if m == "no frame at 2.5s"));
    let error = retained_frame(true, &vec![1, 2, 3], "2.5").unwrap_err();
    assert!(matches!(error, MediaError::Decode(m) if m.starts_with("bmp decode: ")));
}

#[test]
fn a_frame_is_written_as_a_png_file() {
    let frame = RgbaFrame::new(2, 1, vec![255, 0, 0, 255, 0, 0, 255, 255]);
    let file = encode_png(&frame).unwrap();
    assert_eq!(&file[..8], &[0x89, b'P', b'N', b'G', 0x0d, 0x0a, 0x1a, 0x0a]);
    let back = image::load_from_memory(&file).unwrap().into_rgba8();
    assert_eq!((back.width(), back.height()), (2, 1));
    assert_eq!(back.into_raw(), frame.rgba);
    let error = file_of(Err("disk full".to_string())).unwrap_err();
    assert!(matches!(error, MediaError::Encode(m) if m == "png: disk full"));
}

fn gray(width: u32) -> RgbaFrame {
    RgbaFrame::new(width, 1, vec![128; 4 * width as usize])
}

#[test]
fn interpolation_is_planned() {
    let plan = |alpha: f64, mode: FrameInterpolationMode, flow: bool| {
        plan_interpolation(
            &gray(2),
            &gray(2),
            num(alpha),
            mode,
            FrameInterpolationFallback::Blend,
            flow,
        )
        .unwrap()
    };
    let nearest = FrameInterpolationMode::Nearest;
    let blend = FrameInterpolationMode::Blend;
    let flow = FrameInterpolationMode::OpticalFlow;
    assert_eq!(plan(-0.5, blend, true), (InterpolationStep::First, blend));
    assert_eq!(plan(0.0, blend, true), (InterpolationStep::First, blend));
    assert_eq!(plan(0.25, blend, true), (InterpolationStep::Blend, blend));
    assert_eq!(plan(1.0, blend, true), (InterpolationStep::Last, blend));
    assert_eq!(plan(0.49, nearest, true), (InterpolationStep::First, nearest));
    assert_eq!(plan(0.5, nearest, true), (InterpolationStep::Last, nearest));
    assert_eq!(plan(0.25, flow, true), (InterpolationStep::OpticalFlow, flow));
    assert_eq!(plan(0.25, flow, false), (InterpolationStep::Blend, blend));
}

#[test]
fn interpolation_that_cannot_be_is_refused() {
    let says = |first: &RgbaFrame, alpha: f64, text: &str| {
        let r = plan_interpolation(
            first,
            &gray(2),
            num(alpha),
            FrameInterpolationMode::OpticalFlow,
            FrameInterpolationFallback::Error,
            false,
        );
        matches!(r, Err(MediaError::Decode(m)) if m == text)
    };
    assert!(says(&gray(3), 0.5, "interpolation frames must have identical dimensions"));
    assert!(says(&gray(2), f64::INFINITY, "interpolation alpha must be finite"));
    assert!(says(
        &gray(2),
        0.5,
        "optical-flow interpolation is unavailable and fallback is Error"
    ));
}

#[test]
fn kept_frames_go_on_in_time() {
    let at = |t: f64| Ok(TimedFrame { at: num(t), frame: gray(1) });
    let kept = keep_advancing(vec![
        at(0.5),
        at(0.5),
        Err(MediaError::Decode("no frame".to_string())),
        at(0.25),
        Err(MediaError::Cancelled),
        at(1.0),
    ]);
    assert_eq!(kept.len(), 3);
    assert!(matches!(&kept[0], Ok(f) if f.at == num(0.5)));
    assert!(matches!(&kept[1], Err(MediaError::Cancelled)));
    assert!(matches!(&kept[2], Ok(f) if f.at == num(1.0)));
}

#[test]
fn a_child_is_watched() {
    assert!(matches!(
        watch(true, true, ChildState::Exited),
        WatchStep::Fail(MediaError::Cancelled)
    ));
    assert!(matches!(watch(false, false, ChildState::Running), WatchStep::Wait));
    assert!(matches!(
        watch(false, true, ChildState::Running),
        WatchStep::Settle { end_child: true }
    ));
    assert!(matches!(
        watch(false, false, ChildState::Exited),
        WatchStep::Settle { end_child: false }
    ));
    assert!(matches!(
        watch(false, false, ChildState::Unknown("gone".to_string())),
        WatchStep::Fail(MediaError::Io(m)) if m == "gone"
    ));
}

#[test]
fn cancelled_work_has_no_result() {
    assert!(matches!(settle(true, Some(1), "1.0"), Err(MediaError::Cancelled)));
    assert!(matches!(settle(false, Some(1), "1.0"), Ok(1)));
    assert!(matches!(
        settle(false, None::<i32>, "1.0"),
        Err(MediaError::Decode(m)) if m == "no frame at 1.0s"
    ));
}

#[test]
fn a_cut_needs_a_range() {
    assert!(check_trim_range(num(0.0), num(1.0)).is_ok());
    assert!(check_trim_range(num(-0.0), num(1.0)).is_ok());
    for (start, end) in [(1.0, 1.0), (2.0, 1.0), (-1.0, 1.0), (0.0, f64::INFINITY), (f64::NAN, 1.0)] {
        let error = check_trim_range(num(start), num(end)).unwrap_err();
        assert!(matches!(error, MediaError::Ffmpeg(m)
            if m == "invalid trimmed generation source range"));
    }
    let args = trim_args("/in.mp4", "/out.mp4", "1.000000", "2.000000");
    assert!(follows(&args, "-ss", "1.000000"));
    assert!(follows(&args, "-t", "2.000000"));
    assert_eq!(args.last().unwrap(), "/out.mp4");
}

#[test]
fn a_cut_is_watched() {
    assert!(matches!(watch_trim(true, Some(true), true), TrimStep::Cancel));
    assert!(matches!(watch_trim(false, None, false), TrimStep::Wait));
    assert!(matches!(watch_trim(false, Some(true), true), TrimStep::Done));
    assert!(matches!(
        watch_trim(false, Some(true), false),
        TrimStep::Fail(MediaError::Ffmpeg(m))
            if m == "trimmed generation source could not be materialized"
    ));
    assert!(matches!(watch_trim(false, Some(false), true), TrimStep::Fail(_)));
}

#[test]
fn a_retained_frame_is_asked_for_as_a_bitmap() {
    let request = query(2.5, 0.0, (0, 0));
    let args = retained_frame_args(&request);
    assert_eq!(
        args[args.len() - 7..],
        ["-frames:v", "1", "-f", "image2pipe", "-vcodec", "bmp", "pipe:1"]
    );
    assert!(!args.iter().any(|a| a == "rawvideo"));
    assert!(follows(&args, "-ss", "2.500000"));
}

#[test]
fn a_file_without_audio_is_refused() {
    assert!(require_audio("/a.mp4", true).is_ok());
    let error = require_audio("/a.mp4", false).unwrap_err();
    assert!(matches!(error, MediaError::NoTrack { kind, path } if kind == "audio" && path == "/a.mp4"));
}

fn rates(count: u64, source: f64, target: f64) -> String {
    match check_frame_rates(count, num(source), num(target)) {
        Ok(()) => String::new(),
        Err(MediaError::Decode(text)) => text,
        Err(other) => format!("{:?}", other),
    }
}

#[test]
fn frames_are_brought_from_rate_to_rate() {
    assert_eq!(rates(10, 24.0, 60.0), "");
    assert_eq!(rates(0, 24.0, 60.0), "source_frame_count must be greater than zero");
    for fps in [0.0, -1.0, f64::NAN, f64::INFINITY] {
        assert_eq!(rates(10, fps, 60.0), "source_fps must be finite and greater than zero");
        assert_eq!(rates(10, 24.0, fps), "target_fps must be finite and greater than zero");
    }
    assert_eq!(following_frame(3, 9), 4);
    assert_eq!(following_frame(9, 9), 9);
    assert_eq!(following_frame(u64::MAX, 9), 9);
}

#[test]
fn blocks_cover_a_frame() {
    let grid = BlockGrid::new(100, 50);
    assert_eq!((grid.block_size, grid.columns, grid.rows), (32, 4, 2));
    assert_eq!((grid.search_radius, grid.sample_step), (12, 4));
    assert_eq!(grid.at(0, 0), 0);
    assert_eq!(grid.at(99, 49), 7);
    assert_eq!(grid.at(33, 31), 1);
    assert_eq!(grid.span(3, 100), (96, 100));
    assert_eq!(grid.span(1, 100), (32, 64));
    let tiny = BlockGrid::new(3, 2);
    assert_eq!((tiny.block_size, tiny.columns, tiny.rows), (2, 2, 1));
    assert_eq!((tiny.search_radius, tiny.sample_step), (1, 1));
    assert_eq!(moved_within(5, -5, 10), Some(0));
    assert_eq!(moved_within(5, -6, 10), None);
    assert_eq!(moved_within(5, 5, 10), None);
}

#[test]
fn the_best_motion_errs_least_and_goes_no_further_than_it_has_to() {
    let still: Vec<Real> = vec![num(4.0); 9];
    assert_eq!(best_motion(&still, 1), (0, 0));
    let mut errors = still.clone();
    errors[2] = num(1.0);
    assert_eq!(best_motion(&errors, 1), (1, -1));
    errors[5] = num(1.0);
    assert_eq!(best_motion(&errors, 1), (1, 0));
    errors[3] = num(1.0);
    assert_eq!(best_motion(&errors, 1), (-1, 0));
    errors[1] = num(1.0);
    assert_eq!(best_motion(&errors, 1), (0, -1));
    errors[4] = num(0.0);
    assert_eq!(best_motion(&errors, 1), (0, 0));
}

#[test]
fn the_best_motion_agrees_with_the_order_of_tuples() {
    let radius = 3;
    let mut seed: u32 = 7;
    for _ in 0..50 {
        let mut errors = Vec::new();
        let mut least = (f64::INFINITY, i32::MAX, 0, 0);
        for dy in -radius..=radius {
            for dx in -radius..=radius {
                seed = seed.wrapping_mul(1_664_525).wrapping_add(1_013_904_223);
                let error = (seed >> 29) as f64;
                errors.push(num(error));
                let candidate = (error, dx * dx + dy * dy, dy, dx);
                if candidate < least {
                    least = candidate;
                }
            }
        }
        assert_eq!(best_motion(&errors, radius), (least.3, least.2));
    }
}

/// The moments of some bytes, each averaged over its channels.
fn averaged(bytes: &[u8], spec: &PcmSpec) -> Vec<f32> {
    let channels = spec.channels.max(1) as usize;
    (0..spec.moments_held(bytes))
        .map(|moment| {
            let sum: f32 = (0..channels)
                .map(|channel| match spec.sample(bytes, moment, channel) {
                    RawSample::Integer(value) => value as f32 / 32768.0,
                    RawSample::Encoded(bits) => f32::from_bits(bits),
                })
                .sum();
            sum / channels as f32
        })
        .collect()
}

#[test]
fn raw_s16_mono_converts_to_unit_floats() {
    let spec = spec(16_000, 1, PcmFormat::S16Le);
    let mut bytes = Vec::new();
    bytes.extend_from_slice(&0i16.to_le_bytes());
    bytes.extend_from_slice(&16384i16.to_le_bytes());
    bytes.extend_from_slice(&(-32768i16).to_le_bytes());
    let out = averaged(&bytes, &spec);
    assert_eq!(out.len(), 3);
    assert!((out[0] - 0.0).abs() < 1e-6);
    assert!((out[1] - 0.5).abs() < 1e-3);
    assert!((out[2] + 1.0).abs() < 1e-6);
}

#[test]
fn raw_stereo_f32_averages_channels() {
    let spec = spec(16_000, 2, PcmFormat::F32);
    let mut bytes = Vec::new();
    for v in [1.0f32, 0.0, -0.5, 0.5] {
        bytes.extend_from_slice(&v.to_le_bytes());
    }
    let out = averaged(&bytes, &spec);
    assert_eq!(out.len(), 2);
    assert!((out[0] - 0.5).abs() < 1e-6);
    assert!((out[1] - 0.0).abs() < 1e-6);
}

#[test]
fn raw_partial_trailing_frame_ignored() {
    let spec = spec(16_000, 1, PcmFormat::S16Le);
    assert_eq!(averaged(&[0, 0, 7], &spec).len(), 1);
    assert_eq!(spec.sample(&[0x34, 0x12, 7], 0, 0), RawSample::Integer(0x1234));
    assert_eq!(spec.sample(&[0xff, 0xff], 0, 0), RawSample::Integer(-1));
}
