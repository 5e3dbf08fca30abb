//! The roots of the media engine, its pause signal, and extracting audio.

use crate::media::media_plainly;
use crate::media::push_arg;
use crate::media::MediaError;
use crate::media::MediaFault;
use crate::paths::parts;
use crate::paths::path_parts;
use crate::text::cat2;
use crate::text::cat3;
use crate::text::cat4;
use crate::text::same_text;
use crate::text::texts;
use crate::text::trim;
use crate::text::trimmed;
use vstd::prelude::*;
use vstd::string::StrSliceExecFns;
use vstd::string::StringExecFns;

verus! {

/// The signal that makes background work give way to exports: it is active while at
/// least one export runs.
#[derive(Debug)]
pub struct ExportPause {
    running: u64,
}

impl View for ExportPause {
    type V = nat;

    closed spec fn view(&self) -> nat {
        self.running as nat
    }
}

impl ExportPause {
    /// A signal with no export running.
    pub fn new() -> (r: ExportPause)
        ensures
            r@ == 0,
    {
        ExportPause { running: 0 }
    }

    /// An export begins.
    pub fn begin(&mut self)
        requires
            old(self)@ < u64::MAX,
        ensures
            final(self)@ == old(self)@ + 1,
    {
        self.running = self.running + 1;
    }

    /// An export ends.
    pub fn end(&mut self)
        ensures
            final(self)@ == (if old(self)@ > 0 {
                (old(self)@ - 1) as nat
            } else {
                0
            }),
    {
        if self.running > 0 {
            self.running = self.running - 1;
        }
    }

    /// Whether background work has to give way.
    pub fn is_active(&self) -> (r: bool)
        ensures
            r == (self@ > 0),
    {
        self.running > 0
    }
}

/// The media engine's directories and its pause signal.
#[derive(Debug)]
pub struct MediaEngine {
    cache_root: String,
    models_dir: String,
    export_pause: ExportPause,
}

/// The view of a [`MediaEngine`].
pub struct EngineView {
    pub cache_root: Seq<char>,
    pub models_dir: Seq<char>,
    /// How many exports run.
    pub exports: nat,
}

impl View for MediaEngine {
    type V = EngineView;

    closed spec fn view(&self) -> EngineView {
        EngineView {
            cache_root: self.cache_root@,
            models_dir: self.models_dir@,
            exports: self.export_pause@,
        }
    }
}

impl MediaEngine {
    /// An engine with its cache and model directories.
    pub fn new(cache_root: String, models_dir: String) -> (r: MediaEngine)
        ensures
            r@ == (EngineView { cache_root: cache_root@, models_dir: models_dir@, exports: 0 }),
    {
        MediaEngine { cache_root, models_dir, export_pause: ExportPause::new() }
    }

    /// The directory of the caches.
    pub fn cache_root(&self) -> (r: &str)
        ensures
            r@ == self@.cache_root,
    {
        self.cache_root.as_str()
    }

    /// The directory of the models.
    pub fn models_dir(&self) -> (r: &str)
        ensures
            r@ == self@.models_dir,
    {
        self.models_dir.as_str()
    }

    /// The one pause signal of the engine.
    pub fn export_pause(&mut self) -> (r: &mut ExportPause)
        ensures
            r@ == old(self)@.exports,
            final(self)@ == (EngineView { exports: final(r)@, ..old(self)@ }),
    {
        &mut self.export_pause
    }
}

/// The encoder arguments for an extension of an audio file, where it is supported.
/// Extensions are told apart by case.
pub open spec fn codec_arguments(ext: Seq<char>) -> Option<Seq<Seq<char>>> {
    if ext == "m4a"@ || ext == "m4r"@ || ext == "aac"@ {
        Some(seq!["-c:a"@, "aac"@, "-b:a"@, "192k"@])
    } else if ext == "mp3"@ {
        Some(seq!["-c:a"@, "libmp3lame"@, "-b:a"@, "192k"@])
    } else if ext == "wav"@ {
        Some(seq!["-c:a"@, "pcm_s16le"@])
    } else {
        None
    }
}

/// Picks the encoder arguments for an extension of an audio file.
pub fn audio_codec_args(ext: &str) -> (r: Option<Vec<String>>)
    ensures
        match r {
            Some(args) => codec_arguments(ext@) == Some(texts(args@)),
            None => codec_arguments(ext@) is None,
        },
{
    let mut args: Vec<String> = Vec::new();
    if same_text(ext, "m4a") || same_text(ext, "m4r") || same_text(ext, "aac") {
        push_arg(&mut args, "-c:a");
        push_arg(&mut args, "aac");
        push_arg(&mut args, "-b:a");
        push_arg(&mut args, "192k");
        assert(texts(args@) =~= seq!["-c:a"@, "aac"@, "-b:a"@, "192k"@]);
        Some(args)
    } else if same_text(ext, "mp3") {
        push_arg(&mut args, "-c:a");
        push_arg(&mut args, "libmp3lame");
        push_arg(&mut args, "-b:a");
        push_arg(&mut args, "192k");
        assert(texts(args@) =~= seq!["-c:a"@, "libmp3lame"@, "-b:a"@, "192k"@]);
        Some(args)
    } else if same_text(ext, "wav") {
        push_arg(&mut args, "-c:a");
        push_arg(&mut args, "pcm_s16le");
        assert(texts(args@) =~= seq!["-c:a"@, "pcm_s16le"@]);
        Some(args)
    } else {
        None
    }
}

/// The position of the last dot before `n`.
pub open spec fn last_dot(s: Seq<char>, n: int) -> Option<int>
    decreases n,
{
    if n <= 0 {
        None
    } else if s[n - 1] == '.' {
        Some(n - 1)
    } else {
        last_dot(s, n - 1)
    }
}

/// The extension of a path: what follows the last dot of its last part, unless that
/// dot is the first character, or the part is a step to the current or the parent
/// directory.
pub open spec fn extension(path: Seq<char>) -> Option<Seq<char>> {
    let all = parts(path);
    if all.len() == 0 || all.last() == "."@ || all.last() == ".."@ {
        None
    } else {
        match last_dot(all.last(), all.last().len() as int) {
            Some(i) if i > 0 => Some(all.last().skip(i + 1)),
            _ => None,
        }
    }
}

/// Finds the extension of a path.
pub fn path_extension(path: &str) -> (r: Option<String>)
    ensures
        crate::text::opt_text(r) == extension(path@),
{
    let all = path_parts(path);
    assert(texts(all@).len() == all@.len());
    if all.len() == 0 {
        return None;
    }
    let name = all[all.len() - 1].as_str();
    assert(name@ == texts(all@).last());
    if same_text(name, ".") || same_text(name, "..") {
        return None;
    }
    let len: usize = name.unicode_len();
    let mut n: usize = len;
    while n > 0 && name.get_char(n - 1) != '.'
        invariant
            n <= len == name@.len(),
            last_dot(name@, len as int) == last_dot(name@, n as int),
        decreases n,
    {
        n -= 1;
    }
    if n <= 1 {
        return None;
    }
    let found = name.substring_char(n, len);
    assert(found@ =~= name@.skip(n as int));
    Some(String::from_str(found))
}

/// The arguments for extracting the audio of a file, or why it cannot be done.
pub open spec fn extraction(input: Seq<char>, output: Seq<char>) -> Result<
    Seq<Seq<char>>,
    MediaFault,
> {
    match extension(output) {
        None => Err(
            MediaFault::Ffmpeg("output path has no extension (use .m4a, .mp3, or .wav)"@),
        ),
        Some(ext) => match codec_arguments(ext) {
            None => Err(
                MediaFault::Ffmpeg(
                    "unsupported audio extension: ."@ + ext + " (use m4a, mp3, or wav)"@,
                ),
            ),
            Some(codec) => Ok(seq!["-y"@, "-i"@, input, "-vn"@] + codec + seq![output]),
        },
    }
}

/// The view of arguments.
pub open spec fn args_view(r: Result<Vec<String>, MediaError>) -> Result<
    Seq<Seq<char>>,
    MediaFault,
> {
    match r {
        Ok(v) => Ok(texts(v@)),
        Err(e) => Err(e@),
    }
}

/// Builds the arguments for extracting the audio of a file. The encoder follows from
/// the extension of the output.
pub fn extract_audio_args(input: &str, output: &str) -> (r: Result<Vec<String>, MediaError>)
    ensures
        args_view(r) == extraction(input@, output@),
{
    let ext = match path_extension(output) {
        Some(ext) => ext,
        None => {
            return Err(
                MediaError::Ffmpeg(
                    String::from_str("output path has no extension (use .m4a, .mp3, or .wav)"),
                ),
            );
        },
    };
    let codec = match audio_codec_args(ext.as_str()) {
        Some(codec) => codec,
        None => {
            return Err(
                MediaError::Ffmpeg(
                    cat3(
                        "unsupported audio extension: .",
                        ext.as_str(),
                        " (use m4a, mp3, or wav)",
                    ),
                ),
            );
        },
    };
    let mut args: Vec<String> = Vec::new();
    push_arg(&mut args, "-y");
    push_arg(&mut args, "-i");
    push_arg(&mut args, input);
    push_arg(&mut args, "-vn");
    let ghost head = texts(args@);
    assert(head =~= seq!["-y"@, "-i"@, input@, "-vn"@]);
    let mut i: usize = 0;
    assert(head + texts(codec@).take(0) =~= head);
    while i < codec.len()
        invariant
            i <= codec@.len(),
            texts(args@) == head + texts(codec@).take(i as int),
        decreases codec@.len() - i,
    {
        push_arg(&mut args, codec[i].as_str());
        assert(texts(args@) =~= head + texts(codec@).take(i as int + 1));
        i += 1;
    }
    push_arg(&mut args, output);
    assert(texts(codec@).take(codec@.len() as int) =~= texts(codec@));
    assert(texts(args@) =~= head + texts(codec@) + seq![output@]);
    Ok(args)
}

/// What ffmpeg's end amounts to. `status` and `detail` are how it says that it ended
/// and what it wrote about it.
pub fn check_exit(succeeded: bool, status: &str, detail: &str) -> (r: Result<(), MediaError>)
    ensures
        media_plainly(r) == (if succeeded {
            Ok::<(), MediaFault>(())
        } else if trimmed(detail@).len() == 0 {
            Err(MediaFault::Ffmpeg("ffmpeg exited "@ + status@))
        } else {
            Err(MediaFault::Ffmpeg("ffmpeg exited "@ + status@ + ": "@ + trimmed(detail@)))
        }),
{
    if succeeded {
        return Ok(());
    }
    let said = trim(detail);
    let said = said.as_str();
    if said.is_empty() {
        return Err(MediaError::Ffmpeg(cat2("ffmpeg exited ", status)));
    }
    Err(MediaError::Ffmpeg(cat4("ffmpeg exited ", status, ": ", said)))
}

} // verus!
