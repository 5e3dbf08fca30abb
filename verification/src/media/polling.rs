//! Watching over a running ffmpeg: what to do next, given how things stand.

use crate::binary64::finite;
use crate::binary64::less;
use crate::binary64::sign_bit;
use crate::binary64::zero;
use crate::media::media_plainly;
use crate::media::picture::no_frame;
use crate::media::push_arg;
use crate::media::MediaError;
use crate::media::MediaFault;
use crate::model::Real;
use crate::text::cat3;
use crate::text::texts;
use crate::text::trimmed;
use vstd::prelude::*;
use vstd::string::StringExecFns;

verus! {

/// How a child process stands.
#[derive(Debug)]
pub enum ChildState {
    Running,
    Exited,
    /// It could not be asked.
    Unknown(String),
}

/// What to do about a child process that is being read from.
#[derive(Debug)]
pub enum WatchStep {
    /// Wait a little and look again.
    Wait,
    /// End it, if it still runs, gather what its readers have, and settle.
    Settle { end_child: bool },
    /// End it, gather what its readers have, and fail.
    Fail(MediaError),
}

/// The view of a [`WatchStep`].
pub enum WatchView {
    Wait,
    Settle { end_child: bool },
    Fail(MediaFault),
}

impl View for WatchStep {
    type V = WatchView;

    open spec fn view(&self) -> WatchView {
        match self {
            WatchStep::Wait => WatchView::Wait,
            WatchStep::Settle { end_child } => WatchView::Settle { end_child: *end_child },
            WatchStep::Fail(e) => WatchView::Fail(e@),
        }
    }
}

/// What to do about a child: a cancelled one is ended whatever else; once its reader
/// has all it wants, or it has ended by itself, its work is settled.
pub open spec fn watched(cancelled: bool, reader_finished: bool, child: ChildState) -> WatchView {
    if cancelled {
        WatchView::Fail(MediaFault::Cancelled)
    } else if reader_finished {
        WatchView::Settle { end_child: true }
    } else {
        match child {
            ChildState::Running => WatchView::Wait,
            ChildState::Exited => WatchView::Settle { end_child: false },
            ChildState::Unknown(e) => WatchView::Fail(MediaFault::Io(e@)),
        }
    }
}

/// Decides what to do about a child. A reader that has to read to the end passes
/// `false` for `reader_finished`.
pub fn watch(cancelled: bool, reader_finished: bool, child: ChildState) -> (r: WatchStep)
    ensures
        r@ == watched(cancelled, reader_finished, child),
{
    if cancelled {
        return WatchStep::Fail(MediaError::Cancelled);
    }
    if reader_finished {
        return WatchStep::Settle { end_child: true };
    }
    match child {
        ChildState::Running => WatchStep::Wait,
        ChildState::Exited => WatchStep::Settle { end_child: false },
        ChildState::Unknown(e) => WatchStep::Fail(MediaError::Io(e)),
    }
}

/// What decoding one frame came to.
pub open spec fn settled<T>(cancelled: bool, found: Option<T>, time: Seq<char>) -> Result<
    T,
    MediaFault,
> {
    if cancelled {
        Err(MediaFault::Cancelled)
    } else {
        match found {
            Some(x) => Ok(x),
            None => Err(no_frame(time)),
        }
    }
}

/// Settles the decoding of one frame. Work that was cancelled meanwhile has no result.
pub fn settle<T>(cancelled: bool, found: Option<T>, time: &str) -> (r: Result<T, MediaError>)
    ensures
        media_plainly(r) == settled(cancelled, found, time@),
{
    if cancelled {
        return Err(MediaError::Cancelled);
    }
    match found {
        Some(x) => Ok(x),
        None => Err(MediaError::Decode(cat3("no frame at ", time, "s"))),
    }
}

/// Whether two times bound a range that can be cut out.
pub open spec fn cuttable(start: Real, end: Real) -> bool {
    finite(start) && finite(end) && (!sign_bit(start) || zero(start)) && less(start, end)
}

/// Tells whether two times, in seconds, bound a range that can be cut out.
pub fn check_trim_range(start: Real, end: Real) -> (r: Result<(), MediaError>)
    ensures
        media_plainly(r) == (if cuttable(start, end) {
            Ok::<(), MediaFault>(())
        } else {
            Err(MediaFault::Ffmpeg("invalid trimmed generation source range"@))
        }),
{
    if !start.is_finite() || !end.is_finite() || (start.bits >= 0x8000_0000_0000_0000
        && !start.is_zero()) || !start.is_less_than(end) {
        return Err(
            MediaError::Ffmpeg(String::from_str("invalid trimmed generation source range")),
        );
    }
    Ok(())
}

/// The arguments that cut a range out of a video. Times are given in the form in
/// which ffmpeg takes them.
pub open spec fn trim_arguments(
    source: Seq<char>,
    destination: Seq<char>,
    start: Seq<char>,
    duration: Seq<char>,
) -> Seq<Seq<char>> {
    seq![
        "-hide_banner"@,
        "-loglevel"@,
        "error"@,
        "-nostdin"@,
        "-y"@,
        "-ss"@,
        start,
        "-i"@,
        source,
        "-t"@,
        duration,
        "-map"@,
        "0:v:0"@,
        "-map"@,
        "0:a?"@,
        "-c:v"@,
        "libx264"@,
        "-preset"@,
        "veryfast"@,
        "-crf"@,
        "18"@,
        "-c:a"@,
        "aac"@,
        "-movflags"@,
        "+faststart"@,
        destination,
    ]
}

/// Builds the arguments that cut a range out of a video.
pub fn trim_args(source: &str, destination: &str, start: &str, duration: &str) -> (r: Vec<String>)
    ensures
        texts(r@) == trim_arguments(source@, destination@, start@, duration@),
{
    let mut args: Vec<String> = Vec::new();
    push_arg(&mut args, "-hide_banner");
    push_arg(&mut args, "-loglevel");
    push_arg(&mut args, "error");
    push_arg(&mut args, "-nostdin");
    push_arg(&mut args, "-y");
    push_arg(&mut args, "-ss");
    push_arg(&mut args, start);
    push_arg(&mut args, "-i");
    push_arg(&mut args, source);
    push_arg(&mut args, "-t");
    push_arg(&mut args, duration);
    push_arg(&mut args, "-map");
    push_arg(&mut args, "0:v:0");
    push_arg(&mut args, "-map");
    push_arg(&mut args, "0:a?");
    push_arg(&mut args, "-c:v");
    push_arg(&mut args, "libx264");
    push_arg(&mut args, "-preset");
    push_arg(&mut args, "veryfast");
    push_arg(&mut args, "-crf");
    push_arg(&mut args, "18");
    push_arg(&mut args, "-c:a");
    push_arg(&mut args, "aac");
    push_arg(&mut args, "-movflags");
    push_arg(&mut args, "+faststart");
    push_arg(&mut args, destination);
    assert(texts(args@) =~= trim_arguments(source@, destination@, start@, duration@));
    args
}

/// What to do about a cut that is being made.
#[derive(Debug)]
pub enum TrimStep {
    /// Wait a little and look again.
    Wait,
    /// End ffmpeg, remove what it wrote, and report that the work was cancelled.
    Cancel,
    /// Remove what ffmpeg wrote and report a failure.
    Fail(MediaError),
    /// The cut is there.
    Done,
}

/// What to do about a cut that is being made. `ended` is whether ffmpeg ended well,
/// once it has ended, and `written` whether the file is there.
pub fn watch_trim(cancelled: bool, ended: Option<bool>, written: bool) -> (r: TrimStep)
    ensures
        cancelled <==> r is Cancel,
        r is Wait <==> !cancelled && ended is None,
        r is Done <==> !cancelled && ended == Some(true) && written,
        r matches TrimStep::Fail(e) ==> e@ == MediaFault::Ffmpeg(
            "trimmed generation source could not be materialized"@,
        ),
{
    if cancelled {
        return TrimStep::Cancel;
    }
    match ended {
        None => TrimStep::Wait,
        Some(well) => if !well || !written {
            TrimStep::Fail(
                MediaError::Ffmpeg(
                    String::from_str("trimmed generation source could not be materialized"),
                ),
            )
        } else {
            TrimStep::Done
        },
    }
}

} // verus!
