//! Reading and writing media with ffmpeg: what to ask it for, how much to accept
//! from it, and what to make of its answer.

pub mod engine;
pub mod frames;
pub mod motion;
pub mod pcm;
pub mod picture;
pub mod polling;
pub mod preset;
pub mod speech;

use crate::text::texts;
use vstd::prelude::*;
use vstd::string::StringExecFns;

verus! {

/// Why reading or writing media failed.
#[derive(Debug)]
pub enum MediaError {
    /// ffmpeg could not be run, or failed.
    Ffmpeg(String),
    /// What was read could not be decoded.
    Decode(String),
    /// Something could not be encoded.
    Encode(String),
    /// Speech could not be transcribed.
    Transcribe(String),
    /// The operating system refused.
    Io(String),
    /// The file has no track of a kind.
    NoTrack { kind: String, path: String },
    /// The work was cancelled.
    Cancelled,
}

/// The view of a [`MediaError`].
pub enum MediaFault {
    Ffmpeg(Seq<char>),
    Decode(Seq<char>),
    Encode(Seq<char>),
    Transcribe(Seq<char>),
    Io(Seq<char>),
    NoTrack { kind: Seq<char>, path: Seq<char> },
    Cancelled,
}

impl View for MediaError {
    type V = MediaFault;

    open spec fn view(&self) -> MediaFault {
        match self {
            MediaError::Ffmpeg(m) => MediaFault::Ffmpeg(m@),
            MediaError::Decode(m) => MediaFault::Decode(m@),
            MediaError::Encode(m) => MediaFault::Encode(m@),
            MediaError::Transcribe(m) => MediaFault::Transcribe(m@),
            MediaError::Io(m) => MediaFault::Io(m@),
            MediaError::NoTrack { kind, path } => MediaFault::NoTrack { kind: kind@, path: path@ },
            MediaError::Cancelled => MediaFault::Cancelled,
        }
    }
}

/// The view of a result whose value is a plain one.
pub open spec fn media_plainly<T>(r: Result<T, MediaError>) -> Result<T, MediaFault> {
    match r {
        Ok(x) => Ok(x),
        Err(e) => Err(e@),
    }
}

/// The view of a result whose value has a view.
pub open spec fn media_viewed<T: View>(r: Result<T, MediaError>) -> Result<T::V, MediaFault> {
    match r {
        Ok(x) => Ok(x@),
        Err(e) => Err(e@),
    }
}

/// Puts one argument behind a list.
pub fn push_arg(args: &mut Vec<String>, arg: &str)
    ensures
        texts(final(args)@) == texts(old(args)@).push(arg@),
{
    let ghost before = args@;
    args.push(String::from_str(arg));
    assert(texts(args@) =~= texts(before).push(arg@));
}

} // verus!
