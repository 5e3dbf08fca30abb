//! Transcriptions: what is speech in them and what is not.

use crate::media::pcm::PcmFormat;
use crate::media::pcm::PcmSpec;
use crate::media::MediaError;
use crate::media::MediaFault;
use crate::model::Real;
use crate::text::join;
use crate::text::joined;
use crate::text::texts;
use crate::text::trim;
use crate::text::trimmed;
use vstd::prelude::*;
use vstd::string::StrSliceExecFns;
use vstd::string::StringExecFns;

verus! {

/// One word, with its times in seconds where they are known.
#[derive(Debug)]
pub struct TranscriptionWord {
    pub text: String,
    pub start: Option<Real>,
    pub end: Option<Real>,
}

/// One utterance, with its times in seconds.
#[derive(Debug)]
pub struct TranscriptionSegment {
    pub text: String,
    pub start: Real,
    pub end: Real,
}

/// A transcription.
#[derive(Debug)]
pub struct TranscriptionResult {
    pub text: String,
    pub language: Option<String>,
    pub words: Vec<TranscriptionWord>,
    pub segments: Vec<TranscriptionSegment>,
}

/// The view of a [`TranscriptionWord`].
#[verifier::ext_equal]
pub struct WordView {
    pub text: Seq<char>,
    pub start: Option<Real>,
    pub end: Option<Real>,
}

/// The view of a [`TranscriptionSegment`].
#[verifier::ext_equal]
pub struct SegmentView {
    pub text: Seq<char>,
    pub start: Real,
    pub end: Real,
}

/// The view of a [`TranscriptionResult`].
#[verifier::ext_equal]
pub struct TranscriptionView {
    pub text: Seq<char>,
    pub language: Option<Seq<char>>,
    pub words: Seq<WordView>,
    pub segments: Seq<SegmentView>,
}

impl View for TranscriptionWord {
    type V = WordView;

    open spec fn view(&self) -> WordView {
        WordView { text: self.text@, start: self.start, end: self.end }
    }
}

impl View for TranscriptionSegment {
    type V = SegmentView;

    open spec fn view(&self) -> SegmentView {
        SegmentView { text: self.text@, start: self.start, end: self.end }
    }
}

impl View for TranscriptionResult {
    type V = TranscriptionView;

    open spec fn view(&self) -> TranscriptionView {
        TranscriptionView {
            text: self.text@,
            language: crate::text::opt_text(self.language),
            words: word_views(self.words@),
            segments: segment_views(self.segments@),
        }
    }
}

/// The views of words.
pub open spec fn word_views(v: Seq<TranscriptionWord>) -> Seq<WordView> {
    v.map_values(|x: TranscriptionWord| x@)
}

/// The views of utterances.
pub open spec fn segment_views(v: Seq<TranscriptionSegment>) -> Seq<SegmentView> {
    v.map_values(|x: TranscriptionSegment| x@)
}

/// An ASCII letter.
pub open spec fn letter(c: char) -> bool {
    ('a' <= c && c <= 'z') || ('A' <= c && c <= 'Z')
}

/// What may stand in a marker.
pub open spec fn filler(c: char) -> bool {
    letter(c) || c == '_' || c == ' '
}

/// Whether two characters open and close a marker.
pub open spec fn brackets(open: char, close: char) -> bool {
    (open == '[' && close == ']') || (open == '(' && close == ')') || (open == '{' && close
        == '}')
}

/// Whether a text is, apart from space around it, nothing but a marker for what is
/// not speech: letters, underscores and spaces, with at least one letter, in
/// brackets; or, three of them at least, between asterisks.
pub open spec fn non_speech(text: Seq<char>) -> bool {
    let t = trimmed(text);
    let n = t.len();
    &&& n >= 3
    &&& brackets(t[0], t[n - 1]) || (t[0] == '*' && t[n - 1] == '*' && n >= 5)
    &&& forall|i: int| 0 < i < n - 1 ==> filler(#[trigger] t[i])
    &&& exists|i: int| 0 < i < n - 1 && letter(#[trigger] t[i])
}

fn is_letter(c: char) -> (r: bool)
    ensures
        r == letter(c),
{
    ('a' <= c && c <= 'z') || ('A' <= c && c <= 'Z')
}

/// Tells whether a text is nothing but a marker for what is not speech.
pub fn is_non_speech_marker(text: &str) -> (r: bool)
    ensures
        r == non_speech(text@),
{
    let t = trim(text);
    let s = t.as_str();
    let n: usize = s.unicode_len();
    if n < 3 {
        return false;
    }
    let open = s.get_char(0);
    let close = s.get_char(n - 1);
    let wrapped = (open == '[' && close == ']') || (open == '(' && close == ')') || (open == '{'
        && close == '}') || (open == '*' && close == '*' && n >= 5);
    if !wrapped {
        return false;
    }
    let mut found = false;
    let mut i: usize = 1;
    while i < n - 1
        invariant
            1 <= i <= n - 1,
            3 <= n == s@.len(),
            s@ == trimmed(text@),
            forall|k: int| 0 < k < i ==> filler(#[trigger] s@[k]),
            found == exists|k: int| 0 < k < i && letter(#[trigger] s@[k]),
        decreases n - i,
    {
        let c = s.get_char(i);
        if is_letter(c) {
            found = true;
            assert(letter(s@[i as int]));
        } else if c != '_' && c != ' ' {
            assert(!filler(s@[i as int]));
            return false;
        }
        i += 1;
    }
    found
}

/// The utterances among the first `n` that are speech.
pub open spec fn spoken_segments(v: Seq<SegmentView>, n: int) -> Seq<SegmentView>
    decreases n,
{
    if n <= 0 {
        Seq::empty()
    } else if non_speech(v[n - 1].text) {
        spoken_segments(v, n - 1)
    } else {
        spoken_segments(v, n - 1).push(v[n - 1])
    }
}

/// The words among the first `n` that are speech.
pub open spec fn spoken_words(v: Seq<WordView>, n: int) -> Seq<WordView>
    decreases n,
{
    if n <= 0 {
        Seq::empty()
    } else if non_speech(v[n - 1].text) {
        spoken_words(v, n - 1)
    } else {
        spoken_words(v, n - 1).push(v[n - 1])
    }
}

/// The texts of utterances.
pub open spec fn segment_texts(v: Seq<SegmentView>) -> Seq<Seq<char>> {
    v.map_values(|s: SegmentView| s.text)
}

/// Whether a transcription holds a marker.
pub open spec fn dirty(t: TranscriptionView) -> bool {
    (exists|i: int| 0 <= i < t.segments.len() && non_speech(#[trigger] t.segments[i].text))
        || (exists|i: int| 0 <= i < t.words.len() && non_speech(#[trigger] t.words[i].text))
}

/// A transcription without its markers. One that has none stays as it is; of any
/// other the text is put together anew from the utterances that remain.
pub open spec fn sanitized(t: TranscriptionView) -> TranscriptionView {
    if !dirty(t) {
        t
    } else {
        let segments = spoken_segments(t.segments, t.segments.len() as int);
        TranscriptionView {
            text: joined(segment_texts(segments), " "@),
            words: spoken_words(t.words, t.words.len() as int),
            segments,
            ..t
        }
    }
}

fn is_dirty(t: &TranscriptionResult) -> (r: bool)
    ensures
        r == dirty(t@),
{
    let mut i: usize = 0;
    while i < t.segments.len()
        invariant
            i <= t.segments@.len(),
            forall|k: int| 0 <= k < i ==> !non_speech(#[trigger] t@.segments[k].text),
        decreases t.segments@.len() - i,
    {
        if is_non_speech_marker(t.segments[i].text.as_str()) {
            assert(non_speech(t@.segments[i as int].text));
            return true;
        }
        i += 1;
    }
    let mut j: usize = 0;
    while j < t.words.len()
        invariant
            j <= t.words@.len(),
            i == t.segments@.len(),
            forall|k: int| 0 <= k < i ==> !non_speech(#[trigger] t@.segments[k].text),
            forall|k: int| 0 <= k < j ==> !non_speech(#[trigger] t@.words[k].text),
        decreases t.words@.len() - j,
    {
        if is_non_speech_marker(t.words[j].text.as_str()) {
            assert(non_speech(t@.words[j as int].text));
            return true;
        }
        j += 1;
    }
    false
}

fn keep_spoken_segments(v: &Vec<TranscriptionSegment>) -> (r: Vec<TranscriptionSegment>)
    ensures
        segment_views(r@) == spoken_segments(segment_views(v@), v@.len() as int),
{
    let ghost views = segment_views(v@);
    let mut out: Vec<TranscriptionSegment> = Vec::new();
    assert(segment_views(out@) =~= Seq::empty());
    let mut i: usize = 0;
    while i < v.len()
        invariant
            i <= v@.len(),
            views == segment_views(v@),
            segment_views(out@) == spoken_segments(views, i as int),
        decreases v@.len() - i,
    {
        if !is_non_speech_marker(v[i].text.as_str()) {
            let ghost before = out@;
            let kept = TranscriptionSegment {
                text: v[i].text.clone(),
                start: v[i].start,
                end: v[i].end,
            };
            out.push(kept);
            assert(segment_views(out@) =~= segment_views(before).push(views[i as int]));
        }
        i += 1;
    }
    out
}

fn keep_spoken_words(v: &Vec<TranscriptionWord>) -> (r: Vec<TranscriptionWord>)
    ensures
        word_views(r@) == spoken_words(word_views(v@), v@.len() as int),
{
    let ghost views = word_views(v@);
    let mut out: Vec<TranscriptionWord> = Vec::new();
    assert(word_views(out@) =~= Seq::empty());
    let mut i: usize = 0;
    while i < v.len()
        invariant
            i <= v@.len(),
            views == word_views(v@),
            word_views(out@) == spoken_words(views, i as int),
        decreases v@.len() - i,
    {
        if !is_non_speech_marker(v[i].text.as_str()) {
            let ghost before = out@;
            let kept = TranscriptionWord {
                text: v[i].text.clone(),
                start: v[i].start,
                end: v[i].end,
            };
            out.push(kept);
            assert(word_views(out@) =~= word_views(before).push(views[i as int]));
        }
        i += 1;
    }
    out
}

fn copy_segment_texts(v: &Vec<TranscriptionSegment>) -> (r: Vec<String>)
    ensures
        texts(r@) == segment_texts(segment_views(v@)),
{
    let mut out: Vec<String> = Vec::new();
    let mut i: usize = 0;
    while i < v.len()
        invariant
            i <= v@.len(),
            out@.len() == i,
            forall|k: int| 0 <= k < i ==> (#[trigger] out@[k])@ == v@[k].text@,
        decreases v@.len() - i,
    {
        out.push(v[i].text.clone());
        i += 1;
    }
    assert(texts(out@) =~= segment_texts(segment_views(v@)));
    out
}

/// Takes the markers for what is not speech out of a transcription.
pub fn sanitize_transcription(result: TranscriptionResult) -> (r: TranscriptionResult)
    ensures
        r@ == sanitized(result@),
{
    if !is_dirty(&result) {
        return result;
    }
    let segments = keep_spoken_segments(&result.segments);
    let words = keep_spoken_words(&result.words);
    let parts = copy_segment_texts(&segments);
    let text = join(&parts, " ");
    TranscriptionResult { text, language: result.language, words, segments }
}

proof fn lemma_spoken_segments(v: Seq<SegmentView>, n: int)
    requires
        0 <= n <= v.len(),
    ensures
        forall|i: int|
            0 <= i < spoken_segments(v, n).len() ==> !non_speech(
                #[trigger] spoken_segments(v, n)[i].text,
            ),
    decreases n,
{
    if n > 0 {
        lemma_spoken_segments(v, n - 1);
        let before = spoken_segments(v, n - 1);
        let after = spoken_segments(v, n);
        assert forall|i: int| 0 <= i < after.len() implies !non_speech(
            #[trigger] after[i].text,
        ) by {
            if i < before.len() {
                assert(after[i] == before[i]);
                assert(!non_speech(before[i].text));
            }
        }
    }
}

proof fn lemma_spoken_words(v: Seq<WordView>, n: int)
    requires
        0 <= n <= v.len(),
    ensures
        forall|i: int|
            0 <= i < spoken_words(v, n).len() ==> !non_speech(
                #[trigger] spoken_words(v, n)[i].text,
            ),
    decreases n,
{
    if n > 0 {
        lemma_spoken_words(v, n - 1);
        let before = spoken_words(v, n - 1);
        let after = spoken_words(v, n);
        assert forall|i: int| 0 <= i < after.len() implies !non_speech(
            #[trigger] after[i].text,
        ) by {
            if i < before.len() {
                assert(after[i] == before[i]);
                assert(!non_speech(before[i].text));
            }
        }
    }
}

/// No marker is left in a sanitized transcription, and sanitizing it again changes
/// nothing.
pub proof fn law_sanitizing_is_idempotent(t: TranscriptionView)
    ensures
        !dirty(sanitized(t)),
        sanitized(sanitized(t)) == sanitized(t),
{
    lemma_spoken_segments(t.segments, t.segments.len() as int);
    lemma_spoken_words(t.words, t.words.len() as int);
}

/// The layout that the speech recogniser takes: 16 kHz, one channel, floats.
pub fn whisper_pcm_spec() -> (r: PcmSpec)
    ensures
        r == (PcmSpec { sample_rate: 16_000, channels: 1, format: PcmFormat::F32 }),
{
    PcmSpec { sample_rate: 16_000, channels: 1, format: PcmFormat::F32 }
}

/// The complaint of a build without a speech recogniser.
pub open spec fn no_recogniser() -> MediaFault {
    MediaFault::Transcribe(
        "this build was compiled without the whisper backend (feature `whisper-backend`)"@,
    )
}

/// A speech recogniser. This build has none, so there is never a value of it.
#[derive(Debug)]
pub struct WhisperTranscriber {
    _private: (),
}

impl WhisperTranscriber {
    /// Fails: this build has no speech recogniser.
    pub fn from_model_path(path: &str) -> (r: Result<WhisperTranscriber, MediaError>)
        ensures
            r matches Err(e) && e@ == no_recogniser(),
    {
        Err(
            MediaError::Transcribe(
                String::from_str(
                    "this build was compiled without the whisper backend (feature `whisper-backend`)",
                ),
            ),
        )
    }

    /// Asks for a number of threads, of which this build makes no use.
    pub fn with_threads(self, threads: i32) -> (r: WhisperTranscriber)
        ensures
            r == self,
    {
        self
    }

    /// Fails: this build has no speech recogniser.
    pub fn transcribe_pcm(&self) -> (r: Result<TranscriptionResult, MediaError>)
        ensures
            r matches Err(e) && e@ == no_recogniser(),
    {
        Err(
            MediaError::Transcribe(
                String::from_str(
                    "this build was compiled without the whisper backend (feature `whisper-backend`)",
                ),
            ),
        )
    }
}

} // verus!
