//! What is left of a transcription once it is sanitized.

use crate::laws::texts::law_trimming_takes_space_off_the_ends;
use crate::media::speech::SegmentView;
use crate::media::speech::TranscriptionView;
use crate::media::speech::WordView;
use crate::media::speech::dirty;
use crate::media::speech::filler;
use crate::media::speech::letter;
use crate::media::speech::non_speech;
use crate::media::speech::sanitized;
use crate::media::speech::segment_texts;
use crate::media::speech::spoken_segments;
use crate::media::speech::spoken_words;
use crate::text::is_space;
use crate::text::joined;
use crate::text::trimmed;
use vstd::prelude::*;

verus! {

proof fn lemma_segments_filtered(v: Seq<SegmentView>, n: int)
    requires
        0 <= n <= v.len(),
    ensures
        spoken_segments(v, n) == v.take(n).filter(|s: SegmentView| !non_speech(s.text)),
    decreases n,
{
    reveal(Seq::filter);
    let spoken = |s: SegmentView| !non_speech(s.text);
    if n > 0 {
        lemma_segments_filtered(v, n - 1);
        assert(v.take(n).drop_last() =~= v.take(n - 1));
        assert(v.take(n).last() == v[n - 1]);
    } else {
        assert(v.take(n).filter(spoken) =~= Seq::empty());
    }
}

proof fn lemma_words_filtered(v: Seq<WordView>, n: int)
    requires
        0 <= n <= v.len(),
    ensures
        spoken_words(v, n) == v.take(n).filter(|w: WordView| !non_speech(w.text)),
    decreases n,
{
    reveal(Seq::filter);
    let spoken = |w: WordView| !non_speech(w.text);
    if n > 0 {
        lemma_words_filtered(v, n - 1);
        assert(v.take(n).drop_last() =~= v.take(n - 1));
        assert(v.take(n).last() == v[n - 1]);
    } else {
        assert(v.take(n).filter(spoken) =~= Seq::empty());
    }
}

proof fn lemma_nothing_filtered<T>(v: Seq<T>, keep: spec_fn(T) -> bool)
    requires
        forall|i: int| 0 <= i < v.len() ==> keep(#[trigger] v[i]),
    ensures
        v.filter(keep) == v,
    decreases v.len(),
{
    reveal(Seq::filter);
    if v.len() > 0 {
        lemma_nothing_filtered(v.drop_last(), keep);
        assert(keep(v[v.len() - 1]));
        assert(v.drop_last().push(v.last()) =~= v);
    } else {
        assert(v.filter(keep) =~= v);
    }
}

/// Sanitizing keeps, in order, exactly the utterances and words whose text is no
/// marker, each with its text and times as they were, and the language. Where no text
/// is a marker the text stays as it was too.
pub proof fn law_sanitizing_drops_markers_alone(t: TranscriptionView)
    ensures
        sanitized(t).segments == t.segments.filter(|s: SegmentView| !non_speech(s.text)),
        sanitized(t).words == t.words.filter(|w: WordView| !non_speech(w.text)),
        sanitized(t).language == t.language,
        (forall|i: int| 0 <= i < t.segments.len() ==> !non_speech((#[trigger] t.segments[i]).text))
            && (forall|i: int| 0 <= i < t.words.len() ==> !non_speech(
            (#[trigger] t.words[i]).text,
        )) ==> sanitized(t) == t,
{
    lemma_segments_filtered(t.segments, t.segments.len() as int);
    lemma_words_filtered(t.words, t.words.len() as int);
    assert(t.segments.take(t.segments.len() as int) =~= t.segments);
    assert(t.words.take(t.words.len() as int) =~= t.words);
    if !dirty(t) {
        assert forall|i: int| 0 <= i < t.segments.len() implies !non_speech(
            (#[trigger] t.segments[i]).text,
        ) by {}
        assert forall|i: int| 0 <= i < t.words.len() implies !non_speech(
            (#[trigger] t.words[i]).text,
        ) by {}
        lemma_nothing_filtered(t.segments, |s: SegmentView| !non_speech(s.text));
        lemma_nothing_filtered(t.words, |w: WordView| !non_speech(w.text));
    }
}

/// What is taken for a marker and no speech: a text that, but for white space at its ends,
/// is put in brackets that belong together, or in asterisks around three characters or
/// more, and within them holds letters, underscores and spaces alone, a letter among them.
pub proof fn law_markers_are_words_in_brackets(word: Seq<char>, open: char, close: char)
    ensures
        ({
            let text = seq![open] + word + seq![close];
            let worded = (forall|i: int|
                0 <= i < word.len() ==> ('a' <= #[trigger] word[i] <= 'z') || ('A' <= word[i] <= 'Z')
                    || word[i] == '_' || word[i] == ' ') && (exists|i: int|
                0 <= i < word.len() && (('a' <= #[trigger] word[i] <= 'z') || ('A' <= word[i]
                    <= 'Z')));
            !is_space(open) && !is_space(close) ==> (non_speech(text) <==> worded && ((open == '['
                && close == ']') || (open == '(' && close == ')') || (open == '{' && close == '}')
                || (open == '*' && close == '*' && word.len() >= 3)))
        }),
{
    let text = seq![open] + word + seq![close];
    if !is_space(open) && !is_space(close) {
        law_trimming_takes_space_off_the_ends(text);
        let (a, b) = choose|a: int, b: int|
            0 <= a <= b <= text.len() && trimmed(text) == #[trigger] text.subrange(a, b) && (forall|
                i: int,
            |
                0 <= i < text.len() && (i < a || i >= b) ==> is_space(#[trigger] text[i]));
        assert(text[0] == open);
        assert(text[text.len() - 1] == close);
        assert(a == 0);
        assert(b == text.len());
        assert(trimmed(text) =~= text);
        assert forall|i: int| 0 <= i < word.len() implies text[i + 1] == #[trigger] word[i] by {}
        if non_speech(text) {
            assert forall|i: int| 0 <= i < word.len() implies filler(#[trigger] word[i]) by {
                assert(filler(text[i + 1]));
            }
            let k = choose|k: int| 0 < k < text.len() - 1 && letter(#[trigger] text[k]);
            assert(letter(word[k - 1]));
        }
        if exists|i: int| 0 <= i < word.len() && letter(#[trigger] word[i]) {
            let k = choose|i: int| 0 <= i < word.len() && letter(#[trigger] word[i]);
            assert(letter(text[k + 1]));
        }
        if forall|i: int| 0 <= i < word.len() ==> filler(#[trigger] word[i]) {
            assert forall|i: int| 0 < i < text.len() - 1 implies filler(#[trigger] text[i]) by {
                assert(filler(word[i - 1]));
            }
        }
        assert forall|i: int| 0 <= i < word.len() implies filler(#[trigger] word[i]) == (('a'
            <= word[i] <= 'z') || ('A' <= word[i] <= 'Z') || word[i] == '_' || word[i]
            == ' ') by {}
        assert forall|i: int| 0 <= i < word.len() implies letter(#[trigger] word[i]) == (('a'
            <= word[i] <= 'z') || ('A' <= word[i] <= 'Z')) by {}
    }
}

/// White space around a text makes it neither a marker nor speech.
pub proof fn law_white_space_makes_no_marker(text: Seq<char>)
    ensures
        non_speech(text) == non_speech(trimmed(text)),
        trimmed(text).len() < 3 ==> !non_speech(text),
{
    law_trimming_takes_space_off_the_ends(text);
}

/// Where anything is dropped, the text is that of the segments that are left, with a space
/// between them.
pub proof fn law_sanitized_texts_are_of_what_is_left(t: TranscriptionView)
    requires
        sanitized(t) != t,
    ensures
        sanitized(t).text == joined(
            Seq::new(
                sanitized(t).segments.len(),
                |i: int| sanitized(t).segments[i].text,
            ),
            " "@,
        ),
{
    let kept = sanitized(t).segments;
    assert(segment_texts(kept) =~= Seq::new(kept.len(), |i: int| kept[i].text));
}

} // verus!
