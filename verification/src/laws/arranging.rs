//! How clips are put in order, and what a fresh clip looks like.

use crate::arrange::by_start;
use crate::arrange::clips_among;
use crate::arrange::clips_without;
use crate::arrange::filled_tracks;
use crate::arrange::lemma_start_slot;
use crate::arrange::start_slot;
use crate::arrange::without_clips;
use crate::arrange::without_empty_tracks;
use crate::fresh::fresh_clip;
use crate::links::flat_clips;
use crate::model::ClipView;
use crate::model::Crop;
use crate::model::Real;
use crate::model::TimelineView;
use crate::model::TrackView;
use crate::model::Transform;
use vstd::prelude::*;

verus! {

/// Whether a list holds each position below `n` once.
pub open spec fn rearranges(order: Seq<int>, n: nat) -> bool {
    &&& order.len() == n
    &&& forall|i: int| 0 <= i < n ==> 0 <= #[trigger] order[i] < n
    &&& forall|i: int, j: int| 0 <= i < j < n ==> #[trigger] order[i] != #[trigger] order[j]
}

/// Whether every position below `n` occurs in a list.
pub open spec fn reaches(order: Seq<int>, n: nat) -> bool {
    forall|k: int| 0 <= k < n ==> #[trigger] order.contains(k)
}

/// Whether `sorted` is `clips` in order of their starts, those that start together in
/// the order in which they stood; `order` tells where each stood.
pub open spec fn sorted_from(clips: Seq<ClipView>, sorted: Seq<ClipView>, order: Seq<int>) -> bool {
    &&& sorted.len() == clips.len()
    &&& rearranges(order, clips.len())
    &&& reaches(order, clips.len())
    &&& forall|j: int| 0 <= j < sorted.len() ==> #[trigger] sorted[j] == clips[order[j]]
    &&& forall|i: int, j: int|
        0 <= i < j < sorted.len() ==> (#[trigger] sorted[i]).start_frame < (
        #[trigger] sorted[j]).start_frame || (sorted[i].start_frame == sorted[j].start_frame
            && order[i] < order[j])
}

/// Where the clips of a sorted list stood.
pub open spec fn start_order(clips: Seq<ClipView>) -> Seq<int>
    decreases clips.len(),
{
    if clips.len() == 0 {
        Seq::empty()
    } else {
        start_order(clips.drop_last()).insert(
            start_slot(by_start(clips.drop_last()), clips.last().start_frame as int, 0),
            clips.len() - 1,
        )
    }
}

/// Sorting puts the clips in order of their starts, loses none and adds none, and
/// leaves clips that start together in the order in which they stood.
pub proof fn law_sorting_is_by_start(clips: Seq<ClipView>)
    ensures
        sorted_from(clips, by_start(clips), start_order(clips)),
    decreases clips.len(),
{
    if clips.len() > 0 {
        let fewer = clips.drop_last();
        let c = clips.last();
        let n = fewer.len() as int;
        law_sorting_is_by_start(fewer);
        let sorted = by_start(fewer);
        let order = start_order(fewer);
        let p = start_slot(sorted, c.start_frame as int, 0);
        lemma_start_slot(sorted, c.start_frame as int, 0);
        let s2 = by_start(clips);
        let o2 = start_order(clips);
        assert(s2 =~= sorted.insert(p, c));
        assert(o2 =~= order.insert(p, n));
        assert forall|i: int| 0 <= i < s2.len() implies (0 <= #[trigger] o2[i] < clips.len()
            && s2[i] == clips[o2[i]]) by {
            if i < p {
                assert(o2[i] == order[i] && s2[i] == sorted[i]);
            } else if i > p {
                assert(o2[i] == order[i - 1] && s2[i] == sorted[i - 1]);
            }
        }
        assert forall|k: int| 0 <= k < clips.len() implies #[trigger] o2.contains(k) by {
            if k == n {
                assert(o2[p] == n);
            } else {
                assert(order.contains(k));
                let i = choose|i: int| 0 <= i < order.len() && order[i] == k;
                if i < p {
                    assert(o2[i] == k);
                } else {
                    assert(o2[i + 1] == k);
                }
            }
        }
        assert forall|i: int, j: int| 0 <= i < j < s2.len() implies #[trigger] o2[i]
            != #[trigger] o2[j] by {
            let a = if i < p {
                i
            } else {
                i - 1
            };
            let b = if j < p {
                j
            } else {
                j - 1
            };
            if i != p && j != p {
                assert(order[a] != order[b]);
            } else if i == p {
                assert(order[b] < n);
            } else {
                assert(order[a] < n);
            }
        }
        assert forall|i: int, j: int| 0 <= i < j < s2.len() implies (#[trigger] s2[i]).start_frame
            < (#[trigger] s2[j]).start_frame || (s2[i].start_frame == s2[j].start_frame && o2[i]
            < o2[j]) by {
            if i < p && j < p {
                assert(s2[i] == sorted[i] && s2[j] == sorted[j]);
            } else if i < p && j == p {
                assert(sorted[i].start_frame <= c.start_frame);
                assert(order[i] < n);
            } else if i < p {
                assert(s2[i] == sorted[i] && s2[j] == sorted[j - 1]);
            } else if i == p {
                assert(sorted[p].start_frame > c.start_frame);
                assert(s2[j] == sorted[j - 1]);
                if j - 1 > p {
                    assert(sorted[p].start_frame <= sorted[j - 1].start_frame);
                }
            } else {
                assert(s2[i] == sorted[i - 1] && s2[j] == sorted[j - 1]);
            }
        }
    }
}

/// Whether a clip has nothing set but what it shows and where: full speed, volume and
/// opacity, nothing trimmed, faded, cropped, animated, linked, graded or masked.
pub open spec fn unadorned(c: ClipView) -> bool {
    &&& c.trim_start_frame == 0
    &&& c.trim_end_frame == 0
    &&& c.speed == (Real { bits: 0x3FF0_0000_0000_0000 })
    &&& c.volume == (Real { bits: 0x3FF0_0000_0000_0000 })
    &&& c.opacity == (Real { bits: 0x3FF0_0000_0000_0000 })
    &&& c.fade_in_frames == 0
    &&& c.fade_out_frames == 0
    &&& c.fade_in_interpolation is Linear
    &&& c.fade_out_interpolation is Linear
    &&& c.crop == (Crop {
        left: Real { bits: 0 },
        top: Real { bits: 0 },
        right: Real { bits: 0 },
        bottom: Real { bits: 0 },
    })
    &&& c.link_group_id is None
    &&& c.opacity_track is None
    &&& c.position_track is None
    &&& c.scale_track is None
    &&& c.rotation_track is None
    &&& c.crop_track is None
    &&& c.volume_track is None
    &&& c.color_grade is None
    &&& c.color_match_input is None
    &&& c.lut is None
    &&& c.chroma_key is None
    &&& c.masks.len() == 0
    &&& c.effects.len() == 0
    &&& c.transition_out is None
    &&& c.nested_sequence_id is None
    &&& !c.reversed
    &&& c.loudness_normalization is None
    &&& c.audio_denoise is None
    &&& c.stabilization is None
    &&& c.caption_translation_input is None
}

/// A fresh clip shows the medium over the span it was given, fills the canvas and has
/// nothing else set.
pub proof fn law_fresh_clips_are_unadorned(
    id: Seq<char>,
    media_ref: Seq<char>,
    start: i32,
    duration: i32,
)
    ensures
        ({
            let c = fresh_clip(id, media_ref, start, duration);
            &&& unadorned(c)
            &&& c.id == id
            &&& c.media_ref == media_ref
            &&& c.start_frame == start
            &&& c.duration_frames == duration
            &&& c.media_type is Video
            &&& c.source_clip_type is Video
            &&& c.caption_group_id is None
            &&& c.text_content is None
            &&& c.text_style is None
            &&& c.transform == (Transform {
                center_x: Real { bits: 0x3FE0_0000_0000_0000 },
                center_y: Real { bits: 0x3FE0_0000_0000_0000 },
                width: Real { bits: 0x3FF0_0000_0000_0000 },
                height: Real { bits: 0x3FF0_0000_0000_0000 },
                rotation: Real { bits: 0 },
                flip_horizontal: false,
                flip_vertical: false,
            })
        }),
{
}

proof fn lemma_without(clips: Seq<ClipView>, ids: Seq<Seq<char>>)
    ensures
        clips_without(clips, ids) == clips.filter(|c: ClipView| !ids.contains(c.id)),
        clips_among(clips, ids) == clips.filter(|c: ClipView| ids.contains(c.id)),
    decreases clips.len(),
{
    reveal(Seq::filter);
    let out = |c: ClipView| !ids.contains(c.id);
    let chosen = |c: ClipView| ids.contains(c.id);
    if clips.len() > 0 {
        lemma_without(clips.drop_last(), ids);
    } else {
        assert(clips.filter(out) =~= Seq::empty());
        assert(clips.filter(chosen) =~= Seq::empty());
    }
}

/// Taking clips out by their ids leaves on every track exactly the clips with other
/// ids, in order, and nothing else changes; the clips taken are exactly those with the
/// ids, in order.
pub proof fn law_clips_are_taken_out_by_id(t: TimelineView, ids: Seq<Seq<char>>, i: int)
    requires
        0 <= i < t.tracks.len(),
    ensures
        without_clips(t, ids) == (TimelineView { tracks: without_clips(t, ids).tracks, ..t }),
        without_clips(t, ids).tracks.len() == t.tracks.len(),
        without_clips(t, ids).tracks[i] == (TrackView {
            clips: t.tracks[i].clips.filter(|c: ClipView| !ids.contains(c.id)),
            ..t.tracks[i]
        }),
        clips_among(t.tracks[i].clips, ids) == t.tracks[i].clips.filter(
            |c: ClipView| ids.contains(c.id),
        ),
{
    lemma_without(t.tracks[i].clips, ids);
}

/// Dropping empty tracks leaves exactly the tracks that hold clips, in order.
pub proof fn law_empty_tracks_are_dropped(t: TimelineView)
    ensures
        without_empty_tracks(t) == (TimelineView {
            tracks: t.tracks.filter(|track: TrackView| track.clips.len() > 0),
            ..t
        }),
{
    lemma_filled(t.tracks);
}

proof fn lemma_filled(tracks: Seq<TrackView>)
    ensures
        filled_tracks(tracks) == tracks.filter(|track: TrackView| track.clips.len() > 0),
    decreases tracks.len(),
{
    reveal(Seq::filter);
    let full = |track: TrackView| track.clips.len() > 0;
    if tracks.len() > 0 {
        lemma_filled(tracks.drop_last());
    } else {
        assert(tracks.filter(full) =~= Seq::empty());
    }
}

/// How many clips stand on the tracks before a position.
pub open spec fn clips_before(tracks: Seq<TrackView>, i: int) -> nat {
    flat_clips(tracks.take(i)).len()
}

/// Laying the clips of tracks end to end puts the clip at each place at a position of
/// its own, in the order of tracks and, on a track, of clips.
pub proof fn law_flattening_keeps_every_clip(tracks: Seq<TrackView>, i: int, j: int)
    requires
        0 <= i < tracks.len(),
        0 <= j < tracks[i].clips.len(),
    ensures
        clips_before(tracks, i) + j < flat_clips(tracks).len(),
        flat_clips(tracks)[clips_before(tracks, i) + j] == tracks[i].clips[j],
        clips_before(tracks, i + 1) == clips_before(tracks, i) + tracks[i].clips.len(),
    decreases tracks.len(),
{
    assert(tracks.take(i + 1).drop_last() =~= tracks.take(i));
    if i == tracks.len() - 1 {
        assert(tracks.take(i) =~= tracks.drop_last());
    } else {
        law_flattening_keeps_every_clip(tracks.drop_last(), i, j);
        assert(tracks.drop_last().take(i) =~= tracks.take(i));
    }
}

/// Every clip of a laid out list stands at some place.
pub proof fn lemma_flat_place(tracks: Seq<TrackView>, k: int) -> (place: (int, int))
    requires
        0 <= k < flat_clips(tracks).len(),
    ensures
        0 <= place.0 < tracks.len(),
        0 <= place.1 < tracks[place.0].clips.len(),
        k == clips_before(tracks, place.0) + place.1,
        flat_clips(tracks)[k] == tracks[place.0].clips[place.1],
    decreases tracks.len(),
{
    let n = tracks.len() - 1;
    assert(tracks.take(n) =~= tracks.drop_last());
    let head = flat_clips(tracks.drop_last());
    if k < head.len() {
        let place = lemma_flat_place(tracks.drop_last(), k);
        assert(tracks.drop_last().take(place.0) =~= tracks.take(place.0));
        place
    } else {
        (n, k - head.len())
    }
}

/// Places that come later have later positions.
pub proof fn lemma_flat_later(tracks: Seq<TrackView>, i: int, i2: int)
    requires
        0 <= i < i2 < tracks.len(),
    ensures
        clips_before(tracks, i) + tracks[i].clips.len() <= clips_before(tracks, i2),
    decreases i2 - i,
{
    assert(tracks.take(i + 1).drop_last() =~= tracks.take(i));
    if i + 1 < i2 {
        lemma_flat_later(tracks, i + 1, i2);
    }
}

} // verus!
