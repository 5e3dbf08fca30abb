//! Editing one keyframe track: at most one keyframe per frame, later frames
//! further back.

use crate::model::opt_track;
use crate::model::Interpolation;
use crate::model::Keyframe;
use crate::model::KeyframeTrack;
use vstd::prelude::*;

verus! {

/// The first position, from `from` on, of a keyframe at `frame`.
pub open spec fn keyframe_index<V>(s: Seq<Keyframe<V>>, frame: int, from: int) -> Option<int>
    decreases s.len() - from,
{
    if from < 0 || from >= s.len() {
        None
    } else if s[from].frame == frame {
        Some(from)
    } else {
        keyframe_index(s, frame, from + 1)
    }
}

/// The first position, from `from` on, that is not before `frame`.
pub open spec fn keyframe_slot<V>(s: Seq<Keyframe<V>>, frame: int, from: int) -> int
    decreases s.len() - from,
{
    if from < 0 || from >= s.len() {
        s.len() as int
    } else if s[from].frame >= frame {
        from
    } else {
        keyframe_slot(s, frame, from + 1)
    }
}

/// The track with a keyframe written: in place of the one at its frame, or else
/// before the first later one.
pub open spec fn upserted<V>(s: Seq<Keyframe<V>>, k: Keyframe<V>) -> Seq<Keyframe<V>> {
    match keyframe_index(s, k.frame as int, 0) {
        Some(i) => s.update(i, k),
        None => s.insert(keyframe_slot(s, k.frame as int, 0), k),
    }
}

/// The track without the keyframe at `frame`.
pub open spec fn removed<V>(s: Seq<Keyframe<V>>, frame: int) -> Seq<Keyframe<V>> {
    match keyframe_index(s, frame, 0) {
        Some(i) => s.remove(i),
        None => s,
    }
}

/// The track with the keyframe at `from` moved to `to`.
pub open spec fn moved<V>(s: Seq<Keyframe<V>>, from: int, to: i32) -> Seq<Keyframe<V>> {
    match keyframe_index(s, from, 0) {
        Some(i) => upserted(s.remove(i), Keyframe { frame: to, ..s[i] }),
        None => s,
    }
}

/// The track with the curve after the keyframes at `frame` set.
pub open spec fn with_interpolation<V>(
    s: Seq<Keyframe<V>>,
    frame: int,
    interpolation: Interpolation,
) -> Seq<Keyframe<V>> {
    s.map_values(
        |k: Keyframe<V>|
            if k.frame == frame {
                Keyframe { interpolation_out: interpolation, ..k }
            } else {
                k
            },
    )
}

/// Whether an optional track has a keyframe at `frame`.
pub open spec fn track_has<V>(t: Option<Seq<Keyframe<V>>>, frame: int) -> bool {
    t matches Some(s) && keyframe_index(s, frame, 0) is Some
}

/// A keyframe with the default curve.
pub open spec fn plain_keyframe<V>(frame: i32, value: V) -> Keyframe<V> {
    Keyframe { frame, value, interpolation_out: Interpolation::Smooth }
}

/// A track, where it holds any keyframes.
pub open spec fn none_if_empty<V>(s: Seq<Keyframe<V>>) -> Option<Seq<Keyframe<V>>> {
    if s.len() == 0 {
        None
    } else {
        Some(s)
    }
}

/// An optional track with a value written at `frame`.
pub open spec fn stamped<V>(t: Option<Seq<Keyframe<V>>>, frame: i32, value: V) -> Option<
    Seq<Keyframe<V>>,
> {
    let s = match t {
        Some(s) => s,
        None => Seq::empty(),
    };
    none_if_empty(upserted(s, plain_keyframe(frame, value)))
}

/// An optional track without the keyframe at `frame`; no track when none is left.
pub open spec fn cleared<V>(t: Option<Seq<Keyframe<V>>>, frame: int) -> Option<Seq<Keyframe<V>>> {
    match t {
        Some(s) => none_if_empty(removed(s, frame)),
        None => None,
    }
}

/// An optional track with a keyframe moved.
pub open spec fn shifted<V>(t: Option<Seq<Keyframe<V>>>, from: int, to: i32) -> Option<
    Seq<Keyframe<V>>,
> {
    match t {
        Some(s) => none_if_empty(moved(s, from, to)),
        None => None,
    }
}

/// An optional track with a curve set.
pub open spec fn curved<V>(
    t: Option<Seq<Keyframe<V>>>,
    frame: int,
    interpolation: Interpolation,
) -> Option<Seq<Keyframe<V>>> {
    match t {
        Some(s) => Some(with_interpolation(s, frame, interpolation)),
        None => None,
    }
}

pub proof fn lemma_index_bounds<V>(s: Seq<Keyframe<V>>, frame: int, from: int)
    requires
        0 <= from,
    ensures
        keyframe_index(s, frame, from) matches Some(i) ==> from <= i < s.len() && s[i].frame
            == frame && forall|j: int| from <= j < i ==> (#[trigger] s[j]).frame != frame,
        keyframe_index(s, frame, from) is None ==> forall|j: int|
            from <= j < s.len() ==> (#[trigger] s[j]).frame != frame,
    decreases s.len() - from,
{
    if from < s.len() && s[from].frame != frame {
        lemma_index_bounds(s, frame, from + 1);
    }
}

pub proof fn lemma_slot_bounds<V>(s: Seq<Keyframe<V>>, frame: int, from: int)
    requires
        0 <= from <= s.len(),
    ensures
        from <= keyframe_slot(s, frame, from) <= s.len(),
        forall|j: int|
            from <= j < keyframe_slot(s, frame, from) ==> (#[trigger] s[j]).frame < frame,
        keyframe_slot(s, frame, from) < s.len() ==> s[keyframe_slot(s, frame, from)].frame >= frame,
    decreases s.len() - from,
{
    if from < s.len() && s[from].frame < frame {
        lemma_slot_bounds(s, frame, from + 1);
    }
}

/// Keyframes in increasing order of frames.
pub open spec fn in_order<V>(s: Seq<Keyframe<V>>) -> bool {
    forall|i: int, j: int| 0 <= i < j < s.len() ==> (#[trigger] s[i]).frame < (#[trigger] s[j]).frame
}

/// Writing a keyframe into an ordered track keeps it ordered, puts the keyframe
/// there and keeps every other frame.
pub proof fn law_upsert_keeps_order<V>(s: Seq<Keyframe<V>>, k: Keyframe<V>)
    requires
        in_order(s),
    ensures
        in_order(upserted(s, k)),
        upserted(s, k).contains(k),
        forall|i: int|
            0 <= i < s.len() && (#[trigger] s[i]).frame != k.frame ==> upserted(s, k).contains(s[i]),
{
    lemma_index_bounds(s, k.frame as int, 0);
    lemma_slot_bounds(s, k.frame as int, 0);
    let u = upserted(s, k);
    match keyframe_index(s, k.frame as int, 0) {
        Some(p) => {
            assert(u[p] == k);
            assert forall|i: int| 0 <= i < s.len() && (#[trigger] s[i]).frame != k.frame implies u.contains(
                s[i],
            ) by {
                assert(u[i] == s[i]);
            }
        },
        None => {
            let p = keyframe_slot(s, k.frame as int, 0);
            assert(u[p] == k);
            assert forall|i: int| 0 <= i < s.len() implies u.contains(#[trigger] s[i]) by {
                if i < p {
                    assert(u[i] == s[i]);
                } else {
                    assert(u[i + 1] == s[i]);
                }
            }
            assert forall|i: int, j: int| 0 <= i < j < u.len() implies (#[trigger] u[i]).frame < (
            #[trigger] u[j]).frame by {
                if p < s.len() {
                    assert(s[p].frame != k.frame);
                }
                if i < p && j > p {
                    assert(s[i].frame < s[j - 1].frame);
                }
                if i > p {
                    assert(s[i - 1].frame < s[j - 1].frame);
                }
                if i == p {
                    if j - 1 > p {
                        assert(s[p].frame < s[j - 1].frame);
                    }
                }
            }
        },
    }
}

/// A keyframe written to a free frame is found where it was put.
proof fn lemma_written_index<V>(s: Seq<Keyframe<V>>, k: Keyframe<V>)
    requires
        keyframe_index(s, k.frame as int, 0) is None,
    ensures
        ({
            let p = keyframe_slot(s, k.frame as int, 0);
            &&& 0 <= p <= s.len()
            &&& upserted(s, k) == s.insert(p, k)
            &&& keyframe_index(upserted(s, k), k.frame as int, 0) == Some(p)
            &&& upserted(s, k).remove(p) == s
        }),
{
    let p = keyframe_slot(s, k.frame as int, 0);
    lemma_slot_bounds(s, k.frame as int, 0);
    lemma_index_bounds(s, k.frame as int, 0);
    let u = s.insert(p, k);
    lemma_index_bounds(u, k.frame as int, 0);
    assert(u[p] == k);
    let i = keyframe_index(u, k.frame as int, 0);
    if i is Some && i->0 < p {
        assert(u[i->0] == s[i->0]);
    }
    assert(u.remove(p) =~= s);
}

/// Removing the keyframe that was just written to a free frame gives the track
/// back as it was.
pub proof fn law_remove_undoes_upsert<V>(s: Seq<Keyframe<V>>, k: Keyframe<V>)
    requires
        keyframe_index(s, k.frame as int, 0) is None,
    ensures
        removed(upserted(s, k), k.frame as int) == s,
{
    lemma_written_index(s, k);
}

/// An ordered track without one keyframe has no keyframe at its frame, and takes
/// it back at the same position.
proof fn lemma_taken<V>(s: Seq<Keyframe<V>>, i: int)
    requires
        in_order(s),
        0 <= i < s.len(),
    ensures
        keyframe_index(s.remove(i), s[i].frame as int, 0) is None,
        keyframe_slot(s.remove(i), s[i].frame as int, 0) == i,
        s.remove(i).insert(i, s[i]) == s,
        forall|j: int|
            0 <= j < s.remove(i).len() ==> s.contains(#[trigger] s.remove(i)[j]),
{
    let rest = s.remove(i);
    let frame = s[i].frame as int;
    lemma_index_bounds(rest, frame, 0);
    lemma_slot_bounds(rest, frame, 0);
    assert forall|j: int| 0 <= j < rest.len() implies (#[trigger] rest[j]).frame != frame && s.contains(
        rest[j],
    ) && (j < i <==> rest[j].frame < frame) by {
        if j < i {
            assert(rest[j] == s[j]);
        } else {
            assert(rest[j] == s[j + 1]);
        }
    }
    let r = keyframe_slot(rest, frame, 0);
    if r < i {
        assert(rest[r].frame < frame);
    }
    if r > i {
        assert(rest[i].frame < frame);
    }
    assert(rest.insert(i, s[i]) =~= s);
}

/// Moving a keyframe to a free frame and back gives an ordered track back.
pub proof fn law_move_and_back<V>(s: Seq<Keyframe<V>>, from: i32, to: i32)
    requires
        in_order(s),
        keyframe_index(s, from as int, 0) is Some,
        from != to ==> keyframe_index(s, to as int, 0) is None,
    ensures
        moved(moved(s, from as int, to), to as int, from) == s,
{
    lemma_index_bounds(s, from as int, 0);
    lemma_index_bounds(s, to as int, 0);
    let i = keyframe_index(s, from as int, 0)->0;
    let rest = s.remove(i);
    let k = Keyframe { frame: to, ..s[i] };
    lemma_taken(s, i);
    lemma_index_bounds(rest, to as int, 0);
    assert(keyframe_index(rest, to as int, 0) is None) by {
        if from != to && keyframe_index(rest, to as int, 0) is Some {
            let j = keyframe_index(rest, to as int, 0)->0;
            assert(s.contains(rest[j]));
            let m = choose|m: int| 0 <= m < s.len() && s[m] == rest[j];
            assert(s[m].frame != to);
        }
    }
    lemma_written_index(rest, k);
    assert(Keyframe { frame: from, ..k } == s[i]);
}

fn find_keyframe<V>(keyframes: &Vec<Keyframe<V>>, frame: i32) -> (r: Option<usize>)
    ensures
        match r {
            Some(i) => keyframe_index(keyframes@, frame as int, 0) == Some(i as int) && i
                < keyframes@.len(),
            None => keyframe_index(keyframes@, frame as int, 0) is None,
        },
{
    let mut i: usize = 0;
    while i < keyframes.len()
        invariant
            i <= keyframes@.len(),
            keyframe_index(keyframes@, frame as int, 0) == keyframe_index(
                keyframes@,
                frame as int,
                i as int,
            ),
        decreases keyframes@.len() - i,
    {
        if keyframes[i].frame == frame {
            return Some(i);
        }
        i += 1;
    }
    None
}

impl<V: Copy> KeyframeTrack<V> {
    /// Writes a keyframe.
    pub fn upsert(&mut self, keyframe: Keyframe<V>)
        ensures
            final(self)@ == upserted(old(self)@, keyframe),
    {
        let ghost s = self.keyframes@;
        match find_keyframe(&self.keyframes, keyframe.frame) {
            Some(i) => {
                self.keyframes[i] = keyframe;
            },
            None => {
                let mut i: usize = 0;
                while i < self.keyframes.len() && self.keyframes[i].frame < keyframe.frame
                    invariant
                        i <= self.keyframes@.len(),
                        self.keyframes@ == s,
                        keyframe_slot(s, keyframe.frame as int, 0) == keyframe_slot(
                            s,
                            keyframe.frame as int,
                            i as int,
                        ),
                    decreases self.keyframes@.len() - i,
                {
                    i += 1;
                }
                self.keyframes.insert(i, keyframe);
            },
        }
    }

    /// Removes the keyframe at `frame`.
    pub fn remove(&mut self, frame: i32)
        ensures
            final(self)@ == removed(old(self)@, frame as int),
    {
        match find_keyframe(&self.keyframes, frame) {
            Some(i) => {
                let _ = self.keyframes.remove(i);
            },
            None => {},
        }
    }

    /// Moves the keyframe at `from` to `to`.
    pub fn move_keyframe(&mut self, from: i32, to: i32)
        ensures
            final(self)@ == moved(old(self)@, from as int, to),
    {
        match find_keyframe(&self.keyframes, from) {
            Some(i) => {
                let taken = self.keyframes.remove(i);
                self.upsert(
                    Keyframe {
                        frame: to,
                        value: taken.value,
                        interpolation_out: taken.interpolation_out,
                    },
                );
            },
            None => {},
        }
    }

    /// Sets the curve after the keyframes at `frame`.
    pub fn set_interpolation(&mut self, frame: i32, interpolation: Interpolation)
        ensures
            final(self)@ == with_interpolation(old(self)@, frame as int, interpolation),
    {
        let ghost s = self.keyframes@;
        let mut i: usize = 0;
        while i < self.keyframes.len()
            invariant
                i <= self.keyframes@.len(),
                self.keyframes@.len() == s.len(),
                forall|j: int|
                    0 <= j < i ==> #[trigger] self.keyframes@[j] == with_interpolation(
                        s,
                        frame as int,
                        interpolation,
                    )[j],
                forall|j: int| i <= j < s.len() ==> #[trigger] self.keyframes@[j] == s[j],
            decreases self.keyframes@.len() - i,
        {
            if self.keyframes[i].frame == frame {
                self.keyframes[i].interpolation_out = interpolation;
            }
            i += 1;
        }
        assert(self.keyframes@ =~= with_interpolation(s, frame as int, interpolation));
    }
}

/// A track, where it holds any keyframes.
pub fn empty_to_none<V>(track: KeyframeTrack<V>) -> (r: Option<KeyframeTrack<V>>)
    ensures
        opt_track(r) == none_if_empty(track@),
{
    if track.keyframes.len() == 0 {
        None
    } else {
        Some(track)
    }
}

/// Whether an optional track has a keyframe at `frame`.
pub fn has_keyframe_at<V>(track: &Option<KeyframeTrack<V>>, frame: i32) -> (r: bool)
    ensures
        r == track_has(opt_track(*track), frame as int),
{
    match track {
        Some(t) => find_keyframe(&t.keyframes, frame).is_some(),
        None => false,
    }
}

/// Writes a value at `frame`, making the track where there is none.
pub fn stamp<V: Copy>(track: &mut Option<KeyframeTrack<V>>, frame: i32, value: V)
    ensures
        opt_track(*final(track)) == stamped(opt_track(*old(track)), frame, value),
{
    let mut t = match track.take() {
        Some(t) => t,
        None => KeyframeTrack { keyframes: Vec::new() },
    };
    t.upsert(Keyframe { frame, value, interpolation_out: Interpolation::Smooth });
    *track = empty_to_none(t);
}

/// Removes the keyframe at `frame`, and the track where it was the last.
pub fn unstamp<V: Copy>(track: &mut Option<KeyframeTrack<V>>, frame: i32)
    ensures
        opt_track(*final(track)) == cleared(opt_track(*old(track)), frame as int),
{
    match track.take() {
        Some(t) => {
            let mut t = t;
            t.remove(frame);
            *track = empty_to_none(t);
        },
        None => {},
    }
}

/// Moves a keyframe.
pub fn shift<V: Copy>(track: &mut Option<KeyframeTrack<V>>, from: i32, to: i32)
    ensures
        opt_track(*final(track)) == shifted(opt_track(*old(track)), from as int, to),
{
    match track.take() {
        Some(t) => {
            let mut t = t;
            t.move_keyframe(from, to);
            *track = empty_to_none(t);
        },
        None => {},
    }
}

/// Sets the curve after the keyframes at `frame`.
pub fn set_kf_interp<V: Copy>(
    track: &mut Option<KeyframeTrack<V>>,
    frame: i32,
    interpolation: Interpolation,
)
    ensures
        opt_track(*final(track)) == curved(opt_track(*old(track)), frame as int, interpolation),
{
    match track.take() {
        Some(t) => {
            let mut t = t;
            t.set_interpolation(frame, interpolation);
            *track = Some(t);
        },
        None => {},
    }
}

} // verus!
