//! The order of clips on a track: by start frame, then by id, then by position in
//! the list.

use crate::model::clip_views;
use crate::model::Clip;
use crate::model::ClipView;
use vstd::prelude::*;
use vstd::string::StrSliceExecFns;

verus! {

/// Whether `a` comes before `b` in the order of code points.
pub open spec fn text_before(a: Seq<char>, b: Seq<char>) -> bool
    decreases a.len(),
{
    if b.len() == 0 {
        false
    } else if a.len() == 0 {
        true
    } else if a[0] != b[0] {
        (a[0] as int) < (b[0] as int)
    } else {
        text_before(a.drop_first(), b.drop_first())
    }
}

/// Of two different texts one comes before the other, and only one.
pub proof fn lemma_text_order_total(a: Seq<char>, b: Seq<char>)
    ensures
        a == b <==> !text_before(a, b) && !text_before(b, a),
        !(text_before(a, b) && text_before(b, a)),
    decreases a.len(),
{
    if a.len() > 0 && b.len() > 0 && a[0] == b[0] {
        lemma_text_order_total(a.drop_first(), b.drop_first());
        if a.drop_first() == b.drop_first() {
            assert(a =~= seq![a[0]] + a.drop_first());
            assert(b =~= seq![b[0]] + b.drop_first());
        }
    } else if a.len() == 0 && b.len() == 0 {
        assert(a =~= b);
    } else if a.len() > 0 && b.len() > 0 {
        assert(a[0] as int != b[0] as int);
        assert(a != b);
    } else {
        assert(a.len() != b.len());
    }
}

/// The order of texts is transitive.
pub proof fn lemma_text_order_transitive(a: Seq<char>, b: Seq<char>, c: Seq<char>)
    requires
        text_before(a, b),
        text_before(b, c),
    ensures
        text_before(a, c),
    decreases a.len(),
{
    if a.len() > 0 && b.len() > 0 && c.len() > 0 && a[0] == b[0] && b[0] == c[0] {
        lemma_text_order_transitive(a.drop_first(), b.drop_first(), c.drop_first());
    }
}

/// Compares two texts by code points.
pub fn is_text_before(a: &str, b: &str) -> (r: bool)
    ensures
        r == text_before(a@, b@),
{
    let n: usize = a.unicode_len();
    let m: usize = b.unicode_len();
    let mut i: usize = 0;
    assert(a@.subrange(0, n as int) =~= a@);
    assert(b@.subrange(0, m as int) =~= b@);
    while i < n && i < m
        invariant
            i <= n,
            i <= m,
            n == a@.len(),
            m == b@.len(),
            text_before(a@, b@) == text_before(
                a@.subrange(i as int, n as int),
                b@.subrange(i as int, m as int),
            ),
        decreases n - i,
    {
        let x: char = a.get_char(i);
        let y: char = b.get_char(i);
        assert(a@.subrange(i as int, n as int).drop_first() =~= a@.subrange(i as int + 1, n as int));
        assert(b@.subrange(i as int, m as int).drop_first() =~= b@.subrange(i as int + 1, m as int));
        if x != y {
            return (x as u32) < (y as u32);
        }
        i += 1;
    }
    i < m
}

/// Whether the clip at `i` comes before the clip at `j`.
pub open spec fn clip_before(clips: Seq<ClipView>, i: int, j: int) -> bool {
    ||| clips[i].start_frame < clips[j].start_frame
    ||| clips[i].start_frame == clips[j].start_frame && (text_before(clips[i].id, clips[j].id) || (
    clips[i].id == clips[j].id && i < j))
}

/// Whether the clip at `j` is the next one after the clip at `i`.
pub open spec fn is_next(clips: Seq<ClipView>, i: int, j: int) -> bool {
    &&& 0 <= j < clips.len()
    &&& clip_before(clips, i, j)
    &&& forall|k: int|
        0 <= k < clips.len() && #[trigger] clip_before(clips, i, k) ==> !clip_before(clips, k, j)
}

/// The position of the next clip after the one at `i`, if there is one.
pub open spec fn next_clip(clips: Seq<ClipView>, i: int) -> Option<int> {
    if exists|j: int| is_next(clips, i, j) {
        Some(choose|j: int| is_next(clips, i, j))
    } else {
        None
    }
}

/// Any two positions are ordered one way, and the order is transitive.
pub proof fn lemma_clip_order(clips: Seq<ClipView>, i: int, j: int, k: int)
    ensures
        i != j ==> clip_before(clips, i, j) || clip_before(clips, j, i),
        !(clip_before(clips, i, j) && clip_before(clips, j, i)),
        clip_before(clips, i, j) && clip_before(clips, j, k) ==> clip_before(clips, i, k),
{
    lemma_text_order_total(clips[i].id, clips[j].id);
    lemma_text_order_total(clips[j].id, clips[i].id);
    if text_before(clips[i].id, clips[j].id) && text_before(clips[j].id, clips[k].id) {
        lemma_text_order_transitive(clips[i].id, clips[j].id, clips[k].id);
    }
}

/// The next clip is determined.
pub proof fn lemma_next_unique(clips: Seq<ClipView>, i: int, j: int)
    requires
        is_next(clips, i, j),
    ensures
        next_clip(clips, i) == Some(j),
{
    let c = next_clip(clips, i)->0;
    assert(is_next(clips, i, c));
    lemma_clip_order(clips, c, j, j);
}

/// Compares two clips of a track by their place in the order.
pub fn is_clip_before(clips: &Vec<Clip>, i: usize, j: usize) -> (r: bool)
    requires
        i < clips@.len(),
        j < clips@.len(),
    ensures
        r == clip_before(clip_views(clips@), i as int, j as int),
{
    let a = &clips[i];
    let b = &clips[j];
    a.start_frame < b.start_frame || (a.start_frame == b.start_frame && (is_text_before(
        a.id.as_str(),
        b.id.as_str(),
    ) || (a.id == b.id && i < j)))
}

/// Finds the next clip after the one at `i`.
pub fn find_next(clips: &Vec<Clip>, i: usize) -> (r: Option<usize>)
    requires
        i < clips@.len(),
    ensures
        r matches Some(j) ==> j < clips@.len() && next_clip(clip_views(clips@), i as int) == Some(
            j as int,
        ),
        r is None ==> next_clip(clip_views(clips@), i as int) is None,
{
    let ghost views = clip_views(clips@);
    let mut best: Option<usize> = None;
    let mut k: usize = 0;
    while k < clips.len()
        invariant
            i < clips@.len(),
            k <= clips@.len(),
            views == clip_views(clips@),
            best matches Some(b) ==> b < k && clip_before(views, i as int, b as int) && forall|m: int|
                0 <= m < k && #[trigger] clip_before(views, i as int, m) ==> !clip_before(
                    views,
                    m,
                    b as int,
                ),
            best is None ==> forall|m: int| 0 <= m < k ==> !#[trigger] clip_before(
                views,
                i as int,
                m,
            ),
        decreases clips@.len() - k,
    {
        if is_clip_before(clips, i, k) {
            let closer = match best {
                Some(b) => is_clip_before(clips, k, b),
                None => true,
            };
            if closer {
                proof {
                    assert forall|m: int|
                        0 <= m < k + 1 && #[trigger] clip_before(views, i as int, m) implies !clip_before(
                        views,
                        m,
                        k as int,
                    ) by {
                        if let Some(b) = best {
                            lemma_clip_order(views, m, k as int, b as int);
                        }
                        lemma_clip_order(views, m, k as int, k as int);
                    }
                }
                best = Some(k);
            } else {
                proof {
                    assert(best is Some);
                }
            }
        }
        k += 1;
    }
    proof {
        if let Some(b) = best {
            assert(is_next(views, i as int, b as int));
            lemma_next_unique(views, i as int, b as int);
        } else {
            assert forall|j: int| !is_next(views, i as int, j) by {
                if 0 <= j < views.len() {
                    assert(!clip_before(views, i as int, j));
                }
            }
        }
    }
    best
}

} // verus!
