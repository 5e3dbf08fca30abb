//! Paths as text: their parts, and which file lies directly in which directory.

use crate::model::same_texts;
use crate::text::same_text;
use crate::text::texts;
use vstd::prelude::*;
use vstd::string::StrSliceExecFns;
use vstd::string::StringExecFns;

verus! {

/// The position of the first slash, from `from` on; the length where there is none.
pub open spec fn slash(s: Seq<char>, from: int) -> int
    decreases s.len() - from,
{
    if from < 0 || from >= s.len() {
        s.len() as int
    } else if s[from] == '/' {
        from
    } else {
        slash(s, from + 1)
    }
}

/// Whether a path starts at the root.
pub open spec fn rooted(s: Seq<char>) -> bool {
    s.len() > 0 && s[0] == '/'
}

/// The parts of a path from position `start` on, which follows a slash or is the
/// start of the path. Empty parts do not count, and `.` counts only at the start.
pub open spec fn parts_from(s: Seq<char>, start: int) -> Seq<Seq<char>>
    decreases s.len() + 1 - start,
    when 0 <= start
    via parts_from_shrink
{
    if start > s.len() {
        Seq::empty()
    } else {
        let end = slash(s, start);
        let part = s.subrange(start, end);
        (if part.len() == 0 || (part == "."@ && start > 0) {
            Seq::empty()
        } else {
            seq![part]
        }) + parts_from(s, end + 1)
    }
}

#[via_fn]
proof fn parts_from_shrink(s: Seq<char>, start: int) {
    if 0 <= start <= s.len() {
        lemma_slash(s, start);
    }
}

proof fn lemma_slash(s: Seq<char>, from: int)
    requires
        0 <= from <= s.len(),
    ensures
        from <= slash(s, from) <= s.len(),
    decreases s.len() - from,
{
    if from < s.len() {
        lemma_slash(s, from + 1);
    }
}

/// The parts of a path.
pub open spec fn parts(s: Seq<char>) -> Seq<Seq<char>> {
    parts_from(s, 0)
}

/// Whether two paths name the same place, part by part: neither a doubled or closing
/// slash nor a step to the current directory after the start makes a difference.
pub open spec fn same_place(a: Seq<char>, b: Seq<char>) -> bool {
    rooted(a) == rooted(b) && parts(a) == parts(b)
}

/// Whether two optional paths are both absent or name the same place.
pub open spec fn same_opt_place(a: Option<Seq<char>>, b: Option<Seq<char>>) -> bool {
    match (a, b) {
        (Some(x), Some(y)) => same_place(x, y),
        (None, None) => true,
        _ => false,
    }
}

/// Whether a path names a file that lies directly in the named directory of `dir`,
/// without a step to a parent or to the current directory anywhere in it.
pub open spec fn directly_in(path: Seq<char>, dir: Seq<char>, name: Seq<char>) -> bool {
    &&& rooted(path) == rooted(dir)
    &&& parts(path).len() == parts(dir).len() + 2
    &&& parts(path).take(parts(dir).len() as int) == parts(dir)
    &&& parts(path)[parts(dir).len() as int] == name
    &&& forall|i: int|
        0 <= i < parts(path).len() ==> (#[trigger] parts(path)[i]) != "."@ && parts(path)[i]
            != ".."@
}

fn is_rooted(path: &str) -> (r: bool)
    ensures
        r == rooted(path@),
{
    path.unicode_len() > 0 && path.get_char(0) == '/'
}

/// Takes a path apart.
pub fn path_parts(path: &str) -> (r: Vec<String>)
    ensures
        texts(r@) == parts(path@),
{
    let len = path.unicode_len();
    let mut out: Vec<String> = Vec::new();
    let mut start: usize = 0;
    assert(texts(out@) + parts_from(path@, 0) =~= parts(path@));
    loop
        invariant_except_break
            start <= len,
            len == path@.len(),
            texts(out@) + parts_from(path@, start as int) == parts(path@),
        ensures
            texts(out@) == parts(path@),
        decreases len - start,
    {
        let mut end: usize = start;
        while end < len && path.get_char(end) != '/'
            invariant
                start <= end <= len,
                len == path@.len(),
                slash(path@, start as int) == slash(path@, end as int),
            decreases len - end,
        {
            end += 1;
        }
        let part = path.substring_char(start, end);
        let ghost before = texts(out@);
        let ghost rest = parts_from(path@, end + 1);
        if part.unicode_len() > 0 && !(start > 0 && same_text(part, ".")) {
            out.push(String::from_str(part));
            assert(texts(out@) =~= before.push(part@));
            assert(texts(out@) + rest =~= before + (seq![part@] + rest));
        } else {
            assert(before + rest =~= before + (Seq::<Seq<char>>::empty() + rest));
        }
        if end == len {
            assert(texts(out@) + rest =~= texts(out@));
            break;
        }
        start = end + 1;
    }
    out
}

/// Tells whether two paths name the same place.
pub fn is_same_place(a: &str, b: &str) -> (r: bool)
    ensures
        r == same_place(a@, b@),
{
    is_rooted(a) == is_rooted(b) && same_texts(&path_parts(a), &path_parts(b))
}

/// Tells whether a path names a file that lies directly in the named directory.
pub fn is_directly_in(path: &str, dir: &str, name: &str) -> (r: bool)
    ensures
        r == directly_in(path@, dir@, name@),
{
    let a = path_parts(path);
    let b = path_parts(dir);
    assert(texts(a@).len() == a@.len());
    assert(texts(b@).len() == b@.len());
    if is_rooted(path) != is_rooted(dir) || a.len() < 2 || a.len() - 2 != b.len() {
        return false;
    }
    let mut i: usize = 0;
    while i < a.len()
        invariant
            i <= a@.len(),
            a@.len() == b@.len() + 2,
            texts(a@) == parts(path@),
            texts(b@) == parts(dir@),
            forall|k: int|
                0 <= k < i ==> #[trigger] parts(path@)[k] != "."@ && parts(path@)[k] != ".."@,
            forall|k: int|
                0 <= k < i && k < b@.len() ==> #[trigger] parts(path@)[k] == parts(dir@)[k],
            i > b@.len() ==> parts(path@)[b@.len() as int] == name@,
        decreases a@.len() - i,
    {
        let part = a[i].as_str();
        assert(part@ == texts(a@)[i as int]);
        if same_text(part, ".") || same_text(part, "..") {
            return false;
        }
        if i < b.len() {
            assert(b@[i as int]@ == texts(b@)[i as int]);
            if !same_text(part, b[i].as_str()) {
                assert(parts(path@).take(parts(dir@).len() as int)[i as int] != parts(
                    dir@,
                )[i as int]);
                return false;
            }
        } else if i == b.len() {
            if !same_text(part, name) {
                return false;
            }
        }
        i += 1;
    }
    assert(parts(path@).take(parts(dir@).len() as int) =~= parts(dir@));
    true
}

} // verus!
