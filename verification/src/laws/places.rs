//! What tells the places of files apart.

use crate::paths::directly_in;
use crate::paths::parts;
use crate::paths::parts_from;
use crate::paths::rooted;
use crate::paths::same_opt_place;
use crate::paths::same_place;
use crate::paths::slash;
use vstd::prelude::*;

verus! {

proof fn lemma_slash(s: Seq<char>, from: int)
    requires
        0 <= from <= s.len(),
    ensures
        from <= slash(s, from) <= s.len(),
        slash(s, from) < s.len() ==> s[slash(s, from)] == '/',
        forall|k: int| from <= k < slash(s, from) ==> #[trigger] s[k] != '/',
    decreases s.len() - from,
{
    if from < s.len() && s[from] != '/' {
        lemma_slash(s, from + 1);
    }
}

/// Whether a text is a part of a path: it is not empty and holds no slash.
pub open spec fn is_part(part: Seq<char>) -> bool {
    part.len() > 0 && forall|k: int| 0 <= k < part.len() ==> #[trigger] part[k] != '/'
}

proof fn lemma_parts(s: Seq<char>, start: int)
    requires
        0 <= start,
    ensures
        forall|i: int| 0 <= i < parts_from(s, start).len() ==> is_part(
            #[trigger] parts_from(s, start)[i],
        ),
        start > 0 ==> forall|i: int|
            0 <= i < parts_from(s, start).len() ==> #[trigger] parts_from(s, start)[i] != "."@,
    decreases s.len() + 1 - start,
{
    if start <= s.len() {
        lemma_slash(s, start);
        let end = slash(s, start);
        let part = s.subrange(start, end);
        let rest = parts_from(s, end + 1);
        lemma_parts(s, end + 1);
        let all = parts_from(s, start);
        assert forall|k: int| 0 <= k < part.len() implies #[trigger] part[k] != '/' by {
            assert(part[k] == s[start + k]);
        }
        let first: int = if part.len() == 0 || (part == "."@ && start > 0) {
            0
        } else {
            1
        };
        assert forall|i: int| 0 <= i < all.len() implies is_part(#[trigger] all[i]) && (start > 0
            ==> all[i] != "."@) by {
            if i < first {
                assert(all[i] == part);
            } else {
                assert(all[i] == rest[i - first]);
            }
        }
    }
}

/// The parts of a path are not empty and hold no slash, and but for the first none is a
/// single dot.
pub proof fn law_parts_stand_between_slashes(s: Seq<char>)
    ensures
        forall|i: int| 0 <= i < parts(s).len() ==> is_part(#[trigger] parts(s)[i]),
        forall|i: int| 0 < i < parts(s).len() ==> #[trigger] parts(s)[i] != "."@,
{
    lemma_parts(s, 0);
    lemma_slash(s, 0);
    let end = slash(s, 0);
    let part = s.subrange(0, end);
    let rest = parts_from(s, end + 1);
    lemma_parts(s, end + 1);
    assert forall|i: int| 0 < i < parts(s).len() implies #[trigger] parts(s)[i] != "."@ by {
        if part.len() == 0 {
            assert(parts(s)[i] == rest[i]);
        } else {
            assert(parts(s)[i] == rest[i - 1]);
        }
    }
}

/// A text without slashes is its own only part.
pub proof fn law_names_are_their_only_part(s: Seq<char>)
    requires
        is_part(s),
    ensures
        parts(s) == seq![s],
        !rooted(s),
{
    lemma_slash(s, 0);
    assert(slash(s, 0) == s.len());
    assert(s.subrange(0, s.len() as int) =~= s);
    assert(parts_from(s, s.len() as int + 1) =~= Seq::<Seq<char>>::empty());
    assert(parts(s) =~= seq![s]);
}

/// Being the same place is an equivalence, and depends on nothing but the parts and whether
/// the path starts at the root.
pub proof fn law_same_places(a: Seq<char>, b: Seq<char>, c: Seq<char>)
    ensures
        same_place(a, a),
        same_place(a, b) ==> same_place(b, a),
        same_place(a, b) && same_place(b, c) ==> same_place(a, c),
        same_place(a, b) <==> (a.len() > 0 && a[0] == '/' <==> b.len() > 0 && b[0] == '/')
            && parts(a) == parts(b),
        same_opt_place(Some(a), Some(b)) <==> same_place(a, b),
        same_opt_place(None, None),
        !same_opt_place(Some(a), None),
        !same_opt_place(None, Some(a)),
{
}

/// A file lies directly in a directory of another exactly when its path is the other's with
/// the directory's name and one part more, and steps neither up nor in place.
pub proof fn law_files_directly_in_a_directory(path: Seq<char>, dir: Seq<char>, name: Seq<char>)
    ensures
        directly_in(path, dir, name) <==> {
            let n = parts(dir).len() as int;
            &&& rooted(path) == rooted(dir)
            &&& parts(path).len() == n + 2
            &&& forall|i: int| 0 <= i < n ==> #[trigger] parts(path)[i] == parts(dir)[i]
            &&& parts(path)[n] == name
            &&& !parts(path).contains("."@)
            &&& !parts(path).contains(".."@)
        },
{
    let p = parts(path);
    let d = parts(dir);
    if p.len() == d.len() + 2 && forall|i: int| 0 <= i < d.len() ==> #[trigger] p[i] == d[i] {
        assert(p.take(d.len() as int) =~= d);
    }
    if directly_in(path, dir, name) {
        assert forall|i: int| 0 <= i < d.len() implies #[trigger] p[i] == d[i] by {
            assert(p.take(d.len() as int)[i] == p[i]);
        }
    }
}

} // verus!
