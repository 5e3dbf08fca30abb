//! Trimming, joining and writing numbers.

use crate::ids::COUNTER_SPAN;
use crate::ids::IdsView;
use crate::ids::ids_after;
use crate::ids::nth_id;
use crate::text::digit_text;
use crate::text::int_text;
use crate::text::is_space;
use crate::text::joined;
use crate::text::nat_text;
use crate::text::trim_left;
use crate::text::trim_right;
use crate::text::trimmed;
use vstd::prelude::*;

verus! {

/// Which characters are white space.
pub proof fn law_white_space(c: char)
    ensures
        is_space(c) <==> c == ' ' || ('\u{9}' <= c && c <= '\u{d}') || c == '\u{85}' || c
            == '\u{a0}' || c == '\u{1680}' || ('\u{2000}' <= c && c <= '\u{200a}') || c
            == '\u{2028}' || c == '\u{2029}' || c == '\u{202f}' || c == '\u{205f}' || c
            == '\u{3000}',
{
}

proof fn lemma_left(s: Seq<char>) -> (a: int)
    ensures
        0 <= a <= s.len(),
        trim_left(s) == s.subrange(a, s.len() as int),
        forall|i: int| 0 <= i < a ==> is_space(#[trigger] s[i]),
        a < s.len() ==> !is_space(s[a]),
    decreases s.len(),
{
    if s.len() > 0 && is_space(s[0]) {
        let rest = s.drop_first();
        let a = lemma_left(rest);
        assert(rest.subrange(a, rest.len() as int) =~= s.subrange(a + 1, s.len() as int));
        assert forall|i: int| 0 <= i < a + 1 implies is_space(#[trigger] s[i]) by {
            if i > 0 {
                assert(rest[i - 1] == s[i]);
            }
        }
        a + 1
    } else {
        assert(s.subrange(0, s.len() as int) =~= s);
        0
    }
}

proof fn lemma_right(s: Seq<char>) -> (b: int)
    ensures
        0 <= b <= s.len(),
        trim_right(s) == s.subrange(0, b),
        forall|i: int| b <= i < s.len() ==> is_space(#[trigger] s[i]),
        b > 0 ==> !is_space(s[b - 1]),
    decreases s.len(),
{
    if s.len() > 0 && is_space(s.last()) {
        let rest = s.drop_last();
        let b = lemma_right(rest);
        assert(rest.subrange(0, b) =~= s.subrange(0, b));
        assert forall|i: int| b <= i < s.len() implies is_space(#[trigger] s[i]) by {
            if i < rest.len() {
                assert(rest[i] == s[i]);
            }
        }
        b
    } else {
        assert(s.subrange(0, s.len() as int) =~= s);
        s.len() as int
    }
}

/// Trimming takes white space off both ends and nothing else: what is left begins and
/// ends with something that is no white space, and only white space is gone.
pub proof fn law_trimming_takes_space_off_the_ends(s: Seq<char>)
    ensures
        exists|a: int, b: int|
            0 <= a <= b <= s.len() && trimmed(s) == #[trigger] s.subrange(a, b) && (forall|i: int|
                0 <= i < s.len() && (i < a || i >= b) ==> is_space(#[trigger] s[i])),
        trimmed(s).len() > 0 ==> !is_space(trimmed(s)[0]) && !is_space(trimmed(s).last()),
        trimmed(trimmed(s)) == trimmed(s),
        trimmed(s).len() == 0 <==> forall|i: int| 0 <= i < s.len() ==> is_space(#[trigger] s[i]),
{
    let a = lemma_left(s);
    let t = trim_left(s);
    let c = lemma_right(t);
    let b = a + c;
    let u = trimmed(s);
    assert(u =~= s.subrange(a, b));
    assert forall|i: int| 0 <= i < s.len() && (i < a || i >= b) implies is_space(
        #[trigger] s[i],
    ) by {
        if i >= b {
            assert(t[i - a] == s[i]);
        }
    }
    if c > 0 {
        assert(t[0] == s[a]);
        assert(u[0] == t[0]);
        assert(u.last() == t[c - 1]);
        assert(trim_left(u) == u);
        assert(trim_right(u) == u);
        assert(!is_space(s[a]));
    } else {
        assert(u.len() == 0);
    }
}

/// Joining puts the separator between neighbours and nowhere else: joining two lists
/// joined is joining them with a separator between.
pub proof fn law_joining_puts_separators_between(
    a: Seq<Seq<char>>,
    b: Seq<Seq<char>>,
    separator: Seq<char>,
)
    ensures
        joined(Seq::empty(), separator) == Seq::<char>::empty(),
        a.len() == 1 ==> joined(a, separator) == a[0],
        a.len() > 0 && b.len() > 0 ==> joined(a + b, separator) == joined(a, separator) + separator
            + joined(b, separator),
    decreases b.len(),
{
    if a.len() > 0 && b.len() > 0 {
        let u = a + b;
        assert(u.last() == b.last());
        if b.len() == 1 {
            assert(u.drop_last() =~= a);
        } else {
            law_joining_puts_separators_between(a, b.drop_last(), separator);
            assert(u.drop_last() =~= a + b.drop_last());
            assert(joined(u, separator) =~= joined(a, separator) + separator + joined(
                b,
                separator,
            ));
        }
    }
}

/// The number that a run of decimal digits stands for.
pub open spec fn numeral_value(s: Seq<char>) -> int
    decreases s.len(),
{
    if s.len() == 0 {
        0
    } else {
        10 * numeral_value(s.drop_last()) + (s.last() as int - '0' as int)
    }
}

proof fn lemma_digit(d: int)
    requires
        0 <= d < 10,
    ensures
        digit_text(d).len() == 1,
        digit_text(d)[0] as int == '0' as int + d,
{
    reveal_strlit("0");
    reveal_strlit("1");
    reveal_strlit("2");
    reveal_strlit("3");
    reveal_strlit("4");
    reveal_strlit("5");
    reveal_strlit("6");
    reveal_strlit("7");
    reveal_strlit("8");
    reveal_strlit("9");
}

/// A numeral stands for its number, is made of digits, and begins with none that could
/// be left out.
pub proof fn law_numerals_stand_for_their_number(n: nat)
    ensures
        numeral_value(nat_text(n)) == n,
        nat_text(n).len() > 0,
        forall|i: int|
            0 <= i < nat_text(n).len() ==> '0' <= #[trigger] nat_text(n)[i] && nat_text(n)[i]
                <= '9',
        n > 0 ==> nat_text(n)[0] != '0',
    decreases n,
{
    reveal_with_fuel(numeral_value, 2);
    let d = (n % 10) as int;
    lemma_digit(d);
    if n >= 10 {
        law_numerals_stand_for_their_number(n / 10);
        let s = nat_text(n);
        assert(s.drop_last() =~= nat_text(n / 10));
        assert(s.last() == digit_text(d)[0]);
        assert forall|i: int| 0 <= i < s.len() implies '0' <= #[trigger] s[i] && s[i] <= '9' by {
            if i < s.len() - 1 {
                assert(s[i] == nat_text(n / 10)[i]);
            }
        }
        assert(s[0] == nat_text(n / 10)[0]);
    } else {
        assert(nat_text(n).drop_last() =~= Seq::empty());
    }
}

/// A negative number is written as a minus sign and the numeral of its size.
pub proof fn law_negative_numerals(i: int)
    ensures
        i >= 0 ==> int_text(i) == nat_text(i as nat),
        i < 0 ==> int_text(i) == seq!['-'] + nat_text((-i) as nat),
{
    reveal_strlit("-");
    assert("-"@ =~= seq!['-']);
}

/// Ids are the prefix with a number behind it that counts on from one to the next, and
/// taking some leaves the rest as they would have come.
pub proof fn law_ids_count_on(v: IdsView, a: int, b: int)
    requires
        0 <= a,
        0 <= b,
    ensures
        v.counter + a < 0x1_0000_0000_0000_0000 ==> nth_id(v, a) == v.prefix + nat_text(
            (v.counter + a) as nat,
        ),
        nth_id(ids_after(v, a), b) == nth_id(v, a + b),
        ids_after(v, a).prefix == v.prefix,
        ids_after(v, 0) == v,
{
    let span = COUNTER_SPAN as int;
    let n = v.counter + a;
    assert((n % span + b) % span == (n + b) % span) by {
        vstd::arithmetic::div_mod::lemma_add_mod_noop(n, b, span);
        vstd::arithmetic::div_mod::lemma_add_mod_noop(n % span, b, span);
        vstd::arithmetic::div_mod::lemma_mod_twice(n, span);
    }
    if n < 0x1_0000_0000_0000_0000 {
        vstd::arithmetic::div_mod::lemma_small_mod(n as nat, span as nat);
    }
    vstd::arithmetic::div_mod::lemma_small_mod(v.counter as nat, span as nat);
}

} // verus!
