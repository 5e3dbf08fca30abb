//! Minting identifiers.

use crate::text::cat2;
use crate::text::law_numerals_are_distinct;
use crate::text::nat_text;
use crate::text::texts;
use crate::text::u64_to_text;
use vstd::prelude::*;
use vstd::string::StringExecFns;

verus! {

/// The number of values a counter runs through before it starts over.
pub const COUNTER_SPAN: u128 = 0x1_0000_0000_0000_0000;

/// An id generator that counts: a prefix followed by 1, 2, 3 and so on.
#[derive(Debug)]
pub struct CoreIdGen {
    prefix: String,
    counter: u64,
}

/// The view of a [`CoreIdGen`].
#[verifier::ext_equal]
pub struct IdsView {
    pub prefix: Seq<char>,
    pub counter: u64,
}

impl View for CoreIdGen {
    type V = IdsView;

    closed spec fn view(&self) -> IdsView {
        IdsView { prefix: self.prefix@, counter: self.counter }
    }
}

/// The generator after `k` more ids.
pub open spec fn ids_after(v: IdsView, k: int) -> IdsView {
    IdsView { counter: ((v.counter + k) % COUNTER_SPAN as int) as u64, ..v }
}

/// The `k`-th id that the generator will mint, counting from 1.
pub open spec fn nth_id(v: IdsView, k: int) -> Seq<char> {
    v.prefix + nat_text(ids_after(v, k).counter as nat)
}

/// Ids are numbered on after some have been minted.
pub proof fn lemma_ids_after(v: IdsView, a: int, b: int)
    requires
        0 <= a,
        0 <= b,
    ensures
        ids_after(ids_after(v, a), b) == ids_after(v, a + b),
        nth_id(ids_after(v, a), b) == nth_id(v, a + b),
        ids_after(v, 0) == v,
{
    let m = COUNTER_SPAN as int;
    let x = v.counter + a;
    assert((x % m + b) % m == (x + b) % m) by {
        vstd::arithmetic::div_mod::lemma_add_mod_noop(x, b, m);
        vstd::arithmetic::div_mod::lemma_add_mod_noop(x % m, b, m);
        vstd::arithmetic::div_mod::lemma_mod_twice(x, m);
    }
}

/// A generator mints no id twice before its counter has run through all its values.
pub proof fn law_ids_are_distinct(v: IdsView, a: int, b: int)
    requires
        1 <= a < b <= COUNTER_SPAN,
    ensures
        nth_id(v, a) != nth_id(v, b),
{
    let m = COUNTER_SPAN as int;
    let x = ids_after(v, a).counter;
    let y = ids_after(v, b).counter;
    assert(x != y) by {
        if (v.counter + a) % m == (v.counter + b) % m {
            vstd::arithmetic::div_mod::lemma_fundamental_div_mod(v.counter + a, m);
            vstd::arithmetic::div_mod::lemma_fundamental_div_mod(v.counter + b, m);
            let q = (v.counter + b) / m - (v.counter + a) / m;
            assert(b - a == m * q) by (nonlinear_arith)
                requires
                    v.counter + a == m * ((v.counter + a) / m) + (v.counter + a) % m,
                    v.counter + b == m * ((v.counter + b) / m) + (v.counter + b) % m,
                    (v.counter + a) % m == (v.counter + b) % m,
                    q == (v.counter + b) / m - (v.counter + a) / m,
            ;
            assert(false) by (nonlinear_arith)
                requires
                    0 < b - a < m,
                    b - a == m * q,
            ;
        }
    }
    law_numerals_are_distinct(x as nat, y as nat);
    if nth_id(v, a) == nth_id(v, b) {
        let k = v.prefix.len() as int;
        assert(nth_id(v, a).subrange(k, nth_id(v, a).len() as int) =~= nat_text(x as nat));
        assert(nth_id(v, b).subrange(k, nth_id(v, b).len() as int) =~= nat_text(y as nat));
    }
}

impl CoreIdGen {
    /// New generator counting from 1 with the given id prefix.
    pub fn new(prefix: &str) -> (r: CoreIdGen)
        ensures
            r@ == (IdsView { prefix: prefix@, counter: 0 }),
    {
        CoreIdGen { prefix: String::from_str(prefix), counter: 0 }
    }

    /// Mints the next id.
    pub fn next_id(&mut self) -> (r: String)
        ensures
            r@ == nth_id(old(self)@, 1),
            final(self)@ == ids_after(old(self)@, 1),
    {
        self.counter = self.counter.wrapping_add(1);
        let number = u64_to_text(self.counter);
        cat2(self.prefix.as_str(), number.as_str())
    }

    /// A copy of the generator, which will mint the same ids.
    pub fn copy(&self) -> (r: CoreIdGen)
        ensures
            r@ == self@,
    {
        CoreIdGen { prefix: self.prefix.clone(), counter: self.counter }
    }
}

impl Default for CoreIdGen {
    fn default() -> (r: CoreIdGen)
        ensures
            r@ == (IdsView { prefix: "id-"@, counter: 0 }),
    {
        CoreIdGen::new("id-")
    }
}

/// The next `n` ids that a generator will mint.
pub open spec fn minted(n: nat, v: IdsView) -> Seq<Seq<char>> {
    Seq::new(n, |i: int| nth_id(v, i + 1))
}

/// Mints ids.
pub fn mint(count: usize, ids: &mut CoreIdGen) -> (r: Vec<String>)
    ensures
        texts(r@) == minted(count as nat, old(ids)@),
        r@.len() == count,
        forall|k: int| 0 <= k < count ==> (#[trigger] r@[k])@ == nth_id(old(ids)@, k + 1),
        final(ids)@ == ids_after(old(ids)@, count as int),
{
    let ghost first = ids@;
    let mut out: Vec<String> = Vec::new();
    let mut i: usize = 0;
    proof {
        lemma_ids_after(first, 0, 0);
    }
    while i < count
        invariant
            i <= count,
            out@.len() == i,
            ids@ == ids_after(first, i as int),
            forall|k: int| 0 <= k < i ==> (#[trigger] out@[k])@ == nth_id(first, k + 1),
        decreases count - i,
    {
        proof {
            lemma_ids_after(first, i as int, 1);
        }
        out.push(ids.next_id());
        i += 1;
    }
    assert(texts(out@) =~= minted(count as nat, first));
    out
}

} // verus!
