//! Ordered map from original to destination names.
//!
//! The rename rules are held as an association list with unique keys;
//! lookups scan in insertion order, which also fixes the order in
//! which prefix rules are tried by the SQL rewriter.

use vstd::prelude::*;

use crate::utils::str_eq;

verus! {

/// First value bound to `k`, scanning pairs in order.
pub open spec fn lookup(pairs: Seq<(Seq<char>, Seq<char>)>, k: Seq<char>) -> Option<Seq<char>>
    decreases pairs.len(),
{
    if pairs.len() == 0 {
        None
    } else if pairs[0].0 == k {
        Some(pairs[0].1)
    } else {
        lookup(pairs.drop_first(), k)
    }
}

/// The rule list after binding `k` to `v`: the first pair keyed by
/// `k` is replaced in place, or a new pair is appended when no pair
/// holds `k`.
pub open spec fn spec_insert(
    pairs: Seq<(Seq<char>, Seq<char>)>,
    k: Seq<char>,
    v: Seq<char>,
) -> Seq<(Seq<char>, Seq<char>)>
    decreases pairs.len(),
{
    if pairs.len() == 0 {
        seq![(k, v)]
    } else if pairs[0].0 == k {
        seq![(k, v)] + pairs.drop_first()
    } else {
        seq![pairs[0]] + spec_insert(pairs.drop_first(), k, v)
    }
}

/// Rename rules, in insertion order, with unique keys.
pub struct RenameMap {
    pub pairs: Vec<(String, String)>,
}

impl View for RenameMap {
    type V = Seq<(Seq<char>, Seq<char>)>;

    open spec fn view(&self) -> Seq<(Seq<char>, Seq<char>)> {
        self.pairs@.map_values(|p: (String, String)| (p.0@, p.1@))
    }
}

impl RenameMap {
    /// Key uniqueness.
    pub open spec fn wf(&self) -> bool {
        forall|i: int, j: int|
            0 <= i < j < self@.len() ==> (#[trigger] self@[i]).0 != (#[trigger] self@[j]).0
    }

    /// An empty rule set.
    pub fn new() -> (r: Self)
        ensures
            r@ == Seq::<(Seq<char>, Seq<char>)>::empty(),
            r.wf(),
    {
        let r = RenameMap { pairs: Vec::new() };
        proof {
            assert(r@ =~= Seq::<(Seq<char>, Seq<char>)>::empty());
        }
        r
    }

    /// The number of rules.
    pub fn len(&self) -> (r: usize)
        ensures
            r == self@.len(),
    {
        self.pairs.len()
    }

    /// Whether no rule is present.
    pub fn is_empty(&self) -> (r: bool)
        ensures
            r == (self@.len() == 0),
    {
        self.pairs.len() == 0
    }

    /// The value bound to `k`, if any.
    pub fn get(&self, k: &str) -> (r: Option<&String>)
        ensures
            match r {
                Some(v) => lookup(self@, k@) == Some(v@),
                None => lookup(self@, k@) is None,
            },
    {
        let mut i: usize = 0;
        proof {
            assert(self@.skip(0) =~= self@);
        }
        while i < self.pairs.len()
            invariant
                i <= self.pairs@.len(),
                self@.len() == self.pairs@.len(),
                forall|j: int| 0 <= j < self@.len() ==> (#[trigger] self@[j]) == (
                self.pairs@[j].0@,
                self.pairs@[j].1@,
                ),
                lookup(self@, k@) == lookup(self@.skip(i as int), k@),
            decreases self.pairs@.len() - i,
        {
            proof {
                assert(self@.skip(i as int).drop_first() =~= self@.skip(i as int + 1));
            }
            if str_eq(self.pairs[i].0.as_str(), k) {
                return Some(&self.pairs[i].1);
            }
            i = i + 1;
        }
        proof {
            assert(self@.skip(self@.len() as int) =~= Seq::<(Seq<char>, Seq<char>)>::empty());
        }
        None
    }

    /// Binds `k` to `v`: replaces the existing binding in place, or
    /// appends a new rule.
    pub fn insert(&mut self, k: String, v: String)
        requires
            old(self).wf(),
        ensures
            final(self).wf(),
            final(self)@ == spec_insert(old(self)@, k@, v@),
            lookup(final(self)@, k@) == Some(v@),
            forall|x: Seq<char>|
                x != k@ ==> #[trigger] lookup(final(self)@, x) == lookup(old(self)@, x),
            final(self)@.len() <= old(self)@.len() + 1,
    {
        let ghost orig = self@;
        let mut i: usize = 0;
        while i < self.pairs.len()
            invariant
                i <= self.pairs@.len(),
                self@ == orig,
                orig == old(self)@,
                forall|a: int, b: int|
                    0 <= a < b < orig.len() ==> (#[trigger] orig[a]).0 != (#[trigger] orig[b]).0,
                self@.len() == self.pairs@.len(),
                forall|j: int| 0 <= j < self@.len() ==> (#[trigger] self@[j]) == (
                self.pairs@[j].0@,
                self.pairs@[j].1@,
                ),
                forall|j: int| 0 <= j < i ==> (#[trigger] self@[j]).0 != k@,
            decreases self.pairs@.len() - i,
        {
            if str_eq(self.pairs[i].0.as_str(), k.as_str()) {
                let ghost kk = k@;
                let ghost vv = v@;
                let ghost idx = i as int;
                self.pairs.set(i, (k, v));
                proof {
                    assert(self@ =~= orig.update(idx, (kk, vv)));
                    assert(orig[idx].0 == kk);
                    assert forall|a: int, b: int|
                        0 <= a < b < self@.len() implies (#[trigger] self@[a]).0 != (
                    #[trigger] self@[b]).0 by {
                        assert(orig[a].0 != orig[b].0);
                        assert(self@[a].0 == orig[a].0);
                        assert(self@[b].0 == orig[b].0);
                    }
                    lemma_lookup_update(orig, idx, kk, vv);
                    assert forall|x: Seq<char>| x != kk implies #[trigger] lookup(self@, x)
                        == lookup(orig, x) by {
                        lemma_lookup_update_other(orig, idx, kk, vv, x);
                    }
                    lemma_spec_insert_update(orig, idx, kk, vv);
                }
                return ;
            }
            i = i + 1;
        }
        let ghost kk = k@;
        let ghost vv = v@;
        self.pairs.push((k, v));
        proof {
            assert(self@ =~= orig.push((kk, vv)));
            lemma_lookup_push(orig, kk, vv);
            assert forall|x: Seq<char>| x != kk implies #[trigger] lookup(self@, x) == lookup(
                orig,
                x,
            ) by {
                lemma_lookup_push_other(orig, kk, vv, x);
            }
            lemma_spec_insert_push(orig, kk, vv);
        }
    }
}

/// On a list whose first pair keyed by `k` sits at `i`, `spec_insert`
/// is the in-place update of that pair.
proof fn lemma_spec_insert_update(
    pairs: Seq<(Seq<char>, Seq<char>)>,
    i: int,
    k: Seq<char>,
    v: Seq<char>,
)
    requires
        0 <= i < pairs.len(),
        pairs[i].0 == k,
        forall|j: int| 0 <= j < i ==> (#[trigger] pairs[j]).0 != k,
    ensures
        spec_insert(pairs, k, v) == pairs.update(i, (k, v)),
    decreases i,
{
    if i == 0 {
        assert(spec_insert(pairs, k, v) =~= pairs.update(0, (k, v)));
    } else {
        lemma_spec_insert_update(pairs.drop_first(), i - 1, k, v);
        assert(pairs.update(i, (k, v)).drop_first() =~= pairs.drop_first().update(i - 1, (k, v)));
        assert(spec_insert(pairs, k, v) =~= seq![pairs[0]] + spec_insert(
            pairs.drop_first(),
            k,
            v,
        ));
        assert(seq![pairs[0]] + pairs.drop_first().update(i - 1, (k, v)) =~= pairs.update(
            i,
            (k, v),
        ));
    }
}

/// On a list holding no pair keyed by `k`, `spec_insert` appends.
proof fn lemma_spec_insert_push(pairs: Seq<(Seq<char>, Seq<char>)>, k: Seq<char>, v: Seq<char>)
    requires
        forall|j: int| 0 <= j < pairs.len() ==> (#[trigger] pairs[j]).0 != k,
    ensures
        spec_insert(pairs, k, v) == pairs.push((k, v)),
    decreases pairs.len(),
{
    if pairs.len() == 0 {
        assert(spec_insert(pairs, k, v) =~= pairs.push((k, v)));
    } else {
        lemma_spec_insert_push(pairs.drop_first(), k, v);
        assert(seq![pairs[0]] + pairs.drop_first().push((k, v)) =~= pairs.push((k, v)));
    }
}

/// Updating the pair whose key is `k` makes `lookup` return the new value.
proof fn lemma_lookup_update(pairs: Seq<(Seq<char>, Seq<char>)>, i: int, k: Seq<char>, v: Seq<char>)
    requires
        0 <= i < pairs.len(),
        pairs[i].0 == k,
        forall|j: int| 0 <= j < i ==> (#[trigger] pairs[j]).0 != k,
    ensures
        lookup(pairs.update(i, (k, v)), k) == Some(v),
    decreases i,
{
    let upd = pairs.update(i, (k, v));
    if i == 0 {
    } else {
        assert(upd.drop_first() =~= pairs.drop_first().update(i - 1, (k, v)));
        lemma_lookup_update(pairs.drop_first(), i - 1, k, v);
    }
}

/// Updating one pair leaves lookups of other keys unchanged.
proof fn lemma_lookup_update_other(
    pairs: Seq<(Seq<char>, Seq<char>)>,
    i: int,
    k: Seq<char>,
    v: Seq<char>,
    x: Seq<char>,
)
    requires
        0 <= i < pairs.len(),
        pairs[i].0 == k,
        x != k,
    ensures
        lookup(pairs.update(i, (k, v)), x) == lookup(pairs, x),
    decreases i,
{
    let upd = pairs.update(i, (k, v));
    if i == 0 {
        assert(upd.drop_first() =~= pairs.drop_first());
    } else {
        assert(upd.drop_first() =~= pairs.drop_first().update(i - 1, (k, v)));
        lemma_lookup_update_other(pairs.drop_first(), i - 1, k, v, x);
    }
}

/// Appending a pair with a fresh key makes `lookup` find it.
proof fn lemma_lookup_push(pairs: Seq<(Seq<char>, Seq<char>)>, k: Seq<char>, v: Seq<char>)
    requires
        forall|j: int| 0 <= j < pairs.len() ==> (#[trigger] pairs[j]).0 != k,
    ensures
        lookup(pairs.push((k, v)), k) == Some(v),
    decreases pairs.len(),
{
    if pairs.len() == 0 {
        assert(pairs.push((k, v))[0] == (k, v));
    } else {
        assert(pairs.push((k, v)).drop_first() =~= pairs.drop_first().push((k, v)));
        lemma_lookup_push(pairs.drop_first(), k, v);
    }
}

/// Appending a pair leaves lookups of other keys unchanged.
proof fn lemma_lookup_push_other(
    pairs: Seq<(Seq<char>, Seq<char>)>,
    k: Seq<char>,
    v: Seq<char>,
    x: Seq<char>,
)
    requires
        x != k,
    ensures
        lookup(pairs.push((k, v)), x) == lookup(pairs, x),
    decreases pairs.len(),
{
    if pairs.len() == 0 {
    } else {
        assert(pairs.push((k, v)).drop_first() =~= pairs.drop_first().push((k, v)));
        lemma_lookup_push_other(pairs.drop_first(), k, v, x);
    }
}

} // verus!
