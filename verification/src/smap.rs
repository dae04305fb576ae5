//! A string-to-string map stored as a vector of pairs with pairwise
//! distinct keys, viewed in specifications as a `Map<Seq<char>, Seq<char>>`.

use vstd::prelude::*;
use crate::strutil::str_eq;

verus! {

/// Pairwise distinct keys.
pub open spec fn distinct_keys(ps: Seq<(String, String)>) -> bool {
    forall|i: int, j: int| 0 <= i < j < ps.len() ==> ps[i].0@ != ps[j].0@
}

/// The mathematical map held by a pair list; a later pair with the same
/// key overrides an earlier one.
pub open spec fn pairs_map(ps: Seq<(String, String)>) -> Map<Seq<char>, Seq<char>>
    decreases ps.len(),
{
    if ps.len() == 0 {
        Map::empty()
    } else {
        pairs_map(ps.drop_last()).insert(ps.last().0@, ps.last().1@)
    }
}

pub proof fn lemma_pairs_map_props(ps: Seq<(String, String)>)
    ensures
        forall|k: Seq<char>|
            pairs_map(ps).dom().contains(k) ==> exists|i: int|
                0 <= i < ps.len() && #[trigger] ps[i].0@ == k,
        distinct_keys(ps) ==> forall|i: int|
            0 <= i < ps.len() ==> pairs_map(ps).dom().contains(#[trigger] ps[i].0@)
                && pairs_map(ps)[ps[i].0@] == ps[i].1@,
    decreases ps.len(),
{
    if ps.len() > 0 {
        lemma_pairs_map_props(ps.drop_last());
        assert forall|k: Seq<char>| pairs_map(ps).dom().contains(k) implies exists|i: int|
            0 <= i < ps.len() && #[trigger] ps[i].0@ == k by {
            if k == ps.last().0@ {
                assert(ps[ps.len() - 1].0@ == k);
            } else {
                assert(pairs_map(ps.drop_last()).dom().contains(k));
                let i = choose|i: int|
                    0 <= i < ps.drop_last().len() && #[trigger] ps.drop_last()[i].0@ == k;
                assert(ps[i].0@ == k);
            }
        }
        if distinct_keys(ps) {
            assert(distinct_keys(ps.drop_last()));
            assert forall|i: int| 0 <= i < ps.len() implies pairs_map(ps).dom().contains(
                #[trigger] ps[i].0@,
            ) && pairs_map(ps)[ps[i].0@] == ps[i].1@ by {
                if i < ps.len() - 1 {
                    assert(ps.drop_last()[i].0@ == ps[i].0@);
                    assert(ps[i].0@ != ps.last().0@);
                }
            }
        }
    }
}

/// A map from strings to strings with set-of-pairs contents.
pub struct StrMap {
    pub pairs: Vec<(String, String)>,
}

impl View for StrMap {
    type V = Map<Seq<char>, Seq<char>>;

    open spec fn view(&self) -> Map<Seq<char>, Seq<char>> {
        pairs_map(self.pairs@)
    }
}

impl StrMap {
    /// Keys are pairwise distinct; established by `new` and kept by every
    /// method of this type.
    pub open spec fn wf(&self) -> bool {
        distinct_keys(self.pairs@)
    }

    /// The empty map.
    pub fn new() -> (r: StrMap)
        ensures
            r.wf(),
            r@ == Map::<Seq<char>, Seq<char>>::empty(),
    {
        StrMap { pairs: Vec::new() }
    }

    /// The number of bindings.
    pub fn len(&self) -> (r: usize)
        requires
            self.wf(),
        ensures
            r == self.pairs@.len(),
            r == self@.dom().len(),
    {
        proof {
            Self::lemma_dom_len(self.pairs@);
        }
        self.pairs.len()
    }

    proof fn lemma_dom_len(ps: Seq<(String, String)>)
        requires
            distinct_keys(ps),
        ensures
            pairs_map(ps).dom().len() == ps.len(),
            pairs_map(ps).dom().finite(),
        decreases ps.len(),
    {
        if ps.len() > 0 {
            assert(distinct_keys(ps.drop_last()));
            Self::lemma_dom_len(ps.drop_last());
            lemma_pairs_map_props(ps.drop_last());
            assert(!pairs_map(ps.drop_last()).dom().contains(ps.last().0@));
            assert(pairs_map(ps).dom() =~= pairs_map(ps.drop_last()).dom().insert(ps.last().0@));
            vstd::set::axiom_set_insert_finite(pairs_map(ps.drop_last()).dom(), ps.last().0@);
            vstd::set::axiom_set_insert_len(pairs_map(ps.drop_last()).dom(), ps.last().0@);
        }
    }

    /// Whether `k` is bound.
    pub fn contains_key(&self, k: &str) -> (r: bool)
        requires
            self.wf(),
        ensures
            r == self@.dom().contains(k@),
    {
        let mut i: usize = 0;
        proof {
            lemma_pairs_map_props(self.pairs@);
        }
        while i < self.pairs.len()
            invariant
                i <= self.pairs@.len(),
                self.wf(),
                forall|j: int| 0 <= j < i ==> self.pairs@[j].0@ != k@,
            decreases self.pairs@.len() - i,
        {
            if str_eq(self.pairs[i].0.as_str(), k) {
                proof {
                    lemma_pairs_map_props(self.pairs@);
                }
                return true;
            }
            i = i + 1;
        }
        proof {
            lemma_pairs_map_props(self.pairs@);
            if self@.dom().contains(k@) {
                let j = choose|j: int|
                    0 <= j < self.pairs@.len() && #[trigger] self.pairs@[j].0@ == k@;
                assert(false);
            }
        }
        false
    }

    /// The value bound to `k`, if any.
    pub fn get(&self, k: &str) -> (r: Option<String>)
        requires
            self.wf(),
        ensures
            match r {
                Some(v) => self@.dom().contains(k@) && v@ == self@[k@],
                None => !self@.dom().contains(k@),
            },
    {
        let mut i: usize = 0;
        proof {
            lemma_pairs_map_props(self.pairs@);
        }
        while i < self.pairs.len()
            invariant
                i <= self.pairs@.len(),
                self.wf(),
                forall|j: int| 0 <= j < i ==> self.pairs@[j].0@ != k@,
            decreases self.pairs@.len() - i,
        {
            if str_eq(self.pairs[i].0.as_str(), k) {
                proof {
                    lemma_pairs_map_props(self.pairs@);
                }
                return Some(self.pairs[i].1.clone());
            }
            i = i + 1;
        }
        proof {
            lemma_pairs_map_props(self.pairs@);
            if self@.dom().contains(k@) {
                let j = choose|j: int|
                    0 <= j < self.pairs@.len() && #[trigger] self.pairs@[j].0@ == k@;
                assert(false);
            }
        }
        None
    }

    /// Bind `k` to `v`, replacing any earlier binding of `k`.
    pub fn insert(&mut self, k: String, v: String)
        requires
            old(self).wf(),
        ensures
            final(self).wf(),
            final(self)@ == old(self)@.insert(k@, v@),
    {
        let mut i: usize = 0;
        let n: usize = self.pairs.len();
        while i < n
            invariant
                i <= n,
                n == self.pairs@.len(),
                self.pairs@ == old(self).pairs@,
                old(self).wf(),
                forall|j: int| 0 <= j < i ==> self.pairs@[j].0@ != k@,
            decreases n - i,
        {
            if str_eq(self.pairs[i].0.as_str(), k.as_str()) {
                let ghost ps = self.pairs@;
                proof {
                    assert(distinct_keys(ps));
                }
                self.pairs.remove(i);
                proof {
                    assert forall|a: int, b: int|
                        0 <= a < b < self.pairs@.len() implies self.pairs@[a].0@
                        != self.pairs@[b].0@ by {
                        if b < i {
                            assert(ps[a].0@ != ps[b].0@);
                        } else if a < i {
                            assert(ps[a].0@ != ps[b + 1].0@);
                        } else {
                            assert(ps[a + 1].0@ != ps[b + 1].0@);
                        }
                    }
                    Self::lemma_remove_key(ps, i as int);
                    assert forall|j: int| 0 <= j < self.pairs@.len() implies self.pairs@[j].0@
                        != k@ by {
                        if j < i {
                            assert(self.pairs@[j] == ps[j]);
                        } else {
                            assert(self.pairs@[j] == ps[j + 1]);
                        }
                    }
                }
                self.pairs.push((k, v));
                proof {
                    assert(self.pairs@.drop_last() =~= ps.remove(i as int));
                    assert(pairs_map(ps).remove(ps[i as int].0@).insert(k@, v@) =~= pairs_map(
                        ps,
                    ).insert(k@, v@));
                    assert(final(self)@ =~= old(self)@.insert(k@, v@));
                }
                return ;
            }
            i = i + 1;
        }
        self.pairs.push((k, v));
        proof {
            assert(self.pairs@.drop_last() =~= old(self).pairs@);
        }
    }

    proof fn lemma_remove_key(ps: Seq<(String, String)>, i: int)
        requires
            distinct_keys(ps),
            0 <= i < ps.len(),
        ensures
            pairs_map(ps.remove(i)) == pairs_map(ps).remove(ps[i].0@),
        decreases ps.len(),
    {
        lemma_pairs_map_props(ps);
        if i == ps.len() - 1 {
            assert(ps.remove(i) =~= ps.drop_last());
            lemma_pairs_map_props(ps.drop_last());
            assert(!pairs_map(ps.drop_last()).dom().contains(ps.last().0@)) by {
                if pairs_map(ps.drop_last()).dom().contains(ps.last().0@) {
                    let j = choose|j: int|
                        0 <= j < ps.drop_last().len() && #[trigger] ps.drop_last()[j].0@
                            == ps.last().0@;
                    assert(ps[j].0@ == ps[ps.len() - 1].0@);
                }
            }
            assert(pairs_map(ps).remove(ps[i].0@) =~= pairs_map(ps.drop_last()));
        } else {
            assert(distinct_keys(ps.drop_last()));
            Self::lemma_remove_key(ps.drop_last(), i);
            assert(ps.remove(i).drop_last() =~= ps.drop_last().remove(i));
            assert(ps.remove(i).last() == ps.last());
            assert(pairs_map(ps.remove(i)) == pairs_map(ps.drop_last().remove(i)).insert(
                ps.last().0@,
                ps.last().1@,
            ));
            assert(ps[i].0@ != ps.last().0@);
            assert(pairs_map(ps.drop_last()).remove(ps[i].0@).insert(ps.last().0@, ps.last().1@)
                =~= pairs_map(ps).remove(ps[i].0@));
        }
    }

    /// Add every binding of `other`, overriding bindings of `self` whose
    /// key `other` also binds.
    pub fn extend(&mut self, other: &StrMap)
        requires
            old(self).wf(),
            other.wf(),
        ensures
            final(self).wf(),
            final(self)@ == old(self)@.union_prefer_right(other@),
    {
        let mut i: usize = 0;
        proof {
            assert(old(self)@.union_prefer_right(pairs_map(other.pairs@.take(0)))
                =~= old(self)@);
            assert(other.pairs@.take(0) =~= Seq::<(String, String)>::empty());
        }
        while i < other.pairs.len()
            invariant
                i <= other.pairs@.len(),
                other.wf(),
                self.wf(),
                self@ == old(self)@.union_prefer_right(pairs_map(other.pairs@.take(i as int))),
            decreases other.pairs@.len() - i,
    {
            let k = other.pairs[i].0.clone();
            let v = other.pairs[i].1.clone();
            self.insert(k, v);
            i = i + 1;
            proof {
                let ghost pre = other.pairs@.take(i as int);
                assert(pre.drop_last() =~= other.pairs@.take(i - 1));
                assert(pre.last() == other.pairs@[i - 1]);
                assert(self@ =~= old(self)@.union_prefer_right(pairs_map(pre)));
            }
        }
        proof {
            assert(other.pairs@.take(other.pairs@.len() as int) =~= other.pairs@);
        }
    }

    /// A copy of the map.
    pub fn duplicate(&self) -> (r: StrMap)
        requires
            self.wf(),
        ensures
            r.wf(),
            r@ == self@,
            r.pairs@.len() == self.pairs@.len(),
    {
        let mut out: Vec<(String, String)> = Vec::new();
        let mut i: usize = 0;
        while i < self.pairs.len()
            invariant
                i <= self.pairs@.len(),
                out@.len() == i,
                forall|j: int|
                    0 <= j < i ==> #[trigger] out@[j].0@ == self.pairs@[j].0@ && out@[j].1@
                        == self.pairs@[j].1@,
            decreases self.pairs@.len() - i,
        {
            out.push((self.pairs[i].0.clone(), self.pairs[i].1.clone()));
            i = i + 1;
        }
        let r = StrMap { pairs: out };
        proof {
            Self::lemma_same_views(r.pairs@, self.pairs@);
        }
        r
    }

    proof fn lemma_same_views(a: Seq<(String, String)>, b: Seq<(String, String)>)
        requires
            a.len() == b.len(),
            forall|j: int|
                0 <= j < a.len() ==> #[trigger] a[j].0@ == b[j].0@ && a[j].1@ == b[j].1@,
        ensures
            pairs_map(a) == pairs_map(b),
            distinct_keys(a) == distinct_keys(b),
        decreases a.len(),
    {
        if a.len() > 0 {
            assert(forall|j: int|
                0 <= j < a.drop_last().len() ==> #[trigger] a.drop_last()[j].0@
                    == b.drop_last()[j].0@ && a.drop_last()[j].1@ == b.drop_last()[j].1@);
            Self::lemma_same_views(a.drop_last(), b.drop_last());
            assert(a.last().0@ == b.last().0@ && a.last().1@ == b.last().1@);
        }
        assert(distinct_keys(a) == distinct_keys(b)) by {
            if distinct_keys(a) {
                assert forall|i: int, j: int| 0 <= i < j < b.len() implies b[i].0@ != b[j].0@ by {
                    assert(a[i].0@ == b[i].0@ && a[j].0@ == b[j].0@);
                }
            }
            if distinct_keys(b) {
                assert forall|i: int, j: int| 0 <= i < j < a.len() implies a[i].0@ != a[j].0@ by {
                    assert(a[i].0@ == b[i].0@ && a[j].0@ == b[j].0@);
                }
            }
        }
    }
}

} // verus!
