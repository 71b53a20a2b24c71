//! In-place filtering: `retain` and the `dedup` family.
//!
//! These operations take a caller-supplied predicate or relation, so their
//! contracts describe the result through a mask: a sequence of booleans,
//! one per original element, each being a value the callback actually
//! returned. A caller whose callback is deterministic (its postcondition
//! pins its result) can recover the exact output from the mask.

use vstd::prelude::*;

use crate::small_vec::SmallVec;
use vstd::std_specs::cmp::PartialEqSpec;

verus! {

/// The subsequence of `s` selected by the boolean mask `keep`, in order.
pub open spec fn mask_filter<T>(s: Seq<T>, keep: Seq<bool>) -> Seq<T>
    recommends
        s.len() == keep.len(),
    decreases s.len(),
{
    if s.len() == 0 {
        Seq::empty()
    } else {
        let prefix = mask_filter(s.drop_last(), keep.drop_last());
        if keep.last() {
            prefix.push(s.last())
        } else {
            prefix
        }
    }
}

/// The index of the last `true` in `keep`, or `-1` if there is none.
pub open spec fn last_kept(keep: Seq<bool>) -> int
    decreases keep.len(),
{
    if keep.len() == 0 {
        -1
    } else if keep.last() {
        keep.len() - 1
    } else {
        last_kept(keep.drop_last())
    }
}

/// `last_kept` stays within bounds, and a mask that starts with `true`
/// always keeps something.
pub proof fn lemma_last_kept_bound(keep: Seq<bool>)
    ensures
        -1 <= last_kept(keep) < keep.len(),
        keep.len() > 0 && keep[0] ==> last_kept(keep) >= 0,
    decreases keep.len(),
{
    if keep.len() > 0 && !keep.last() {
        lemma_last_kept_bound(keep.drop_last());
        if keep.len() > 1 {
            assert(keep.drop_last()[0] == keep[0]);
        }
    }
}

/// For a mask that keeps its first element, the filtered sequence is
/// non-empty and ends with the element at the mask's last `true`.
pub proof fn lemma_mask_filter_last<T>(s: Seq<T>, keep: Seq<bool>)
    requires
        keep.len() == s.len(),
        s.len() > 0,
        keep[0],
    ensures
        0 <= last_kept(keep) < s.len(),
        mask_filter(s, keep).len() > 0,
        mask_filter(s, keep).last() == s[last_kept(keep)],
    decreases s.len(),
{
    lemma_last_kept_bound(keep);
    if !keep.last() {
        assert(keep.drop_last()[0] == keep[0]);
        lemma_mask_filter_last(s.drop_last(), keep.drop_last());
    }
}

impl<T, const N: usize> SmallVec<T, N> {
    /// Retain only the elements for which the predicate returns `true`,
    /// dropping the others in place; the relative order of the retained
    /// elements is preserved, and the capacity never changes.
    pub fn retain<F: Fn(&T) -> bool>(&mut self, f: F)
        requires
            old(self).wf(),
            forall|i: int| 0 <= i < old(self)@.len() ==> call_requires(f, (&old(self)@[i],)),
        ensures
            final(self).wf(),
            final(self).capacity_spec() == old(self).capacity_spec(),
            final(self).spilled_spec() == old(self).spilled_spec(),
            exists|keep: Seq<bool>|
                {
                    &&& keep.len() == old(self)@.len()
                    &&& (forall|i: int|
                        0 <= i < keep.len() ==> call_ensures(f, (&old(self)@[i],), keep[i]))
                    &&& final(self)@ == mask_filter(old(self)@, keep)
                },
    {
        let ghost orig = self@;
        let ghost mut keep: Seq<bool> = Seq::empty();
        let ghost mut j: int = 0;
        let mut i: usize = 0;
        proof {
            assert(orig.take(0) =~= Seq::<T>::empty());
            assert(self@ =~= mask_filter(orig.take(0), keep) + orig.skip(0));
        }
        while i < self.len()
            invariant
                self.wf(),
                0 <= j <= orig.len(),
                keep.len() == j,
                i as int == mask_filter(orig.take(j), keep).len(),
                self@ == mask_filter(orig.take(j), keep) + orig.skip(j),
                self.capacity_spec() == old(self).capacity_spec(),
                self.spilled_spec() == old(self).spilled_spec(),
                forall|k: int| 0 <= k < j ==> call_ensures(f, (&orig[k],), keep[k]),
                forall|k: int| 0 <= k < orig.len() ==> call_requires(f, (&orig[k],)),
                orig == old(self)@,
            decreases orig.len() - j,
        {
            proof {
                assert(self@[i as int] == orig[j]);
            }
            let x = self.get(i);
            let keep_it = f(x);
            proof {
                assert(orig.take(j + 1).drop_last() =~= orig.take(j));
                assert(keep.push(keep_it).drop_last() =~= keep);
            }
            if keep_it {
                i = i + 1;
                proof {
                    keep = keep.push(true);
                    j = j + 1;
                    assert(self@ =~= mask_filter(orig.take(j), keep) + orig.skip(j));
                }
            } else {
                let _ = self.remove(i);
                proof {
                    keep = keep.push(false);
                    j = j + 1;
                    assert(self@ =~= mask_filter(orig.take(j), keep) + orig.skip(j));
                }
            }
        }
        proof {
            assert(j == orig.len());
            assert(orig.take(j) =~= orig);
            assert(self@ =~= mask_filter(orig, keep));
        }
    }

    /// Remove consecutive runs of elements that the relation considers
    /// equal, keeping the first of each run. Each candidate is compared
    /// against the most recently kept element.
    #[verifier::rlimit(50)]
    pub fn dedup_by<F: Fn(&T, &T) -> bool>(&mut self, same_bucket: F)
        requires
            old(self).wf(),
            forall|a: int, b: int|
                0 <= a < old(self)@.len() && 0 <= b < old(self)@.len() ==> call_requires(
                    same_bucket,
                    (&old(self)@[a], &old(self)@[b]),
                ),
        ensures
            final(self).wf(),
            final(self).capacity_spec() == old(self).capacity_spec(),
            final(self).spilled_spec() == old(self).spilled_spec(),
            exists|keep: Seq<bool>|
                {
                    &&& keep.len() == old(self)@.len()
                    &&& (keep.len() > 0 ==> keep[0])
                    &&& (forall|r: int|
                        1 <= r < keep.len() ==> call_ensures(
                            same_bucket,
                            (&old(self)@[r], &old(self)@[last_kept(keep.take(r))]),
                            !keep[r],
                        ))
                    &&& final(self)@ == mask_filter(old(self)@, keep)
                },
    {
        let ghost orig = self@;
        if self.len() <= 1 {
            proof {
                let keep = Seq::<bool>::new(orig.len(), |q: int| true);
                if orig.len() == 0 {
                    assert(mask_filter(orig, keep) =~= orig);
                } else {
                    assert(orig.drop_last() =~= Seq::<T>::empty());
                    assert(keep.drop_last() =~= Seq::<bool>::empty());
                    assert(mask_filter(Seq::<T>::empty(), Seq::<bool>::empty()) =~= Seq::<
                        T,
                    >::empty());
                    assert(mask_filter(orig, keep) =~= orig);
                }
                assert(keep.len() == orig.len() && (keep.len() > 0 ==> keep[0]) && (forall|r: int|
                    1 <= r < keep.len() ==> call_ensures(
                        same_bucket,
                        (&orig[r], &orig[last_kept(keep.take(r))]),
                        !keep[r],
                    )) && self@ == mask_filter(orig, keep));
            }
            return ;
        }
        let ghost mut keep: Seq<bool> = seq![true];
        let ghost mut j: int = 1;
        let mut i: usize = 1;
        proof {
            assert(orig.take(1).drop_last() =~= Seq::<T>::empty());
            assert(keep.drop_last() =~= Seq::<bool>::empty());
            assert(mask_filter(Seq::<T>::empty(), Seq::<bool>::empty()) =~= Seq::<T>::empty());
            assert(mask_filter(orig.take(1), keep) =~= seq![orig[0]]);
            assert(self@ =~= mask_filter(orig.take(1), keep) + orig.skip(1));
        }
        while i < self.len()
            invariant
                self.wf(),
                1 <= i,
                1 <= j <= orig.len(),
                keep.len() == j,
                keep[0],
                i as int == mask_filter(orig.take(j), keep).len(),
                self@ == mask_filter(orig.take(j), keep) + orig.skip(j),
                self.capacity_spec() == old(self).capacity_spec(),
                self.spilled_spec() == old(self).spilled_spec(),
                forall|r: int|
                    1 <= r < j ==> call_ensures(
                        same_bucket,
                        (&orig[r], &orig[last_kept(keep.take(r))]),
                        !keep[r],
                    ),
                forall|a: int, b: int|
                    0 <= a < orig.len() && 0 <= b < orig.len() ==> call_requires(
                        same_bucket,
                        (&orig[a], &orig[b]),
                    ),
                orig == old(self)@,
            decreases orig.len() - j,
        {
            proof {
                lemma_mask_filter_last(orig.take(j), keep);
                assert(self@[i - 1] == orig[last_kept(keep)]);
                assert(self@[i as int] == orig[j]);
            }
            let prev = self.get(i - 1);
            let cur = self.get(i);
            let dup = same_bucket(cur, prev);
            proof {
                let keep0 = keep;
                keep = keep.push(!dup);
                j = j + 1;
                assert(orig.take(j).drop_last() =~= orig.take(j - 1));
                assert(keep.drop_last() =~= keep0);
                assert(keep0.take(j - 1) =~= keep0);
                assert forall|r: int| 1 <= r < j implies keep.take(r) == keep0.take(r) by {
                    assert(keep.take(r) =~= keep0.take(r));
                }
                assert(last_kept(keep.take(j - 1)) == last_kept(keep0));
                assert(call_ensures(
                    same_bucket,
                    (&orig[j - 1], &orig[last_kept(keep.take(j - 1))]),
                    !keep[j - 1],
                ));
            }
            if dup {
                let _ = self.remove(i);
                proof {
                    assert(self@ =~= mask_filter(orig.take(j), keep) + orig.skip(j));
                }
            } else {
                i = i + 1;
                proof {
                    assert(self@ =~= mask_filter(orig.take(j), keep) + orig.skip(j));
                }
            }
        }
        proof {
            assert(j == orig.len());
            assert(orig.take(j) =~= orig);
            assert(self@ =~= mask_filter(orig, keep));
        }
    }
}

impl<T, const N: usize> SmallVec<T, N> {
    /// Remove consecutive runs of elements that map to keys considered
    /// equal, keeping the first of each run. Each candidate's key is
    /// compared against a freshly computed key of the most recently kept
    /// element; the mask records, per comparison, the two key values the
    /// callback actually produced.
    #[verifier::rlimit(100)]
    #[verifier::spinoff_prover]
    pub fn dedup_by_key<F: Fn(&T) -> K, K: PartialEq>(&mut self, key: F)
        requires
            old(self).wf(),
            forall|i: int| 0 <= i < old(self)@.len() ==> call_requires(key, (&old(self)@[i],)),
        ensures
            final(self).wf(),
            final(self).capacity_spec() == old(self).capacity_spec(),
            final(self).spilled_spec() == old(self).spilled_spec(),
            exists|keep: Seq<bool>, kas: Seq<K>, kbs: Seq<K>|
                {
                    &&& keep.len() == old(self)@.len()
                    &&& kas.len() == keep.len()
                    &&& kbs.len() == keep.len()
                    &&& (keep.len() > 0 ==> keep[0])
                    &&& (forall|r: int|
                        #![trigger keep[r]]
                        1 <= r < keep.len() ==> {
                            &&& call_ensures(key, (&old(self)@[r],), kas[r])
                            &&& call_ensures(
                                key,
                                (&old(self)@[last_kept(keep.take(r))],),
                                kbs[r],
                            )
                            &&& (K::obeys_eq_spec() ==> !keep[r] == kas[r].eq_spec(&kbs[r]))
                        })
                    &&& final(self)@ == mask_filter(old(self)@, keep)
                },
    {
        let ghost orig = self@;
        if self.len() <= 1 {
            proof {
                let keep = Seq::<bool>::new(orig.len(), |q: int| true);
                let kas = Seq::<K>::new(orig.len(), |q: int| arbitrary());
                if orig.len() == 0 {
                    assert(mask_filter(orig, keep) =~= orig);
                } else {
                    assert(orig.drop_last() =~= Seq::<T>::empty());
                    assert(keep.drop_last() =~= Seq::<bool>::empty());
                    assert(mask_filter(Seq::<T>::empty(), Seq::<bool>::empty()) =~= Seq::<
                        T,
                    >::empty());
                    assert(mask_filter(orig, keep) =~= orig);
                }
                assert(keep.len() == orig.len() && kas.len() == keep.len() && kas.len()
                    == keep.len() && (keep.len() > 0 ==> keep[0]) && self@ == mask_filter(
                    orig,
                    keep,
                ));
            }
            return ;
        }
        let ghost mut keep: Seq<bool> = seq![true];
        let ghost mut kas: Seq<K> = seq![arbitrary()];
        let ghost mut kbs: Seq<K> = seq![arbitrary()];
        let ghost mut j: int = 1;
        let mut i: usize = 1;
        proof {
            assert(orig.take(1).drop_last() =~= Seq::<T>::empty());
            assert(keep.drop_last() =~= Seq::<bool>::empty());
            assert(mask_filter(Seq::<T>::empty(), Seq::<bool>::empty()) =~= Seq::<T>::empty());
            assert(mask_filter(orig.take(1), keep) =~= seq![orig[0]]);
            assert(self@ =~= mask_filter(orig.take(1), keep) + orig.skip(1));
        }
        while i < self.len()
            invariant
                self.wf(),
                1 <= i,
                1 <= j <= orig.len(),
                keep.len() == j,
                kas.len() == j,
                kbs.len() == j,
                keep[0],
                i as int == mask_filter(orig.take(j), keep).len(),
                self@ == mask_filter(orig.take(j), keep) + orig.skip(j),
                self.capacity_spec() == old(self).capacity_spec(),
                self.spilled_spec() == old(self).spilled_spec(),
                forall|r: int|
                    #![trigger kas[r]]
                    1 <= r < j ==> call_ensures(key, (&orig[r],), kas[r]),
                forall|r: int|
                    #![trigger kbs[r]]
                    1 <= r < j ==> call_ensures(key, (&orig[last_kept(keep.take(r))],), kbs[r]),
                forall|r: int|
                    #![trigger keep[r]]
                    1 <= r < j ==> (K::obeys_eq_spec() ==> !keep[r] == kas[r].eq_spec(&kbs[r])),
                forall|k: int| 0 <= k < orig.len() ==> call_requires(key, (&orig[k],)),
                orig == old(self)@,
            decreases orig.len() - j,
        {
            proof {
                lemma_mask_filter_last(orig.take(j), keep);
                assert(self@[i - 1] == orig[last_kept(keep)]);
                assert(self@[i as int] == orig[j]);
            }
            let prev = self.get(i - 1);
            let cur = self.get(i);
            let ka = key(cur);
            let kb = key(prev);
            let dup = ka == kb;
            proof {
                let keep0 = keep;
                let kas0 = kas;
                let kbs0 = kbs;
                keep = keep.push(!dup);
                kas = kas.push(ka);
                kbs = kbs.push(kb);
                j = j + 1;
                assert(orig.take(j).drop_last() =~= orig.take(j - 1));
                assert(keep.drop_last() =~= keep0);
                assert(keep0.take(j - 1) =~= keep0);
                assert forall|r: int| 1 <= r < j implies keep.take(r) == keep0.take(r) by {
                    assert(keep.take(r) =~= keep0.take(r));
                }
                assert(last_kept(keep.take(j - 1)) == last_kept(keep0));
                assert(call_ensures(key, (&orig[j - 1],), kas[j - 1]) && call_ensures(
                    key,
                    (&orig[last_kept(keep.take(j - 1))],),
                    kbs[j - 1],
                ) && (K::obeys_eq_spec() ==> !keep[j - 1] == kas[j - 1].eq_spec(&kbs[j - 1])));
                assert forall|r: int|
                    #![trigger kas[r]]
                    1 <= r < j - 1 implies call_ensures(key, (&orig[r],), kas[r]) by {
                    assert(kas[r] == kas0[r]);
                }
                assert forall|r: int|
                    #![trigger kbs[r]]
                    1 <= r < j - 1 implies call_ensures(
                    key,
                    (&orig[last_kept(keep.take(r))],),
                    kbs[r],
                ) by {
                    assert(kbs[r] == kbs0[r]);
                    assert(keep.take(r) =~= keep0.take(r));
                }
                assert forall|r: int|
                    #![trigger keep[r]]
                    1 <= r < j - 1 implies (K::obeys_eq_spec() ==> !keep[r] == kas[r].eq_spec(
                    &kbs[r],
                )) by {
                    assert(keep[r] == keep0[r]);
                    assert(kas[r] == kas0[r]);
                    assert(kbs[r] == kbs0[r]);
                }
            }
            if dup {
                let _ = self.remove(i);
                proof {
                    assert(self@ =~= mask_filter(orig.take(j), keep) + orig.skip(j));
                }
            } else {
                i = i + 1;
                proof {
                    assert(self@ =~= mask_filter(orig.take(j), keep) + orig.skip(j));
                }
            }
        }
        proof {
            assert(j == orig.len());
            assert(orig.take(j) =~= orig);
            assert(self@ =~= mask_filter(orig, keep));
            assert forall|r: int|
                #![trigger keep[r]]
                1 <= r < keep.len() implies {
                &&& call_ensures(key, (&orig[r],), kas[r])
                &&& call_ensures(key, (&orig[last_kept(keep.take(r))],), kbs[r])
                &&& (K::obeys_eq_spec() ==> !keep[r] == kas[r].eq_spec(&kbs[r]))
            } by {
                assert(call_ensures(key, (&orig[r],), kas[r]));
                assert(call_ensures(key, (&orig[last_kept(keep.take(r))],), kbs[r]));
            }
        }
    }
}

/// The sequence obtained by removing consecutive duplicates (under the
/// specification-level meaning of `==`), keeping the first element of each
/// run: each element is kept exactly when it differs from the most recently
/// kept one.
pub open spec fn dedup_seq<T: PartialEq>(s: Seq<T>) -> Seq<T>
    decreases s.len(),
{
    if s.len() == 0 {
        Seq::empty()
    } else {
        let prefix = dedup_seq(s.drop_last());
        if prefix.len() > 0 && s.last().eq_spec(&prefix.last()) {
            prefix
        } else {
            prefix.push(s.last())
        }
    }
}

/// A mask whose entries record, for each element, whether it differed from
/// the most recently kept element selects exactly `dedup_seq`.
proof fn lemma_keep_gives_dedup<T: PartialEq>(s: Seq<T>, keep: Seq<bool>)
    requires
        keep.len() == s.len(),
        s.len() > 0 ==> keep[0],
        forall|r: int|
            1 <= r < s.len() ==> keep[r] == !s[r].eq_spec(&s[last_kept(keep.take(r))]),
    ensures
        mask_filter(s, keep) == dedup_seq(s),
    decreases s.len(),
{
    if s.len() == 0 {
        assert(mask_filter(s, keep) =~= dedup_seq(s));
    } else if s.len() == 1 {
        assert(keep.last() == keep[0]);
        assert(mask_filter(s.drop_last(), keep.drop_last()) =~= Seq::<T>::empty());
        assert(dedup_seq(s.drop_last()) =~= Seq::<T>::empty());
        assert(mask_filter(s, keep) =~= dedup_seq(s));
    } else {
        let s0 = s.drop_last();
        let k0 = keep.drop_last();
        assert(k0[0] == keep[0]);
        assert forall|r: int| 1 <= r < s0.len() implies k0[r] == !s0[r].eq_spec(
            &s0[last_kept(k0.take(r))],
        ) by {
            assert(k0.take(r) =~= keep.take(r));
            lemma_last_kept_bound(keep.take(r));
            assert(keep.take(r)[0] == keep[0]);
            assert(s0[r] == s[r]);
            assert(s0[last_kept(keep.take(r))] == s[last_kept(keep.take(r))]);
        }
        lemma_keep_gives_dedup(s0, k0);
        assert(keep.take(s.len() - 1) =~= k0);
        lemma_mask_filter_last(s0, k0);
        assert(keep.last() == !s.last().eq_spec(&s[last_kept(k0)]));
        assert(dedup_seq(s0).last() == s0[last_kept(k0)]);
        assert(s0[last_kept(k0)] == s[last_kept(k0)]);
        assert(dedup_seq(s0).len() > 0);
        if keep.last() {
            assert(mask_filter(s, keep) == mask_filter(s0, k0).push(s.last()));
            assert(dedup_seq(s) == dedup_seq(s0).push(s.last()));
        } else {
            assert(mask_filter(s, keep) == mask_filter(s0, k0));
            assert(dedup_seq(s) == dedup_seq(s0));
        }
    }
}

impl<T: PartialEq, const N: usize> SmallVec<T, N> {
    /// Remove consecutive duplicate elements, keeping the first of each
    /// run. When the element type's `==` agrees with its specification,
    /// the result is exactly `dedup_seq` of the previous contents.
    pub fn dedup(&mut self)
        requires
            old(self).wf(),
        ensures
            final(self).wf(),
            final(self).capacity_spec() == old(self).capacity_spec(),
            final(self).spilled_spec() == old(self).spilled_spec(),
            T::obeys_eq_spec() ==> final(self)@ == dedup_seq(old(self)@),
            exists|keep: Seq<bool>|
                {
                    &&& keep.len() == old(self)@.len()
                    &&& (keep.len() > 0 ==> keep[0])
                    &&& final(self)@ == mask_filter(old(self)@, keep)
                },
    {
        let ghost orig = self@;
        let cl = |a: &T, b: &T| -> (r: bool)
            ensures
                T::obeys_eq_spec() ==> r == a.eq_spec(b),
            { *a == *b };
        self.dedup_by(cl);
        proof {
            let keep0 = choose|keep: Seq<bool>|
                {
                    &&& keep.len() == orig.len()
                    &&& (keep.len() > 0 ==> keep[0])
                    &&& (forall|r: int|
                        1 <= r < keep.len() ==> call_ensures(
                            cl,
                            (&orig[r], &orig[last_kept(keep.take(r))]),
                            !keep[r],
                        ))
                    &&& self@ == mask_filter(orig, keep)
                };
            assert(keep0.len() == orig.len() && (keep0.len() > 0 ==> keep0[0]) && self@
                == mask_filter(orig, keep0));
            if T::obeys_eq_spec() {
                assert forall|r: int| 1 <= r < orig.len() implies keep0[r] == !orig[r].eq_spec(
                    &orig[last_kept(keep0.take(r))],
                ) by {
                    assert(call_ensures(
                        cl,
                        (&orig[r], &orig[last_kept(keep0.take(r))]),
                        !keep0[r],
                    ));
                }
                lemma_keep_gives_dedup(orig, keep0);
            }
        }
    }
}

} // verus!
