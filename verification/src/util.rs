//! Two small helpers of the bridge: pairing a list with an optional,
//! possibly shorter second list, and the ring of recently sent identifiers.

use vstd::prelude::*;
use vstd::std_specs::cmp::PartialEqSpec;

verus! {

/// The `i`-th item of the optional second list, if there is one.
pub open spec fn second_at<B>(b: Option<Seq<B>>, i: int) -> Option<B> {
    match b {
        Some(items) => if 0 <= i < items.len() {
            Some(items[i])
        } else {
            None
        },
        None => None,
    }
}

/// Every item of `a`, each with the item of `b` at the same place where `b`
/// is present and long enough.
pub open spec fn lazy_pairs<A, B>(a: Seq<A>, b: Option<Seq<B>>) -> Seq<(A, Option<B>)> {
    Seq::new(a.len(), |i: int| (a[i], second_at(b, i)))
}

/// The pairing has one entry for each item of the first list; an entry holds
/// the second list's item at the same place as long as that list lasts, and
/// nothing after its end or where there is no second list.
pub proof fn lemma_lazy_pairs<A, B>(a: Seq<A>, b: Option<Seq<B>>)
    ensures
        lazy_pairs(a, b).len() == a.len(),
        forall|i: int| 0 <= i < a.len() ==> (#[trigger] lazy_pairs(a, b)[i]).0 == a[i],
        forall|i: int|
            0 <= i < a.len() && b is Some && i < b->0.len() ==> (#[trigger] lazy_pairs(a, b)[i]).1
                == Some(b->0[i]),
        forall|i: int|
            0 <= i < a.len() && b is Some && i >= b->0.len() ==> (#[trigger] lazy_pairs(a, b)[i]).1
                is None,
        forall|i: int| 0 <= i < a.len() && b is None ==> (#[trigger] lazy_pairs(a, b)[i]).1 is None,
{
}

/// What is left of the second list once its first item, if any, is taken.
pub open spec fn seconds_after<B>(b: Option<Seq<B>>) -> Option<Seq<B>> {
    match b {
        Some(items) => Some(
            if items.len() > 0 {
                items.drop_first()
            } else {
                items
            },
        ),
        None => None,
    }
}

/// Walks a list and, in step with it, an optional second list. Both are kept
/// back to front, so that the next item is the last of the vector.
pub struct LazyZip<A, B> {
    a: Vec<A>,
    b: Option<Vec<B>>,
}

fn reversed<T>(v: Vec<T>) -> (r: Vec<T>)
    ensures
        r@ == v@.reverse(),
{
    let mut v = v;
    let mut r: Vec<T> = Vec::new();
    let ghost all = v@;
    while v.len() > 0
        invariant
            v@.len() + r@.len() == all.len(),
            v@ == all.take(v@.len() as int),
            forall|i: int| 0 <= i < r@.len() ==> r@[i] == all[all.len() - 1 - i],
        decreases v@.len(),
    {
        let item = v.pop().unwrap();
        r.push(item);
    }
    assert(r@ =~= all.reverse());
    r
}

impl<A, B> LazyZip<A, B> {
    /// The items of the first list that are still to come.
    pub closed spec fn firsts(&self) -> Seq<A> {
        self.a@.reverse()
    }

    /// The items of the second list that are still to come, if there is one.
    pub closed spec fn seconds(&self) -> Option<Seq<B>> {
        match self.b {
            Some(items) => Some(items@.reverse()),
            None => None,
        }
    }

    /// The next item of the first list with its partner, or `None` once the
    /// first list is used up. The second list moves on only with the first.
    pub fn next(&mut self) -> (r: Option<(A, Option<B>)>)
        ensures
            old(self).firsts().len() == 0 ==> r is None && final(self).firsts() == old(
                self,
            ).firsts() && final(self).seconds() == old(self).seconds(),
            old(self).firsts().len() > 0 ==> r == Some(
                (old(self).firsts()[0], second_at(old(self).seconds(), 0)),
            ) && final(self).firsts() == old(self).firsts().drop_first() && final(self).seconds()
                == seconds_after(old(self).seconds()),
    {
        if self.a.len() == 0 {
            return None;
        }
        let ghost a0 = self.a@;
        let first = self.a.pop().unwrap();
        assert(self.a@.reverse() =~= a0.reverse().drop_first());
        let second = match &mut self.b {
            Some(items) => {
                let ghost b0 = items@;
                let item = items.pop();
                assert(items@.reverse() =~= if b0.len() > 0 {
                    b0.reverse().drop_first()
                } else {
                    b0.reverse()
                });
                item
            },
            None => None,
        };
        Some((first, second))
    }

    /// All the pairs that are still to come.
    pub fn collect(self) -> (pairs: Vec<(A, Option<B>)>)
        ensures
            pairs@ == lazy_pairs(self.firsts(), self.seconds()),
    {
        let mut zip = self;
        let mut pairs: Vec<(A, Option<B>)> = Vec::new();
        let ghost all = lazy_pairs(self.firsts(), self.seconds());
        loop
            invariant
                pairs@ + lazy_pairs(zip.firsts(), zip.seconds()) == all,
            ensures
                pairs@ == all,
            decreases zip.firsts().len(),
        {
            let ghost before = zip;
            match zip.next() {
                Some(pair) => {
                    assert(pairs@.push(pair) + lazy_pairs(zip.firsts(), zip.seconds()) =~= pairs@
                        + lazy_pairs(before.firsts(), before.seconds()));
                    pairs.push(pair);
                },
                None => {
                    assert(pairs@ + lazy_pairs(zip.firsts(), zip.seconds()) =~= pairs@);
                    break ;
                },
            }
        }
        pairs
    }
}

/// Pairs `a` with `b` lazily: see [`LazyZip`].
pub fn lazy_zip<A, B>(a: Vec<A>, b: Option<Vec<B>>) -> (zip: LazyZip<A, B>)
    ensures
        zip.firsts() == a@,
        zip.seconds() == match b {
            Some(items) => Some(items@),
            None => None,
        },
{
    let ghost a0 = a@;
    let ra = reversed(a);
    assert(ra@.reverse() =~= a0);
    let rb = match b {
        Some(items) => {
            let ghost b0 = items@;
            let r = reversed(items);
            assert(r@.reverse() =~= b0);
            Some(r)
        },
        None => None,
    };
    LazyZip { a: ra, b: rb }
}

/// What a ring of capacity `cap` remembers after `id` is recorded in it: `id`
/// comes last, and the oldest identifier leaves where the ring was full.
pub open spec fn ring_push<T>(ring: Seq<T>, id: T, cap: nat) -> Seq<T> {
    if cap == 0 {
        ring
    } else if ring.len() < cap {
        ring.push(id)
    } else {
        ring.drop_first().push(id)
    }
}

/// What an empty ring of capacity `cap` remembers after the identifiers of
/// `ids` were recorded in it, one after the other.
pub open spec fn ring_after<T>(ids: Seq<T>, cap: nat) -> Seq<T>
    decreases ids.len(),
{
    if ids.len() == 0 {
        Seq::empty()
    } else {
        ring_push(ring_after(ids.drop_last(), cap), ids.last(), cap)
    }
}

/// The last `cap` items of `ids`, or all of them where there are fewer.
pub open spec fn latest<T>(ids: Seq<T>, cap: nat) -> Seq<T> {
    if ids.len() <= cap {
        ids
    } else {
        ids.skip(ids.len() - cap)
    }
}

/// A ring remembers exactly the latest identifiers recorded in it, as many
/// as its capacity allows and in the order in which they came: whatever was
/// recorded before them is forgotten.
pub proof fn lemma_ring_keeps_latest<T>(ids: Seq<T>, cap: nat)
    ensures
        ring_after(ids, cap) == latest(ids, cap),
    decreases ids.len(),
{
    if ids.len() > 0 {
        let before = ids.drop_last();
        lemma_ring_keeps_latest(before, cap);
        assert(ring_push(latest(before, cap), ids.last(), cap) =~= latest(ids, cap));
    }
}

/// Whether one of the identifiers in `ring` equals `id`.
pub open spec fn remembers<T: PartialEq>(ring: Seq<T>, id: T) -> bool {
    exists|i: int| 0 <= i < ring.len() && #[trigger] ring[i].eq_spec(&id)
}

/// An identifier is recognised after `n` recordings if and only if it equals
/// one of the latest `cap` of them.
pub proof fn lemma_ring_recognises_latest<T: PartialEq>(ids: Seq<T>, cap: nat, id: T)
    ensures
        remembers(ring_after(ids, cap), id) <==> remembers(latest(ids, cap), id),
{
    lemma_ring_keeps_latest(ids, cap);
}

/// A ring of the identifiers that were sent last. New identifiers come from
/// the generator that the ring was made with.
#[verifier::reject_recursive_types(T)]
pub struct Cache<T, F: Fn() -> T> {
    cache: Vec<T>,
    idx: usize,
    cap: usize,
    init: F,
}

impl<T, F: Fn() -> T> View for Cache<T, F> {
    type V = Seq<T>;

    /// The identifiers that the ring remembers, oldest first.
    closed spec fn view(&self) -> Seq<T> {
        if self.cache@.len() < self.cap {
            self.cache@
        } else {
            self.cache@.skip(self.idx as int) + self.cache@.take(self.idx as int)
        }
    }
}

impl<T, F: Fn() -> T> Cache<T, F> {
    /// The ring holds no more than its capacity, and its generator can be called.
    pub closed spec fn wf(&self) -> bool {
        &&& self.cache@.len() <= self.cap
        &&& self.idx == 0 || self.idx < self.cache@.len()
        &&& self.cache@.len() < self.cap ==> self.idx == 0
        &&& call_requires(self.init, ())
    }

    /// How many identifiers the ring can remember.
    pub closed spec fn capacity(&self) -> nat {
        self.cap as nat
    }

    /// The generator of new identifiers.
    pub closed spec fn generator(&self) -> F {
        self.init
    }

    /// An empty ring of capacity `cap` whose identifiers come from `init`.
    pub fn new(init: F, cap: usize) -> (c: Self)
        requires
            call_requires(init, ()),
        ensures
            c.wf(),
            c@ == Seq::<T>::empty(),
            c.capacity() == cap,
            c.generator() == init,
    {
        Cache { cache: Vec::new(), idx: 0, cap, init }
    }

    /// Records `id` as the identifier sent last.
    pub fn record(&mut self, id: T)
        requires
            old(self).wf(),
        ensures
            final(self).wf(),
            final(self)@ == ring_push(old(self)@, id, old(self).capacity()),
            final(self).capacity() == old(self).capacity(),
            final(self).generator() == old(self).generator(),
    {
        if self.cap == 0 {
        } else if self.cache.len() < self.cap {
            self.cache.push(id);
            assert(self@ =~= ring_push(old(self)@, id, old(self).capacity()));
        } else {
            let at: usize = self.idx;
            let next: usize = if at + 1 >= self.cap {
                0
            } else {
                at + 1
            };
            self.cache.set(at, id);
            self.idx = next;
            assert(self@ =~= ring_push(old(self)@, id, old(self).capacity()));
        }
    }

}

impl<T: PartialEq + Clone, F: Fn() -> T> Cache<T, F> {
    /// Takes a new identifier from the generator, records a copy of it and
    /// hands it out.
    pub fn send(&mut self) -> (id: T)
        requires
            old(self).wf(),
        ensures
            final(self).wf(),
            call_ensures(old(self).generator(), (), id),
            final(self).capacity() == old(self).capacity(),
            final(self).generator() == old(self).generator(),
            old(self).capacity() == 0 ==> final(self)@ == old(self)@,
            old(self).capacity() > 0 ==> final(self)@.len() > 0 && cloned(id, final(self)@.last())
                && final(self)@ == ring_push(
                old(self)@,
                final(self)@.last(),
                old(self).capacity(),
            ),
    {
        let id: T = (self.init)();
        if self.cap > 0 {
            let copy = id.clone();
            self.record(copy);
        }
        id
    }

    /// Whether `id` is among the identifiers that the ring remembers.
    pub fn sent(&self, id: &T) -> (found: bool)
        requires
            self.wf(),
        ensures
            T::obeys_eq_spec() ==> found == remembers(self@, *id),
    {
        let mut i: usize = 0;
        while i < self.cache.len()
            invariant
                self.wf(),
                i <= self.cache@.len(),
                T::obeys_eq_spec() ==> forall|j: int|
                    0 <= j < i ==> !(#[trigger] self.cache@[j]).eq_spec(id),
            decreases self.cache@.len() - i,
        {
            if self.cache[i] == *id {
                proof {
                    if T::obeys_eq_spec() {
                        self.lemma_slot_in_view(i as int);
                    }
                }
                return true;
            }
            i += 1;
        }
        proof {
            if T::obeys_eq_spec() && remembers(self@, *id) {
                let k = choose|k: int| 0 <= k < self@.len() && #[trigger] self@[k].eq_spec(id);
                self.lemma_view_in_slot(k);
            }
        }
        false
    }

    proof fn lemma_slot_in_view(&self, j: int)
        requires
            self.wf(),
            0 <= j < self.cache@.len(),
        ensures
            exists|k: int| 0 <= k < self@.len() && #[trigger] self@[k] == self.cache@[j],
    {
        if self.cache@.len() < self.cap {
            assert(self@[j] == self.cache@[j]);
        } else if j >= self.idx {
            assert(self@[j - self.idx] == self.cache@[j]);
        } else {
            assert(self@[j + self.cache@.len() - self.idx] == self.cache@[j]);
        }
    }

    proof fn lemma_view_in_slot(&self, k: int)
        requires
            self.wf(),
            0 <= k < self@.len(),
        ensures
            exists|j: int| 0 <= j < self.cache@.len() && #[trigger] self.cache@[j] == self@[k],
    {
        if self.cache@.len() < self.cap {
            assert(self.cache@[k] == self@[k]);
        } else if k < self.cache@.len() - self.idx {
            assert(self.cache@[k + self.idx] == self@[k]);
        } else {
            assert(self.cache@[k - (self.cache@.len() - self.idx)] == self@[k]);
        }
    }
}

/// Filtering and mapping a sequence that has one more item at its end
/// filters and maps that item after the others.
pub proof fn lemma_filter_map_push<A, B>(
    s: Seq<A>,
    x: A,
    keep: spec_fn(A) -> bool,
    f: spec_fn(A) -> B,
)
    ensures
        s.push(x).filter(keep).map_values(f) == if keep(x) {
            s.filter(keep).map_values(f).push(f(x))
        } else {
            s.filter(keep).map_values(f)
        },
{
    reveal(Seq::filter);
    assert(s.push(x).drop_last() =~= s);
    if keep(x) {
        assert(s.filter(keep).push(x).map_values(f) =~= s.filter(keep).map_values(f).push(f(x)));
    }
}

} // verus!
