//! The store that owns every item and monster of the game. Each one is known
//! by a handle that the store hands out and never hands out again.

use vstd::prelude::*;

use crate::rnd::{rnd, Dice};

verus! {

/// Owner of the game's things, known by handle.
pub struct ThingStore {
    live: Vec<u64>,
    next: u64,
}

impl ThingStore {
    /// The handles of the things the store owns now.
    pub closed spec fn things(&self) -> Seq<u64> {
        self.live@
    }

    /// How many handles the store has handed out so far.
    pub closed spec fn issued(&self) -> nat {
        self.next as nat
    }

    /// Every owned handle was handed out, and none is owned twice.
    pub closed spec fn wf(&self) -> bool {
        &&& self.live@.no_duplicates()
        &&& forall|i: int| 0 <= i < self.live@.len() ==> #[trigger] self.live@[i] < self.next
        &&& self.live@.len() <= i32::MAX
    }

    /// An empty store.
    pub fn new() -> (s: ThingStore)
        ensures
            s.wf(),
            s.things().len() == 0,
            s.issued() == 0,
    {
        ThingStore { live: Vec::new(), next: 0 }
    }

    /// Take ownership of a new thing and return its handle, one that the
    /// store does not own yet.
    pub fn new_item(&mut self) -> (h: u64)
        requires
            old(self).wf(),
            old(self).issued() < u64::MAX,
            old(self).things().len() < i32::MAX,
        ensures
            final(self).wf(),
            !old(self).things().contains(h),
            final(self).things() == old(self).things().push(h),
            final(self).issued() == old(self).issued() + 1,
    {
        let h = self.next;
        proof {
            assert forall|i: int| 0 <= i < self.live@.len() implies #[trigger] self.live@[i] != h by {}
        }
        self.live.push(h);
        self.next = self.next + 1;
        h
    }

    /// Drop the thing with handle `h`, if the store owns it. Returns whether
    /// it did.
    pub fn discard(&mut self, h: u64) -> (removed: bool)
        requires
            old(self).wf(),
        ensures
            final(self).wf(),
            removed == old(self).things().contains(h),
            final(self).issued() == old(self).issued(),
            final(self).things().len() == old(self).things().len() - (if removed { 1int } else { 0int }),
            forall|x: u64| #[trigger] final(self).things().contains(x) <==> old(self).things().contains(x) && x != h,
    {
        let ghost old_live = self.live@;
        let ghost old_next = self.next;
        let n = self.live.len();
        let mut i: usize = 0;
        while i < n
            invariant
                n == old_live.len(),
                self.live@ == old_live,
                self.next == old_next,
                old(self).live@ == old_live,
                old(self).next == old_next,
                old_live.no_duplicates(),
                forall|j: int| 0 <= j < old_live.len() ==> #[trigger] old_live[j] < old_next,
                old_live.len() <= i32::MAX,
                i <= n,
                forall|j: int| 0 <= j < i ==> #[trigger] old_live[j] != h,
            decreases n - i,
        {
            if self.live[i] == h {
                assert(old_live[i as int] == h);
                let _ = self.live.swap_remove(i);
                proof {
                    let u = self.live@;
                    let last = (n - 1) as int;
                    assert(u =~= old_live.update(i as int, old_live[last]).drop_last());
                    assert forall|x: u64| #[trigger] u.contains(x) <==> old_live.contains(x) && x != h by {
                        if u.contains(x) {
                            let j = choose|j: int| 0 <= j < u.len() && u[j] == x;
                            if j == i {
                                assert(old_live[last] == x);
                                assert(last != i);
                            } else {
                                assert(old_live[j] == x);
                            }
                        }
                        if old_live.contains(x) && x != h {
                            let j = choose|j: int| 0 <= j < old_live.len() && old_live[j] == x;
                            if j == last {
                                assert(u[i as int] == x);
                            } else {
                                assert(j != i);
                                assert(u[j] == x);
                            }
                        }
                    }
                    assert forall|a: int, b: int| 0 <= a < u.len() && 0 <= b < u.len() && a != b implies u[a] != u[b] by {
                        let oa = if a == i { last } else { a };
                        let ob = if b == i { last } else { b };
                        assert(u[a] == old_live[oa]);
                        assert(u[b] == old_live[ob]);
                    }
                    assert forall|j: int| 0 <= j < u.len() implies #[trigger] u[j] < self.next by {
                        let oj = if j == i { last } else { j };
                        assert(u[j] == old_live[oj]);
                    }
                }
                return true;
            }
            i = i + 1;
        }
        false
    }

    /// Drop every thing of the list `list`, in order. The store then owns
    /// what it owned before less the list's things; when the list names
    /// owned things, each once, it owns exactly that many fewer.
    pub fn free_list(&mut self, list: &Vec<u64>)
        requires
            old(self).wf(),
        ensures
            final(self).wf(),
            final(self).issued() == old(self).issued(),
            forall|x: u64| #[trigger] final(self).things().contains(x) <==> old(self).things().contains(x) && !list@.contains(x),
            list@.no_duplicates() && (forall|i: int| 0 <= i < list@.len() ==> old(self).things().contains(#[trigger] list@[i]))
                ==> final(self).things().len() == old(self).things().len() - list@.len(),
    {
        let ghost all_owned = list@.no_duplicates() && (forall|i: int| 0 <= i < list@.len() ==> old(self).things().contains(#[trigger] list@[i]));
        let mut i: usize = 0;
        while i < list.len()
            invariant
                i <= list@.len(),
                self.wf(),
                self.issued() == old(self).issued(),
                forall|x: u64| #[trigger] self.things().contains(x) <==> old(self).things().contains(x) && !list@.subrange(0, i as int).contains(x),
                all_owned == (list@.no_duplicates() && (forall|j: int| 0 <= j < list@.len() ==> old(self).things().contains(#[trigger] list@[j]))),
                all_owned ==> self.things().len() == old(self).things().len() - i,
            decreases list@.len() - i,
        {
            let h = list[i];
            let ghost before = self.things();
            proof {
                if all_owned {
                    assert(old(self).things().contains(list@[i as int]));
                    assert(!list@.subrange(0, i as int).contains(h)) by {
                        if list@.subrange(0, i as int).contains(h) {
                            let j = choose|j: int| 0 <= j < i && list@.subrange(0, i as int)[j] == h;
                            assert(list@[j] == list@[i as int]);
                        }
                    }
                    assert(before.contains(h));
                }
            }
            let _ = self.discard(h);
            proof {
                let pre = list@.subrange(0, i as int);
                let post = list@.subrange(0, i + 1);
                assert(post =~= pre.push(h));
                assert forall|x: u64| #[trigger] self.things().contains(x) <==> old(self).things().contains(x) && !post.contains(x) by {
                    assert(post.contains(x) <==> pre.contains(x) || x == h) by {
                        if post.contains(x) {
                            let j = choose|j: int| 0 <= j < post.len() && post[j] == x;
                            if j < pre.len() {
                                assert(pre[j] == x);
                            }
                        }
                        if pre.contains(x) {
                            let j = choose|j: int| 0 <= j < pre.len() && pre[j] == x;
                            assert(post[j] == x);
                        }
                        if x == h {
                            assert(post[i as int] == x);
                        }
                    }
                    assert(self.things().contains(x) <==> before.contains(x) && x != h);
                }
            }
            i = i + 1;
        }
        assert(list@.subrange(0, list@.len() as int) =~= list@);
    }

    /// How many things the store owns.
    pub fn allocated_count(&self) -> (n: i32)
        requires
            self.wf(),
        ensures
            n == self.things().len(),
    {
        self.live.len() as i32
    }
}

/// From index `i` on, the first index of `probs` whose cumulative chance is
/// above `roll`, or the length of `probs`.
pub open spec fn first_above(probs: Seq<i32>, roll: int, i: int) -> int
    decreases probs.len() - i,
{
    if i < 0 || i >= probs.len() {
        probs.len() as int
    } else if roll < probs[i] {
        i
    } else {
        first_above(probs, roll, i + 1)
    }
}

/// The entry of a table of cumulative chances (in percent) that the roll
/// `roll` picks: the first whose chance is above it, or the first entry when
/// none is.
pub open spec fn picked(probs: Seq<i32>, roll: int) -> int {
    let f = first_above(probs, roll, 0);
    if f < probs.len() { f } else { 0 }
}

/// The entry of the cumulative table `probs` that the roll `roll` picks
/// (see `picked`).
pub fn pick_by_roll(probs: &[i32], roll: i32) -> (i: usize)
    ensures
        i == picked(probs@, roll as int),
{
    let mut i: usize = 0;
    while i < probs.len()
        invariant
            i <= probs@.len(),
            first_above(probs@, roll as int, i as int) == first_above(probs@, roll as int, 0),
        decreases probs@.len() - i,
    {
        if roll < probs[i] {
            return i;
        }
        i = i + 1;
    }
    0
}

/// Pick an entry of the cumulative table `probs` with a roll of the dice
/// from 0 to 99.
pub fn pick_one(dice: &mut Dice, probs: &[i32]) -> (i: usize)
    ensures
        exists|roll: int| 0 <= roll < 100 && i == picked(probs@, roll),
{
    let roll = rnd(dice, 100);
    pick_by_roll(probs, roll)
}

/// The kind of a new item, as an index into the table of kinds `kinds`
/// (potion, scroll, food, weapon, armor, ring, stick): food when the hero
/// has gone more than three levels without finding any, else an entry of
/// `kinds` that a roll from 0 to 99 picks.
pub fn new_thing_kind(dice: &mut Dice, no_food: i32, kinds: &[i32]) -> (k: usize)
    ensures
        no_food > 3 ==> k == 2,
        no_food <= 3 ==> exists|roll: int| 0 <= roll < 100 && k == picked(kinds@, roll),
{
    if no_food > 3 {
        2
    } else {
        pick_one(dice, kinds)
    }
}

/// The numbers `0` to `n - 1` in order.
pub open spec fn identity_order(n: nat) -> Seq<i32> {
    Seq::new(n, |i: int| i as i32)
}

/// `s` with the entries at `a` and `b` swapped.
pub open spec fn swapped(s: Seq<i32>, a: int, b: int) -> Seq<i32> {
    s.update(a, s[b]).update(b, s[a])
}

/// The order after the first `k` steps of shuffling `s` of length `n`:
/// step `t` swaps the entry at `n - 1 - t` with the one at `taken[t]`.
pub open spec fn shuffled(s: Seq<i32>, n: int, taken: Seq<int>, k: int) -> Seq<i32>
    decreases k,
{
    if k <= 0 { s } else { swapped(shuffled(s, n, taken, k - 1), n - k, taken[k - 1]) }
}

/// Whether `s` holds each of `0` to `n - 1` exactly once.
pub open spec fn is_order_of(s: Seq<i32>, n: int) -> bool {
    &&& s.len() == n
    &&& forall|i: int| 0 <= i < n ==> 0 <= #[trigger] s[i] < n
    &&& forall|i: int, j: int| 0 <= i < j < n ==> s[i] != s[j]
}

/// A random order of `0` to `n - 1`: starting from them in order, for `i`
/// from `n` down to `1` the entry at `i - 1` is swapped with the one at a
/// draw from `[0, i)`.
pub fn set_order(dice: &mut Dice, n: usize) -> (v: Vec<i32>)
    requires
        n <= i32::MAX,
    ensures
        is_order_of(v@, n as int),
        exists|taken: Seq<int>| taken.len() == n && (forall|t: int| 0 <= t < n ==> 0 <= #[trigger] taken[t] < n - t)
            && v@ == shuffled(identity_order(n as nat), n as int, taken, n as int),
{
    let mut v: Vec<i32> = Vec::new();
    let mut i: usize = 0;
    while i < n
        invariant
            i <= n,
            n <= i32::MAX,
            v@ == identity_order(n as nat).subrange(0, i as int),
        decreases n - i,
    {
        v.push(i as i32);
        i = i + 1;
        assert(v@ =~= identity_order(n as nat).subrange(0, i as int));
    }
    assert(v@ =~= identity_order(n as nat));
    let ghost mut taken: Seq<int> = Seq::empty();
    let mut i: usize = n;
    while i > 0
        invariant
            i <= n,
            n <= i32::MAX,
            taken.len() == n - i,
            forall|t: int| 0 <= t < n - i ==> 0 <= #[trigger] taken[t] < n - t,
            v@ == shuffled(identity_order(n as nat), n as int, taken, n - i),
            is_order_of(v@, n as int),
        decreases i,
    {
        let r = rnd(dice, i as i32);
        let r = r as usize;
        let ghost before = v@;
        let a = v[i - 1];
        let b = v[r];
        v.set(i - 1, b);
        v.set(r, a);
        proof {
            let k = n - i + 1;
            let t2 = taken.push(r as int);
            lemma_shuffled_prefix(identity_order(n as nat), n as int, taken, t2, k - 1);
            assert(v@ =~= swapped(before, i - 1, r as int));
            taken = t2;
            assert forall|p: int, q: int| 0 <= p < q < n implies v@[p] != v@[q] by {
                assert(before[p] != before[q]);
                if p == i - 1 || p == r || q == i - 1 || q == r {
                    assert(before[i - 1] != before[r as int] || i - 1 == r);
                }
            }
        }
        i = i - 1;
    }
    v
}

proof fn lemma_shuffled_prefix(s: Seq<i32>, n: int, a: Seq<int>, b: Seq<int>, k: int)
    requires
        0 <= k <= a.len(),
        k <= b.len(),
        forall|t: int| 0 <= t < k ==> a[t] == b[t],
    ensures
        shuffled(s, n, a, k) == shuffled(s, n, b, k),
    decreases k,
{
    if k > 0 {
        lemma_shuffled_prefix(s, n, a, b, k - 1);
    }
}

} // verus!
