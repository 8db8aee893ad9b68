//! Removing the fireflies that died this frame.
use vstd::prelude::*;

verus! {

/// Whether the item at position `i` is among the `dead` positions.
pub open spec fn doomed(dead: Seq<usize>, i: int) -> bool {
    exists|k: int| 0 <= k < dead.len() && dead[k] == i
}

/// The items whose positions are not in `dead`, in their original order.
pub open spec fn survivors<T>(s: Seq<T>, dead: Seq<usize>) -> Seq<T>
    decreases s.len(),
{
    if s.len() == 0 {
        s
    } else {
        let rest = survivors(s.drop_last(), dead);
        if doomed(dead, s.len() - 1) {
            rest
        } else {
            rest.push(s.last())
        }
    }
}

/// The items whose positions are in `dead`, from the highest position down.
pub open spec fn casualties<T>(s: Seq<T>, dead: Seq<usize>) -> Seq<T>
    decreases s.len(),
{
    if s.len() == 0 {
        Seq::empty()
    } else {
        let rest = casualties(s.drop_last(), dead);
        if doomed(dead, s.len() - 1) {
            seq![s.last()] + rest
        } else {
            rest
        }
    }
}

/// Removes the items at the `dead` positions (duplicates and positions past
/// the end ignored), keeping the order of the others, and returns the removed
/// items from the highest position down: the order in which each one's
/// explosion and replacement follow.
pub fn remove_dead<T>(items: &mut Vec<T>, dead: &[usize]) -> (removed: Vec<T>)
    ensures
        final(items)@ == survivors(old(items)@, dead@),
        removed@ == casualties(old(items)@, dead@),
        final(items)@.len() + removed@.len() == old(items)@.len(),
{
    let n = items.len();
    let ghost s = items@;
    let mut mask: Vec<bool> = Vec::new();
    while mask.len() < n
        invariant
            mask@.len() <= n,
            forall|i: int| 0 <= i < mask@.len() ==> !mask@[i],
        decreases n - mask@.len(),
    {
        mask.push(false);
    }
    let mut k: usize = 0;
    while k < dead.len()
        invariant
            k <= dead@.len(),
            mask@.len() == n,
            forall|i: int|
                0 <= i < n ==> (mask@[i] <==> exists|j: int| 0 <= j < k && dead@[j] == i),
        decreases dead@.len() - k,
    {
        let d = dead[k];
        if d < n {
            mask[d] = true;
        }
        proof {
            assert forall|i: int| 0 <= i < n implies (mask@[i] <==> exists|j: int|
                0 <= j < k + 1 && dead@[j] == i) by {
                if dead@[k as int] == i {
                    assert(0 <= k < k + 1 && dead@[k as int] == i);
                }
            }
        }
        k = k + 1;
    }
    let mut kept_rev: Vec<T> = Vec::new();
    let mut removed: Vec<T> = Vec::new();
    while items.len() > 0
        invariant
            mask@.len() == n,
            n == s.len(),
            forall|i: int| 0 <= i < n ==> (mask@[i] <==> doomed(dead@, i)),
            items@.len() <= n,
            items@ == s.take(items@.len() as int),
            survivors(s, dead@) == survivors(items@, dead@) + kept_rev@.reverse(),
            casualties(s, dead@) == removed@ + casualties(items@, dead@),
            items@.len() + kept_rev@.len() + removed@.len() == n,
        decreases items@.len(),
    {
        let ghost before = items@;
        let i = items.len() - 1;
        let item = items.pop().unwrap();
        proof {
            assert(before.drop_last() == items@);
            assert(items@ =~= s.take(items@.len() as int));
        }
        if mask[i] {
            proof {
                assert(seq![item] + casualties(items@, dead@) == casualties(before, dead@));
                assert(removed@.push(item) + casualties(items@, dead@) =~= removed@ + (seq![item]
                    + casualties(items@, dead@)));
            }
            removed.push(item);
        } else {
            let ghost kr = kept_rev@;
            kept_rev.push(item);
            proof {
                assert(survivors(before, dead@) == survivors(items@, dead@).push(item));
                assert(kept_rev@.reverse() =~= seq![item] + kr.reverse());
                assert(survivors(items@, dead@) + kept_rev@.reverse() =~= survivors(items@, dead@).push(item) + kr.reverse());
            }
        }
    }
    proof {
        assert(survivors(items@, dead@) =~= Seq::<T>::empty());
        assert(casualties(items@, dead@) =~= Seq::<T>::empty());
        assert(survivors(s, dead@) =~= kept_rev@.reverse());
        assert(casualties(s, dead@) =~= removed@);
    }
    let ghost target = kept_rev@.reverse();
    while kept_rev.len() > 0
        invariant
            items@ + kept_rev@.reverse() == target,
        decreases kept_rev@.len(),
    {
        let ghost kr = kept_rev@;
        let item = kept_rev.pop().unwrap();
        proof {
            assert(kr.reverse() =~= seq![item] + kept_rev@.reverse());
        }
        let ghost it = items@;
        items.push(item);
        proof {
            assert(items@ + kept_rev@.reverse() =~= it + (seq![item] + kept_rev@.reverse()));
        }
    }
    proof {
        assert(kept_rev@.reverse() =~= Seq::<T>::empty());
        assert(items@ =~= target);
    }
    removed
}

/// Culling loses and invents nothing: the survivors and the casualties
/// together are exactly the original items, each as often as before.
pub proof fn lemma_cull_partitions<T>(s: Seq<T>, dead: Seq<usize>)
    ensures
        survivors(s, dead).to_multiset().add(casualties(s, dead).to_multiset()) =~= s.to_multiset(),
    decreases s.len(),
{
    broadcast use vstd::seq_lib::group_to_multiset_ensures, vstd::multiset::group_multiset_axioms;

    if s.len() == 0 {
        assert(survivors(s, dead) =~= Seq::<T>::empty());
    } else {
        let init = s.drop_last();
        lemma_cull_partitions(init, dead);
        assert(s =~= init.push(s.last()));
        if doomed(dead, s.len() - 1) {
            vstd::seq_lib::lemma_multiset_commutative(seq![s.last()], casualties(init, dead));
            assert(seq![s.last()] =~= Seq::<T>::empty().push(s.last()));
        }
    }
}

/// With no deaths every item survives and nothing is removed.
pub proof fn lemma_cull_nothing<T>(s: Seq<T>)
    ensures
        survivors(s, Seq::<usize>::empty()) == s,
        casualties(s, Seq::<usize>::empty()) == Seq::<T>::empty(),
    decreases s.len(),
{
    if s.len() > 0 {
        lemma_cull_nothing(s.drop_last());
        assert(s.drop_last().push(s.last()) =~= s);
    }
}

/// Every casualty is an item that stood at one of the dead positions, and
/// every item at a dead position is among the casualties; likewise the
/// survivors are exactly the items at the other positions.
pub proof fn lemma_cull_membership<T>(s: Seq<T>, dead: Seq<usize>, i: int)
    requires
        0 <= i < s.len(),
    ensures
        doomed(dead, i) ==> casualties(s, dead).contains(s[i]),
        !doomed(dead, i) ==> survivors(s, dead).contains(s[i]),
    decreases s.len(),
{
    if i < s.len() - 1 {
        lemma_cull_membership(s.drop_last(), dead, i);
        let init = s.drop_last();
        assert(init[i] == s[i]);
        if doomed(dead, i) {
            let k = choose|k: int| 0 <= k < casualties(init, dead).len() && casualties(init, dead)[k] == s[i];
            if doomed(dead, s.len() - 1) {
                assert((seq![s.last()] + casualties(init, dead))[k + 1] == s[i]);
            }
        } else {
            let k = choose|k: int| 0 <= k < survivors(init, dead).len() && survivors(init, dead)[k] == s[i];
            if !doomed(dead, s.len() - 1) {
                assert(survivors(init, dead).push(s.last())[k] == s[i]);
            }
        }
    } else {
        if doomed(dead, i) {
            assert((seq![s.last()] + casualties(s.drop_last(), dead))[0] == s[i]);
        } else {
            let sv = survivors(s.drop_last(), dead).push(s.last());
            assert(sv[sv.len() - 1] == s[i]);
        }
    }
}

/// The positions, below `n`, that `dead` names.
pub open spec fn doomed_positions(n: int, dead: Seq<usize>) -> Set<int> {
    Set::new(|i: int| 0 <= i < n && doomed(dead, i))
}

/// Each dead firefly goes once, however often its position is named, and
/// positions past the end remove nothing: there are as many casualties as
/// distinct dead positions on the list, and the rest survive.
pub proof fn lemma_cull_count<T>(s: Seq<T>, dead: Seq<usize>)
    ensures
        doomed_positions(s.len() as int, dead).finite(),
        casualties(s, dead).len() == doomed_positions(s.len() as int, dead).len(),
        survivors(s, dead).len() + casualties(s, dead).len() == s.len(),
    decreases s.len(),
{
    let n = s.len() as int;
    if n == 0 {
        assert(doomed_positions(0, dead) =~= Set::<int>::empty());
    } else {
        let init = s.drop_last();
        lemma_cull_count(init, dead);
        let prev = doomed_positions(n - 1, dead);
        if doomed(dead, n - 1) {
            assert(doomed_positions(n, dead) =~= prev.insert(n - 1));
            assert(!prev.contains(n - 1));
        } else {
            assert(doomed_positions(n, dead) =~= prev);
        }
    }
}

/// Growing the list by one item at position `n`: if `n` is dead the item
/// becomes the first casualty (casualties run from the highest position
/// down) and the survivors are unchanged; otherwise it joins the end of the
/// survivors (which keep their order) and the casualties are unchanged. With
/// no items there are neither survivors nor casualties.
pub proof fn lemma_cull_push<T>(s: Seq<T>, dead: Seq<usize>, item: T)
    ensures
        survivors(Seq::<T>::empty(), dead) == Seq::<T>::empty(),
        casualties(Seq::<T>::empty(), dead) == Seq::<T>::empty(),
        doomed(dead, s.len() as int) ==> casualties(s.push(item), dead) == seq![item] + casualties(
            s,
            dead,
        ) && survivors(s.push(item), dead) == survivors(s, dead),
        !doomed(dead, s.len() as int) ==> survivors(s.push(item), dead) == survivors(
            s,
            dead,
        ).push(item) && casualties(s.push(item), dead) == casualties(s, dead),
{
    assert(s.push(item).drop_last() =~= s);
    assert(s.push(item).last() == item);
}

} // verus!
