//! The display order of tasks: ascending creation instant, and among equal
//! instants the order in which the tasks were stored.

use vstd::prelude::*;
use crate::task::{Task, TaskModel};

verus! {

/// Creation instants of the tasks, in storage order.
pub open spec fn created_keys(ts: Seq<TaskModel>) -> Seq<i64> {
    ts.map_values(|t: TaskModel| t.created_at.millis)
}

/// Index `i` comes before index `j`: an earlier instant, or the same instant
/// and an earlier place in storage.
pub open spec fn comes_before(keys: Seq<i64>, i: int, j: int) -> bool {
    keys[i] < keys[j] || (keys[i] == keys[j] && i < j)
}

/// Where an item with instant `k` goes in `order`: after every leading entry
/// whose instant is at most `k`.
pub open spec fn insert_pos(keys: Seq<i64>, order: Seq<int>, k: i64) -> int
    decreases order.len(),
{
    if order.len() == 0 {
        0
    } else if keys[order[0]] > k {
        0
    } else {
        1 + insert_pos(keys, order.drop_first(), k)
    }
}

/// The indices of `keys` in display order: each index in turn is placed
/// after all earlier ones with an instant at most its own.
pub open spec fn by_creation(keys: Seq<i64>) -> Seq<int>
    decreases keys.len(),
{
    if keys.len() == 0 {
        Seq::empty()
    } else {
        let prev = by_creation(keys.drop_last());
        prev.insert(insert_pos(keys, prev, keys.last()), keys.len() - 1)
    }
}

/// `order` lists each index below `n` exactly once.
pub open spec fn is_permutation(order: Seq<int>, n: int) -> bool {
    &&& order.len() == n
    &&& forall|a: int| 0 <= a < n ==> 0 <= #[trigger] order[a] < n
    &&& forall|a: int, b: int| 0 <= a < b < n ==> order[a] != order[b]
}

/// Every index below `n` occurs in `order`.
pub open spec fn covers(order: Seq<int>, n: int) -> bool {
    forall|i: int| 0 <= i < n ==> #[trigger] order.contains(i)
}

/// Along `order`, each index comes before the next.
pub open spec fn ascending(keys: Seq<i64>, order: Seq<int>) -> bool {
    forall|a: int, b: int|
        0 <= a < b < order.len() ==> comes_before(keys, #[trigger] order[a], #[trigger] order[b])
}

proof fn lemma_insert_pos(keys: Seq<i64>, order: Seq<int>, k: i64)
    requires
        forall|a: int| 0 <= a < order.len() ==> 0 <= #[trigger] order[a] < keys.len(),
        ascending(keys, order),
    ensures
        0 <= insert_pos(keys, order, k) <= order.len(),
        forall|a: int|
            0 <= a < insert_pos(keys, order, k) ==> keys[#[trigger] order[a]] <= k,
        forall|a: int|
            insert_pos(keys, order, k) <= a < order.len() ==> keys[#[trigger] order[a]] > k,
    decreases order.len(),
{
    if order.len() > 0 {
        let rest = order.drop_first();
        assert forall|a: int, b: int| 0 <= a < b < rest.len() implies comes_before(
            keys,
            #[trigger] rest[a],
            #[trigger] rest[b],
        ) by {
            assert(rest[a] == order[a + 1] && rest[b] == order[b + 1]);
        }
        assert forall|a: int| 0 <= a < rest.len() implies 0 <= #[trigger] rest[a] < keys.len() by {
            assert(rest[a] == order[a + 1]);
        }
        lemma_insert_pos(keys, rest, k);
        if keys[order[0]] > k {
            assert forall|a: int| 0 <= a < order.len() implies keys[#[trigger] order[a]] > k by {
                if a > 0 {
                    assert(comes_before(keys, order[0], order[a]));
                }
            }
        } else {
            assert forall|a: int|
                0 <= a < insert_pos(keys, order, k) implies keys[#[trigger] order[a]] <= k by {
                if a > 0 {
                    assert(order[a] == rest[a - 1]);
                }
            }
            assert forall|a: int|
                insert_pos(keys, order, k) <= a < order.len() implies keys[#[trigger] order[a]]
                > k by {
                assert(order[a] == rest[a - 1]);
            }
        }
    }
}

/// The display order lists every task exactly once, by ascending creation
/// instant, and keeps storage order among tasks created at the same instant.
pub proof fn lemma_by_creation(keys: Seq<i64>)
    ensures
        is_permutation(by_creation(keys), keys.len() as int),
        covers(by_creation(keys), keys.len() as int),
        ascending(keys, by_creation(keys)),
    decreases keys.len(),
{
    let n = keys.len() as int;
    if n > 0 {
        let init = keys.drop_last();
        lemma_by_creation(init);
        let prev = by_creation(init);
        let k = keys.last();
        assert forall|a: int, b: int| 0 <= a < b < prev.len() implies comes_before(
            keys,
            #[trigger] prev[a],
            #[trigger] prev[b],
        ) by {
            assert(comes_before(init, prev[a], prev[b]));
        }
        lemma_insert_pos(keys, prev, k);
        let p = insert_pos(keys, prev, k);
        let order = prev.insert(p, n - 1);
        assert(order == by_creation(keys));
        assert forall|a: int| 0 <= a < n implies 0 <= #[trigger] order[a] < n by {
            if a > p {
                assert(order[a] == prev[a - 1]);
            }
        }
        assert forall|a: int, b: int| 0 <= a < b < n implies order[a] != order[b] by {
            if a > p {
                assert(order[a] == prev[a - 1]);
            }
            if b > p {
                assert(order[b] == prev[b - 1]);
            }
        }
        assert forall|i: int| 0 <= i < n implies #[trigger] order.contains(i) by {
            if i == n - 1 {
                assert(order[p] == i);
            } else {
                assert(prev.contains(i));
                let a0 = choose|a: int| 0 <= a < prev.len() && prev[a] == i;
                if a0 < p {
                    assert(order[a0] == i);
                } else {
                    assert(order[a0 + 1] == i);
                }
            }
        }
        assert forall|a: int, b: int| 0 <= a < b < n implies comes_before(
            keys,
            #[trigger] order[a],
            #[trigger] order[b],
        ) by {
            if b < p {
            } else if b == p {
                assert(keys[order[a]] <= k);
            } else if a < p {
                assert(order[b] == prev[b - 1]);
            } else if a == p {
                assert(order[b] == prev[b - 1]);
                assert(keys[prev[b - 1]] > k);
            } else {
                assert(order[a] == prev[a - 1]);
                assert(order[b] == prev[b - 1]);
            }
        }
    }
}

/// The indices of `tasks` in display order.
pub fn creation_order(tasks: &Vec<Task>) -> (r: Vec<usize>)
    ensures
        r@.map_values(|i: usize| i as int) == by_creation(created_keys(tasks@.map_values(|t: Task| t@))),
{
    let ghost keys = created_keys(tasks@.map_values(|t: Task| t@));
    let mut order: Vec<usize> = Vec::new();
    let mut i: usize = 0;
    while i < tasks.len()
        invariant
            0 <= i <= tasks.len(),
            keys.len() == tasks.len(),
            forall|m: int| 0 <= m < tasks.len() ==> #[trigger] keys[m] == tasks[m].created_at.millis,
            order@.map_values(|x: usize| x as int) == by_creation(keys.take(i as int)),
        decreases tasks.len() - i,
    {
        let ghost ki = keys.take(i as int + 1);
        let ghost prev = order@.map_values(|x: usize| x as int);
        assert(ki.drop_last() =~= keys.take(i as int));
        proof {
            lemma_by_creation(keys.take(i as int));
        }
        let k = tasks[i].created_at.millis;
        let mut j: usize = 0;
        assert(prev.skip(0) =~= prev);
        while j < order.len() && tasks[order[j]].created_at.millis <= k
            invariant
                0 <= j <= order.len(),
                order.len() == prev.len(),
                prev == order@.map_values(|x: usize| x as int),
                is_permutation(prev, i as int),
                i < tasks.len(),
                keys.len() == tasks.len(),
                forall|m: int| 0 <= m < tasks.len() ==> #[trigger] keys[m] == tasks[m].created_at.millis,
                ki == keys.take(i as int + 1),
                k == ki.last(),
                insert_pos(ki, prev, k) == j + insert_pos(ki, prev.skip(j as int), k),
            decreases order.len() - j,
        {
            assert(prev.skip(j as int).drop_first() =~= prev.skip(j as int + 1));
            assert(prev.skip(j as int)[0] == prev[j as int]);
            j = j + 1;
        }
        if j < order.len() {
            assert(prev.skip(j as int)[0] == prev[j as int]);
        } else {
            assert(prev.skip(j as int).len() == 0);
        }
        order.insert(j, i);
        assert(order@.map_values(|x: usize| x as int) =~= prev.insert(j as int, i as int));
        i = i + 1;
    }
    assert(keys.take(tasks.len() as int) =~= keys);
    order
}

} // verus!
