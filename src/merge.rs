//! The order in which files are joined by a merge.

use vstd::prelude::*;

verus! {

/// The entries of `s` below `n`, in order.
pub open spec fn below(s: Seq<usize>, n: usize) -> Seq<usize>
    decreases s.len(),
{
    if s.len() == 0 {
        s
    } else if s.last() < n {
        below(s.drop_last(), n).push(s.last())
    } else {
        below(s.drop_last(), n)
    }
}

/// The indices below `k` that `s` lacks, ascending.
pub open spec fn missing(s: Seq<usize>, k: nat) -> Seq<usize>
    decreases k,
{
    if k == 0 {
        seq![]
    } else if s.contains((k - 1) as usize) {
        missing(s, (k - 1) as nat)
    } else {
        missing(s, (k - 1) as nat).push((k - 1) as usize)
    }
}

/// Brings a merge order in line with `file_count` files: indices of files
/// that are gone leave, the order of the others is kept, and files not yet
/// in it are appended in index order.
pub fn sync_merge_order(order: &mut Vec<usize>, file_count: usize)
    ensures
        final(order)@ == below(old(order)@, file_count) + missing(below(old(order)@, file_count), file_count as nat),
{
    let ghost o = order@;
    let mut kept: Vec<usize> = Vec::new();
    let mut i: usize = 0;
    while i < order.len()
        invariant
            order@ == o,
            i <= o.len(),
            kept@ == below(o.take(i as int), file_count),
        decreases o.len() - i,
    {
        assert(o.take(i as int + 1).drop_last() =~= o.take(i as int));
        if order[i] < file_count {
            kept.push(order[i]);
        }
        i = i + 1;
    }
    assert(o.take(i as int) =~= o);
    let ghost k0 = kept@;
    let mut added: Vec<usize> = Vec::new();
    let mut j: usize = 0;
    while j < file_count
        invariant
            kept@ == k0,
            j <= file_count,
            added@ == missing(k0, j as nat),
        decreases file_count - j,
    {
        let mut found = false;
        let mut k: usize = 0;
        while k < kept.len()
            invariant
                kept@ == k0,
                k <= k0.len(),
                found == exists|m: int| 0 <= m < k && k0[m] == j,
            decreases k0.len() - k,
        {
            if kept[k] == j {
                found = true;
            }
            k = k + 1;
        }
        if !found {
            added.push(j);
        }
        proof {
            if found {
                let m = choose|m: int| 0 <= m < k && k0[m] == j;
                assert(k0.contains(j));
            } else {
                assert(!k0.contains(j));
            }
        }
        j = j + 1;
    }
    kept.append(&mut added);
    *order = kept;
}

/// Moves the entry at `pos` one place earlier; nothing happens at the
/// front or past the end.
pub fn merge_move_up(order: &mut Vec<usize>, pos: usize)
    ensures
        0 < pos < old(order)@.len() ==> final(order)@ == old(order)@.update(pos as int, old(order)@[pos - 1]).update(
            pos - 1,
            old(order)@[pos as int],
        ),
        !(0 < pos < old(order)@.len()) ==> final(order)@ == old(order)@,
{
    if pos > 0 && pos < order.len() {
        let a = order[pos];
        let b = order[pos - 1];
        order.set(pos, b);
        order.set(pos - 1, a);
    }
}

/// Moves the entry at `pos` one place later; nothing happens at the back
/// or past the end.
pub fn merge_move_down(order: &mut Vec<usize>, pos: usize)
    ensures
        pos + 1 < old(order)@.len() ==> final(order)@ == old(order)@.update(pos as int, old(order)@[pos + 1]).update(
            pos + 1,
            old(order)@[pos as int],
        ),
        !(pos + 1 < old(order)@.len()) ==> final(order)@ == old(order)@,
{
    if order.len() > 0 && pos < order.len() - 1 {
        let a = order[pos];
        let b = order[pos + 1];
        order.set(pos, b);
        order.set(pos + 1, a);
    }
}

} // verus!
