//! How many records a result may hold.
use vstd::prelude::*;

verus! {

/// The sum of some sizes.
pub open spec fn total(sizes: Seq<u64>) -> nat
    decreases sizes.len(),
{
    if sizes.len() == 0 {
        0
    } else {
        total(sizes.drop_last()) + sizes.last() as nat
    }
}

/// Whether some sizes fit into a budget. The largest budget admits any sum.
pub open spec fn fits(sizes: Seq<u64>, budget: u64) -> bool {
    total(sizes) <= budget || budget == u64::MAX
}

/// How many of the first sizes fit into a budget together.
pub open spec fn fitting(sizes: Seq<u64>, budget: u64) -> nat
    decreases sizes.len(),
{
    if sizes.len() == 0 {
        0
    } else if fitting(sizes.drop_last(), budget) == sizes.len() - 1 && fits(sizes, budget) {
        sizes.len()
    } else {
        fitting(sizes.drop_last(), budget)
    }
}

/// More sizes never sum up to less.
pub proof fn lemma_total_grows(sizes: Seq<u64>, count: int)
    requires
        0 <= count <= sizes.len(),
    ensures
        total(sizes.subrange(0, count)) <= total(sizes),
    decreases sizes.len(),
{
    if count < sizes.len() {
        lemma_total_grows(sizes.drop_last(), count);
        assert(sizes.drop_last().subrange(0, count) =~= sizes.subrange(0, count));
    } else {
        assert(sizes.subrange(0, count) =~= sizes);
    }
}

/// The sizes that are counted as fitting do fit, and with the next one they would not.
pub proof fn lemma_fitting(sizes: Seq<u64>, budget: u64)
    ensures
        fitting(sizes, budget) <= sizes.len(),
        fits(sizes.subrange(0, fitting(sizes, budget) as int), budget),
        fitting(sizes, budget) < sizes.len() ==> !fits(
            sizes.subrange(0, fitting(sizes, budget) as int + 1),
            budget,
        ),
    decreases sizes.len(),
{
    let count = fitting(sizes, budget);
    if sizes.len() > 0 {
        let shorter = sizes.drop_last();
        lemma_fitting(shorter, budget);
        if count == sizes.len() {
            assert(sizes.subrange(0, count as int) =~= sizes);
        } else {
            assert(shorter.subrange(0, count as int) =~= sizes.subrange(0, count as int));
            if count == sizes.len() - 1 {
                assert(sizes.subrange(0, count as int + 1) =~= sizes);
            } else {
                assert(shorter.subrange(0, count as int + 1) =~= sizes.subrange(
                    0,
                    count as int + 1,
                ));
            }
        }
    }
}

/// A count up to which sizes fit and after which they do not is the count that fits.
pub proof fn lemma_fitting_is(sizes: Seq<u64>, budget: u64, count: int)
    requires
        0 <= count <= sizes.len(),
        fitting(sizes.subrange(0, count), budget) == count,
        count < sizes.len() ==> !fits(sizes.subrange(0, count + 1), budget),
    ensures
        fitting(sizes, budget) == count,
    decreases sizes.len(),
{
    if count == sizes.len() {
        assert(sizes.subrange(0, count) =~= sizes);
    } else {
        let shorter = sizes.drop_last();
        assert(shorter.subrange(0, count) =~= sizes.subrange(0, count));
        if count < shorter.len() {
            assert(shorter.subrange(0, count + 1) =~= sizes.subrange(0, count + 1));
        } else {
            assert(sizes.subrange(0, count + 1) =~= sizes);
        }
        lemma_fitting_is(shorter, budget, count);
    }
}

/// All of the sizes that fit do fit once more.
pub proof fn lemma_fitting_again(sizes: Seq<u64>, budget: u64)
    ensures
        fitting(sizes, budget) <= sizes.len(),
        fitting(sizes.subrange(0, fitting(sizes, budget) as int), budget) == fitting(sizes, budget),
    decreases sizes.len(),
{
    lemma_fitting(sizes, budget);
    let count = fitting(sizes, budget) as int;
    if count == sizes.len() {
        assert(sizes.subrange(0, count) =~= sizes);
    } else {
        let shorter = sizes.drop_last();
        lemma_fitting_again(shorter, budget);
        assert(shorter.subrange(0, count) =~= sizes.subrange(0, count));
    }
}

/// How many of the first `limit` sizes fit into a budget together.
pub open spec fn kept_count(sizes: Seq<u64>, limit: nat, budget: u64) -> nat {
    fitting(
        sizes.subrange(
            0,
            if limit <= sizes.len() {
                limit as int
            } else {
                sizes.len() as int
            },
        ),
        budget,
    )
}

/// The sum of some sizes, or the largest number where it is larger.
pub open spec fn capped(amount: nat) -> u64 {
    if amount <= u64::MAX {
        amount as u64
    } else {
        u64::MAX
    }
}

/// Counts how many of the first `limit` sizes fit into a budget together, and sums those up.
pub fn count_fitting(sizes: &Vec<u64>, limit: usize, budget: u64) -> (result: (usize, u64))
    ensures
        result.0 == kept_count(sizes@, limit as nat, budget),
        result.0 <= sizes@.len(),
        result.1 == capped(total(sizes@.subrange(0, result.0 as int))),
{
    let bound: usize = if limit <= sizes.len() {
        limit
    } else {
        sizes.len()
    };
    let ghost shown = sizes@.subrange(0, bound as int);
    let mut used: u64 = 0;
    let mut i: usize = 0;
    assert(shown.subrange(0, 0) =~= Seq::<u64>::empty());
    while i < bound
        invariant
            i <= bound <= sizes@.len(),
            shown == sizes@.subrange(0, bound as int),
            bound == (if limit <= sizes@.len() {
                limit as int
            } else {
                sizes@.len() as int
            }),
            fitting(shown.subrange(0, i as int), budget) == i,
            used == capped(total(shown.subrange(0, i as int))),
        decreases bound - i,
    {
        let size: u64 = sizes[i];
        let ghost next = shown.subrange(0, i + 1);
        assert(next.drop_last() =~= shown.subrange(0, i as int));
        assert(next.last() == size);
        let sum: u64 = used.saturating_add(size);
        assert(sum == capped(total(next)));
        if sum > budget {
            proof {
                lemma_fitting_is(shown, budget, i as int);
                assert(shown.subrange(0, i as int) =~= sizes@.subrange(0, i as int));
            }
            return (i, used);
        }
        used = sum;
        i = i + 1;
    }
    proof {
        assert(shown.subrange(0, i as int) =~= shown);
        lemma_fitting_is(shown, budget, i as int);
    }
    (i, used)
}

/// The larger of two numbers.
pub open spec fn larger(left: int, right: int) -> int {
    if left >= right {
        left
    } else {
        right
    }
}

/// The smaller of two numbers.
pub open spec fn smaller(left: int, right: int) -> int {
    if left <= right {
        left
    } else {
        right
    }
}

/// The length of the JSON array of elements with the given lengths: the elements, the commas
/// between them and the brackets.
pub open spec fn array_bytes(sizes: Seq<u64>) -> u64 {
    capped(
        total(sizes) + 2 + (if sizes.len() > 0 {
            (sizes.len() - 1) as nat
        } else {
            0
        }),
    )
}

} // verus!
