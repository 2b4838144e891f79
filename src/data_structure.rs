use vstd::prelude::*;

verus! {

/// The sum of `s` from the left, wrapping at the bounds of `i32`.
pub open spec fn wrapping_sum_spec(s: Seq<i32>) -> i32
    decreases s.len(),
{
    if s.len() == 0 {
        0
    } else {
        wrapping_sum_spec(s.drop_last()).wrapping_add(s.last())
    }
}

/// The sum of `s` from the left, or `None` once a partial sum leaves `i32`.
pub open spec fn checked_sum_spec(s: Seq<i32>) -> Option<i32>
    decreases s.len(),
{
    if s.len() == 0 {
        Some(0)
    } else {
        match checked_sum_spec(s.drop_last()) {
            Some(acc) => acc.checked_add(s.last()),
            None => None,
        }
    }
}

proof fn lemma_overflow_sticks(s: Seq<i32>, j: int)
    requires
        0 <= j <= s.len(),
        checked_sum_spec(s.subrange(0, j)) is None,
    ensures
        checked_sum_spec(s) is None,
    decreases s.len(),
{
    if s.len() == j {
        assert(s.subrange(0, j) =~= s);
    } else {
        assert(s.drop_last().subrange(0, j) =~= s.subrange(0, j));
        lemma_overflow_sticks(s.drop_last(), j);
    }
}

/// Sums `numbers` in order, wrapping on overflow.
pub fn wrapping_sum(numbers: &Vec<i32>) -> (r: i32)
    ensures
        r == wrapping_sum_spec(numbers@),
{
    let mut acc: i32 = 0;
    let mut i: usize = 0;
    while i < numbers.len()
        invariant
            i <= numbers@.len(),
            acc == wrapping_sum_spec(numbers@.subrange(0, i as int)),
        decreases numbers@.len() - i,
    {
        assert(numbers@.subrange(0, i as int + 1).drop_last() =~= numbers@.subrange(0, i as int));
        acc = acc.wrapping_add(numbers[i]);
        i = i + 1;
    }
    assert(numbers@.subrange(0, i as int) =~= numbers@);
    acc
}

/// Sums `keys` in order, or `None` when a partial sum overflows; for a
/// map's keys, pass them in ascending order.
pub fn checked_sum(keys: &Vec<i32>) -> (r: Option<i32>)
    ensures
        r == checked_sum_spec(keys@),
{
    let mut acc: i32 = 0;
    let mut i: usize = 0;
    while i < keys.len()
        invariant
            i <= keys@.len(),
            checked_sum_spec(keys@.subrange(0, i as int)) == Some(acc),
        decreases keys@.len() - i,
    {
        assert(keys@.subrange(0, i as int + 1).drop_last() =~= keys@.subrange(0, i as int));
        match acc.checked_add(keys[i]) {
            Some(next) => {
                acc = next;
            },
            None => {
                proof {
                    lemma_overflow_sticks(keys@, i as int + 1);
                }
                return None;
            },
        }
        i = i + 1;
    }
    assert(keys@.subrange(0, i as int) =~= keys@);
    Some(acc)
}

} // verus!
