use vstd::prelude::*;

verus! {

/// How many decimal digits `n` is written with.
pub open spec fn num_digits(n: nat) -> nat
    decreases n,
{
    if n < 10 {
        1
    } else {
        1 + num_digits(n / 10)
    }
}

pub open spec fn pow10(k: nat) -> nat
    decreases k,
{
    if k == 0 {
        1
    } else {
        10 * pow10((k - 1) as nat)
    }
}

pub open spec fn abs(a: int) -> nat {
    if a < 0 {
        (-a) as nat
    } else {
        a as nat
    }
}

/// The number that the decimal text of `a` followed by that of `b` reads as.
pub open spec fn joined(a: int, b: nat) -> int {
    let m: int = (abs(a) * pow10(num_digits(b)) + b) as int;
    if a < 0 {
        -m
    } else {
        m
    }
}

/// The result is out of range, or the joined text is no number.
#[derive(Debug, Clone, Copy, PartialEq, Eq, Structural)]
pub enum AddError {
    Range,
}

proof fn lemma_pow10_split(i: nat, k: nat)
    requires
        i <= k,
    ensures
        pow10(k) == pow10(i) * pow10((k - i) as nat),
        pow10((k - i) as nat) >= 1,
    decreases k,
{
    if k == i {
        assert(pow10((k - i) as nat) == 1);
        assert(pow10(k) == pow10(i) * 1);
    } else {
        lemma_pow10_split(i, (k - 1) as nat);
        assert(pow10(k) == 10 * pow10((k - 1) as nat));
        assert(pow10((k - i) as nat) == 10 * pow10((k - 1 - i) as nat));
        assert(pow10(k) == pow10(i) * pow10((k - i) as nat)) by (nonlinear_arith)
            requires
                pow10(k) == 10 * pow10((k - 1) as nat),
                pow10((k - 1) as nat) == pow10(i) * pow10((k - 1 - i) as nat),
                pow10((k - i) as nat) == 10 * pow10((k - 1 - i) as nat),
        ;
    }
}

proof fn lemma_digits_bound(n: nat, d: nat)
    requires
        d >= 1,
        n < pow10(d),
    ensures
        1 <= num_digits(n) <= d,
    decreases n,
{
    if n >= 10 {
        assert(pow10(d) == 10 * pow10((d - 1) as nat));
        if d == 1 {
            assert(pow10(0) == 1);
        }
        assert(n / 10 < pow10((d - 1) as nat));
        lemma_digits_bound(n / 10, (d - 1) as nat);
    }
}

/// Writes `a` and then `b` in decimal, one after the other, and reads the
/// text back as one number: `bad_add(960, 110) == Ok(960110)`. A negative
/// `b` leaves a sign inside the text, which is no number.
pub fn bad_add(a: i32, b: i32) -> (r: Result<i32, AddError>)
    ensures
        b < 0 ==> r == Err::<i32, AddError>(AddError::Range),
        b >= 0 && i32::MIN <= joined(a as int, b as nat) <= i32::MAX ==> r == Ok::<i32, AddError>(
            joined(a as int, b as nat) as i32,
        ),
        b >= 0 && !(i32::MIN <= joined(a as int, b as nat) <= i32::MAX) ==> r == Err::<i32, AddError>(
            AddError::Range,
        ),
{
    if b < 0 {
        return Err(AddError::Range);
    }
    proof {
        reveal_with_fuel(pow10, 11);
        assert(pow10(10) == 10000000000);
        lemma_digits_bound(b as nat, 10);
    }
    let mut k: u32 = 1;
    let mut rest: i32 = b;
    while rest >= 10
        invariant
            0 <= rest <= b,
            1 <= k,
            num_digits(b as nat) == k - 1 + num_digits(rest as nat),
            num_digits(b as nat) <= 10,
            pow10(10) == 10000000000,
        decreases rest,
    {
        assert(num_digits(rest as nat) == 1 + num_digits((rest / 10) as nat));
        proof { lemma_digits_bound((rest / 10) as nat, 10); }
        rest = rest / 10;
        k = k + 1;
    }
    assert(num_digits(rest as nat) == 1);
    let ghost kk: nat = k as nat;
    let m0: i64 = if a < 0 { -(a as i64) } else { a as i64 };
    let mut m: i64 = m0;
    let mut i: u32 = 0;
    assert(pow10(0) == 1);
    while i < k
        invariant
            i <= k,
            k as nat == kk,
            b >= 0,
            kk == num_digits(b as nat),
            0 <= m0 <= 2147483648,
            m0 == abs(a as int),
            m == m0 * pow10(i as nat),
            0 <= m <= 21474836480,
        decreases k - i,
    {
        if m > 2147483648 {
            proof {
                lemma_pow10_split(i as nat, kk);
                assert(m0 * pow10(kk) == m * pow10((kk - i) as nat)) by (nonlinear_arith)
                    requires
                        m == m0 * pow10(i as nat),
                        pow10(kk) == pow10(i as nat) * pow10((kk - i) as nat),
                ;
                assert(m * pow10((kk - i) as nat) >= m) by (nonlinear_arith)
                    requires
                        m >= 0,
                        pow10((kk - i) as nat) >= 1,
                ;
            }
            return Err(AddError::Range);
        }
        proof {
            assert(pow10((i + 1) as nat) == 10 * pow10(i as nat));
            assert(m0 * pow10((i + 1) as nat) == m * 10) by (nonlinear_arith)
                requires
                    m == m0 * pow10(i as nat),
                    pow10((i + 1) as nat) == 10 * pow10(i as nat),
            ;
        }
        m = m * 10;
        i = i + 1;
    }
    let total: i64 = m + b as i64;
    let signed: i64 = if a < 0 { -total } else { total };
    if signed < -2147483648 || signed > 2147483647 {
        return Err(AddError::Range);
    }
    Ok(signed as i32)
}

} // verus!
