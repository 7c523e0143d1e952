use vstd::prelude::*;

verus! {

/// Is the character a decimal digit.
pub open spec fn is_digit(c: char) -> bool {
    48 <= (c as u32) && (c as u32) <= 57
}

/// Numeric value of one decimal digit.
pub open spec fn digit_val(c: char) -> nat {
    (((c as u32) - 48) as nat)
}

/// Every character of the sequence is a decimal digit.
pub open spec fn all_digits(s: Seq<char>) -> bool {
    forall|i: int| 0 <= i < s.len() ==> is_digit(#[trigger] s[i])
}

/// Numeric value of a digit string, most significant digit first.
pub open spec fn digits_val(s: Seq<char>) -> nat
    decreases s.len(),
{
    if s.len() == 0 {
        0
    } else {
        digits_val(s.drop_last()) * 10 + digit_val(s.last())
    }
}

/// Ten to the given power.
pub open spec fn ten_pow(k: nat) -> nat
    decreases k,
{
    if k == 0 {
        1
    } else {
        10 * ten_pow((k - 1) as nat)
    }
}

/// The whole part of the number whose significant digits are `digits` with
/// the decimal point after position `point`: zero when the point lies at or
/// before the first digit, the digits padded with zeros when it lies at or
/// past the last, and a prefix of the digits otherwise. This is truncation
/// toward zero: digits behind the point are dropped, never rounded.
pub open spec fn mag_trunc(digits: Seq<char>, point: int) -> nat {
    if point <= 0 {
        0
    } else if point >= digits.len() {
        digits_val(digits) * ten_pow((point - digits.len()) as nat)
    } else {
        digits_val(digits.take(point))
    }
}

/// Saturates a natural number into a u64.
pub open spec fn sat64(n: nat) -> u64 {
    if n > u64::MAX {
        u64::MAX
    } else {
        n as u64
    }
}

/// Signed exponent value written with the given sign and digits.
pub open spec fn exp_of(neg: bool, ds: Seq<char>) -> int {
    if neg {
        -(digits_val(ds) as int)
    } else {
        digits_val(ds) as int
    }
}

/// Truncated-toward-zero value of the decimal `-? I . F × 10^exp`, saturated
/// to u64; a negative number truncates to zero.
pub open spec fn number_trunc(neg: bool, i_digits: Seq<char>, f_digits: Seq<char>, exp: int) -> u64 {
    if neg {
        0
    } else {
        sat64(mag_trunc(i_digits + f_digits, i_digits.len() + exp))
    }
}

proof fn lemma_digits_snoc(s: Seq<char>, i: int)
    requires
        0 <= i < s.len(),
    ensures
        digits_val(s.take(i + 1)) == digits_val(s.take(i)) * 10 + digit_val(s[i]),
{
    assert(s.take(i + 1).drop_last() =~= s.take(i));
    assert(s.take(i + 1).last() == s[i]);
}

proof fn lemma_ten_pow_increases(a: nat, b: nat)
    requires
        a <= b,
    ensures
        ten_pow(a) <= ten_pow(b),
    decreases b,
{
    if a < b {
        lemma_ten_pow_increases(a, (b - 1) as nat);
    }
}

/// Value of the first `n` digits of `ds`, computed exactly up to `cap`; any
/// larger value comes back as `cap + 1`.
fn digits_prefix_capped(ds: &Vec<char>, n: usize, cap: u128) -> (r: u128)
    requires
        n <= ds@.len(),
        all_digits(ds@),
        cap < 0x1000000000000000000000000000000,
    ensures
        digits_val(ds@.take(n as int)) <= cap ==> r == digits_val(ds@.take(n as int)),
        digits_val(ds@.take(n as int)) > cap ==> r == cap + 1,
{
    let mut acc: u128 = 0;
    let mut i: usize = 0;
    while i < n
        invariant
            i <= n <= ds@.len(),
            all_digits(ds@),
            cap < 0x1000000000000000000000000000000,
            digits_val(ds@.take(i as int)) <= cap ==> acc == digits_val(ds@.take(i as int)),
            digits_val(ds@.take(i as int)) > cap ==> acc == cap + 1,
            acc <= cap + 1,
        decreases n - i,
    {
        proof {
            lemma_digits_snoc(ds@, i as int);
        }
        let dd: u128 = ((ds[i] as u32) - 48) as u128;
        if acc <= cap {
            let next: u128 = acc * 10 + dd;
            if next > cap {
                acc = cap + 1;
            } else {
                acc = next;
            }
        }
        i += 1;
    }
    acc
}

/// Truncated value of the first `point` digits of `d`, saturated to u64.
fn trunc_prefix(d: &Vec<char>, point: usize) -> (r: u64)
    requires
        point <= d@.len(),
        all_digits(d@),
    ensures
        r == sat64(digits_val(d@.take(point as int))),
{
    let m = digits_prefix_capped(d, point, u64::MAX as u128);
    if m > u64::MAX as u128 {
        u64::MAX
    } else {
        m as u64
    }
}

/// Appends every character of `src` to `dst`, in order.
fn push_all_chars(dst: &mut Vec<char>, src: &Vec<char>)
    ensures
        final(dst)@ == old(dst)@ + src@,
{
    let mut j: usize = 0;
    while j < src.len()
        invariant
            j <= src@.len(),
            dst@ == old(dst)@ + src@.take(j as int),
        decreases src@.len() - j,
    {
        dst.push(src[j]);
        proof {
            assert(old(dst)@ + src@.take(j + 1 as int) =~= (old(dst)@ + src@.take(j as int)).push(
                src@[j as int],
            ));
        }
        j += 1;
    }
    proof {
        assert(old(dst)@ + src@.take(src@.len() as int) =~= old(dst)@ + src@);
    }
}

/// Evaluates the decimal number `-? I . F e exp` to its truncated-toward-zero
/// u64 value, saturating at u64::MAX; a negative number evaluates to zero.
pub fn eval_number(
    neg: bool,
    i_digits: &Vec<char>,
    f_digits: &Vec<char>,
    exp_neg: bool,
    e_digits: &Vec<char>,
) -> (r: u64)
    requires
        all_digits(i_digits@),
        all_digits(f_digits@),
        all_digits(e_digits@),
    ensures
        r == number_trunc(neg, i_digits@, f_digits@, exp_of(exp_neg, e_digits@)),
{
    if neg {
        return 0;
    }
    let ilen = i_digits.len();
    let flen = f_digits.len();
    let mut d: Vec<char> = Vec::new();
    push_all_chars(&mut d, i_digits);
    push_all_chars(&mut d, f_digits);
    proof {
        assert(d@ =~= i_digits@ + f_digits@);
        assert forall|i: int| 0 <= i < d@.len() implies is_digit(#[trigger] d@[i]) by {
            if i < ilen {
                assert(d@[i] == i_digits@[i]);
            } else {
                assert(d@[i] == f_digits@[i - ilen]);
            }
        }
    }
    let cap: u128 = ilen as u128 + flen as u128 + 25;
    let em = digits_prefix_capped(e_digits, e_digits.len(), cap);
    let ghost em_true = digits_val(e_digits@);
    proof {
        assert(e_digits@.take(e_digits@.len() as int) =~= e_digits@);
    }
    let ghost point = ilen + exp_of(exp_neg, e_digits@);
    if exp_neg {
        if em >= ilen as u128 {
            // the point lies at or before the first digit: everything is
            // fractional and truncates away
            return 0;
        }
        let pt: usize = ilen - (em as usize);
        proof {
            assert(em_true == em);
            assert(point == pt);
            assert(d@.take(ilen as int) =~= i_digits@);
            if pt == d@.len() {
                assert(d@.take(pt as int) =~= d@);
                assert(ten_pow(0) == 1);
                assert(digits_val(d@) * 1 == digits_val(d@)) by (nonlinear_arith);
            }
        }
        trunc_prefix(&d, pt)
    } else {
        if em > flen as u128 {
            // the point lies past the last digit: scale up by the leftover
            // exponent
            let m0 = digits_prefix_capped(&d, d.len(), u64::MAX as u128);
            proof {
                assert(d@.take(d@.len() as int) =~= d@);
            }
            let ghost val = digits_val(d@);
            let ghost k = (point - d@.len()) as nat;
            proof {
                assert(em_true > flen);
                assert(point - d@.len() == em_true - flen);
            }
            if m0 == 0 {
                proof {
                    assert(val == 0);
                    assert(val * ten_pow(k) == 0) by (nonlinear_arith)
                        requires
                            val == 0,
                    ;
                }
                return 0;
            }
            if m0 > u64::MAX as u128 {
                proof {
                    assert(val > u64::MAX);
                    assert(ten_pow(k) >= 1) by {
                        lemma_ten_pow_increases(0, k);
                    }
                    assert(val * ten_pow(k) >= val) by (nonlinear_arith)
                        requires
                            ten_pow(k) >= 1,
                            val >= 0,
                    ;
                    assert(mag_trunc(d@, point) == val * ten_pow(k));
                    assert(mag_trunc(d@, point) > u64::MAX);
                }
                return u64::MAX;
            }
            if em >= cap + 1 || em - (flen as u128) >= 20 {
                proof {
                    assert(k >= 20);
                    assert(ten_pow(20) == 0x56bc75e2d63100000) by {
                        reveal_with_fuel(ten_pow, 21);
                    }
                    assert(ten_pow(k) >= ten_pow(20)) by {
                        lemma_ten_pow_increases(20, k);
                    }
                    assert(val * ten_pow(k) >= 1 * ten_pow(k)) by (nonlinear_arith)
                        requires
                            val >= 1,
                            ten_pow(k) >= 0,
                    ;
                }
                return u64::MAX;
            }
            let kx: usize = (em - flen as u128) as usize;
            proof {
                assert(em_true == em);
                assert(kx == k);
            }
            let mut acc: u128 = m0;
            let mut j: usize = 0;
            while j < kx
                invariant
                    j <= kx < 20,
                    val <= u64::MAX,
                    acc == val * ten_pow(j as nat),
                decreases kx - j,
            {
                proof {
                    assert(ten_pow((j + 1) as nat) <= ten_pow(19)) by {
                        lemma_ten_pow_increases((j + 1) as nat, 19);
                    }
                    assert(ten_pow(19) == 0x8ac7230489e80000) by {
                        reveal_with_fuel(ten_pow, 20);
                    }
                    assert(val * ten_pow((j + 1) as nat) <= 0xffffffffffffffff
                        * 0x8ac7230489e80000) by (nonlinear_arith)
                        requires
                            0 <= val <= 0xffffffffffffffff,
                            0 <= ten_pow((j + 1) as nat) <= 0x8ac7230489e80000,
                    ;
                    assert(val * ten_pow((j + 1) as nat) == (val * ten_pow(j as nat)) * 10)
                        by (nonlinear_arith);
                }
                acc = acc * 10;
                j += 1;
            }
            if acc > u64::MAX as u128 {
                u64::MAX
            } else {
                acc as u64
            }
        } else {
            let pt: usize = ilen + (em as usize);
            proof {
                assert(em_true == em);
                assert(point == pt);
                if pt == d@.len() {
                    assert(d@.take(pt as int) =~= d@);
                    assert(digits_val(d@) * ten_pow(0) == digits_val(d@));
                }
            }
            trunc_prefix(&d, pt)
        }
    }
}

/// Truncation ignores the fraction: without an exponent, the value of
/// `I . F` is the value of the integer digits alone, whatever the fraction
/// holds.
pub proof fn lemma_truncation_drops_fraction(i_digits: Seq<char>, f_digits: Seq<char>)
    ensures
        number_trunc(false, i_digits, f_digits, 0) == sat64(digits_val(i_digits)),
{
    let d = i_digits + f_digits;
    if f_digits.len() == 0 {
        assert(d =~= i_digits);
        assert(ten_pow(0) == 1);
        assert(digits_val(i_digits) * 1 == digits_val(i_digits)) by (nonlinear_arith);
    } else {
        if i_digits.len() == 0 {
            assert(digits_val(i_digits) == 0);
        } else {
            assert(d.take(i_digits.len() as int) =~= i_digits);
        }
    }
}

} // verus!
