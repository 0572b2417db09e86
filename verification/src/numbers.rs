//! Decimal text for the wire protocol: specification-level digit sequences
//! and verified conversions between byte strings and machine integers.

use vstd::prelude::*;

verus! {

/// Decimal digits of a nonnegative integer, most significant digit first.
pub open spec fn dec_digits(n: int) -> Seq<u8>
    decreases n,
{
    if n <= 9 {
        seq![(48 + if 0 <= n { n } else { 0 }) as u8]
    } else {
        dec_digits(n / 10).push((48 + n % 10) as u8)
    }
}

/// Decimal text of a signed integer: a minus sign before the magnitude.
pub open spec fn dec_int(n: int) -> Seq<u8> {
    if n < 0 {
        seq![45u8] + dec_digits(-n)
    } else {
        dec_digits(n)
    }
}

pub open spec fn is_digit(b: u8) -> bool {
    48 <= b <= 57
}

pub open spec fn all_digits(s: Seq<u8>) -> bool {
    forall|i: int| 0 <= i < s.len() ==> is_digit(#[trigger] s[i])
}

/// Value of a digit string, read most significant digit first.
pub open spec fn digits_val(s: Seq<u8>) -> int
    decreases s.len(),
{
    if s.len() == 0 {
        0
    } else {
        digits_val(s.drop_last()) * 10 + (s.last() - 48)
    }
}

/// A nonempty run of decimal digits.
pub open spec fn valid_digits(s: Seq<u8>) -> bool {
    s.len() > 0 && all_digits(s)
}

/// Digit text with an optional sign. Bulk and array length lines reject a
/// leading plus; integer frames accept one.
pub open spec fn valid_signed(s: Seq<u8>, allow_plus: bool) -> bool {
    if s.len() > 0 && s[0] == 45 {
        valid_digits(s.drop_first())
    } else if s.len() > 0 && s[0] == 43 {
        allow_plus && valid_digits(s.drop_first())
    } else {
        valid_digits(s)
    }
}

pub open spec fn is_neg(s: Seq<u8>) -> bool {
    s.len() > 0 && s[0] == 45
}

/// The magnitude digits of a signed digit string.
pub open spec fn signed_body(s: Seq<u8>) -> Seq<u8> {
    if s.len() > 0 && (s[0] == 43 || s[0] == 45) {
        s.drop_first()
    } else {
        s
    }
}

/// Value denoted by a signed digit string.
pub open spec fn signed_val(s: Seq<u8>) -> int {
    if is_neg(s) {
        -digits_val(s.drop_first())
    } else {
        digits_val(signed_body(s))
    }
}

/// Signed digit text whose value fits in a 64-bit signed integer.
pub open spec fn valid_i64(s: Seq<u8>, allow_plus: bool) -> bool {
    valid_signed(s, allow_plus) && i64::MIN <= signed_val(s) <= i64::MAX
}

/// Unsigned digit text (optional leading plus) whose value fits in 64 bits.
pub open spec fn valid_u64(s: Seq<u8>) -> bool {
    (if s.len() > 0 && s[0] == 43 {
        valid_digits(s.drop_first())
    } else {
        valid_digits(s)
    }) && digits_val(signed_body(s)) <= u64::MAX
}

pub proof fn lemma_digits_val_nonneg(s: Seq<u8>)
    requires
        all_digits(s),
    ensures
        digits_val(s) >= 0,
    decreases s.len(),
{
    if s.len() > 0 {
        assert(all_digits(s.drop_last())) by {
            assert(forall|i: int|
                0 <= i < s.len() - 1 ==> #[trigger] s.drop_last()[i] == s[i]);
        }
        lemma_digits_val_nonneg(s.drop_last());
    }
}

/// Appending a digit multiplies the value by ten and adds the digit.
pub proof fn lemma_digits_val_push(s: Seq<u8>, d: u8)
    ensures
        digits_val(s.push(d)) == digits_val(s) * 10 + (d - 48),
{
    assert(s.push(d).drop_last() =~= s);
    assert(s.push(d).last() == d);
}

/// The digits of a nonnegative integer denote that integer.
pub proof fn lemma_dec_digits_val(n: int)
    requires
        n >= 0,
    ensures
        valid_digits(dec_digits(n)),
        digits_val(dec_digits(n)) == n,
    decreases n,
{
    if n <= 9 {
        let s = dec_digits(n);
        assert(s =~= seq![(48 + n) as u8]);
        assert(s.drop_last() =~= Seq::<u8>::empty());
        assert(digits_val(Seq::<u8>::empty()) == 0);
        assert(digits_val(s) == digits_val(s.drop_last()) * 10 + (s.last() - 48));
        assert(forall|i: int| 0 <= i < s.len() ==> is_digit(#[trigger] s[i]));
    } else {
        lemma_dec_digits_val(n / 10);
        lemma_digits_val_push(dec_digits(n / 10), (48 + n % 10) as u8);
        assert forall|i: int| 0 <= i < dec_digits(n).len() implies is_digit(
            #[trigger] dec_digits(n)[i],
        ) by {
            if i < dec_digits(n).len() - 1 {
                assert(dec_digits(n)[i] == dec_digits(n / 10)[i]);
            }
        }
    }
}

/// Extending a digit string never shrinks its value.
pub proof fn lemma_digits_val_prefix_le(s: Seq<u8>, i: int, j: int)
    requires
        all_digits(s),
        0 <= i <= j <= s.len(),
    ensures
        digits_val(s.subrange(0, i)) <= digits_val(s.subrange(0, j)),
    decreases j - i,
{
    if i < j {
        lemma_digits_val_prefix_le(s, i, j - 1);
        let p = s.subrange(0, j - 1);
        assert(all_digits(p));
        lemma_digits_val_nonneg(p);
        assert(s.subrange(0, j).drop_last() =~= p);
        assert(digits_val(s.subrange(0, j)) == digits_val(p) * 10 + (s[j - 1] - 48));
    }
}

/// Whether a byte slice is all decimal digits.
pub fn all_digits_check(s: &[u8]) -> (r: bool)
    ensures
        r == all_digits(s@),
{
    let n = s.len();
    let mut i: usize = 0;
    while i < n
        invariant
            i <= n,
            n == s@.len(),
            forall|j: int| 0 <= j < i ==> is_digit(#[trigger] s@[j]),
        decreases n - i,
    {
        let b = s[i];
        if b < 48 || b > 57 {
            assert(!is_digit(s@[i as int]));
            return false;
        }
        i = i + 1;
    }
    true
}

/// A digit string has value zero exactly when every digit is zero.
pub proof fn lemma_digits_val_zero(s: Seq<u8>)
    requires
        all_digits(s),
    ensures
        (digits_val(s) == 0) <==> (forall|i: int| 0 <= i < s.len() ==> #[trigger] s[i] == 48),
    decreases s.len(),
{
    if s.len() > 0 {
        assert(all_digits(s.drop_last())) by {
            assert(forall|i: int|
                0 <= i < s.len() - 1 ==> #[trigger] s.drop_last()[i] == s[i]);
        }
        lemma_digits_val_zero(s.drop_last());
        lemma_digits_val_nonneg(s.drop_last());
        if digits_val(s) == 0 {
            assert(digits_val(s.drop_last()) * 10 + (s.last() - 48) == 0);
            assert(forall|i: int|
                0 <= i < s.len() - 1 ==> #[trigger] s[i] == s.drop_last()[i]);
        }
    }
}

/// Whether some digit in a slice is nonzero.
pub fn any_nonzero_digit(s: &[u8]) -> (r: bool)
    requires
        all_digits(s@),
    ensures
        r == (digits_val(s@) > 0),
{
    let n = s.len();
    let mut i: usize = 0;
    while i < n
        invariant
            i <= n,
            n == s@.len(),
            all_digits(s@),
            forall|j: int| 0 <= j < i ==> #[trigger] s@[j] == 48,
        decreases n - i,
    {
        let b = s[i];
        if b != 48 {
            proof {
                lemma_digits_val_zero(s@);
                lemma_digits_val_nonneg(s@);
            }
            return true;
        }
        i = i + 1;
    }
    proof {
        lemma_digits_val_zero(s@);
    }
    false
}

/// Reads a run of decimal digits as a 64-bit unsigned value, bounded above by
/// `bound`; reports exactly when the text is ill-formed or too large.
pub fn parse_digits_bounded(s: &[u8], start: usize, bound: u64) -> (r: Option<u64>)
    requires
        start <= s@.len(),
        bound >= 9,
    ensures
        r is Some <==> (valid_digits(s@.subrange(start as int, s@.len() as int))
            && digits_val(s@.subrange(start as int, s@.len() as int)) <= bound),
        r matches Some(v) ==> v == digits_val(s@.subrange(start as int, s@.len() as int))
            && v <= bound,
{
    let ghost whole = s@.subrange(start as int, s@.len() as int);
    let n = s.len();
    if start == n {
        return None;
    }
    let mut acc: u64 = 0;
    let mut i: usize = start;
    while i < n
        invariant
            start <= i <= n,
            n == s@.len(),
            whole == s@.subrange(start as int, n as int),
            bound >= 9,
            all_digits(s@.subrange(start as int, i as int)),
            acc == digits_val(s@.subrange(start as int, i as int)),
            acc <= bound,
        decreases n - i,
    {
        let b = s[i];
        let ghost pre = s@.subrange(start as int, i as int);
        if b < 48 || b > 57 {
            assert(!all_digits(whole)) by {
                assert(whole[i - start] == b);
            }
            return None;
        }
        let d: u64 = (b - 48) as u64;
        proof {
            lemma_digits_val_nonneg(pre);
            assert(s@.subrange(start as int, i + 1).drop_last() =~= pre);
        }
        if acc > (bound - d) / 10 {
            // The value so far already exceeds the bound, so the whole string
            // must as well.
            proof {
                assert(digits_val(s@.subrange(start as int, i + 1)) == acc * 10 + d);
                assert(acc * 10 + d > bound) by (nonlinear_arith)
                    requires
                        acc > (bound - d) / 10,
                        d <= 9,
                        bound >= d,
                ;
                if all_digits(whole) {
                    assert(all_digits(s@.subrange(start as int, i + 1))) by {
                        assert(forall|k: int|
                            0 <= k < i + 1 - start ==> #[trigger] s@.subrange(start as int, i + 1)[k]
                                == whole[k]);
                    }
                    lemma_digits_val_prefix_seq(s@, start as int, i + 1, n as int);
                }
            }
            return None;
        }
        assert(acc * 10 + d <= bound) by (nonlinear_arith)
            requires
                acc <= (bound - d) / 10,
                d <= 9,
                bound >= d,
        ;
        acc = acc * 10 + d;
        i = i + 1;
    }
    assert(s@.subrange(start as int, i as int) =~= whole);
    Some(acc)
}

/// A longer slice of digits denotes at least as large a value.
proof fn lemma_digits_val_prefix_seq(s: Seq<u8>, start: int, i: int, j: int)
    requires
        0 <= start <= i <= j <= s.len(),
        all_digits(s.subrange(start, j)),
    ensures
        digits_val(s.subrange(start, i)) <= digits_val(s.subrange(start, j)),
{
    let w = s.subrange(start, j);
    assert(s.subrange(start, i) =~= w.subrange(0, i - start));
    assert(w.subrange(0, j - start) =~= w);
    lemma_digits_val_prefix_le(w, i - start, j - start);
}

/// Parses signed decimal text into a 64-bit integer, accepting a leading
/// minus always and a leading plus only when `allow_plus` is set, and
/// rejecting values outside the 64-bit signed range.
pub fn parse_i64(s: &[u8], allow_plus: bool) -> (r: Option<i64>)
    ensures
        r is Some <==> valid_i64(s@, allow_plus),
        r matches Some(v) ==> v == signed_val(s@),
{
    let n = s.len();
    let neg = n > 0 && s[0] == 45;
    let plus = n > 0 && s[0] == 43;
    if plus && !allow_plus {
        return None;
    }
    let start: usize = if neg || plus {
        1
    } else {
        0
    };
    let bound: u64 = if neg {
        9223372036854775808u64
    } else {
        9223372036854775807u64
    };
    let ghost body = s@.subrange(start as int, s@.len() as int);
    proof {
        if neg || plus {
            assert(body =~= s@.drop_first());
        } else {
            assert(body =~= s@);
        }
    }
    match parse_digits_bounded(s, start, bound) {
        None => {
            proof {
                if valid_i64(s@, allow_plus) {
                    lemma_digits_val_nonneg(body);
                }
            }
            None
        },
        Some(mag) => {
            proof {
                lemma_digits_val_nonneg(body);
            }
            if neg {
                if mag == 9223372036854775808u64 {
                    Some(i64::MIN)
                } else {
                    Some(-(mag as i64))
                }
            } else {
                Some(mag as i64)
            }
        },
    }
}

/// Parses unsigned decimal text into a 64-bit unsigned integer, accepting an
/// optional leading plus sign.
pub fn parse_u64(s: &[u8]) -> (r: Option<u64>)
    ensures
        r is Some <==> valid_u64(s@),
        r matches Some(v) ==> v == digits_val(signed_body(s@)),
{
    let n = s.len();
    let plus = n > 0 && s[0] == 43;
    let start: usize = if plus {
        1
    } else {
        0
    };
    let ghost body = s@.subrange(start as int, s@.len() as int);
    proof {
        if plus {
            assert(body =~= s@.drop_first());
        } else {
            assert(body =~= s@);
        }
        assert(body == signed_body(s@) || (s@.len() > 0 && s@[0] == 45));
        if s@.len() > 0 && s@[0] == 45 {
            assert(body =~= s@);
        }
    }
    match parse_digits_bounded(s, start, u64::MAX) {
        None => {
            proof {
                if valid_u64(s@) {
                    assert(s@.len() > 0);
                    assert(s@[0] != 45 || !valid_digits(s@)) by {
                        if s@[0] == 45 {
                            assert(!is_digit(s@[0]));
                        }
                    }
                }
            }
            None
        },
        Some(v) => Some(v),
    }
}

/// Writes the decimal digits of a 64-bit unsigned integer.
pub fn u64_dec(n: u64) -> (r: Vec<u8>)
    ensures
        r@ == dec_digits(n as int),
    decreases n,
{
    if n <= 9 {
        let mut r: Vec<u8> = Vec::new();
        r.push((48 + n) as u8);
        assert(r@ =~= dec_digits(n as int));
        r
    } else {
        let mut r = u64_dec(n / 10);
        r.push((48 + n % 10) as u8);
        assert(r@ =~= dec_digits(n as int));
        r
    }
}

/// Writes the decimal text of a 64-bit signed integer.
pub fn i64_dec(n: i64) -> (r: Vec<u8>)
    ensures
        r@ == dec_int(n as int),
{
    if n >= 0 {
        u64_dec(n as u64)
    } else {
        let mag: u64 = if n == i64::MIN {
            9223372036854775808u64
        } else {
            (-n) as u64
        };
        let mut r: Vec<u8> = Vec::new();
        r.push(45u8);
        let digits = u64_dec(mag);
        let mut k: usize = 0;
        while k < digits.len()
            invariant
                k <= digits@.len(),
                digits@ == dec_digits(mag as int),
                r@ == seq![45u8] + digits@.subrange(0, k as int),
            decreases digits@.len() - k,
        {
            let b = digits[k];
            r.push(b);
            assert(r@ =~= seq![45u8] + digits@.subrange(0, k + 1));
            k = k + 1;
        }
        assert(digits@.subrange(0, digits@.len() as int) =~= digits@);
        assert(r@ =~= dec_int(n as int));
        r
    }
}

/// Writes the decimal digits of a machine-word length.
pub fn usize_dec(n: usize) -> (r: Vec<u8>)
    ensures
        r@ == dec_digits(n as int),
{
    u64_dec(n as u64)
}

} // verus!
