use vstd::prelude::*;
use crate::runtime::host::{chars_to_string, str_to_chars};

verus! {

/// Is `c` a decimal digit?
pub open spec fn is_digit_char(c: char) -> bool {
    '0' <= c <= '9'
}

/// The value of a decimal digit.
pub open spec fn digit_val(c: char) -> int {
    c as int - '0' as int
}

/// The decimal digit with value `d`.
pub open spec fn digit_char(d: int) -> char {
    ((48 + d) as u8) as char
}

/// The decimal digits of a natural number, most significant first.
pub open spec fn dec_digits(n: nat) -> Seq<char>
    decreases n,
{
    if n < 10 {
        seq![digit_char(n as int)]
    } else {
        dec_digits(n / 10) + seq![digit_char((n % 10) as int)]
    }
}

/// The decimal rendering of an integer: a minus sign for negative
/// numbers, then the digits of its magnitude.
pub open spec fn dec_int(n: int) -> Seq<char> {
    if n < 0 {
        seq!['-'] + dec_digits((-n) as nat)
    } else {
        dec_digits(n as nat)
    }
}

/// Every character of the sequence is a decimal digit.
pub open spec fn all_digits(cs: Seq<char>) -> bool {
    forall|i: int| 0 <= i < cs.len() ==> is_digit_char(#[trigger] cs[i])
}

/// The number that a digit sequence denotes, read left to right.
pub open spec fn digits_val(cs: Seq<char>) -> int
    decreases cs,
{
    if cs.len() == 0 {
        0
    } else {
        digits_val(cs.drop_last()) * 10 + digit_val(cs.last())
    }
}

/// A digit sequence denotes a number at least as large as any of its
/// prefixes, and never a negative one.
pub proof fn lemma_digits_val_prefix(cs: Seq<char>, i: int)
    requires
        all_digits(cs),
        0 <= i <= cs.len(),
    ensures
        0 <= digits_val(cs.take(i)),
        digits_val(cs.take(i)) <= digits_val(cs),
    decreases cs.len() - i,
{
    if i == cs.len() {
        assert(cs.take(i) =~= cs);
        lemma_digits_val_nonneg(cs);
    } else {
        lemma_digits_val_prefix(cs, i + 1);
        let p = cs.take(i + 1);
        assert(p.drop_last() =~= cs.take(i));
        assert(p.last() == cs[i]);
        let v = digits_val(cs.take(i));
        lemma_digits_val_nonneg_take(cs, i);
        assert(v <= v * 10 + digit_val(cs[i])) by (nonlinear_arith)
            requires
                0 <= v,
                0 <= digit_val(cs[i]),
        ;
    }
}

/// A digit sequence denotes a non-negative number.
pub proof fn lemma_digits_val_nonneg(cs: Seq<char>)
    requires
        all_digits(cs),
    ensures
        digits_val(cs) >= 0,
    decreases cs,
{
    if cs.len() > 0 {
        assert(all_digits(cs.drop_last())) by {
            assert(forall|i: int| 0 <= i < cs.len() - 1 ==> cs.drop_last()[i] == cs[i]);
        }
        lemma_digits_val_nonneg(cs.drop_last());
        let v = digits_val(cs.drop_last());
        assert(0 <= v * 10) by (nonlinear_arith)
            requires
                0 <= v,
        ;
    }
}

proof fn lemma_digits_val_nonneg_take(cs: Seq<char>, i: int)
    requires
        all_digits(cs),
        0 <= i <= cs.len(),
    ensures
        digits_val(cs.take(i)) >= 0,
{
    assert(all_digits(cs.take(i))) by {
        assert(forall|j: int| 0 <= j < i ==> cs.take(i)[j] == cs[j]);
    }
    lemma_digits_val_nonneg(cs.take(i));
}

/// The decimal digits of `n` are digits, there is at least one, and
/// they denote `n` itself.
pub proof fn lemma_dec_digits_val(n: nat)
    ensures
        dec_digits(n).len() >= 1,
        all_digits(dec_digits(n)),
        digits_val(dec_digits(n)) == n,
    decreases n,
{
    reveal_with_fuel(digits_val, 3);
    if n < 10 {
        assert(digit_char(n as int) as int == 48 + n);
        assert(is_digit_char(digit_char(n as int)));
        assert(digit_val(digit_char(n as int)) == n);
        assert(dec_digits(n).drop_last() =~= Seq::<char>::empty());
    } else {
        lemma_dec_digits_val(n / 10);
        let d = dec_digits(n / 10);
        let c = digit_char((n % 10) as int);
        assert(c as int == 48 + n % 10);
        assert(is_digit_char(c) && digit_val(c) == n % 10);
        assert(dec_digits(n) == d + seq![c]);
        assert((d + seq![c]).drop_last() =~= d);
        assert((d + seq![c]).last() == c);
        assert(all_digits(d + seq![c])) by {
            assert(forall|i: int| 0 <= i < d.len() ==> (d + seq![c])[i] == d[i]);
        }
        assert(digits_val(dec_digits(n)) == (n / 10) * 10 + n % 10);
        assert((n / 10) * 10 + n % 10 == n) by (nonlinear_arith);
    }
}

/// The integer that a piece of text denotes: an optional sign, then
/// at least one digit, all within the signed 128-bit range. Anything
/// else denotes nothing.
pub open spec fn parse_int_spec(cs: Seq<char>) -> Option<int> {
    let digits = if cs.len() > 0 && (cs[0] == '+' || cs[0] == '-') {
        cs.subrange(1, cs.len() as int)
    } else {
        cs
    };
    let negative = cs.len() > 0 && cs[0] == '-';
    if digits.len() > 0 && all_digits(digits) {
        let v = if negative {
            -digits_val(digits)
        } else {
            digits_val(digits)
        };
        if i128::MIN <= v <= i128::MAX {
            Some(v)
        } else {
            None
        }
    } else {
        None
    }
}

/// Reads an integer from text, exactly as `parse_int_spec` says.
pub fn parse_i128(s: &str) -> (r: Option<i128>)
    ensures
        match r {
            Some(v) => parse_int_spec(s@) == Some(v as int),
            None => parse_int_spec(s@) is None,
        },
{
    let cs = str_to_chars(s);
    let n = cs.len();
    if n == 0 {
        return None;
    }
    let first = cs[0];
    let negative = first == '-';
    let start: usize = if first == '-' || first == '+' {
        1
    } else {
        0
    };
    let ghost digits = if s@[0] == '+' || s@[0] == '-' {
        s@.subrange(1, s@.len() as int)
    } else {
        s@
    };
    proof {
        assert(digits =~= cs@.subrange(start as int, cs@.len() as int));
    }
    if start == n {
        return None;
    }
    // Accumulate negatively so that the most negative value is
    // representable along the way.
    let mut acc: i128 = 0;
    let mut i: usize = start;
    while i < n
        invariant
            start <= i <= n,
            n == cs@.len(),
            digits == cs@.subrange(start as int, n as int),
            all_digits(digits.take(i - start)),
            acc == -digits_val(digits.take(i - start)),
            acc <= 0,
        decreases n - i,
    {
        let c = cs[i];
        proof {
            assert(digits[i - start] == cs@[i as int]);
        }
        if !('0' <= c && c <= '9') {
            proof {
                assert(!is_digit_char(digits[i - start]));
                assert(!all_digits(digits));
            }
            return None;
        }
        let d: i128 = (c as u32 - 48) as i128;
        proof {
            assert(d == digit_val(c));
            assert(digits.take(i + 1 - start) =~= digits.take(i - start).push(c));
            assert(digits.take(i + 1 - start).drop_last() =~= digits.take(i - start));
        }
        let overflowed = match acc.checked_mul(10) {
            Some(x) => match x.checked_sub(d) {
                Some(y) => {
                    acc = y;
                    false
                },
                None => true,
            },
            None => true,
        };
        if overflowed {
            proof {
                let dv = digits_val(digits.take(i - start));
                assert(acc == -dv && acc <= 0);
                assert(acc * 10 - d < i128::MIN);
                assert(-(dv * 10 + d as int) < i128::MIN);
                lemma_parse_overflow(digits, (i - start) as int, d as int);
                if digits.len() > 0 && all_digits(digits) {
                    assert(digits_val(digits) > -(i128::MIN as int));
                    assert(digits_val(digits) > i128::MAX as int);
                    assert(-digits_val(digits) < i128::MIN as int);
                    assert(parse_int_spec(s@) is None);
                } else {
                    assert(parse_int_spec(s@) is None);
                }
            }
            return None;
        }
        proof {
            assert(all_digits(digits.take(i + 1 - start))) by {
                assert(forall|j: int| 0 <= j < i - start ==> #[trigger] digits.take(i + 1
                    - start)[j] == digits.take((i - start) as int)[j]);
                assert(digits.take(i + 1 - start)[i - start] == c);
            }
        }
        i += 1;
    }
    proof {
        assert(digits.take(n - start) =~= digits);
    }
    if negative {
        Some(acc)
    } else {
        if acc == i128::MIN {
            None
        } else {
            Some(-acc)
        }
    }
}

/// If some prefix of the digit text already denotes more than the
/// signed 128-bit range can hold in magnitude, so does the whole
/// text.
proof fn lemma_parse_overflow(digits: Seq<char>, i: int, d: int)
    requires
        0 <= i < digits.len(),
        all_digits(digits.take(i)),
        digits[i] == digits.take(i + 1).last(),
        is_digit_char(digits[i]),
        d == digit_val(digits[i]),
        -(digits_val(digits.take(i)) * 10 + d) < i128::MIN,
    ensures
        all_digits(digits) ==> digits_val(digits) > -(i128::MIN as int),
{
    if all_digits(digits) {
        assert(digits.take(i + 1).drop_last() =~= digits.take(i));
        assert(digits_val(digits.take(i + 1)) == digits_val(digits.take(i)) * 10 + d);
        lemma_digits_val_prefix(digits, i + 1);
        assert(digits.take(digits.len() as int) =~= digits);
        assert(digits_val(digits) >= digits_val(digits.take(i + 1)));
    }
}

/// The value of a run of characters that should all be digits, if
/// they are and the value fits.
pub fn digits_to_i128(cs: &Vec<char>) -> (r: Option<i128>)
    ensures
        match r {
            Some(v) => all_digits(cs@) && cs@.len() > 0 && digits_val(cs@) == v as int,
            None => !(all_digits(cs@) && cs@.len() > 0 && digits_val(cs@) <= i128::MAX),
        },
{
    let n = cs.len();
    if n == 0 {
        return None;
    }
    let mut acc: i128 = 0;
    let mut i: usize = 0;
    while i < n
        invariant
            i <= n,
            n == cs@.len(),
            all_digits(cs@.take(i as int)),
            acc == digits_val(cs@.take(i as int)),
            acc >= 0,
        decreases n - i,
    {
        let c = cs[i];
        if !('0' <= c && c <= '9') {
            proof {
                assert(!is_digit_char(cs@[i as int]));
            }
            return None;
        }
        let d: i128 = (c as u32 - 48) as i128;
        proof {
            assert(d == digit_val(c));
            assert(cs@.take(i + 1).drop_last() =~= cs@.take(i as int));
            assert(cs@.take(i + 1).last() == c);
        }
        let next = match acc.checked_mul(10) {
            Some(x) => x.checked_add(d),
            None => None,
        };
        match next {
            Some(v) => {
                acc = v;
            },
            None => {
                proof {
                    let pre = digits_val(cs@.take(i as int));
                    assert(pre * 10 + d > i128::MAX);
                    if all_digits(cs@) {
                        lemma_digits_val_prefix(cs@, i + 1);
                        assert(digits_val(cs@) >= digits_val(cs@.take(i + 1)));
                        assert(cs@.take(n as int) =~= cs@);
                    }
                }
                return None;
            },
        }
        proof {
            assert(all_digits(cs@.take(i + 1))) by {
                assert(forall|j: int| 0 <= j < i ==> #[trigger] cs@.take(i + 1)[j] == cs@.take(
                    i as int,
                )[j]);
                assert(cs@.take(i + 1)[i as int] == c);
            }
        }
        i += 1;
    }
    proof {
        assert(cs@.take(n as int) =~= cs@);
    }
    Some(acc)
}

/// Renders an integer in decimal.
pub fn i128_to_string(n: i128) -> (r: String)
    ensures
        r@ == dec_int(n as int),
{
    let neg = n < 0;
    let m: u128 = if n == i128::MIN {
        170141183460469231731687303715884105728u128
    } else if n < 0 {
        (-n) as u128
    } else {
        n as u128
    };
    proof {
        if n < 0 {
            assert(m == -(n as int));
        } else {
            assert(m == n as int);
        }
    }
    let digits = u128_digits(m);
    let mut out: Vec<char> = Vec::new();
    if neg {
        out.push('-');
    }
    let mut i: usize = 0;
    while i < digits.len()
        invariant
            i <= digits.len(),
            out@ =~= (if neg {
                seq!['-']
            } else {
                Seq::<char>::empty()
            }) + digits@.take(i as int),
        decreases digits.len() - i,
    {
        let c = digits[i];
        out.push(c);
        proof {
            assert(digits@.take(i + 1) =~= digits@.take(i as int).push(digits@[i as int]));
        }
        i += 1;
    }
    proof {
        assert(digits@.take(digits@.len() as int) =~= digits@);
    }
    chars_to_string(&out)
}

/// The decimal digits of an unsigned integer.
fn u128_digits(n: u128) -> (r: Vec<char>)
    ensures
        r@ == dec_digits(n as nat),
{
    let mut m = n;
    let mut digits: Vec<char> = Vec::new();
    proof {
        assert(dec_digits(n as nat) =~= dec_digits(m as nat) + digits@);
    }
    while m >= 10
        invariant
            dec_digits(n as nat) == dec_digits(m as nat) + digits@,
        decreases m,
    {
        let ghost mv = m as nat;
        let ghost dv = digits@;
        let d: u8 = (m % 10) as u8;
        let c = (48 + d) as char;
        digits.insert(0, c);
        m = m / 10;
        proof {
            assert(c == digit_char((mv % 10) as int));
            assert(digits@ =~= seq![c] + dv);
            assert(dec_digits(mv) == dec_digits(mv / 10) + seq![digit_char((mv % 10) as int)]);
            assert(dec_digits(n as nat) =~= dec_digits(m as nat) + digits@);
        }
    }
    let ghost dv = digits@;
    let d: u8 = (m % 10) as u8;
    let c = (48 + d) as char;
    digits.insert(0, c);
    proof {
        assert(c == digit_char(m as int));
        assert(digits@ =~= seq![c] + dv);
        assert(dec_digits(m as nat) =~= seq![c]);
        assert(digits@ =~= dec_digits(n as nat));
    }
    digits
}

} // verus!
