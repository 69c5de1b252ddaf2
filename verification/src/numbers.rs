use vstd::prelude::*;

verus! {

/// Whether `c` is an ASCII decimal digit.
pub open spec fn is_digit(c: char) -> bool {
    '0' <= c && c <= '9'
}

/// The value of the digit `c`.
pub open spec fn digit_value(c: char) -> int {
    c as int - '0' as int
}

/// Whether every character of `s` is a decimal digit.
pub open spec fn all_digits(s: Seq<char>) -> bool {
    forall|i: int| 0 <= i < s.len() ==> is_digit(#[trigger] s[i])
}

/// The number that the decimal digits `s` denote (most significant first).
pub open spec fn digits_value(s: Seq<char>) -> int
    decreases s.len(),
{
    if s.len() == 0 {
        0
    } else {
        digits_value(s.drop_last()) * 10 + digit_value(s.last())
    }
}

/// The integer that `s` spells: an optional `+` or `-` sign and at least one
/// decimal digit, nothing else.
pub open spec fn integer_value(s: Seq<char>) -> Option<int> {
    if s.len() > 0 && (s[0] == '-' || s[0] == '+') {
        let d = s.drop_first();
        if d.len() > 0 && all_digits(d) {
            Some(
                if s[0] == '-' {
                    -digits_value(d)
                } else {
                    digits_value(d)
                },
            )
        } else {
            None
        }
    } else if s.len() > 0 && all_digits(s) {
        Some(digits_value(s))
    } else {
        None
    }
}

/// What `str::parse::<i32>` gives for `s`: the integer it spells, when that
/// integer fits in an `i32`.
pub open spec fn parsed_i32(s: Seq<char>) -> Option<i32> {
    match integer_value(s) {
        Some(v) => if i32::MIN <= v <= i32::MAX {
            Some(v as i32)
        } else {
            None
        },
        None => None,
    }
}

/// Decimal digits have a non-negative value.
pub proof fn lemma_digits_value_nonneg(s: Seq<char>)
    requires
        all_digits(s),
    ensures
        digits_value(s) >= 0,
    decreases s.len(),
{
    if s.len() > 0 {
        assert(all_digits(s.drop_last())) by {
            assert forall|i: int| 0 <= i < s.drop_last().len() implies is_digit(
                #[trigger] s.drop_last()[i],
            ) by {
                assert(s.drop_last()[i] == s[i]);
            };
        };
        assert(is_digit(s[s.len() - 1]));
        lemma_digits_value_nonneg(s.drop_last());
    }
}

/// The value of decimal digits, capped at `cap` once it would exceed it.
fn digits_capped(v: &[char], lo: usize) -> (r: i64)
    requires
        lo <= v@.len(),
        all_digits(v@.skip(lo as int)),
    ensures
        r == (if digits_value(v@.skip(lo as int)) > 0x1_0000_0000 {
            0x1_0000_0000
        } else {
            digits_value(v@.skip(lo as int))
        }),
{
    let ghost d = v@.skip(lo as int);
    let mut acc: i64 = 0;
    let mut i = lo;
    assert(v@.subrange(lo as int, lo as int) == Seq::<char>::empty());
    while i < v.len()
        invariant
            lo <= i <= v@.len(),
            d == v@.skip(lo as int),
            all_digits(d),
            0 <= acc <= 0x1_0000_0000,
            acc == (if digits_value(v@.subrange(lo as int, i as int)) > 0x1_0000_0000 {
                0x1_0000_0000
            } else {
                digits_value(v@.subrange(lo as int, i as int))
            }),
        decreases v@.len() - i,
    {
        let c = v[i];
        let ghost pre = v@.subrange(lo as int, i as int);
        let ghost next = v@.subrange(lo as int, i + 1);
        assert(next.drop_last() == pre);
        assert(next.last() == c);
        assert(d[i - lo] == c);
        assert(is_digit(c));
        proof {
            assert(all_digits(pre)) by {
                assert forall|k: int| 0 <= k < pre.len() implies is_digit(#[trigger] pre[k]) by {
                    assert(pre[k] == d[k]);
                };
            };
            lemma_digits_value_nonneg(pre);
        }
        let dv = (c as u32 - '0' as u32) as i64;
        let grown = acc * 10 + dv;
        acc = if grown > 0x1_0000_0000 {
            0x1_0000_0000
        } else {
            grown
        };
        i = i + 1;
    }
    assert(v@.subrange(lo as int, v@.len() as int) == d);
    acc
}

/// Parses a decimal `i32` the way `str::parse::<i32>` does.
pub fn parse_i32(v: &[char]) -> (r: Option<i32>)
    ensures
        r == parsed_i32(v@),
{
    let n = v.len();
    if n == 0 {
        return None;
    }
    let signed = v[0] == '-' || v[0] == '+';
    let start: usize = if signed {
        1
    } else {
        0
    };
    if start == n {
        return None;
    }
    let mut i = start;
    while i < n
        invariant
            start <= i <= n,
            n == v@.len(),
            n > 0,
            signed == (v@[0] == '-' || v@[0] == '+'),
            start == (if signed {
                1usize
            } else {
                0usize
            }),
            forall|k: int| start <= k < i ==> is_digit(#[trigger] v@[k]),
        decreases n - i,
    {
        if !('0' <= v[i] && v[i] <= '9') {
            proof {
                assert(!is_digit(v@[i as int]));
                if signed {
                    assert(v@.drop_first()[i - 1] == v@[i as int]);
                    assert(!all_digits(v@.drop_first()));
                } else {
                    assert(!all_digits(v@));
                }
            }
            return None;
        }
        i = i + 1;
    }
    let ghost d = v@.skip(start as int);
    assert(all_digits(d)) by {
        assert forall|k: int| 0 <= k < d.len() implies is_digit(#[trigger] d[k]) by {
            assert(d[k] == v@[start + k]);
        };
    };
    if signed {
        assert(d =~= v@.drop_first());
    } else {
        assert(d =~= v@);
    }
    proof {
        lemma_digits_value_nonneg(d);
    }
    let value = digits_capped(v, start);
    if v[0] == '-' {
        if value <= 0x8000_0000 {
            Some((0 - value) as i32)
        } else {
            None
        }
    } else {
        if value <= 0x7fff_ffff {
            Some(value as i32)
        } else {
            None
        }
    }
}

/// The character of the decimal digit `d`.
pub open spec fn digit_char(d: nat) -> char {
    (('0' as nat) + d) as char
}

/// The decimal numeral of `n`, without leading zeros.
pub open spec fn decimal(n: nat) -> Seq<char>
    decreases n,
{
    if n < 10 {
        seq![digit_char(n)]
    } else {
        decimal(n / 10).push(digit_char(n % 10))
    }
}

/// Appends the decimal numeral of `n` to `out`.
pub fn push_decimal(n: u64, out: &mut Vec<char>)
    ensures
        final(out)@ == old(out)@ + decimal(n as nat),
    decreases n,
{
    if n >= 10 {
        push_decimal(n / 10, out);
    }
    let d = (n % 10) as u32;
    let c = char_from_digit(d);
    out.push(c);
    assert(old(out)@ + decimal(n as nat) =~= out@) by {
        if n >= 10 {
            assert(decimal(n as nat) == decimal((n / 10) as nat).push(digit_char((n % 10) as nat)));
        }
    };
}

/// The character of the digit `d`.
fn char_from_digit(d: u32) -> (c: char)
    requires
        d < 10,
    ensures
        c == digit_char(d as nat),
{
    if d == 0 { '0' }
    else if d == 1 { '1' }
    else if d == 2 { '2' }
    else if d == 3 { '3' }
    else if d == 4 { '4' }
    else if d == 5 { '5' }
    else if d == 6 { '6' }
    else if d == 7 { '7' }
    else if d == 8 { '8' }
    else { '9' }
}

/// The decimal numeral of `n` (what `n.to_string()` gives).
pub fn decimal_chars(n: u64) -> (r: Vec<char>)
    ensures
        r@ == decimal(n as nat),
{
    let mut r: Vec<char> = Vec::new();
    push_decimal(n, &mut r);
    assert(r@ =~= decimal(n as nat));
    r
}


/// The numeral of `n` is made of digits and denotes `n`.
pub proof fn lemma_decimal_digits(n: nat)
    ensures
        decimal(n).len() >= 1,
        all_digits(decimal(n)),
        digits_value(decimal(n)) == n,
    decreases n,
{
    if n >= 10 {
        lemma_decimal_digits(n / 10);
        let t = decimal(n / 10);
        let s = t.push(digit_char(n % 10));
        assert(s.drop_last() =~= t);
        assert forall|i: int| 0 <= i < s.len() implies is_digit(#[trigger] s[i]) by {
            if i < t.len() {
                assert(s[i] == t[i]);
            }
        };
    } else {
        assert(digits_value(decimal(n)) == digits_value(Seq::<char>::empty()) * 10 + digit_value(
            digit_char(n),
        )) by {
            assert(decimal(n).drop_last() =~= Seq::<char>::empty());
        };
    }
}

/// Reading back a printed number: the numeral of any `n` that fits in an
/// `i32` parses to `n`.
pub proof fn lemma_parse_decimal(n: nat)
    requires
        n <= i32::MAX,
    ensures
        parsed_i32(decimal(n)) == Some(n as i32),
{
    lemma_decimal_digits(n);
    assert(is_digit(decimal(n)[0]));
}

} // verus!
