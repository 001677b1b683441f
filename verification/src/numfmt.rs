//! Verified decimal formatting of integers, used for the identifier
//! families the broker mints (`perm-<n>`, `terminal-<n>`, `agent-<n>`) and
//! for signal names in exit-status reports.

use vstd::prelude::*;
use crate::strutil::push_char;

verus! {

/// The character for a single decimal digit.
pub open spec fn decimal_digit(d: nat) -> char {
    if d == 0 {
        '0'
    } else if d == 1 {
        '1'
    } else if d == 2 {
        '2'
    } else if d == 3 {
        '3'
    } else if d == 4 {
        '4'
    } else if d == 5 {
        '5'
    } else if d == 6 {
        '6'
    } else if d == 7 {
        '7'
    } else if d == 8 {
        '8'
    } else {
        '9'
    }
}

/// The canonical decimal representation of a natural number: no sign, no
/// leading zeros (`0` is written `"0"`).
pub open spec fn decimal_rep(n: nat) -> Seq<char>
    decreases n,
{
    if n < 10 {
        seq![decimal_digit(n)]
    } else {
        decimal_rep(n / 10).push(decimal_digit(n % 10))
    }
}

/// The canonical decimal representation of a (possibly negative) integer.
pub open spec fn decimal_int_rep(v: int) -> Seq<char> {
    if v >= 0 {
        decimal_rep(v as nat)
    } else {
        seq!['-'] + decimal_rep((-v) as nat)
    }
}

proof fn lemma_reverse_push<A>(s: Seq<A>, x: A)
    ensures
        s.push(x).reverse() == seq![x] + s.reverse(),
{
    assert(s.push(x).reverse() =~= seq![x] + s.reverse());
}

proof fn lemma_decimal_rep_min_len(n: nat)
    ensures
        decimal_rep(n).len() >= 1,
        n >= 10 ==> decimal_rep(n).len() >= 2,
    decreases n,
{
    if n >= 10 {
        lemma_decimal_rep_min_len(n / 10);
    }
}

/// Distinct numbers have distinct decimal representations, so identifiers
/// minted from distinct counters never collide.
pub proof fn lemma_decimal_rep_injective(a: nat, b: nat)
    requires
        decimal_rep(a) == decimal_rep(b),
    ensures
        a == b,
    decreases a,
{
    lemma_decimal_rep_min_len(a);
    lemma_decimal_rep_min_len(b);
    if a < 10 && b < 10 {
        assert(decimal_rep(a) == seq![decimal_digit(a)]);
        assert(decimal_rep(b) == seq![decimal_digit(b)]);
        assert(seq![decimal_digit(a)][0] == decimal_digit(a));
        assert(seq![decimal_digit(b)][0] == decimal_digit(b));
        assert(decimal_digit(a) == decimal_digit(b));
    } else if a < 10 {
        assert(decimal_rep(a).len() == 1);
    } else if b < 10 {
        assert(decimal_rep(b).len() == 1);
    } else {
        let s1 = decimal_rep(a / 10);
        let s2 = decimal_rep(b / 10);
        let d1 = decimal_digit(a % 10);
        let d2 = decimal_digit(b % 10);
        assert(s1.push(d1) == s2.push(d2));
        assert(s1.push(d1).len() == s2.push(d2).len());
        assert(d1 == s1.push(d1)[s1.len() as int]);
        assert(d1 == d2);
        assert(a % 10 == b % 10);
        assert(s1 =~= s2) by {
            assert forall|i: int| 0 <= i < s1.len() implies s1[i] == s2[i] by {
                assert(s1[i] == s1.push(d1)[i]);
                assert(s2[i] == s2.push(d2)[i]);
            }
        }
        lemma_decimal_rep_injective(a / 10, b / 10);
        assert(a == (a / 10) * 10 + a % 10);
        assert(b == (b / 10) * 10 + b % 10);
    }
}

/// Appending to a common prefix is cancellative: useful for identifier
/// strings of the shape `prefix-<n>`.
pub proof fn lemma_concat_cancel_left<A>(p: Seq<A>, t1: Seq<A>, t2: Seq<A>)
    requires
        p + t1 == p + t2,
    ensures
        t1 == t2,
{
    assert(t1 =~= (p + t1).skip(p.len() as int));
    assert(t2 =~= (p + t2).skip(p.len() as int));
}

fn digit_char(d: u64) -> (c: char)
    requires
        d < 10,
    ensures
        c == decimal_digit(d as nat),
{
    if d == 0 {
        '0'
    } else if d == 1 {
        '1'
    } else if d == 2 {
        '2'
    } else if d == 3 {
        '3'
    } else if d == 4 {
        '4'
    } else if d == 5 {
        '5'
    } else if d == 6 {
        '6'
    } else if d == 7 {
        '7'
    } else if d == 8 {
        '8'
    } else {
        '9'
    }
}

/// Formats a number in canonical decimal.
pub fn format_u64(n: u64) -> (r: String)
    ensures
        r@ == decimal_rep(n as nat),
{
    let mut digits: Vec<char> = Vec::new();
    let mut m: u64 = n;
    loop
        invariant_except_break
            (digits@.len() == 0 && m == n) || (m > 0 && decimal_rep(n as nat) == decimal_rep(
                m as nat,
            ) + digits@.reverse()),
        ensures
            decimal_rep(n as nat) == digits@.reverse(),
        decreases m,
    {
        let ghost pre_digits = digits@;
        let ghost pre_m = m as nat;
        let d = m % 10;
        digits.push(digit_char(d));
        m = m / 10;
        proof {
            lemma_reverse_push(pre_digits, decimal_digit((pre_m % 10) as nat));
            if pre_m >= 10 {
                assert(decimal_rep(pre_m) == decimal_rep(pre_m / 10).push(
                    decimal_digit(pre_m % 10),
                ));
            }
            if m == 0 {
                assert(decimal_rep(n as nat) =~= digits@.reverse());
            } else {
                assert(decimal_rep(n as nat) =~= decimal_rep(m as nat) + digits@.reverse());
            }
        }
        if m == 0 {
            break;
        }
    }
    let mut r = String::new();
    proof {
        assert(r@ + digits@.reverse() =~= digits@.reverse());
    }
    loop
        invariant_except_break
            r@ + digits@.reverse() == decimal_rep(n as nat),
        ensures
            r@ == decimal_rep(n as nat),
        decreases digits@.len(),
    {
        let ghost pre_digits = digits@;
        let ghost pre_r = r@;
        match digits.pop() {
            Some(c) => {
                push_char(&mut r, c);
                proof {
                    assert(pre_digits =~= pre_digits.drop_last().push(c));
                    lemma_reverse_push(pre_digits.drop_last(), c);
                    assert(r@ + digits@.reverse() =~= pre_r + pre_digits.reverse());
                }
            },
            None => {
                proof {
                    assert(r@ =~= r@ + digits@.reverse());
                }
                break;
            },
        }
    }
    r
}

/// Formats a signed number in canonical decimal, with a leading `-` for
/// negative values.
pub fn format_i64(n: i64) -> (r: String)
    ensures
        r@ == decimal_int_rep(n as int),
{
    if n >= 0 {
        format_u64(n as u64)
    } else {
        let magnitude: u64 = if n == i64::MIN {
            9223372036854775808u64
        } else {
            (-n) as u64
        };
        let mut r = String::new();
        push_char(&mut r, '-');
        let digits = format_u64(magnitude);
        crate::strutil::push_str(&mut r, digits.as_str());
        proof {
            assert(r@ =~= seq!['-'] + decimal_rep(magnitude as nat));
        }
        r
    }
}

} // verus!
