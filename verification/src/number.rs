use vstd::prelude::*;

use crate::text::chars_of;

verus! {

/// The character of the digit `d`.
pub open spec fn digit(d: nat) -> char {
    (48 + d) as char
}

/// `n` in decimal, without leading zeros.
pub open spec fn decimal_of(n: nat) -> Seq<char>
    decreases n,
{
    if n < 10 {
        seq![digit(n)]
    } else {
        decimal_of(n / 10).push(digit(n % 10))
    }
}

pub open spec fn is_digit(c: char) -> bool {
    '0' <= c <= '9'
}

/// The number that `s` writes in decimal digits.
pub open spec fn digits_value(s: Seq<char>) -> Option<nat>
    decreases s.len(),
{
    if s.len() == 0 || !is_digit(s.last()) {
        None
    } else if s.len() == 1 {
        Some((s[0] as int - 48) as nat)
    } else {
        match digits_value(s.drop_last()) {
            Some(n) => Some((n * 10 + (s.last() as int - 48)) as nat),
            None => None,
        }
    }
}

/// The number that `s` writes: digits, after at most one plus sign.
pub open spec fn unsigned_value(s: Seq<char>) -> Option<nat> {
    if s.len() > 0 && s[0] == '+' {
        digits_value(s.skip(1))
    } else {
        digits_value(s)
    }
}

/// The number that `s` writes, where it is at most `max`.
pub open spec fn unsigned_upto(s: Seq<char>, max: nat) -> Option<nat> {
    match unsigned_value(s) {
        Some(n) => if n <= max {
            Some(n)
        } else {
            None
        },
        None => None,
    }
}

/// A number is read back from its decimal text.
pub proof fn lemma_decimal_value(n: nat)
    ensures
        digits_value(decimal_of(n)) == Some(n),
        decimal_of(n).len() > 0,
        forall|i: int| 0 <= i < decimal_of(n).len() ==> is_digit(#[trigger] decimal_of(n)[i]),
    decreases n,
{
    if n >= 10 {
        lemma_decimal_value(n / 10);
        let s = decimal_of(n);
        assert(s.drop_last() =~= decimal_of(n / 10));
        assert(is_digit(s.last()));
        assert forall|i: int| 0 <= i < s.len() implies is_digit(#[trigger] s[i]) by {
            if i < s.len() - 1 {
                assert(s[i] == decimal_of(n / 10)[i]);
            }
        }
        assert((n / 10) * 10 + n % 10 == n);
    }
}

/// Two numbers with the same decimal text are one number.
pub proof fn lemma_decimal_injective(m: nat, n: nat)
    requires
        decimal_of(m) == decimal_of(n),
    ensures
        m == n,
{
    lemma_decimal_value(m);
    lemma_decimal_value(n);
}

fn digit_char(d: u8) -> (c: char)
    requires
        d < 10,
    ensures
        c == digit(d as nat),
{
    (48 + d) as char
}

/// `n` in decimal.
pub fn decimal(n: u64) -> (s: String)
    ensures
        s@ == decimal_of(n as nat),
    decreases n,
{
    if n < 10 {
        let mut s = String::new();
        s.push(digit_char(n as u8));
        proof {
            assert(s@ =~= decimal_of(n as nat));
        }
        s
    } else {
        let mut s = decimal(n / 10);
        s.push(digit_char((n % 10) as u8));
        s
    }
}

/// Read a number of at most `max`, in decimal digits after at most one plus sign.
pub fn parse_unsigned(s: &str, max: u64) -> (r: Option<u64>)
    ensures
        match unsigned_upto(s@, max as nat) {
            Some(n) => r == Some(n as u64) && n <= max,
            None => r is None,
        },
{
    let v = chars_of(s);
    let from: usize = if v.len() > 0 && v[0] == '+' {
        1
    } else {
        0
    };
    let ghost t = if from == 1 {
        s@.skip(1)
    } else {
        s@
    };
    proof {
        assert(t =~= v@.skip(from as int));
    }
    let n: usize = v.len();
    if from == n {
        return None;
    }
    let mut acc: u64 = 0;
    let mut over = false;
    for i in from..n
        invariant
            from < n == v@.len(),
            t == v@.skip(from as int),
            unsigned_value(s@) == digits_value(t),
            forall|j: int| 0 <= j < i - from ==> is_digit(#[trigger] t[j]),
            i > from ==> digits_value(t.take(i - from)) is Some,
            i > from && !over ==> digits_value(t.take(i - from)) == Some(acc as nat),
            i == from ==> acc == 0 && !over,
            over ==> i > from && digits_value(t.take(i - from)).unwrap() > u64::MAX,
    {
        let c = v[i];
        let ghost k = i - from;
        let ghost front = t.take(k + 1);
        proof {
            assert(front.drop_last() =~= t.take(k));
            assert(front.last() == c);
        }
        if !('0' <= c && c <= '9') {
            proof {
                lemma_not_digits(t, k);
            }
            return None;
        }
        let d: u64 = (c as u32 - 48) as u64;
        proof {
            if k == 0 {
                assert(front.len() == 1);
            }
        }
        if !over {
            match acc.checked_mul(10) {
                Some(m) => match m.checked_add(d) {
                    Some(x) => {
                        acc = x;
                    },
                    None => {
                        over = true;
                    },
                },
                None => {
                    over = true;
                },
            }
        }
    }
    proof {
        assert(t.take(n - from) =~= t);
    }
    if over || acc > max {
        None
    } else {
        Some(acc)
    }
}

/// A text with a character that is no digit writes no number.
proof fn lemma_not_digits(t: Seq<char>, k: int)
    requires
        0 <= k < t.len(),
        !is_digit(t[k]),
    ensures
        digits_value(t) is None,
    decreases t.len(),
{
    if k < t.len() - 1 {
        assert(t.drop_last()[k] == t[k]);
        lemma_not_digits(t.drop_last(), k);
    }
}

} // verus!
