//! The text updater: render the current population count into the fixed
//! "Num. Bunnies: <count>" label shown by the host UI.

use vstd::prelude::*;

verus! {

/// The character for one decimal digit.
pub open spec fn digit_char(d: int) -> char {
    if d == 0 {
        '0'
    } else if d == 1 {
        '1'
    } else if d == 2 {
        '2'
    } else if d == 3 {
        '3'
    } else if d == 4 {
        '4'
    } else if d == 5 {
        '5'
    } else if d == 6 {
        '6'
    } else if d == 7 {
        '7'
    } else if d == 8 {
        '8'
    } else {
        '9'
    }
}

/// The decimal digits of `n`, most significant first, with no leading
/// zeros (a lone zero for `n == 0`).
pub open spec fn spec_digits(n: nat) -> Seq<char>
    decreases n,
{
    if n < 10 {
        seq![digit_char(n as int)]
    } else {
        spec_digits(n / 10) + seq![digit_char((n % 10) as int)]
    }
}

/// The fixed prefix of the population label.
pub open spec fn label_prefix() -> Seq<char> {
    seq!['N', 'u', 'm', '.', ' ', 'B', 'u', 'n', 'n', 'i', 'e', 's', ':', ' ']
}

/// The full population label for a count of `n`.
pub open spec fn spec_label(n: nat) -> Seq<char> {
    label_prefix() + spec_digits(n)
}

/// The digits of `digits` read back to front, as characters.
spec fn rev_digit_chars(digits: Seq<u8>) -> Seq<char> {
    Seq::new(digits.len(), |k: int| digit_char(digits[digits.len() - 1 - k] as int))
}

/// A one-character string slice for one decimal digit.
fn digit_str(d: u8) -> (r: &'static str)
    requires
        d < 10,
    ensures
        r@ == seq![digit_char(d as int)],
{
    if d == 0 {
        proof {
            reveal_strlit("0");
        }
        "0"
    } else if d == 1 {
        proof {
            reveal_strlit("1");
        }
        "1"
    } else if d == 2 {
        proof {
            reveal_strlit("2");
        }
        "2"
    } else if d == 3 {
        proof {
            reveal_strlit("3");
        }
        "3"
    } else if d == 4 {
        proof {
            reveal_strlit("4");
        }
        "4"
    } else if d == 5 {
        proof {
            reveal_strlit("5");
        }
        "5"
    } else if d == 6 {
        proof {
            reveal_strlit("6");
        }
        "6"
    } else if d == 7 {
        proof {
            reveal_strlit("7");
        }
        "7"
    } else if d == 8 {
        proof {
            reveal_strlit("8");
        }
        "8"
    } else {
        proof {
            reveal_strlit("9");
        }
        "9"
    }
}

/// Render `n` in decimal.
pub fn decimal_string(n: u64) -> (r: String)
    ensures
        r@ == spec_digits(n as nat),
{
    let mut m: u64 = n;
    let mut rev: Vec<u8> = Vec::new();
    while m >= 10
        invariant
            spec_digits(n as nat) == spec_digits(m as nat) + rev_digit_chars(rev@),
            forall|k: int| 0 <= k < rev@.len() ==> rev@[k] < 10,
        decreases m,
    {
        let d: u8 = (m % 10) as u8;
        proof {
            let pushed = rev@.push(d);
            assert(rev_digit_chars(pushed) =~= seq![digit_char(d as int)] + rev_digit_chars(
                rev@,
            ));
            assert((spec_digits((m / 10) as nat) + seq![digit_char(d as int)])
                + rev_digit_chars(rev@) =~= spec_digits((m / 10) as nat) + rev_digit_chars(
                pushed,
            ));
        }
        rev.push(d);
        m = m / 10;
    }
    let d: u8 = m as u8;
    proof {
        let pushed = rev@.push(d);
        assert(rev_digit_chars(pushed) =~= seq![digit_char(d as int)] + rev_digit_chars(rev@));
        assert(spec_digits(m as nat) =~= seq![digit_char(d as int)]);
        assert(spec_digits(m as nat) + rev_digit_chars(rev@) =~= rev_digit_chars(pushed));
    }
    rev.push(d);
    let ghost all = rev@;
    let mut r = String::new();
    let mut k: usize = rev.len();
    proof {
        assert(r@ + rev_digit_chars(all) =~= rev_digit_chars(all));
    }
    while k > 0
        invariant
            rev@ == all,
            0 <= k <= all.len(),
            forall|p: int| 0 <= p < all.len() ==> all[p] < 10,
            spec_digits(n as nat) == rev_digit_chars(all),
            r@ == rev_digit_chars(all).subrange(0, all.len() - k),
        decreases k,
    {
        k = k - 1;
        let s = digit_str(rev[k]);
        proof {
            let done = all.len() - (k + 1);
            assert(rev_digit_chars(all)[done] == digit_char(all[k as int] as int));
            assert(rev_digit_chars(all).subrange(0, done + 1) =~= rev_digit_chars(
                all,
            ).subrange(0, done) + seq![digit_char(all[k as int] as int)]);
        }
        r.append(s);
    }
    proof {
        assert(rev_digit_chars(all).subrange(0, all.len() as int) =~= rev_digit_chars(all));
    }
    r
}

/// Render the population label, "Num. Bunnies: " followed by the count in
/// decimal.
pub fn bunny_label(current: u64) -> (r: String)
    ensures
        r@ == spec_label(current as nat),
{
    let mut r = String::from_str("Num. Bunnies: ");
    proof {
        reveal_strlit("Num. Bunnies: ");
        assert(r@ =~= label_prefix());
    }
    let digits = decimal_string(current);
    r.append(digits.as_str());
    r
}

} // verus!
