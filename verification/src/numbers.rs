//! Decimal numerals: rendering line numbers and parsing unsigned integers.

use vstd::prelude::*;

verus! {

/// The character for the decimal digit `d`.
pub open spec fn digit_char(d: nat) -> char {
    if d == 0 {
        '0'
    } else if d == 1 {
        '1'
    } else if d == 2 {
        '2'
    } else if d == 3 {
        '3'
    } else if d == 4 {
        '4'
    } else if d == 5 {
        '5'
    } else if d == 6 {
        '6'
    } else if d == 7 {
        '7'
    } else if d == 8 {
        '8'
    } else {
        '9'
    }
}

/// The decimal digits of `n`, most significant first.
pub open spec fn dec_str(n: nat) -> Seq<char>
    decreases n,
{
    if n < 10 {
        seq![digit_char(n)]
    } else {
        dec_str(n / 10).push(digit_char(n % 10))
    }
}

/// `s` left-padded with blanks to at least four characters.
pub open spec fn pad4(s: Seq<char>) -> Seq<char> {
    if s.len() >= 4 {
        s
    } else {
        Seq::new((4 - s.len()) as nat, |i: int| ' ') + s
    }
}

/// The prompt and listing prefix for line number `n`: the number
/// right-justified in a four-character field, then a bar and a blank.
pub open spec fn line_prefix(n: nat) -> Seq<char> {
    pad4(dec_str(n)) + seq!['|', ' ']
}

fn digit_of(d: usize) -> (c: char)
    requires
        d < 10,
    ensures
        c == digit_char(d as nat),
{
    if d == 0 {
        '0'
    } else if d == 1 {
        '1'
    } else if d == 2 {
        '2'
    } else if d == 3 {
        '3'
    } else if d == 4 {
        '4'
    } else if d == 5 {
        '5'
    } else if d == 6 {
        '6'
    } else if d == 7 {
        '7'
    } else if d == 8 {
        '8'
    } else {
        '9'
    }
}

/// The decimal rendering of `n`.
pub fn render_usize(n: usize) -> (r: Vec<char>)
    ensures
        r@ == dec_str(n as nat),
    decreases n,
{
    if n < 10 {
        let mut r: Vec<char> = Vec::new();
        r.push(digit_of(n));
        proof {
            assert(r@ =~= seq![digit_char(n as nat)]);
        }
        r
    } else {
        let mut r = render_usize(n / 10);
        r.push(digit_of(n % 10));
        r
    }
}

/// The rendered prefix for line number `n`, matching [`line_prefix`].
pub fn render_prefix(n: usize) -> (r: Vec<char>)
    ensures
        r@ == line_prefix(n as nat),
{
    let digits = render_usize(n);
    let mut r: Vec<char> = Vec::new();
    let pad: usize = if digits.len() >= 4 {
        0
    } else {
        4 - digits.len()
    };
    let mut k: usize = 0;
    while k < pad
        invariant
            k <= pad,
            r@ == Seq::new(k as nat, |i: int| ' '),
        decreases pad - k,
    {
        r.push(' ');
        proof {
            assert(r@ =~= Seq::new(k as nat + 1, |i: int| ' '));
        }
        k = k + 1;
    }
    let mut j: usize = 0;
    while j < digits.len()
        invariant
            j <= digits.len(),
            r@ == Seq::new(pad as nat, |i: int| ' ') + digits@.take(j as int),
        decreases digits.len() - j,
    {
        r.push(digits[j]);
        proof {
            assert(digits@.take(j as int + 1) =~= digits@.take(j as int).push(digits@[j as int]));
            assert(Seq::new(pad as nat, |i: int| ' ') + digits@.take(j as int + 1) =~= (Seq::new(
                pad as nat,
                |i: int| ' ',
            ) + digits@.take(j as int)).push(digits@[j as int]));
        }
        j = j + 1;
    }
    r.push('|');
    r.push(' ');
    proof {
        assert(digits@.take(digits@.len() as int) =~= digits@);
        assert(r@ =~= pad4(digits@) + seq!['|', ' ']);
    }
    r
}

/// Whether `c` is a decimal digit.
pub open spec fn is_digit(c: char) -> bool {
    48 <= c as u32 <= 57
}

/// The value of the decimal digit `c`.
pub open spec fn digit_val(c: char) -> nat {
    (c as u32 - 48) as nat
}

/// Whether every character of `s` is a decimal digit.
pub open spec fn all_digits(s: Seq<char>) -> bool {
    forall|i: int| 0 <= i < s.len() ==> is_digit(s[i])
}

/// The value of a string of decimal digits, most significant first.
pub open spec fn digits_val(s: Seq<char>) -> nat
    decreases s.len(),
{
    if s.len() == 0 {
        0
    } else {
        digits_val(s.drop_last()) * 10 + digit_val(s.last())
    }
}

/// The digit part of a numeral: any leading `'+'` sign removed.
pub open spec fn digit_part(s: Seq<char>) -> Seq<char> {
    if s.len() > 0 && s[0] == '+' {
        s.drop_first()
    } else {
        s
    }
}

/// Whether `s` is a well-formed unsigned decimal numeral, as
/// `str::parse::<usize>` accepts one: an optional leading `'+'` sign, then
/// at least one digit.
pub open spec fn usize_numeral(s: Seq<char>) -> bool {
    digit_part(s).len() > 0 && all_digits(digit_part(s))
}

/// The value of the numeral `s`.
pub open spec fn numeral_val(s: Seq<char>) -> nat {
    digits_val(digit_part(s))
}

/// A longer digit string never has a smaller value.
pub proof fn lemma_digits_val_prefix(s: Seq<char>, k: int)
    requires
        0 <= k <= s.len(),
    ensures
        digits_val(s.take(k)) <= digits_val(s),
    decreases s.len() - k,
{
    if k < s.len() {
        assert(s.take(k + 1).drop_last() =~= s.take(k));
        assert(digits_val(s.take(k + 1)) == digits_val(s.take(k)) * 10 + digit_val(s.take(k + 1).last()));
        lemma_digits_val_prefix(s, k + 1);
    } else {
        assert(s.take(k) =~= s);
    }
}

/// `str::parse::<usize>` on the characters of `v`: the parsed value, or
/// nothing when `v` is not a numeral or its value does not fit in `usize`.
pub fn parse_usize(v: &Vec<char>) -> (r: Option<usize>)
    ensures
        match r {
            Some(n) => usize_numeral(v@) && numeral_val(v@) <= usize::MAX && n == numeral_val(v@),
            None => !usize_numeral(v@) || numeral_val(v@) > usize::MAX,
        },
{
    let start: usize = if v.len() > 0 && v[0] == '+' {
        1
    } else {
        0
    };
    let ghost dp = digit_part(v@);
    proof {
        assert(dp =~= v@.skip(start as int));
    }
    if v.len() == start {
        return None;
    }
    let mut acc: usize = 0;
    let mut i: usize = start;
    while i < v.len()
        invariant
            start <= i <= v.len(),
            dp == digit_part(v@),
            dp == v@.skip(start as int),
            all_digits(dp.take(i - start)),
            acc == digits_val(dp.take(i - start)),
        decreases v.len() - i,
    {
        let c = v[i];
        let u = c as u32;
        proof {
            assert(dp[i - start] == v@[i as int]);
        }
        if u < 48 || u > 57 {
            return None;
        }
        let d = (u - 48) as usize;
        proof {
            let k = i - start;
            assert(dp.take(k + 1).drop_last() =~= dp.take(k));
            assert(dp.take(k + 1).last() == v@[i as int]);
            assert(digits_val(dp.take(k + 1)) == acc * 10 + d);
            assert forall|j: int| 0 <= j < k + 1 implies is_digit(#[trigger] dp.take(k + 1)[j]) by {
                if j < k {
                    assert(dp.take(k)[j] == dp[j]);
                }
            }
            assert(all_digits(dp.take(k + 1)));
        }
        let next = match acc.checked_mul(10) {
            Some(x) => x.checked_add(d),
            None => None,
        };
        match next {
            Some(x) => {
                acc = x;
            },
            None => {
                proof {
                    let k = i - start;
                    assert(acc * 10 + d > usize::MAX);
                    if usize_numeral(v@) {
                        lemma_digits_val_prefix(dp, k + 1);
                        assert(numeral_val(v@) == digits_val(dp));
                        assert(digits_val(dp) >= digits_val(dp.take(k + 1)));
                    }
                }
                return None;
            },
        }
        i = i + 1;
    }
    proof {
        assert(dp.take(v@.len() - start) =~= dp);
    }
    Some(acc)
}

} // verus!
