//! Decimal numerals: rendering counts into diagnostics and reading
//! the page count out of the inspector's report.

use vstd::prelude::*;

verus! {

/// Whether `c` is a decimal digit.
pub open spec fn is_digit(c: char) -> bool {
    '0' <= c <= '9'
}

/// Numeric value of a digit character.
pub open spec fn digit_val(c: char) -> nat {
    (c as nat - '0' as nat) as nat
}

/// Value of a digit string, most significant digit first.
pub open spec fn digits_val(s: Seq<char>) -> nat
    decreases s.len(),
{
    if s.len() == 0 {
        0
    } else {
        digits_val(s.drop_last()) * 10 + digit_val(s.last())
    }
}

/// The standard decimal numeral for `n`: no sign, no leading zeros.
pub open spec fn decimal_str(n: nat) -> Seq<char>
    decreases n,
{
    let d = digit_of(n % 10);
    if n < 10 {
        seq![d]
    } else {
        decimal_str(n / 10).push(d)
    }
}

/// The digit character for a value below ten.
pub open spec fn digit_of(d: nat) -> char {
    if d == 0 {
        '0'
    } else if d == 1 {
        '1'
    } else if d == 2 {
        '2'
    } else if d == 3 {
        '3'
    } else if d == 4 {
        '4'
    } else if d == 5 {
        '5'
    } else if d == 6 {
        '6'
    } else if d == 7 {
        '7'
    } else if d == 8 {
        '8'
    } else {
        '9'
    }
}

/// Relies on `ToString` for `usize`: the standard library renders an
/// unsigned integer as its plain decimal numeral.
#[verifier::external_body]
pub fn usize_to_string(n: usize) -> (r: String)
    ensures
        r@ == decimal_str(n as nat),
{
    n.to_string()
}

/// Reads the value of a run of digit characters; `None` when the run
/// is empty, holds a non-digit, or does not fit in `usize`.
pub fn parse_digits(chars: &Vec<char>, from: usize, to: usize) -> (r: Option<usize>)
    requires
        from <= to <= chars@.len(),
    ensures
        match r {
            Some(v) => {
                &&& from < to
                &&& forall|k: int| from <= k < to ==> is_digit(chars@[k])
                &&& v == digits_val(chars@.subrange(from as int, to as int))
            },
            None => from >= to || (exists|k: int| from <= k < to && !is_digit(chars@[k]))
                || digits_val(chars@.subrange(from as int, to as int)) > usize::MAX,
        },
{
    if from >= to {
        return None;
    }
    let mut v: usize = 0;
    let mut i: usize = from;
    while i < to
        invariant
            from <= i <= to <= chars@.len(),
            forall|k: int| from <= k < i ==> is_digit(chars@[k]),
            v == digits_val(chars@.subrange(from as int, i as int)),
        decreases to - i,
    {
        let c = chars[i];
        if c < '0' || c > '9' {
            return None;
        }
        let d: usize = (c as u32 as usize) - 48;
        let next = match v.checked_mul(10) {
            Some(t) => t.checked_add(d),
            None => None,
        };
        match next {
            Some(n) => {
                proof {
                    assert(chars@.subrange(from as int, i + 1 as int).drop_last() =~= chars@
                        .subrange(from as int, i as int));
                    assert(chars@.subrange(from as int, i + 1 as int).last() == chars@[i as int]);
                }
                v = n;
                i = i + 1;
            },
            None => {
                proof {
                    lemma_digits_val_grows(chars@.subrange(from as int, to as int), i - from);
                    assert(chars@.subrange(from as int, to as int).subrange(0, i - from) =~= chars@
                        .subrange(from as int, i as int));
                    assert(chars@.subrange(from as int, to as int)[i - from] == chars@[i as int]);
                }
                return None;
            },
        }
    }
    proof {
        assert(chars@.subrange(from as int, i as int) =~= chars@.subrange(from as int, to as int));
    }
    Some(v)
}

/// The value of a digit string dominates the value of any of its
/// prefixes extended by one digit: used to detect overflow early.
proof fn lemma_digits_val_grows(s: Seq<char>, p: int)
    requires
        0 <= p < s.len(),
    ensures
        digits_val(s) >= digits_val(s.subrange(0, p)) * 10 + digit_val(s[p]),
    decreases s.len(),
{
    if p == s.len() - 1 {
        assert(s.subrange(0, p) =~= s.drop_last());
    } else {
        lemma_digits_val_grows(s.drop_last(), p);
        assert(s.drop_last().subrange(0, p) =~= s.subrange(0, p));
        assert(s.drop_last()[p] == s[p]);
        assert(digits_val(s) == digits_val(s.drop_last()) * 10 + digit_val(s.last()));
    }
}

} // verus!
