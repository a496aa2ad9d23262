//! Small string-building helpers shared by the scanner and the emitter.

use vstd::prelude::*;
use vstd::string::*;

verus! {

/// Relies on `String::push` from std: it appends exactly the given
/// character to the end of the string.
#[verifier::external_body]
pub(crate) fn push_char(s: &mut String, c: char)
    ensures
        final(s)@ == old(s)@.push(c),
{
    s.push(c);
}

/// The decimal digits of `v`, most significant first, empty for zero.
pub open spec fn spec_udec(v: nat) -> Seq<char>
    decreases v,
{
    if v == 0 {
        Seq::empty()
    } else {
        spec_udec(v / 10).push(spec_digit_char(v % 10))
    }
}

/// The decimal rendering of an unsigned value, `"0"` for zero.
pub open spec fn spec_udec_str(v: nat) -> Seq<char> {
    if v == 0 {
        seq!['0']
    } else {
        spec_udec(v)
    }
}

/// The decimal rendering of a signed value, with a leading `-` when it is
/// negative.
pub open spec fn spec_idec_str(v: int) -> Seq<char> {
    if v >= 0 {
        spec_udec_str(v as nat)
    } else {
        seq!['-'] + spec_udec_str((-v) as nat)
    }
}

pub open spec fn spec_digit_char(d: nat) -> char {
    if d == 0 {
        '0'
    } else if d == 1 {
        '1'
    } else if d == 2 {
        '2'
    } else if d == 3 {
        '3'
    } else if d == 4 {
        '4'
    } else if d == 5 {
        '5'
    } else if d == 6 {
        '6'
    } else if d == 7 {
        '7'
    } else if d == 8 {
        '8'
    } else {
        '9'
    }
}

fn digit_char(d: u64) -> (c: char)
    requires
        d < 10,
    ensures
        c == spec_digit_char(d as nat),
{
    if d == 0 {
        '0'
    } else if d == 1 {
        '1'
    } else if d == 2 {
        '2'
    } else if d == 3 {
        '3'
    } else if d == 4 {
        '4'
    } else if d == 5 {
        '5'
    } else if d == 6 {
        '6'
    } else if d == 7 {
        '7'
    } else if d == 8 {
        '8'
    } else {
        '9'
    }
}

/// Renders `v` in decimal.
pub fn u64_to_string(v: u64) -> (s: String)
    ensures
        s@ == spec_udec_str(v as nat),
{
    if v == 0 {
        let mut s = String::new();
        push_char(&mut s, '0');
        return s;
    }
    let mut digits: Vec<char> = Vec::new();
    let mut x = v;
    while x > 0
        invariant
            spec_udec(v as nat) == spec_udec(x as nat) + digits@,
        decreases x,
    {
        let d = x % 10;
        proof {
            assert(spec_udec(x as nat) == spec_udec((x as nat) / 10).push(
                spec_digit_char((x as nat) % 10),
            ));
            assert(spec_udec((x as nat) / 10).push(spec_digit_char((x as nat) % 10)) + digits@
                =~= spec_udec((x as nat) / 10) + (seq![spec_digit_char((x as nat) % 10)]
                + digits@));
        }
        digits.insert(0, digit_char(d));
        x = x / 10;
    }
    proof {
        assert(spec_udec(v as nat) =~= digits@);
    }
    let mut s = String::new();
    let mut k: usize = 0;
    while k < digits.len()
        invariant
            k <= digits@.len(),
            s@ == digits@.subrange(0, k as int),
        decreases digits@.len() - k,
    {
        proof {
            assert(digits@.subrange(0, k as int).push(digits@[k as int]) =~= digits@.subrange(
                0,
                k + 1,
            ));
        }
        push_char(&mut s, digits[k]);
        k += 1;
    }
    proof {
        assert(digits@.subrange(0, digits@.len() as int) =~= digits@);
    }
    s
}

/// Renders `v` in decimal, with a leading `-` when it is negative.
pub fn i64_to_string(v: i64) -> (s: String)
    ensures
        s@ == spec_idec_str(v as int),
{
    if v >= 0 {
        u64_to_string(v as u64)
    } else {
        let magnitude: u64 = ((-(v + 1)) as u64) + 1;
        proof {
            assert(magnitude == -(v as int));
        }
        let mut s = String::new();
        push_char(&mut s, '-');
        let digits = u64_to_string(magnitude);
        let r = s.concat(digits.as_str());
        proof {
            assert(r@ =~= spec_idec_str(v as int));
        }
        r
    }
}

} // verus!
