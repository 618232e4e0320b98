//! Small string helpers: decimal rendering of numbers, one character
//! appended at a time, and copies of string vectors.

use vstd::prelude::*;
use vstd::string::StringExecFns;

verus! {

/// The character of one decimal digit.
pub open spec fn digit_char(d: nat) -> char {
    if d == 0 {
        '0'
    } else if d == 1 {
        '1'
    } else if d == 2 {
        '2'
    } else if d == 3 {
        '3'
    } else if d == 4 {
        '4'
    } else if d == 5 {
        '5'
    } else if d == 6 {
        '6'
    } else if d == 7 {
        '7'
    } else if d == 8 {
        '8'
    } else {
        '9'
    }
}

/// The decimal digits of a number, most significant first.
pub open spec fn dec_digits(n: nat) -> Seq<char>
    decreases n,
{
    if n < 10 {
        seq![digit_char(n)]
    } else {
        dec_digits(n / 10) + seq![digit_char(n % 10)]
    }
}

/// Relies on String::push: it appends the given character to the string.
#[verifier::external_body]
pub(crate) fn push_char(s: &mut String, c: char)
    ensures
        final(s)@ == old(s)@.push(c),
{
    s.push(c);
}

fn digit_char_exec(d: u8) -> (c: char)
    requires
        d < 10,
    ensures
        c == digit_char(d as nat),
{
    match d {
        0 => '0',
        1 => '1',
        2 => '2',
        3 => '3',
        4 => '4',
        5 => '5',
        6 => '6',
        7 => '7',
        8 => '8',
        _ => '9',
    }
}

spec fn digits_rev_chars(ds: Seq<u8>) -> Seq<char>
    decreases ds.len(),
{
    if ds.len() == 0 {
        Seq::empty()
    } else {
        seq![digit_char(ds.last() as nat)] + digits_rev_chars(ds.drop_last())
    }
}

/// Renders a number in decimal.
pub fn u32_to_string(x: u32) -> (s: String)
    ensures
        s@ == dec_digits(x as nat),
{
    let mut digits: Vec<u8> = Vec::new();
    let mut v = x;
    loop
        invariant_except_break
            forall|i: int| 0 <= i < digits@.len() ==> (#[trigger] digits@[i]) < 10,
            digits@.len() == 0 ==> v == x,
            digits@.len() > 0 ==> v > 0 && dec_digits(x as nat) == dec_digits(v as nat)
                + digits_rev_chars(digits@),
        ensures
            forall|i: int| 0 <= i < digits@.len() ==> (#[trigger] digits@[i]) < 10,
            dec_digits(x as nat) == digits_rev_chars(digits@),
        decreases v,
    {
        let d = (v % 10) as u8;
        let next = v / 10;
        let ghost pre = digits@;
        digits.push(d);
        proof {
            assert(digits@.drop_last() =~= pre);
            assert(digits@.last() == d);
            assert(digits_rev_chars(digits@) == seq![digit_char(d as nat)] + digits_rev_chars(
                pre,
            ));
            if pre.len() == 0 {
                assert(dec_digits(x as nat) =~= dec_digits(v as nat) + digits_rev_chars(pre));
            }
            if next == 0 {
                assert(v < 10);
                assert(dec_digits(v as nat) == seq![digit_char(v as nat)]);
                assert(dec_digits(x as nat) =~= digits_rev_chars(digits@));
            } else {
                assert(v >= 10);
                assert(dec_digits(v as nat) == dec_digits((v / 10) as nat) + seq![
                    digit_char((v % 10) as nat),
                ]);
                assert(dec_digits(x as nat) =~= dec_digits(next as nat) + digits_rev_chars(
                    digits@,
                ));
            }
        }
        v = next;
        if v == 0 {
            break ;
        }
    }
    let mut s = String::new();
    proof {
        assert(s@ + digits_rev_chars(digits@) =~= digits_rev_chars(digits@));
    }
    loop
        invariant
            forall|i: int| 0 <= i < digits@.len() ==> (#[trigger] digits@[i]) < 10,
            s@ + digits_rev_chars(digits@) == dec_digits(x as nat),
        decreases digits@.len(),
    {
        let ghost pre = digits@;
        match digits.pop() {
            None => {
                proof {
                    assert(s@ =~= s@ + digits_rev_chars(digits@));
                }
                return s;
            },
            Some(d) => {
                proof {
                    assert(d == pre.last());
                    assert(digits@ =~= pre.drop_last());
                    assert(digits_rev_chars(pre) == seq![digit_char(d as nat)]
                        + digits_rev_chars(digits@));
                }
                let c = digit_char_exec(d);
                push_char(&mut s, c);
                proof {
                    assert(s@ + digits_rev_chars(digits@) =~= dec_digits(x as nat));
                }
            },
        }
    }
}

/// Appends copies of the given strings to `out`.
pub(crate) fn clone_strings_into(src: &Vec<String>, out: &mut Vec<String>)
    ensures
        final(out)@.map_values(|s: String| s@) == old(out)@.map_values(|s: String| s@)
            + src@.map_values(|s: String| s@),
{
    let n = src.len();
    let mut i: usize = 0;
    while i < n
        invariant
            n == src@.len(),
            i <= n,
            out@.map_values(|s: String| s@) == old(out)@.map_values(|s: String| s@)
                + src@.map_values(|s: String| s@).take(i as int),
        decreases n - i,
    {
        let ghost pre = out@;
        out.push(src[i].clone());
        i += 1;
        proof {
            let f = |s: String| s@;
            assert(out@.map_values(f) =~= pre.map_values(f) + seq![src@[i - 1]@]);
            assert(out@.map_values(f) =~= old(out)@.map_values(f) + src@.map_values(f).take(
                i as int,
            ));
        }
    }
    proof {
        let sv = src@.map_values(|s: String| s@);
        assert(sv.take(n as int) =~= sv);
    }
}

} // verus!
