use vstd::prelude::*;
use vstd::string::StringExecFns;

verus! {

/// The character for one decimal digit value.
pub open spec fn digit_char(d: int) -> char {
    if d == 0 {
        '0'
    } else if d == 1 {
        '1'
    } else if d == 2 {
        '2'
    } else if d == 3 {
        '3'
    } else if d == 4 {
        '4'
    } else if d == 5 {
        '5'
    } else if d == 6 {
        '6'
    } else if d == 7 {
        '7'
    } else if d == 8 {
        '8'
    } else {
        '9'
    }
}

/// Whether c is one of the ten decimal digit characters.
pub open spec fn is_digit_char(c: char) -> bool {
    c == '0' || c == '1' || c == '2' || c == '3' || c == '4' || c == '5' || c == '6' || c == '7'
        || c == '8' || c == '9'
}

/// The decimal numeral of n, most significant digit first, with no leading
/// zeros (a single '0' for n == 0).
pub open spec fn spec_dec(n: int) -> Seq<char>
    decreases n,
{
    if n < 10 {
        seq![digit_char(n)]
    } else {
        spec_dec(n / 10) + seq![digit_char(n % 10)]
    }
}

/// Every character of a decimal numeral is a digit character, and a numeral
/// is never empty.
pub proof fn lemma_dec_digits(n: int)
    ensures
        spec_dec(n).len() >= 1,
        forall|i: int| 0 <= i < spec_dec(n).len() ==> is_digit_char(#[trigger] spec_dec(n)[i]),
    decreases n,
{
    if n < 10 {
    } else {
        lemma_dec_digits(n / 10);
        assert forall|i: int| 0 <= i < spec_dec(n).len() implies is_digit_char(
            spec_dec(n)[i],
        ) by {
            if i < spec_dec(n / 10).len() {
                assert(spec_dec(n)[i] == spec_dec(n / 10)[i]);
            } else {
                assert(spec_dec(n)[i] == digit_char(n % 10));
            }
        }
    }
}

/// Appends the single digit character for d to s.
pub(crate) fn push_digit(s: &mut String, d: u64)
    requires
        d < 10,
    ensures
        final(s)@ == old(s)@ + seq![digit_char(d as int)],
{
    if d == 0 {
        s.append("0");
        proof {
            reveal_strlit("0");
            assert(s@ =~= old(s)@ + seq![digit_char(d as int)]);
        }
    } else if d == 1 {
        s.append("1");
        proof {
            reveal_strlit("1");
            assert(s@ =~= old(s)@ + seq![digit_char(d as int)]);
        }
    } else if d == 2 {
        s.append("2");
        proof {
            reveal_strlit("2");
            assert(s@ =~= old(s)@ + seq![digit_char(d as int)]);
        }
    } else if d == 3 {
        s.append("3");
        proof {
            reveal_strlit("3");
            assert(s@ =~= old(s)@ + seq![digit_char(d as int)]);
        }
    } else if d == 4 {
        s.append("4");
        proof {
            reveal_strlit("4");
            assert(s@ =~= old(s)@ + seq![digit_char(d as int)]);
        }
    } else if d == 5 {
        s.append("5");
        proof {
            reveal_strlit("5");
            assert(s@ =~= old(s)@ + seq![digit_char(d as int)]);
        }
    } else if d == 6 {
        s.append("6");
        proof {
            reveal_strlit("6");
            assert(s@ =~= old(s)@ + seq![digit_char(d as int)]);
        }
    } else if d == 7 {
        s.append("7");
        proof {
            reveal_strlit("7");
            assert(s@ =~= old(s)@ + seq![digit_char(d as int)]);
        }
    } else if d == 8 {
        s.append("8");
        proof {
            reveal_strlit("8");
            assert(s@ =~= old(s)@ + seq![digit_char(d as int)]);
        }
    } else {
        s.append("9");
        proof {
            reveal_strlit("9");
            assert(s@ =~= old(s)@ + seq![digit_char(d as int)]);
        }
    }
}

/// Appends the decimal numeral of n to s.
pub(crate) fn push_dec(s: &mut String, n: u64)
    ensures
        final(s)@ == old(s)@ + spec_dec(n as int),
    decreases n,
{
    if n < 10 {
        push_digit(s, n);
    } else {
        push_dec(s, n / 10);
        push_digit(s, n % 10);
        proof {
            assert(s@ =~= old(s)@ + spec_dec(n as int));
        }
    }
}

/// Renders n as a decimal numeral.
pub fn format_u64(n: u64) -> (r: String)
    ensures
        r@ == spec_dec(n as int),
{
    let mut s = String::new();
    push_dec(&mut s, n);
    proof {
        assert(s@ =~= spec_dec(n as int));
    }
    s
}

/// The numeral of a count of hundredths, rendered with exactly two digits
/// after the decimal point.
pub open spec fn spec_centi(n: int) -> Seq<char> {
    spec_dec(n / 100) + seq!['.', digit_char((n % 100) / 10), digit_char(n % 10)]
}

/// Renders a count of hundredths with two digits after the decimal point.
pub fn format_centi(n: u64) -> (r: String)
    ensures
        r@ == spec_centi(n as int),
{
    let mut s = format_u64(n / 100);
    s.append(".");
    push_digit(&mut s, (n % 100) / 10);
    push_digit(&mut s, n % 10);
    proof {
        reveal_strlit(".");
        assert(s@ =~= spec_centi(n as int));
    }
    s
}

/// n copies of the character c.
pub open spec fn spec_repeat(c: char, n: int) -> Seq<char> {
    Seq::new(n as nat, |i: int| c)
}

/// A string of count dashes.
pub fn dashes(count: usize) -> (r: String)
    ensures
        r@ == spec_repeat('-', count as int),
{
    let mut s = String::new();
    let mut i: usize = 0;
    while i < count
        invariant
            i <= count,
            s@ == spec_repeat('-', i as int),
        decreases count - i,
    {
        s.append("-");
        i = i + 1;
        proof {
            reveal_strlit("-");
            assert(s@ =~= spec_repeat('-', i as int));
        }
    }
    s
}

/// A string of count spaces.
pub fn spaces(count: usize) -> (r: String)
    ensures
        r@ == spec_repeat(' ', count as int),
{
    let mut s = String::new();
    let mut i: usize = 0;
    while i < count
        invariant
            i <= count,
            s@ == spec_repeat(' ', i as int),
        decreases count - i,
    {
        s.append(" ");
        i = i + 1;
        proof {
            reveal_strlit(" ");
            assert(s@ =~= spec_repeat(' ', i as int));
        }
    }
    s
}

} // verus!
