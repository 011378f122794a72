use vstd::prelude::*;
use vstd::string::StringExecFns;

use crate::decimal::is_digit_char;
use crate::decimal::lemma_dec_digits;
use crate::decimal::push_dec;
use crate::decimal::spec_dec;

verus! {

/// The compact human form of an uptime of s seconds: days, hours and minutes,
/// where the leading zero components are omitted ("0m" when everything is
/// zero) and the seconds component is discarded.
pub open spec fn spec_format_uptime(s: int) -> Seq<char> {
    let days = s / 86400;
    let hours = (s % 86400) / 3600;
    let minutes = (s % 3600) / 60;
    if days > 0 {
        spec_dec(days) + seq!['d', ' '] + spec_dec(hours) + seq!['h', ' '] + spec_dec(minutes)
            + seq!['m']
    } else if hours > 0 {
        spec_dec(hours) + seq!['h', ' '] + spec_dec(minutes) + seq!['m']
    } else {
        spec_dec(minutes) + seq!['m']
    }
}

/// Renders an uptime in seconds as days, hours and minutes.
pub fn format_uptime(seconds: u64) -> (r: String)
    ensures
        r@ == spec_format_uptime(seconds as int),
{
    let days = seconds / 86400;
    let hours = (seconds % 86400) / 3600;
    let minutes = (seconds % 3600) / 60;
    if days > 0 {
        let mut s = crate::decimal::format_u64(days);
        s.append("d ");
        push_dec(&mut s, hours);
        s.append("h ");
        push_dec(&mut s, minutes);
        s.append("m");
        proof {
            reveal_strlit("d ");
            reveal_strlit("h ");
            reveal_strlit("m");
            assert(s@ =~= spec_format_uptime(seconds as int));
        }
        s
    } else if hours > 0 {
        let mut s = crate::decimal::format_u64(hours);
        s.append("h ");
        push_dec(&mut s, minutes);
        s.append("m");
        proof {
            reveal_strlit("h ");
            reveal_strlit("m");
            assert(s@ =~= spec_format_uptime(seconds as int));
        }
        s
    } else {
        let mut s = crate::decimal::format_u64(minutes);
        s.append("m");
        proof {
            reveal_strlit("m");
            assert(s@ =~= spec_format_uptime(seconds as int));
        }
        s
    }
}

/// The day marker appears exactly when a full day fits, the hour marker
/// exactly when a full hour is shown, and the text always ends in 'm'.
pub proof fn lemma_uptime_markers(s: int)
    requires
        s >= 0,
    ensures
        spec_format_uptime(s).contains('d') <==> s >= 86400,
        spec_format_uptime(s).contains('h') <==> (s % 86400 >= 3600 || s >= 86400),
        spec_format_uptime(s).len() >= 1,
        spec_format_uptime(s).last() == 'm',
{
    let days = s / 86400;
    let hours = (s % 86400) / 3600;
    let minutes = (s % 3600) / 60;
    let u = spec_format_uptime(s);
    lemma_dec_digits(days);
    lemma_dec_digits(hours);
    lemma_dec_digits(minutes);
    assert(days > 0 <==> s >= 86400);
    assert(hours > 0 <==> s % 86400 >= 3600);
    if days > 0 {
        let dl = spec_dec(days).len() as int;
        let hl = spec_dec(hours).len() as int;
        assert(u[dl] == 'd');
        assert(u.contains('d'));
        assert(u[dl + 2 + hl] == 'h');
        assert(u.contains('h'));
        assert(u.last() == 'm');
    } else if hours > 0 {
        let hl = spec_dec(hours).len() as int;
        assert(u[hl] == 'h');
        assert(u.contains('h'));
        assert(u.last() == 'm');
        assert forall|i: int| 0 <= i < u.len() implies u[i] != 'd' by {
            if i < hl {
                assert(is_digit_char(u[i]));
            } else if i < hl + 2 {
            } else if i < hl + 2 + spec_dec(minutes).len() {
                assert(u[i] == spec_dec(minutes)[i - hl - 2]);
                assert(is_digit_char(u[i]));
            } else {
                assert(u[i] == 'm');
            }
        }
        assert(!u.contains('d'));
    } else {
        let ml = spec_dec(minutes).len() as int;
        assert(u.last() == 'm');
        assert forall|i: int| 0 <= i < u.len() implies u[i] != 'd' && u[i] != 'h' by {
            if i < ml {
                assert(is_digit_char(u[i]));
            } else {
                assert(u[i] == 'm');
            }
        }
        assert(!u.contains('d'));
        assert(!u.contains('h'));
    }
}

} // verus!
