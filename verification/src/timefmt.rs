//! The clock rendering of a number of seconds: `MM:SS`, with a leading
//! `HH:` exactly when the total reaches one hour.

use vstd::prelude::*;
use vstd::string::StringExecFns;
use vstd::arithmetic::div_mod::{
    lemma_fundamental_div_mod, lemma_div_denominator, lemma_mod_division_less_than_divisor,
    lemma_div_is_ordered,
};
use crate::digits::{lemma_dec_of_len, pad2_of, render_pad2};

verus! {

/// The hour component of `t` seconds.
pub open spec fn hours_of(t: int) -> int {
    t / 3600
}

/// The minute component of `t` seconds.
pub open spec fn minutes_of(t: int) -> int {
    (t / 60) % 60
}

/// The second component of `t` seconds.
pub open spec fn seconds_of(t: int) -> int {
    t % 60
}

/// The printed clock form of `t` seconds: every component zero-padded to
/// two digits, with the hour component present exactly when `t` is at
/// least one hour.
pub open spec fn time_str(t: int) -> Seq<char>
    recommends
        t >= 0,
{
    if t >= 3600 {
        pad2_of(hours_of(t)) + seq![':'] + pad2_of(minutes_of(t)) + seq![':'] + pad2_of(
            seconds_of(t),
        )
    } else {
        pad2_of(minutes_of(t)) + seq![':'] + pad2_of(seconds_of(t))
    }
}

/// The printed components reconstruct the total second count, each of the
/// lower components stays under sixty, and the hour segment is present —
/// seen in the printed length — exactly from one hour up.
pub proof fn lemma_time_components(t: u32)
    ensures
        hours_of(t as int) * 3600 + minutes_of(t as int) * 60 + seconds_of(t as int) == t,
        0 <= hours_of(t as int),
        0 <= minutes_of(t as int) < 60,
        0 <= seconds_of(t as int) < 60,
        hours_of(t as int) > 0 <==> t >= 3600,
        t < 3600 ==> time_str(t as int).len() == 5,
        t >= 3600 ==> time_str(t as int).len() >= 8,
{
    let ti = t as int;
    lemma_fundamental_div_mod(ti, 60);
    lemma_fundamental_div_mod(ti / 60, 60);
    lemma_div_denominator(ti, 60, 60);
    lemma_mod_division_less_than_divisor(ti, 60);
    lemma_mod_division_less_than_divisor(ti / 60, 60);
    lemma_div_is_ordered(0, ti, 60);
    lemma_div_is_ordered(0, ti, 3600);
    lemma_fundamental_div_mod(ti, 3600);
    lemma_mod_division_less_than_divisor(ti, 3600);
    if ti >= 3600 {
        lemma_div_is_ordered(3600, ti, 3600);
    }
    lemma_dec_of_len(hours_of(ti));
    lemma_dec_of_len(minutes_of(ti));
    lemma_dec_of_len(seconds_of(ti));
}

/// Render `sec` seconds in clock form.
pub fn format_time(sec: u32) -> (r: String)
    ensures
        r@ == time_str(sec as int),
{
    let s: u32 = sec % 60;
    let mut min: u32 = sec / 60;
    let mut hour: u32 = 0;
    if min >= 60 {
        hour = min / 60;
        min = min % 60;
    }
    proof {
        lemma_time_components(sec);
        lemma_div_denominator(sec as int, 60, 60);
        if sec >= 3600 {
            lemma_div_is_ordered(3600, sec as int, 60);
        } else {
            lemma_div_is_ordered(sec as int, 3599, 60);
            lemma_mod_division_less_than_divisor(sec as int, 60);
        }
        reveal_strlit(":");
        assert(":"@ =~= seq![':']);
    }
    if hour != 0 {
        let r = render_pad2(hour).concat(":").concat(render_pad2(min).as_str()).concat(
            ":",
        ).concat(render_pad2(s).as_str());
        proof {
            assert(r@ =~= time_str(sec as int));
        }
        r
    } else {
        let r = render_pad2(min).concat(":").concat(render_pad2(s).as_str());
        proof {
            assert(r@ =~= time_str(sec as int));
        }
        r
    }
}

} // verus!
