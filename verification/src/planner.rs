//! Pure timestamp sampling: the ordered instants, in milliseconds from the
//! start, at which thumbnail frames are taken from a video of a given
//! duration. Deterministic, and every unknown mode or missing parameter is an
//! error — never a silently substituted default.

use vstd::prelude::*;
use vstd::string::StringExecFns;

use crate::text::str_eq;

verus! {

/// Why a sampling plan could not be computed.
#[derive(Debug, PartialEq, Eq)]
pub enum PlanError {
    /// The fixed-count mode was asked for without a count.
    MissingCount,
    /// The interval mode was asked for without a minute figure.
    MissingMinutes,
    /// The interval works out to zero length.
    IntervalNotPositive,
    /// The mode name is not one of the known modes; the unrecognized name is
    /// carried along.
    UnknownMode(String),
}

/// The i-th instant (0-based) of the fixed-count plan: the duration divided
/// into `count + 1` equal steps, step boundaries 1 through `count` returned.
pub open spec fn fixed_instant(duration_ms: int, count: int, i: int) -> int {
    (duration_ms * (i + 1)) / (count + 1)
}

/// How many multiples of `interval_ms` lie strictly below `duration_ms`.
pub open spec fn interval_len(duration_ms: int, interval_ms: int) -> int {
    if duration_ms == 0 {
        0
    } else {
        (duration_ms - 1) / interval_ms
    }
}

/// Computes the sampling instants for a video `duration_ms` long.
///
/// `mode` picks the plan: `"fixed"` takes `count` instants at equal
/// fractions of the duration; `"interval"` takes one instant every
/// `minutes_milli` milli-minutes (an interval of `minutes_milli * 60`
/// milliseconds) while strictly below the duration.
pub fn sample_instants(
    duration_ms: u64,
    mode: &str,
    count: Option<u32>,
    minutes_milli: Option<u64>,
) -> (r: Result<Vec<u64>, PlanError>)
    ensures
        mode@ == "fixed"@ && count is None ==> (r matches Err(e) && e
            == PlanError::MissingCount),
        mode@ == "fixed"@ ==> (count matches Some(c) ==> (r matches Ok(v) && v@.len() == c
            && forall|i: int|
            0 <= i < c ==> v@[i] == fixed_instant(duration_ms as int, c as int, i))),
        mode@ == "interval"@ && minutes_milli is None ==> (r matches Err(e) && e
            == PlanError::MissingMinutes),
        mode@ == "interval"@ ==> (minutes_milli matches Some(m) ==> ((m == 0 ==> (r matches Err(e)
            && e == PlanError::IntervalNotPositive)) && (m > 0 ==> (r matches Ok(v) && v@.len()
            == interval_len(duration_ms as int, m as int * 60) && forall|i: int|
            0 <= i < v@.len() ==> v@[i] == (i + 1) * (m as int * 60))))),
        mode@ != "fixed"@ && mode@ != "interval"@ ==> (r matches Err(e) && e matches
            PlanError::UnknownMode(s) && s@ == mode@),
{
    proof {
        reveal_strlit("fixed");
        reveal_strlit("interval");
        assert("fixed"@.len() == 5);
        assert("interval"@.len() == 8);
    }
    if str_eq(mode, "fixed") {
        let c = match count {
            None => {
                return Err(PlanError::MissingCount);
            },
            Some(c) => c,
        };
        let mut v: Vec<u64> = Vec::new();
        let mut i: u32 = 0;
        while i < c
            invariant
                i <= c,
                v@.len() == i,
                forall|j: int| 0 <= j < i ==> v@[j] == fixed_instant(duration_ms as int, c as int, j),
            decreases c - i,
        {
            proof {
                vstd::arithmetic::mul::lemma_mul_upper_bound(
                    duration_ms as int,
                    0xffff_ffff_ffff_ffff,
                    i as int + 1,
                    0x1_0000_0000,
                );
            }
            let instant_wide: u128 = (duration_ms as u128) * ((i as u128) + 1) / ((c as u128) + 1);
            proof {
                vstd::arithmetic::mul::lemma_mul_inequality(
                    i as int + 1,
                    c as int + 1,
                    duration_ms as int,
                );
                vstd::arithmetic::mul::lemma_mul_is_commutative(duration_ms as int, i as int + 1);
                vstd::arithmetic::mul::lemma_mul_is_commutative(duration_ms as int, c as int + 1);
                vstd::arithmetic::div_mod::lemma_div_is_ordered(
                    duration_ms as int * (i as int + 1),
                    duration_ms as int * (c as int + 1),
                    c as int + 1,
                );
                vstd::arithmetic::div_mod::lemma_div_by_multiple(duration_ms as int, c as int + 1);
            }
            v.push(instant_wide as u64);
            i = i + 1;
        }
        Ok(v)
    } else if str_eq(mode, "interval") {
        let m = match minutes_milli {
            None => {
                return Err(PlanError::MissingMinutes);
            },
            Some(m) => m,
        };
        if m == 0 {
            return Err(PlanError::IntervalNotPositive);
        }
        let interval: u128 = (m as u128) * 60;
        let mut v: Vec<u64> = Vec::new();
        let mut t: u128 = interval;
        proof {
            vstd::arithmetic::mul::lemma_mul_basics(interval as int);
        }
        while t < duration_ms as u128
            invariant
                interval == m as int * 60,
                0 < interval <= t,
                t == interval * (v@.len() + 1),
                forall|i: int| 0 <= i < v@.len() ==> v@[i] == (i + 1) * interval,
                forall|i: int| 0 <= i < v@.len() ==> v@[i] < duration_ms,
            decreases duration_ms as int - v@.len(),
        {
            let ghost len_before = v@.len() as int;
            v.push(t as u64);
            t = t + interval;
            proof {
                vstd::arithmetic::mul::lemma_mul_increases(interval as int, len_before + 1);
                vstd::arithmetic::mul::lemma_mul_is_distributive_add(
                    interval as int,
                    len_before + 1,
                    1,
                );
                vstd::arithmetic::mul::lemma_mul_basics(interval as int);
                vstd::arithmetic::mul::lemma_mul_is_commutative(interval as int, len_before + 1);
                assert(t == interval * (v@.len() + 1));
                assert(v@[len_before] == (len_before + 1) * interval);
            }
        }
        proof {
            let d = duration_ms as int;
            let iv = interval as int;
            let n = v@.len() as int;
            vstd::arithmetic::mul::lemma_mul_is_distributive_add(iv, n, 1);
            vstd::arithmetic::mul::lemma_mul_basics(iv);
            vstd::arithmetic::mul::lemma_mul_is_commutative(iv, n);
            if n > 0 {
                assert(v@[n - 1] < d);
                assert(v@[n - 1] == n * iv);
            }
            if d > 0 {
                // t == iv * (n + 1) >= d and iv * n <= d - 1 (the last pushed
                // instant, or n == 0), so n == (d - 1) / iv.
                assert(iv * n <= d - 1);
                assert(d - 1 < iv * (n + 1));
                vstd::arithmetic::div_mod::lemma_fundamental_div_mod_converse(
                    d - 1,
                    iv,
                    n,
                    d - 1 - iv * n,
                );
            }
        }
        Ok(v)
    } else {
        Err(PlanError::UnknownMode(String::from_str(mode)))
    }
}

} // verus!
