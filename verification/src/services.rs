//! Conversion from the US EPA AQI composite index to an estimated PM2.5
//! concentration, following the EPA piecewise-linear breakpoint table.

use vstd::prelude::*;

verus! {

/// Exact value of the EPA piecewise-linear interpolation, truncated to an
/// integer, before the result is capped to fit in an `i32`.
///
/// Each band maps an AQI range onto a PM2.5 concentration range; the
/// constants are the band's PM2.5 start and its slope, both scaled to a
/// common denominator so that the interpolation stays in integers.
pub open spec fn spec_pm25_uncapped(aqi: int) -> int {
    if aqi <= 50 {
        (aqi * 12) / 50
    } else if aqi <= 100 {
        (6000 + (aqi - 50) * 234) / 500
    } else if aqi <= 150 {
        (17700 + (aqi - 100) * 195) / 500
    } else if aqi <= 200 {
        (27700 + (aqi - 150) * 946) / 500
    } else if aqi <= 300 {
        (150400 + (aqi - 200) * 996) / 1000
    } else {
        (500800 + (aqi - 300) * 2496) / 2000
    }
}

/// The estimate the converter returns: the exact interpolation, saturated at
/// `i32::MAX` so that the result fits the measurement's integer type.
pub open spec fn spec_estimate_pm25(aqi: int) -> int {
    if spec_pm25_uncapped(aqi) > i32::MAX as int {
        i32::MAX as int
    } else {
        spec_pm25_uncapped(aqi)
    }
}

/// Pure numeric conversion service.
pub struct AqiConverter;

impl AqiConverter {
    /// Maps an AQI value to an estimated PM2.5 concentration via the EPA
    /// breakpoint table, truncating to an integer within each band and
    /// saturating at `i32::MAX` on the open-ended final band.
    pub fn estimate_pm25_from_aqi(aqi: i32) -> (pm25: i32)
        requires
            0 <= aqi,
        ensures
            pm25 as int == spec_estimate_pm25(aqi as int),
    {
        let a = aqi as u64;
        let uncapped: u64 = if a <= 50 {
            (a * 12) / 50
        } else if a <= 100 {
            (6000 + (a - 50) * 234) / 500
        } else if a <= 150 {
            (17700 + (a - 100) * 195) / 500
        } else if a <= 200 {
            (27700 + (a - 150) * 946) / 500
        } else if a <= 300 {
            (150400 + (a - 200) * 996) / 1000
        } else {
            (500800 + (a - 300) * 2496) / 2000
        };
        if uncapped > i32::MAX as u64 {
            i32::MAX
        } else {
            uncapped as i32
        }
    }
}

/// Division of a constant: `n / d == q` whenever `n == q*d + r` with a
/// remainder in range.
proof fn lemma_const_div(n: int, d: int, q: int, r: int)
    requires
        0 < d,
        0 <= r < d,
        n == q * d + r,
    ensures
        n / d == q,
{
    vstd::arithmetic::div_mod::lemma_fundamental_div_mod_converse(n, d, q, r);
}

/// Within each AQI band the estimate stays inside the matching PM2.5
/// concentration band of the EPA breakpoint table, before capping.
proof fn lemma_uncapped_in_band(a: int)
    requires
        0 <= a,
    ensures
        a <= 50 ==> 0 <= spec_pm25_uncapped(a) <= 12,
        51 <= a && a <= 100 ==> 12 <= spec_pm25_uncapped(a) <= 35,
        101 <= a && a <= 150 ==> 35 <= spec_pm25_uncapped(a) <= 54,
        151 <= a && a <= 200 ==> 57 <= spec_pm25_uncapped(a) <= 150,
        201 <= a && a <= 300 ==> 151 <= spec_pm25_uncapped(a) <= 250,
        301 <= a ==> 251 <= spec_pm25_uncapped(a),
{
    if a <= 50 {
        lemma_const_div(0, 50, 0, 0);
        vstd::arithmetic::div_mod::lemma_div_is_ordered(0, a * 12, 50);
        vstd::arithmetic::div_mod::lemma_div_is_ordered(a * 12, 600, 50);
        lemma_const_div(600, 50, 12, 0);
    } else if a <= 100 {
        lemma_const_div(6234, 500, 12, 234);
        vstd::arithmetic::div_mod::lemma_div_is_ordered(6234, 6000 + (a - 50) * 234, 500);
        vstd::arithmetic::div_mod::lemma_div_is_ordered(6000 + (a - 50) * 234, 17700, 500);
        lemma_const_div(17700, 500, 35, 200);
    } else if a <= 150 {
        lemma_const_div(17895, 500, 35, 395);
        vstd::arithmetic::div_mod::lemma_div_is_ordered(17895, 17700 + (a - 100) * 195, 500);
        vstd::arithmetic::div_mod::lemma_div_is_ordered(17700 + (a - 100) * 195, 27450, 500);
        lemma_const_div(27450, 500, 54, 450);
    } else if a <= 200 {
        lemma_const_div(28646, 500, 57, 146);
        vstd::arithmetic::div_mod::lemma_div_is_ordered(28646, 27700 + (a - 150) * 946, 500);
        vstd::arithmetic::div_mod::lemma_div_is_ordered(27700 + (a - 150) * 946, 75000, 500);
        lemma_const_div(75000, 500, 150, 0);
    } else if a <= 300 {
        lemma_const_div(151396, 1000, 151, 396);
        vstd::arithmetic::div_mod::lemma_div_is_ordered(151396, 150400 + (a - 200) * 996, 1000);
        vstd::arithmetic::div_mod::lemma_div_is_ordered(150400 + (a - 200) * 996, 250000, 1000);
        lemma_const_div(250000, 1000, 250, 0);
    } else {
        lemma_const_div(503296, 2000, 251, 1296);
        vstd::arithmetic::div_mod::lemma_div_is_ordered(503296, 500800 + (a - 300) * 2496, 2000);
    }
}

/// The uncapped estimate never decreases as AQI grows.
proof fn lemma_uncapped_monotone(a1: int, a2: int)
    requires
        0 <= a1 <= a2,
    ensures
        spec_pm25_uncapped(a1) <= spec_pm25_uncapped(a2),
{
    lemma_uncapped_in_band(a1);
    lemma_uncapped_in_band(a2);
    if a2 <= 50 {
        vstd::arithmetic::div_mod::lemma_div_is_ordered(a1 * 12, a2 * 12, 50);
    } else if 51 <= a1 && a2 <= 100 {
        vstd::arithmetic::div_mod::lemma_div_is_ordered(
            6000 + (a1 - 50) * 234,
            6000 + (a2 - 50) * 234,
            500,
        );
    } else if 101 <= a1 && a2 <= 150 {
        vstd::arithmetic::div_mod::lemma_div_is_ordered(
            17700 + (a1 - 100) * 195,
            17700 + (a2 - 100) * 195,
            500,
        );
    } else if 151 <= a1 && a2 <= 200 {
        vstd::arithmetic::div_mod::lemma_div_is_ordered(
            27700 + (a1 - 150) * 946,
            27700 + (a2 - 150) * 946,
            500,
        );
    } else if 201 <= a1 && a2 <= 300 {
        vstd::arithmetic::div_mod::lemma_div_is_ordered(
            150400 + (a1 - 200) * 996,
            150400 + (a2 - 200) * 996,
            1000,
        );
    } else if 301 <= a1 {
        vstd::arithmetic::div_mod::lemma_div_is_ordered(
            500800 + (a1 - 300) * 2496,
            500800 + (a2 - 300) * 2496,
            2000,
        );
    }
    // bands that differ are ordered through the band bounds above
}

/// For all AQI values `a1 <= a2`, the PM2.5 estimate is monotonically
/// non-decreasing: a worse index never reports a better concentration.
pub proof fn lemma_estimate_pm25_monotone(a1: int, a2: int)
    requires
        0 <= a1 <= a2,
    ensures
        spec_estimate_pm25(a1) <= spec_estimate_pm25(a2),
{
    lemma_uncapped_monotone(a1, a2);
}

/// For every AQI value the estimate lies in the PM2.5 concentration band
/// that matches the AQI band of the EPA breakpoint table; consecutive bands
/// leave no gap between an AQI band's top and the next band's bottom.
pub proof fn lemma_estimate_pm25_bands(a: int)
    requires
        0 <= a,
    ensures
        a <= 50 ==> 0 <= spec_estimate_pm25(a) <= 12,
        51 <= a && a <= 100 ==> 12 <= spec_estimate_pm25(a) <= 35,
        101 <= a && a <= 150 ==> 35 <= spec_estimate_pm25(a) <= 54,
        151 <= a && a <= 200 ==> 57 <= spec_estimate_pm25(a) <= 150,
        201 <= a && a <= 300 ==> 151 <= spec_estimate_pm25(a) <= 250,
        301 <= a ==> 251 <= spec_estimate_pm25(a),
{
    lemma_uncapped_in_band(a);
}

} // verus!
