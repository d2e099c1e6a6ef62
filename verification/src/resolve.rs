//! Free-text location resolution: a comma-separated pair of in-range
//! decimal numbers becomes a coordinate query; any other text becomes a
//! city-name query with caller-supplied defaults. Free text is never
//! rejected here.

use vstd::prelude::*;
use crate::models::{Location, LocationQuery, LAT_LIMIT_E4, LON_LIMIT_E4};
use crate::text::{
    coord_pair_display, first_occurrence, spec_parse_coord_e4, trim_spec, find_first,
    parse_coord_e4, trim_spaces, coord_pair_to_string,
};

verus! {

/// The coordinate pair a text resolves to, if any: the text must split on a
/// single comma into two parts that, once trimmed, parse as numbers of the
/// float grammar (optional sign, digits around at most one dot, optional
/// `e`/`E` exponent; see `spec_parse_coord_e4`) within the latitude and
/// longitude ranges, the ranges decided at full written precision.
pub open spec fn spec_coord_pair(s: Seq<char>) -> Option<(int, int)> {
    let i = first_occurrence(s, ',');
    if i == s.len() {
        None
    } else {
        let left = s.take(i);
        let right = s.skip(i + 1);
        if first_occurrence(right, ',') != right.len() {
            None
        } else {
            match spec_parse_coord_e4(trim_spec(left), LAT_LIMIT_E4 as int) {
                Some(la) => match spec_parse_coord_e4(trim_spec(right), LON_LIMIT_E4 as int) {
                    Some(lo) => Some((la, lo)),
                    None => None,
                },
                None => None,
            }
        }
    }
}

/// What resolution promises: a recognized coordinate pair becomes the
/// matching coordinate query named by its two-decimal rendering; any other
/// text becomes a city-name query under the given defaults, named by the
/// text itself.
pub open spec fn resolved_location(
    l: Location,
    input: Seq<char>,
    default_state: Seq<char>,
    default_country: Seq<char>,
) -> bool {
    match spec_coord_pair(input) {
        Some(c) => {
            &&& (l.query matches LocationQuery::Coordinates { lat_e4, lon_e4 } && lat_e4 as int
                == c.0 && lon_e4 as int == c.1)
            &&& l.name@ == coord_pair_display(c.0, c.1)
        },
        None => {
            &&& (l.query matches LocationQuery::City { city, state, country } && city@ == input
                && state@ == default_state && country@ == default_country)
            &&& l.name@ == input
        },
    }
}

/// Resolves free text into a `Location`: a valid in-range coordinate pair
/// yields a coordinate query named by the two numbers formatted to two
/// decimal places; anything else yields a city-name query with the given
/// default state and country.
pub fn parse_location_input(input: &str, default_state: &str, default_country: &str) -> (l:
    Location)
    ensures
        l.wf(),
        resolved_location(l, input@, default_state@, default_country@),
{
    let n: usize = input.unicode_len();
    let i: usize = find_first(input, ',');
    if i < n {
        let left: &str = input.substring_char(0, i);
        let right: &str = input.substring_char(i + 1, n);
        proof {
            assert(left@ =~= input@.take(i as int));
            assert(right@ =~= input@.skip(i + 1));
        }
        let j: usize = find_first(right, ',');
        if j == right.unicode_len() {
            let lt: &str = trim_spaces(left);
            let rt: &str = trim_spaces(right);
            if let Some(la) = parse_coord_e4(lt, LAT_LIMIT_E4 as u64) {
                if let Some(lo) = parse_coord_e4(rt, LON_LIMIT_E4 as u64) {
                    let name = coord_pair_to_string(la as i32, lo as i32);
                    return Location::from_coordinates(name, la as i32, lo as i32);
                }
            }
        }
    }
    Location::from_city(
        String::from_str(input),
        String::from_str(default_state),
        String::from_str(default_country),
    )
}

} // verus!
