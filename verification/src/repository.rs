//! The fallback-capable repository: a name-based lookup first, then — for
//! city queries whose name the upstream source does not index — one retry
//! through a static table of lower-cased city aliases and their
//! coordinates. A coordinate query is looked up directly; no path retries
//! beyond this single fallback hop.

use vstd::prelude::*;
use crate::check_air_quality::{AirQualityRepository, RawAirQualityData};
use crate::models::{Location, LocationQuery, LookupFailed};
use crate::text::{eq_ignore_ascii_case, str_eq_ignore_ascii_case};

verus! {

/// One alias entry: a city name the upstream source cannot look up, with
/// the coordinates to use instead. Stored lower-cased; matching ignores
/// ASCII case.
pub struct CityAlias {
    pub city: String,
    pub lat_e4: i32,
    pub lon_e4: i32,
}

impl Clone for CityAlias {
    /// An exact copy.
    fn clone(&self) -> (r: Self)
        ensures
            r == *self,
    {
        CityAlias { city: self.city.clone(), lat_e4: self.lat_e4, lon_e4: self.lon_e4 }
    }
}

/// The two lookup forms the upstream source offers. Implemented outside the
/// library (a real client, or a test double); nothing is assumed of the
/// results.
pub trait AirQualityLookup {
    /// Name-based lookup.
    fn by_city(&self, city: &str, state: &str, country: &str) -> Result<
        RawAirQualityData,
        LookupFailed,
    >;

    /// Coordinate-based lookup, in ten-thousandths of a degree.
    fn by_coordinates(&self, lat_e4: i32, lon_e4: i32) -> Result<RawAirQualityData, LookupFailed>;
}

/// The coordinates of the first alias whose name matches the city, ignoring
/// ASCII case; `None` when no alias matches.
pub open spec fn spec_find_alias(aliases: Seq<CityAlias>, city: Seq<char>) -> Option<(int, int)>
    decreases aliases.len(),
{
    if aliases.len() == 0 {
        None
    } else if eq_ignore_ascii_case(aliases[0].city@, city) {
        Some((aliases[0].lat_e4 as int, aliases[0].lon_e4 as int))
    } else {
        spec_find_alias(aliases.drop_first(), city)
    }
}

/// Finds the first alias matching the city, ignoring ASCII case.
pub fn find_alias(aliases: &Vec<CityAlias>, city: &str) -> (r: Option<(i32, i32)>)
    ensures
        (match r {
            Some(c) => spec_find_alias(aliases@, city@) == Some((c.0 as int, c.1 as int)),
            None => spec_find_alias(aliases@, city@) is None,
        }),
{
    let mut i: usize = 0;
    proof {
        assert(aliases@.skip(0) =~= aliases@);
    }
    while i < aliases.len()
        invariant
            0 <= i <= aliases@.len(),
            spec_find_alias(aliases@.skip(i as int), city@) == spec_find_alias(aliases@, city@),
        decreases aliases@.len() - i,
    {
        proof {
            assert(aliases@.skip(i as int)[0] == aliases@[i as int]);
        }
        let a: &CityAlias = &aliases[i];
        if str_eq_ignore_ascii_case(a.city.as_str(), city) {
            return Some((a.lat_e4, a.lon_e4));
        }
        proof {
            assert(aliases@.skip(i as int).drop_first() =~= aliases@.skip(i + 1));
        }
        i = i + 1;
    }
    proof {
        assert(aliases@.skip(i as int).len() == 0);
    }
    None
}

/// The aliases the notifier ships with: spellings of Phan Thong, which the
/// upstream source does not index by name, mapped to its coordinates.
pub fn default_city_aliases() -> (r: Vec<CityAlias>)
    ensures
        r@.len() == 2,
        r@[0].city@ == "phan thong"@,
        r@[0].lat_e4 == 134617 && r@[0].lon_e4 == 1010817,
        r@[1].city@ == "phanthong"@,
        r@[1].lat_e4 == 134617 && r@[1].lon_e4 == 1010817,
{
    let mut r: Vec<CityAlias> = Vec::new();
    r.push(
        CityAlias { city: String::from_str("phan thong"), lat_e4: 134617, lon_e4: 1010817 },
    );
    r.push(CityAlias { city: String::from_str("phanthong"), lat_e4: 134617, lon_e4: 1010817 });
    r
}

/// The core retrieval policy over any lookup implementation: try the name
/// first for city queries, fall back once to alias coordinates, and
/// propagate the original failure when no alias exists.
pub struct FallbackRepository<L: AirQualityLookup> {
    lookup: L,
    aliases: Vec<CityAlias>,
}

/// Copies an alias table entry by entry.
fn clone_aliases(aliases: &Vec<CityAlias>) -> (r: Vec<CityAlias>)
    ensures
        r@ == aliases@,
{
    let mut r: Vec<CityAlias> = Vec::new();
    let mut i: usize = 0;
    while i < aliases.len()
        invariant
            0 <= i <= aliases@.len(),
            r@ =~= aliases@.take(i as int),
        decreases aliases@.len() - i,
    {
        r.push(aliases[i].clone());
        proof {
            assert(r@ =~= aliases@.take(i + 1));
        }
        i = i + 1;
    }
    proof {
        assert(aliases@.take(aliases@.len() as int) =~= aliases@);
    }
    r
}

impl<L: AirQualityLookup + Clone> Clone for FallbackRepository<L> {
    /// A handle over the same lookup, with the alias table copied exactly.
    fn clone(&self) -> (r: Self)
        ensures
            r.aliases_view() == self.aliases_view(),
    {
        FallbackRepository { lookup: self.lookup.clone(), aliases: clone_aliases(&self.aliases) }
    }
}

impl<L: AirQualityLookup> FallbackRepository<L> {
    /// The alias table consulted by the fallback hop.
    pub closed spec fn aliases_view(&self) -> Seq<CityAlias> {
        self.aliases@
    }

    /// Holds exactly of the outcomes the underlying name lookup can return
    /// for argument strings with these views.
    pub closed spec fn city_lookup_outcome(
        self,
        city: Seq<char>,
        state: Seq<char>,
        country: Seq<char>,
        r: Result<RawAirQualityData, LookupFailed>,
    ) -> bool {
        exists|c: &str, s: &str, k: &str|
            c@ == city && s@ == state && k@ == country && #[trigger] call_ensures(
                L::by_city,
                (&self.lookup, c, s, k),
                r,
            )
    }

    /// Holds exactly of the outcomes the underlying coordinate lookup can
    /// return for exactly these coordinates.
    pub closed spec fn coordinate_lookup_outcome(
        self,
        lat_e4: i32,
        lon_e4: i32,
        r: Result<RawAirQualityData, LookupFailed>,
    ) -> bool {
        call_ensures(L::by_coordinates, (&self.lookup, lat_e4, lon_e4), r)
    }

    /// Builds the repository over a lookup and an alias table.
    pub fn new(lookup: L, aliases: Vec<CityAlias>) -> (r: Self)
        ensures
            r.aliases_view() == aliases@,
    {
        FallbackRepository { lookup, aliases }
    }
}

impl<L: AirQualityLookup> AirQualityRepository for FallbackRepository<L> {
    /// A city query goes through the name lookup; if that fails and a
    /// matching alias exists, one coordinate retry is made, otherwise the
    /// original failure is returned. A coordinate query is looked up
    /// directly with no fallback. The contract ties every result to the
    /// lookup calls: a coordinate query's result is a coordinate-lookup
    /// outcome on those very coordinates; a city query's result is either
    /// a name-lookup outcome on the city's own fields (with no matching
    /// alias whenever it is an error), or — after a name-lookup failure —
    /// a coordinate-lookup outcome on the alias coordinates that
    /// `spec_find_alias` names for the city.
    fn get_air_quality(&self, location: &Location) -> (r: Result<RawAirQualityData, LookupFailed>)
        ensures
            (match location.query {
                LocationQuery::Coordinates { lat_e4, lon_e4 } => self.coordinate_lookup_outcome(
                    lat_e4,
                    lon_e4,
                    r,
                ),
                LocationQuery::City { city, state, country } => {
                    ||| {
                        &&& self.city_lookup_outcome(city@, state@, country@, r)
                        &&& r is Err ==> spec_find_alias(self.aliases_view(), city@) is None
                    }
                    ||| {
                        &&& exists|e: LookupFailed|
                            #[trigger] self.city_lookup_outcome(city@, state@, country@, Err(e))
                        &&& exists|la: i32, lo: i32|
                            spec_find_alias(self.aliases_view(), city@) == Some(
                                (la as int, lo as int),
                            ) && #[trigger] self.coordinate_lookup_outcome(la, lo, r)
                    }
                },
            }),
    {
        match &location.query {
            LocationQuery::City { city, state, country } => {
                let c: &str = city.as_str();
                let s: &str = state.as_str();
                let k: &str = country.as_str();
                let first = self.lookup.by_city(c, s, k);
                proof {
                    assert(self.city_lookup_outcome(city@, state@, country@, first)) by {
                        assert(c@ == city@ && s@ == state@ && k@ == country@ && call_ensures(
                            L::by_city,
                            (&self.lookup, c, s, k),
                            first,
                        ));
                    }
                }
                match first {
                    Ok(raw) => Ok(raw),
                    Err(original) => {
                        let ghost original_ghost = original;
                        match find_alias(&self.aliases, c) {
                            Some(coords) => {
                                let retried = self.lookup.by_coordinates(coords.0, coords.1);
                                proof {
                                    assert(self.city_lookup_outcome(
                                        city@,
                                        state@,
                                        country@,
                                        Err(original_ghost),
                                    ));
                                    assert(call_ensures(
                                        L::by_coordinates,
                                        (&self.lookup, coords.0, coords.1),
                                        retried,
                                    ));
                                    assert(spec_find_alias(self.aliases_view(), city@) == Some(
                                        (coords.0 as int, coords.1 as int),
                                    ) && self.coordinate_lookup_outcome(coords.0, coords.1, retried));
                                }
                                retried
                            },
                            None => Err(original),
                        }
                    },
                }
            },
            LocationQuery::Coordinates { lat_e4, lon_e4 } => {
                let direct = self.lookup.by_coordinates(*lat_e4, *lon_e4);
                proof {
                    assert(self.coordinate_lookup_outcome(*lat_e4, *lon_e4, direct));
                }
                direct
            },
        }
    }
}

} // verus!
