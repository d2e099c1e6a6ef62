//! The measurement use case: fetch a raw measurement through the repository
//! contract, derive the PM2.5 estimate, and fold the source's resolved city
//! and state back into a canonical location.

use vstd::prelude::*;
use crate::models::{AirQualityData, Location, LocationQuery, LookupFailed};
use crate::services::{AqiConverter, spec_estimate_pm25};

verus! {

/// A raw measurement as the data source reports it; its city and state may
/// differ from the query that produced it.
#[derive(Debug)]
pub struct RawAirQualityData {
    pub city: String,
    pub state: String,
    pub aqi: i32,
    pub temperature: i32,
    pub humidity: i32,
}

/// The polymorphic data-source contract: given a location, produce a raw
/// measurement or fail. Implementations live outside the library (a real
/// upstream client, or a test double), so nothing is assumed of the result
/// here; callers state what holds of whatever comes back.
pub trait AirQualityRepository {
    /// Fetches a measurement for the location, or reports why none could be
    /// produced.
    fn get_air_quality(&self, location: &Location) -> Result<RawAirQualityData, LookupFailed>;
}

/// A reading is internally consistent when its PM2.5 value is derived from
/// its (non-negative) AQI and its location is a city query whose city names
/// the location and whose country is the configured default.
pub open spec fn reading_consistent(d: AirQualityData, default_country: Seq<char>) -> bool {
    &&& 0 <= d.aqi
    &&& d.pm25 as int == spec_estimate_pm25(d.aqi as int)
    &&& (d.location.query matches LocationQuery::City { city, country, .. } && city@
        == d.location.name@ && country@ == default_country)
}

/// Assembles a reading from a raw measurement. The estimate is only defined
/// for non-negative AQI, so a measurement carrying a negative index is
/// rejected as a lookup failure rather than silently producing a
/// nonsensical concentration.
pub fn build_reading(location: &Location, raw: RawAirQualityData, default_country: &str) -> (r:
    Result<AirQualityData, LookupFailed>)
    ensures
        (match r {
            Ok(d) => {
                &&& 0 <= raw.aqi
                &&& d.aqi == raw.aqi
                &&& d.pm25 as int == spec_estimate_pm25(raw.aqi as int)
                &&& d.temperature == raw.temperature
                &&& d.humidity == raw.humidity
                &&& d.location.name@ == raw.city@
                &&& (d.location.query matches LocationQuery::City { city, state, country }
                    && city@ == raw.city@ && state@ == raw.state@ && country@
                    == default_country@)
                &&& reading_consistent(d, default_country@)
            },
            Err(e) => {
                &&& raw.aqi < 0
                &&& e.location_name@ == location.name@
                &&& e.status@ == "data source reported a negative AQI"@
            },
        }),
{
    if raw.aqi < 0 {
        Err(
            LookupFailed {
                location_name: location.name.clone(),
                status: String::from_str("data source reported a negative AQI"),
            },
        )
    } else {
        let pm25 = AqiConverter::estimate_pm25_from_aqi(raw.aqi);
        Ok(
            AirQualityData {
                location: Location::from_city(
                    raw.city,
                    raw.state,
                    String::from_str(default_country),
                ),
                aqi: raw.aqi,
                pm25,
                temperature: raw.temperature,
                humidity: raw.humidity,
            },
        )
    }
}

/// Orchestrates one measurement: repository call, conversion, assembly.
/// Generic over any repository satisfying the contract; cheap to clone so
/// both dispatch paths can share one configuration.
pub struct CheckAirQuality<R: AirQualityRepository> {
    repository: R,
    default_country: String,
}

impl<R: AirQualityRepository + Clone> Clone for CheckAirQuality<R> {
    /// A handle over the same repository and configuration. Nothing is
    /// known of the cloned repository's behaviour, but the configured
    /// country is copied exactly.
    fn clone(&self) -> (r: Self)
        ensures
            r.country_view() == self.country_view(),
    {
        CheckAirQuality {
            repository: self.repository.clone(),
            default_country: self.default_country.clone(),
        }
    }
}

impl<R: AirQualityRepository> CheckAirQuality<R> {
    /// The configured default country, folded into every resolved location.
    pub closed spec fn country_view(&self) -> Seq<char> {
        self.default_country@
    }

    /// Holds exactly of the outcomes this repository can return for the
    /// location: whatever `execute` reports came out of the repository
    /// call, never out of the library's own making.
    pub closed spec fn repository_outcome(
        self,
        location: Location,
        r: Result<RawAirQualityData, LookupFailed>,
    ) -> bool {
        exists|loc: &Location|
            *loc == location && #[trigger] call_ensures(
                R::get_air_quality,
                (&self.repository, loc),
                r,
            )
    }

    /// Builds the use case over a repository and the country to fold into
    /// resolved locations.
    pub fn new(repository: R, default_country: String) -> (c: Self)
        ensures
            c.country_view() == default_country@,
    {
        CheckAirQuality { repository, default_country }
    }

    /// Produces a fully-formed reading for the location, or propagates the
    /// repository's failure unchanged. Every successful reading is built
    /// field by field from a measurement the repository returned, with
    /// PM2.5 derived from its AQI and the location folded to a city query
    /// under the configured country; every error is the repository's own,
    /// except the rejection of a returned negative AQI.
    pub fn execute(&self, location: Location) -> (r: Result<AirQualityData, LookupFailed>)
        ensures
            (match r {
                Ok(d) => {
                    &&& reading_consistent(d, self.country_view())
                    &&& exists|raw: RawAirQualityData|
                        {
                            &&& #[trigger] self.repository_outcome(location, Ok(raw))
                            &&& 0 <= raw.aqi
                            &&& d.aqi == raw.aqi
                            &&& d.pm25 as int == spec_estimate_pm25(raw.aqi as int)
                            &&& d.temperature == raw.temperature
                            &&& d.humidity == raw.humidity
                            &&& d.location.name@ == raw.city@
                            &&& (d.location.query matches LocationQuery::City { city, state, .. }
                                && city@ == raw.city@ && state@ == raw.state@)
                        }
                },
                Err(e) => {
                    ||| self.repository_outcome(location, Err(e))
                    ||| {
                        &&& exists|raw: RawAirQualityData|
                            #[trigger] self.repository_outcome(location, Ok(raw)) && raw.aqi < 0
                        &&& e.location_name@ == location.name@
                        &&& e.status@ == "data source reported a negative AQI"@
                    }
                },
            }),
    {
        let outcome = self.repository.get_air_quality(&location);
        proof {
            assert(self.repository_outcome(location, outcome)) by {
                assert(*(&location) == location && call_ensures(
                    R::get_air_quality,
                    (&self.repository, &location),
                    outcome,
                ));
            }
        }
        match outcome {
            Ok(raw) => build_reading(&location, raw, self.default_country.as_str()),
            Err(e) => Err(e),
        }
    }
}

} // verus!
