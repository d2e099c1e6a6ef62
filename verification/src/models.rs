//! Domain value types: locations, measurements, severity levels, and the
//! error taxonomy of the pipeline.

use vstd::prelude::*;

verus! {

/// How a location is queried upstream: either by place name or by a
/// geographic coordinate pair.
///
/// Coordinates are stored as integers in ten-thousandths of a degree, so
/// 13.4617 degrees north is `lat_e4 == 134617`. This fixed-point form keeps
/// every coordinate the pipeline handles exact.
#[derive(Debug, PartialEq)]
pub enum LocationQuery {
    City { city: String, state: String, country: String },
    Coordinates { lat_e4: i32, lon_e4: i32 },
}

/// A place to query: a display name plus the canonical query form.
#[derive(Debug, PartialEq)]
pub struct Location {
    pub name: String,
    pub query: LocationQuery,
}

/// Latitude bound in ten-thousandths of a degree: 90 degrees.
pub const LAT_LIMIT_E4: i32 = 900000;

/// Longitude bound in ten-thousandths of a degree: 180 degrees.
pub const LON_LIMIT_E4: i32 = 1800000;

impl Location {
    /// The coordinate-range invariant: a coordinate query lies within
    /// [-90, 90] degrees of latitude and [-180, 180] degrees of longitude.
    pub open spec fn wf(self) -> bool {
        match self.query {
            LocationQuery::City { .. } => true,
            LocationQuery::Coordinates { lat_e4, lon_e4 } => {
                -LAT_LIMIT_E4 <= lat_e4 <= LAT_LIMIT_E4 && -LON_LIMIT_E4 <= lon_e4
                    <= LON_LIMIT_E4
            },
        }
    }

    /// A name-queried location; the city doubles as the display name.
    pub fn from_city(city: String, state: String, country: String) -> (l: Location)
        ensures
            l.name@ == city@,
            l.query == (LocationQuery::City { city, state, country }),
            l.wf(),
    {
        let name = city.clone();
        Location { name, query: LocationQuery::City { city, state, country } }
    }

    /// A coordinate-queried location with a caller-chosen display name.
    pub fn from_coordinates(name: String, lat_e4: i32, lon_e4: i32) -> (l: Location)
        requires
            -LAT_LIMIT_E4 <= lat_e4 <= LAT_LIMIT_E4,
            -LON_LIMIT_E4 <= lon_e4 <= LON_LIMIT_E4,
        ensures
            l.name == name,
            l.query == (LocationQuery::Coordinates { lat_e4, lon_e4 }),
            l.wf(),
    {
        Location { name, query: LocationQuery::Coordinates { lat_e4, lon_e4 } }
    }

    /// The city and state a message should display: the query's own city and
    /// state for a name query, or the display name with an empty state for a
    /// coordinate query.
    pub fn city_state(&self) -> (r: (String, String))
        ensures
            r.0@ == spec_city_state(*self).0,
            r.1@ == spec_city_state(*self).1,
    {
        match &self.query {
            LocationQuery::City { city, state, .. } => (city.clone(), state.clone()),
            LocationQuery::Coordinates { .. } => (self.name.clone(), String::new()),
        }
    }

    /// The full name-query triple; a coordinate query has no state or
    /// country, so those come back empty.
    pub fn city_state_country(&self) -> (r: (String, String, String))
        ensures
            r.0@ == spec_city_state_country(*self).0,
            r.1@ == spec_city_state_country(*self).1,
            r.2@ == spec_city_state_country(*self).2,
    {
        match &self.query {
            LocationQuery::City { city, state, country } => {
                (city.clone(), state.clone(), country.clone())
            },
            LocationQuery::Coordinates { .. } => {
                (self.name.clone(), String::new(), String::new())
            },
        }
    }
}

impl Clone for LocationQuery {
    /// An exact copy.
    fn clone(&self) -> (r: Self)
        ensures
            r == *self,
    {
        match self {
            LocationQuery::City { city, state, country } => LocationQuery::City {
                city: city.clone(),
                state: state.clone(),
                country: country.clone(),
            },
            LocationQuery::Coordinates { lat_e4, lon_e4 } => LocationQuery::Coordinates {
                lat_e4: *lat_e4,
                lon_e4: *lon_e4,
            },
        }
    }
}

impl Clone for Location {
    /// An exact copy.
    fn clone(&self) -> (r: Self)
        ensures
            r == *self,
    {
        Location { name: self.name.clone(), query: self.query.clone() }
    }
}

/// The views of what `Location::city_state` returns.
pub open spec fn spec_city_state(l: Location) -> (Seq<char>, Seq<char>) {
    match l.query {
        LocationQuery::City { city, state, .. } => (city@, state@),
        LocationQuery::Coordinates { .. } => (l.name@, Seq::<char>::empty()),
    }
}

/// The views of what `Location::city_state_country` returns.
pub open spec fn spec_city_state_country(l: Location) -> (Seq<char>, Seq<char>, Seq<char>) {
    match l.query {
        LocationQuery::City { city, state, country } => (city@, state@, country@),
        LocationQuery::Coordinates { .. } => (l.name@, Seq::<char>::empty(), Seq::<char>::empty()),
    }
}

/// A fully-formed reading: the resolved location together with the measured
/// values and the PM2.5 estimate derived from the AQI.
#[derive(Debug)]
pub struct AirQualityData {
    pub location: Location,
    pub aqi: i32,
    pub pm25: i32,
    pub temperature: i32,
    pub humidity: i32,
}

impl Clone for AirQualityData {
    /// An exact copy.
    fn clone(&self) -> (r: Self)
        ensures
            r == *self,
    {
        AirQualityData {
            location: self.location.clone(),
            aqi: self.aqi,
            pm25: self.pm25,
            temperature: self.temperature,
            humidity: self.humidity,
        }
    }
}

/// The five ordered severities a reading can classify into.
#[derive(Clone, Copy, Debug, PartialEq, Eq, Structural)]
pub enum AirQualityLevel {
    Good,
    Moderate,
    UnhealthyForSensitive,
    Unhealthy,
    VeryUnhealthy,
}

/// The severity an AQI value classifies into. AQI bands are inclusive at
/// both ends; everything above 200, and any negative value, is treated as
/// the worst severity.
pub open spec fn spec_from_aqi(aqi: int) -> AirQualityLevel {
    if 0 <= aqi <= 50 {
        AirQualityLevel::Good
    } else if 51 <= aqi <= 100 {
        AirQualityLevel::Moderate
    } else if 101 <= aqi <= 150 {
        AirQualityLevel::UnhealthyForSensitive
    } else if 151 <= aqi <= 200 {
        AirQualityLevel::Unhealthy
    } else {
        AirQualityLevel::VeryUnhealthy
    }
}

/// The severity a PM2.5 concentration classifies into, with its own
/// breakpoints; not interchangeable with the AQI bands.
pub open spec fn spec_from_pm25(pm25: int) -> AirQualityLevel {
    if 0 <= pm25 <= 25 {
        AirQualityLevel::Good
    } else if 26 <= pm25 <= 37 {
        AirQualityLevel::Moderate
    } else if 38 <= pm25 <= 50 {
        AirQualityLevel::UnhealthyForSensitive
    } else if 51 <= pm25 <= 90 {
        AirQualityLevel::Unhealthy
    } else {
        AirQualityLevel::VeryUnhealthy
    }
}

/// The Thai description shown beside the severity emoji.
pub open spec fn spec_thai_description(l: AirQualityLevel) -> Seq<char> {
    match l {
        AirQualityLevel::Good => "อากาศดี"@,
        AirQualityLevel::Moderate => "พอใช้ได้"@,
        AirQualityLevel::UnhealthyForSensitive => "เริ่มแย่"@,
        AirQualityLevel::Unhealthy => "มีผลกระทบต่อสุขภาพ"@,
        AirQualityLevel::VeryUnhealthy => "มีผลกระทบต่อสุขภาพมาก"@,
    }
}

/// The emoji glyph for each severity.
pub open spec fn spec_emoji(l: AirQualityLevel) -> Seq<char> {
    match l {
        AirQualityLevel::Good => "🟢"@,
        AirQualityLevel::Moderate => "🟡"@,
        AirQualityLevel::UnhealthyForSensitive => "🟠"@,
        AirQualityLevel::Unhealthy => "🔴"@,
        AirQualityLevel::VeryUnhealthy => "🟣"@,
    }
}

/// The health warning closing each message.
pub open spec fn spec_health_warning(l: AirQualityLevel) -> Seq<char> {
    match l {
        AirQualityLevel::Good => "ออกไปข้างนอกได้สบายๆ 👍"@,
        AirQualityLevel::Moderate => "ออกไปได้ แต่คนแพ้ง่ายควรระวัง"@,
        AirQualityLevel::UnhealthyForSensitive => "เด็ก คนแก่ คนป่วย ไม่ควรออกไปข้างนอก"@,
        AirQualityLevel::Unhealthy => "อันตราย! ถ้าต้องออกไป ใส่ N95"@,
        AirQualityLevel::VeryUnhealthy => "อันตรายมาก! อยู่ในบ้าน ปิดหน้าต่าง เปิดเครื่องฟอก"@,
    }
}

impl AirQualityLevel {
    /// Classifies an AQI value; bands follow the EPA convention of
    /// integer-inclusive lower and upper bounds, the last band open-ended.
    pub fn from_aqi(aqi: i32) -> (l: AirQualityLevel)
        ensures
            l == spec_from_aqi(aqi as int),
    {
        if 0 <= aqi && aqi <= 50 {
            AirQualityLevel::Good
        } else if 51 <= aqi && aqi <= 100 {
            AirQualityLevel::Moderate
        } else if 101 <= aqi && aqi <= 150 {
            AirQualityLevel::UnhealthyForSensitive
        } else if 151 <= aqi && aqi <= 200 {
            AirQualityLevel::Unhealthy
        } else {
            AirQualityLevel::VeryUnhealthy
        }
    }

    /// Classifies a PM2.5 concentration with the PM2.5 breakpoints.
    pub fn from_pm25(pm25: i32) -> (l: AirQualityLevel)
        ensures
            l == spec_from_pm25(pm25 as int),
    {
        if 0 <= pm25 && pm25 <= 25 {
            AirQualityLevel::Good
        } else if 26 <= pm25 && pm25 <= 37 {
            AirQualityLevel::Moderate
        } else if 38 <= pm25 && pm25 <= 50 {
            AirQualityLevel::UnhealthyForSensitive
        } else if 51 <= pm25 && pm25 <= 90 {
            AirQualityLevel::Unhealthy
        } else {
            AirQualityLevel::VeryUnhealthy
        }
    }

    /// The localized severity label.
    pub fn thai_description(&self) -> (r: &'static str)
        ensures
            r@ == spec_thai_description(*self),
    {
        match self {
            AirQualityLevel::Good => "อากาศดี",
            AirQualityLevel::Moderate => "พอใช้ได้",
            AirQualityLevel::UnhealthyForSensitive => "เริ่มแย่",
            AirQualityLevel::Unhealthy => "มีผลกระทบต่อสุขภาพ",
            AirQualityLevel::VeryUnhealthy => "มีผลกระทบต่อสุขภาพมาก",
        }
    }

    /// The severity glyph.
    pub fn emoji(&self) -> (r: &'static str)
        ensures
            r@ == spec_emoji(*self),
    {
        match self {
            AirQualityLevel::Good => "🟢",
            AirQualityLevel::Moderate => "🟡",
            AirQualityLevel::UnhealthyForSensitive => "🟠",
            AirQualityLevel::Unhealthy => "🔴",
            AirQualityLevel::VeryUnhealthy => "🟣",
        }
    }

    /// The health-warning line.
    pub fn health_warning(&self) -> (r: &'static str)
        ensures
            r@ == spec_health_warning(*self),
    {
        match self {
            AirQualityLevel::Good => "ออกไปข้างนอกได้สบายๆ 👍",
            AirQualityLevel::Moderate => "ออกไปได้ แต่คนแพ้ง่ายควรระวัง",
            AirQualityLevel::UnhealthyForSensitive => "เด็ก คนแก่ คนป่วย ไม่ควรออกไปข้างนอก",
            AirQualityLevel::Unhealthy => "อันตราย! ถ้าต้องออกไป ใส่ N95",
            AirQualityLevel::VeryUnhealthy => "อันตรายมาก! อยู่ในบ้าน ปิดหน้าต่าง เปิดเครื่องฟอก",
        }
    }
}

/// Every AQI value classifies into exactly one of the five levels; each band
/// is inclusive at its lower bound and at its computed upper bound, the last
/// band open-ended, with negative input treated as the worst severity.
pub proof fn lemma_from_aqi_bands(aqi: int)
    ensures
        spec_from_aqi(aqi) == AirQualityLevel::Good <==> 0 <= aqi <= 50,
        spec_from_aqi(aqi) == AirQualityLevel::Moderate <==> 51 <= aqi <= 100,
        spec_from_aqi(aqi) == AirQualityLevel::UnhealthyForSensitive <==> 101 <= aqi <= 150,
        spec_from_aqi(aqi) == AirQualityLevel::Unhealthy <==> 151 <= aqi <= 200,
        spec_from_aqi(aqi) == AirQualityLevel::VeryUnhealthy <==> (aqi < 0 || 201 <= aqi),
{
}

/// Every PM2.5 value classifies into exactly one of the five levels, under
/// the PM2.5 breakpoints, with the same band conventions.
pub proof fn lemma_from_pm25_bands(pm25: int)
    ensures
        spec_from_pm25(pm25) == AirQualityLevel::Good <==> 0 <= pm25 <= 25,
        spec_from_pm25(pm25) == AirQualityLevel::Moderate <==> 26 <= pm25 <= 37,
        spec_from_pm25(pm25) == AirQualityLevel::UnhealthyForSensitive <==> 38 <= pm25 <= 50,
        spec_from_pm25(pm25) == AirQualityLevel::Unhealthy <==> 51 <= pm25 <= 90,
        spec_from_pm25(pm25) == AirQualityLevel::VeryUnhealthy <==> (pm25 < 0 || 91 <= pm25),
{
}

/// The repository could not produce a measurement for a location, even after
/// the fallback hop; carries the location identity and the upstream status.
#[derive(Debug)]
pub struct LookupFailed {
    pub location_name: String,
    pub status: String,
}

impl Clone for LookupFailed {
    /// An exact copy.
    fn clone(&self) -> (r: Self)
        ensures
            r == *self,
    {
        LookupFailed {
            location_name: self.location_name.clone(),
            status: self.status.clone(),
        }
    }
}

impl LookupFailed {
    /// A readable rendering for logs and error replies.
    pub fn describe(&self) -> (r: String)
        ensures
            r@ == self.status@,
    {
        self.status.clone()
    }
}

/// Delivering a notification failed; carries the gateway's status.
#[derive(Debug)]
pub struct SendFailed {
    pub status: String,
}

impl Clone for SendFailed {
    /// An exact copy.
    fn clone(&self) -> (r: Self)
        ensures
            r == *self,
    {
        SendFailed { status: self.status.clone() }
    }
}

} // verus!
