use std::cell::RefCell;

use air_quality_notifier::check_air_quality::{
    AirQualityRepository, CheckAirQuality, RawAirQualityData,
};
use air_quality_notifier::dispatch::{
    check_and_notify, check_and_notify_all, check_and_notify_all_at, format_check_failure,
    format_check_reply, guidance_text, plan_command, Command, CommandPlan, PipelineError,
};
use air_quality_notifier::models::{
    AirQualityData, Location, LocationQuery, LookupFailed, SendFailed,
};
use air_quality_notifier::notify_air_quality::{NotificationGateway, NotifyAirQuality};
use air_quality_notifier::repository::{
    default_city_aliases, find_alias, AirQualityLookup, CityAlias, FallbackRepository,
};

/// A lookup whose name path always fails and whose coordinate path succeeds
/// only for the shipped alias coordinates.
struct NamelessLookup;

impl AirQualityLookup for NamelessLookup {
    fn by_city(
        &self,
        city: &str,
        _state: &str,
        _country: &str,
    ) -> Result<RawAirQualityData, LookupFailed> {
        Err(LookupFailed {
            location_name: city.to_string(),
            status: format!("no city named {}", city),
        })
    }

    fn by_coordinates(
        &self,
        lat_e4: i32,
        lon_e4: i32,
    ) -> Result<RawAirQualityData, LookupFailed> {
        if lat_e4 == 134617 && lon_e4 == 1010817 {
            Ok(RawAirQualityData {
                city: "Phan Thong".to_string(),
                state: "Chon Buri".to_string(),
                aqi: 75,
                temperature: 30,
                humidity: 60,
            })
        } else {
            Err(LookupFailed {
                location_name: String::new(),
                status: "no station near these coordinates".to_string(),
            })
        }
    }
}

#[test]
fn fallback_recovers_aliased_city() {
    let repo = FallbackRepository::new(NamelessLookup, default_city_aliases());
    let location = Location::from_city(
        "Phan Thong".to_string(),
        "Chon Buri".to_string(),
        "Thailand".to_string(),
    );
    let raw = repo.get_air_quality(&location).expect("alias fallback should recover");
    assert_eq!(raw.city, "Phan Thong");
    assert_eq!(raw.aqi, 75);
}

#[test]
fn fallback_keeps_original_error_without_alias() {
    let repo = FallbackRepository::new(NamelessLookup, default_city_aliases());
    let location = Location::from_city(
        "Nowhere".to_string(),
        "Chon Buri".to_string(),
        "Thailand".to_string(),
    );
    let err = repo.get_air_quality(&location).expect_err("no alias exists");
    assert_eq!(err.status, "no city named Nowhere");
}

#[test]
fn coordinate_query_skips_the_name_path() {
    let repo = FallbackRepository::new(NamelessLookup, Vec::new());
    let location = Location::from_coordinates("13.46,101.08".to_string(), 134617, 1010817);
    let raw = repo.get_air_quality(&location).expect("direct coordinate lookup");
    assert_eq!(raw.state, "Chon Buri");
}

#[test]
fn alias_match_ignores_ascii_case_and_takes_the_first() {
    let aliases = vec![
        CityAlias { city: "twin".to_string(), lat_e4: 1, lon_e4: 2 },
        CityAlias { city: "twin".to_string(), lat_e4: 3, lon_e4: 4 },
    ];
    assert_eq!(find_alias(&aliases, "TWIN"), Some((1, 2)));
    assert_eq!(find_alias(&aliases, "other"), None);
    let shipped = default_city_aliases();
    assert_eq!(find_alias(&shipped, "Phan Thong"), Some((134617, 1010817)));
    assert_eq!(find_alias(&shipped, "PhanThong"), Some((134617, 1010817)));
}

/// A repository that answers fixed data for every location.
struct FixedRepository {
    aqi: i32,
}

impl AirQualityRepository for FixedRepository {
    fn get_air_quality(
        &self,
        _location: &Location,
    ) -> Result<RawAirQualityData, LookupFailed> {
        Ok(RawAirQualityData {
            city: "X".to_string(),
            state: "Y".to_string(),
            aqi: self.aqi,
            temperature: 30,
            humidity: 60,
        })
    }
}

#[test]
fn check_builds_a_consistent_reading() {
    let checker = CheckAirQuality::new(FixedRepository { aqi: 75 }, "Thailand".to_string());
    let location = Location::from_city(
        "Ban Suan".to_string(),
        "Chon Buri".to_string(),
        "Thailand".to_string(),
    );
    let data = checker.execute(location).expect("fixed repository succeeds");
    assert_eq!(data.aqi, 75);
    assert_eq!(data.pm25, 23);
    assert_eq!(data.temperature, 30);
    assert_eq!(data.humidity, 60);
    assert_eq!(data.location.name, "X");
    match data.location.query {
        LocationQuery::City { city, state, country } => {
            assert_eq!(city, "X");
            assert_eq!(state, "Y");
            assert_eq!(country, "Thailand");
        }
        other => panic!("expected a city query, got {:?}", other),
    }
}

#[test]
fn check_rejects_a_negative_aqi() {
    let checker = CheckAirQuality::new(FixedRepository { aqi: -5 }, "Thailand".to_string());
    let location = Location::from_city(
        "Ban Suan".to_string(),
        "Chon Buri".to_string(),
        "Thailand".to_string(),
    );
    let err = checker.execute(location).expect_err("negative AQI is rejected");
    assert_eq!(err.status, "data source reported a negative AQI");
    assert_eq!(err.location_name, "Ban Suan");
    assert_eq!(err.describe(), "data source reported a negative AQI");
}

/// A repository that fails for one configured city name.
struct FailingSecond;

impl AirQualityRepository for FailingSecond {
    fn get_air_quality(
        &self,
        location: &Location,
    ) -> Result<RawAirQualityData, LookupFailed> {
        if location.name == "Second" {
            Err(LookupFailed {
                location_name: location.name.clone(),
                status: "unreachable".to_string(),
            })
        } else {
            Ok(RawAirQualityData {
                city: location.name.clone(),
                state: "Chon Buri".to_string(),
                aqi: 42,
                temperature: 28,
                humidity: 55,
            })
        }
    }
}

/// A gateway that records every delivery.
struct RecordingGateway {
    sent: RefCell<Vec<(String, String)>>,
}

impl NotificationGateway for RecordingGateway {
    fn send(&self, channel_id: &str, message: &str) -> Result<(), SendFailed> {
        self.sent
            .borrow_mut()
            .push((channel_id.to_string(), message.to_string()));
        Ok(())
    }
}

fn city(name: &str) -> Location {
    Location::from_city(
        name.to_string(),
        "Chon Buri".to_string(),
        "Thailand".to_string(),
    )
}

#[test]
fn broadcast_survives_one_failing_location() {
    let checker = CheckAirQuality::new(FailingSecond, "Thailand".to_string());
    let notifier = NotifyAirQuality::new(RecordingGateway { sent: RefCell::new(Vec::new()) });
    let locations = vec![city("First"), city("Second"), city("Third")];
    let results = check_and_notify_all(&checker, &notifier, "channel-1", &locations);
    assert_eq!(results.len(), 3);
    assert!(results[0].is_ok());
    assert!(matches!(&results[1], Err(PipelineError::Lookup(e)) if e.status == "unreachable"));
    assert!(results[2].is_ok());
}

#[test]
fn broadcast_delivers_for_the_locations_that_succeed() {
    let checker = CheckAirQuality::new(FailingSecond, "Thailand".to_string());
    let locations = vec![city("First"), city("Second"), city("Third")];
    let recorder = RecordingGateway { sent: RefCell::new(Vec::new()) };
    {
        let notifier = NotifyAirQuality::new(&recorder);
        let results = check_and_notify_all(&checker, &notifier, "channel-1", &locations);
        assert_eq!(results.len(), 3);
    }
    let sent = recorder.sent.borrow();
    assert_eq!(sent.len(), 2);
    assert!(sent[0].1.contains("First"));
    assert!(sent[1].1.contains("Third"));
    assert_eq!(sent[0].0, "channel-1");
}

impl<'a> NotificationGateway for &'a RecordingGateway {
    fn send(&self, channel_id: &str, message: &str) -> Result<(), SendFailed> {
        (*self).send(channel_id, message)
    }
}

/// A gateway that always fails.
struct DeadGateway;

impl NotificationGateway for DeadGateway {
    fn send(&self, _channel_id: &str, _message: &str) -> Result<(), SendFailed> {
        Err(SendFailed { status: "gateway offline".to_string() })
    }
}

#[test]
fn timestamped_broadcast_delivers_the_broadcast_template() {
    let checker = CheckAirQuality::new(FailingSecond, "Thailand".to_string());
    let locations = vec![city("First"), city("Second"), city("Third")];
    let recorder = RecordingGateway { sent: RefCell::new(Vec::new()) };
    {
        let notifier = NotifyAirQuality::new(&recorder);
        let results =
            check_and_notify_all_at(&checker, &notifier, "channel-1", &locations, "08:00");
        assert_eq!(results.len(), 3);
        assert!(results[0].is_ok());
        assert!(results[1].is_err());
        assert!(results[2].is_ok());
    }
    let sent = recorder.sent.borrow();
    assert_eq!(sent.len(), 2);
    assert!(sent[0].1.ends_with("\n\n🕐 08:00"));
    assert!(sent[1].1.ends_with("\n\n🕐 08:00"));
    assert!(sent[0].1.contains("First"));
}

#[test]
fn send_failure_is_propagated_as_a_send_error() {
    let checker = CheckAirQuality::new(FixedRepository { aqi: 10 }, "Thailand".to_string());
    let notifier = NotifyAirQuality::new(DeadGateway);
    let outcome = check_and_notify(&checker, &notifier, "channel-1", &city("First"));
    assert!(matches!(outcome, Err(PipelineError::Send(e)) if e.status == "gateway offline"));
}

#[test]
fn message_follows_the_fixed_template() {
    let notifier = NotifyAirQuality::new(DeadGateway);
    let data = AirQualityData {
        location: Location::from_city("X".to_string(), "Y".to_string(), "Thailand".to_string()),
        aqi: 75,
        pm25: 23,
        temperature: 30,
        humidity: 60,
    };
    let message = notifier.format_message(&data);
    assert_eq!(
        message,
        "🟡 *พอใช้ได้*\n\n📍 X, Y\nAQI *75* · PM2.5 23 µg/m³\n🌡️ 30°C · 💧 60%\n\nออกไปได้ แต่คนแพ้ง่ายควรระวัง"
    );
}

#[test]
fn message_omits_an_empty_state() {
    let notifier = NotifyAirQuality::new(DeadGateway);
    let data = AirQualityData {
        location: Location::from_coordinates("13.46,101.09".to_string(), 134600, 1010900),
        aqi: 160,
        pm25: 74,
        temperature: 31,
        humidity: 70,
    };
    let message = notifier.format_message(&data);
    assert!(message.contains("📍 13.46,101.09\n"));
    assert!(message.starts_with("🔴 *มีผลกระทบต่อสุขภาพ*"));
}

#[test]
fn commands_map_to_their_plans() {
    assert!(matches!(
        plan_command(&Command::Help, "Chon Buri", "Thailand"),
        CommandPlan::ShowHelp
    ));
    assert!(matches!(
        plan_command(&Command::Pm25, "Chon Buri", "Thailand"),
        CommandPlan::CheckAllLocations
    ));
    assert!(matches!(
        plan_command(&Command::Check("  ".to_string()), "Chon Buri", "Thailand"),
        CommandPlan::AskForLocation
    ));
    match plan_command(&Command::Check(" Ban Suan ".to_string()), "Chon Buri", "Thailand") {
        CommandPlan::CheckLocation(l) => {
            assert_eq!(l.name, "Ban Suan");
            assert!(matches!(l.query, LocationQuery::City { .. }));
        }
        _ => panic!("expected a location check"),
    }
    match plan_command(&Command::Check("13.46,101.09".to_string()), "Chon Buri", "Thailand") {
        CommandPlan::CheckLocation(l) => {
            assert!(matches!(l.query, LocationQuery::Coordinates { .. }));
        }
        _ => panic!("expected a location check"),
    }
}

#[test]
fn check_reply_selects_message_or_failure_text() {
    let notifier = NotifyAirQuality::new(DeadGateway);
    let location = city("Ban Suan");
    let data = AirQualityData {
        location: Location::from_city("X".to_string(), "Y".to_string(), "Thailand".to_string()),
        aqi: 75,
        pm25: 23,
        temperature: 30,
        humidity: 60,
    };
    let ok_reply = format_check_reply(&notifier, &location, &Ok(data.clone()));
    assert_eq!(ok_reply, notifier.format_message(&data));
    let err = LookupFailed {
        location_name: "Ban Suan".to_string(),
        status: "unreachable".to_string(),
    };
    let err_reply = format_check_reply(&notifier, &location, &Err(err));
    assert_eq!(err_reply, "❌ ไม่สามารถดึงข้อมูล Ban Suan ได้: unreachable");
}

#[test]
fn broadcast_message_appends_the_timestamp() {
    let notifier = NotifyAirQuality::new(DeadGateway);
    let data = AirQualityData {
        location: Location::from_city("X".to_string(), "Y".to_string(), "Thailand".to_string()),
        aqi: 75,
        pm25: 23,
        temperature: 30,
        humidity: 60,
    };
    let message = notifier.format_broadcast_message(&data, "2024-01-01 08:00");
    let plain = notifier.format_message(&data);
    assert_eq!(message, format!("{}\n\n🕐 2024-01-01 08:00", plain));
}

#[test]
fn guidance_and_failure_replies() {
    assert_eq!(
        guidance_text(),
        "กรุณาระบุชื่อเมือง เช่น /check Ban Suan หรือ /check 13.46,101.09"
    );
    assert_eq!(
        format_check_failure("Ban Suan", "unreachable"),
        "❌ ไม่สามารถดึงข้อมูล Ban Suan ได้: unreachable"
    );
}
