use air_quality_notifier::models::AirQualityLevel;
use air_quality_notifier::services::AqiConverter;

#[test]
fn estimate_matches_breakpoint_table() {
    assert_eq!(AqiConverter::estimate_pm25_from_aqi(0), 0);
    assert_eq!(AqiConverter::estimate_pm25_from_aqi(25), 6);
    assert_eq!(AqiConverter::estimate_pm25_from_aqi(50), 12);
    assert_eq!(AqiConverter::estimate_pm25_from_aqi(51), 12);
    assert_eq!(AqiConverter::estimate_pm25_from_aqi(75), 23);
    assert_eq!(AqiConverter::estimate_pm25_from_aqi(100), 35);
    assert_eq!(AqiConverter::estimate_pm25_from_aqi(101), 35);
    assert_eq!(AqiConverter::estimate_pm25_from_aqi(150), 54);
    assert_eq!(AqiConverter::estimate_pm25_from_aqi(151), 57);
    assert_eq!(AqiConverter::estimate_pm25_from_aqi(200), 150);
    assert_eq!(AqiConverter::estimate_pm25_from_aqi(201), 151);
    assert_eq!(AqiConverter::estimate_pm25_from_aqi(300), 250);
    assert_eq!(AqiConverter::estimate_pm25_from_aqi(301), 251);
}

#[test]
fn estimate_exact_interpolation_at_band_boundary() {
    // 35.4 + 40 * 19.5 / 50 is exactly 51; the exact integer model keeps it
    assert_eq!(AqiConverter::estimate_pm25_from_aqi(140), 51);
}

#[test]
fn estimate_is_monotone_over_a_sample() {
    let mut previous = AqiConverter::estimate_pm25_from_aqi(0);
    for aqi in 1..=500 {
        let next = AqiConverter::estimate_pm25_from_aqi(aqi);
        assert!(next >= previous, "estimate decreased at AQI {}", aqi);
        previous = next;
    }
}

#[test]
fn estimate_saturates_on_huge_aqi() {
    assert_eq!(AqiConverter::estimate_pm25_from_aqi(i32::MAX), i32::MAX);
}

#[test]
fn from_aqi_band_boundaries() {
    assert_eq!(AirQualityLevel::from_aqi(0), AirQualityLevel::Good);
    assert_eq!(AirQualityLevel::from_aqi(50), AirQualityLevel::Good);
    assert_eq!(AirQualityLevel::from_aqi(51), AirQualityLevel::Moderate);
    assert_eq!(AirQualityLevel::from_aqi(100), AirQualityLevel::Moderate);
    assert_eq!(AirQualityLevel::from_aqi(101), AirQualityLevel::UnhealthyForSensitive);
    assert_eq!(AirQualityLevel::from_aqi(150), AirQualityLevel::UnhealthyForSensitive);
    assert_eq!(AirQualityLevel::from_aqi(151), AirQualityLevel::Unhealthy);
    assert_eq!(AirQualityLevel::from_aqi(200), AirQualityLevel::Unhealthy);
    assert_eq!(AirQualityLevel::from_aqi(201), AirQualityLevel::VeryUnhealthy);
    assert_eq!(AirQualityLevel::from_aqi(-1), AirQualityLevel::VeryUnhealthy);
}

#[test]
fn from_pm25_band_boundaries() {
    assert_eq!(AirQualityLevel::from_pm25(0), AirQualityLevel::Good);
    assert_eq!(AirQualityLevel::from_pm25(25), AirQualityLevel::Good);
    assert_eq!(AirQualityLevel::from_pm25(26), AirQualityLevel::Moderate);
    assert_eq!(AirQualityLevel::from_pm25(37), AirQualityLevel::Moderate);
    assert_eq!(AirQualityLevel::from_pm25(38), AirQualityLevel::UnhealthyForSensitive);
    assert_eq!(AirQualityLevel::from_pm25(50), AirQualityLevel::UnhealthyForSensitive);
    assert_eq!(AirQualityLevel::from_pm25(51), AirQualityLevel::Unhealthy);
    assert_eq!(AirQualityLevel::from_pm25(90), AirQualityLevel::Unhealthy);
    assert_eq!(AirQualityLevel::from_pm25(91), AirQualityLevel::VeryUnhealthy);
    assert_eq!(AirQualityLevel::from_pm25(-1), AirQualityLevel::VeryUnhealthy);
}

#[test]
fn the_two_classifiers_use_different_breakpoints() {
    // an AQI of 40 is Good, while a PM2.5 of 40 is already sensitive-unhealthy
    assert_eq!(AirQualityLevel::from_aqi(40), AirQualityLevel::Good);
    assert_eq!(AirQualityLevel::from_pm25(40), AirQualityLevel::UnhealthyForSensitive);
}

#[test]
fn level_display_strings() {
    assert_eq!(AirQualityLevel::Good.emoji(), "🟢");
    assert_eq!(AirQualityLevel::Moderate.emoji(), "🟡");
    assert_eq!(AirQualityLevel::UnhealthyForSensitive.emoji(), "🟠");
    assert_eq!(AirQualityLevel::Unhealthy.emoji(), "🔴");
    assert_eq!(AirQualityLevel::VeryUnhealthy.emoji(), "🟣");
    assert_eq!(AirQualityLevel::Good.thai_description(), "อากาศดี");
    assert_eq!(AirQualityLevel::VeryUnhealthy.thai_description(), "มีผลกระทบต่อสุขภาพมาก");
    assert_eq!(AirQualityLevel::Good.health_warning(), "ออกไปข้างนอกได้สบายๆ 👍");
    assert_eq!(
        AirQualityLevel::Unhealthy.health_warning(),
        "อันตราย! ถ้าต้องออกไป ใส่ N95"
    );
}
