use air_quality_notifier::models::{Location, LocationQuery};
use air_quality_notifier::resolve::parse_location_input;
use air_quality_notifier::text::{
    coord_pair_to_string, i32_to_dec_string, str_eq_ignore_ascii_case, trim_spaces,
    u64_to_dec_string,
};

fn resolve(input: &str) -> Location {
    parse_location_input(input, "Chon Buri", "Thailand")
}

#[test]
fn coordinate_pair_resolves_to_coordinates() {
    let l = resolve("13.46,101.09");
    assert_eq!(l.name, "13.46,101.09");
    match l.query {
        LocationQuery::Coordinates { lat_e4, lon_e4 } => {
            assert_eq!(lat_e4, 134600);
            assert_eq!(lon_e4, 1010900);
        }
        other => panic!("expected coordinates, got {:?}", other),
    }
}

#[test]
fn plain_name_resolves_to_city_with_defaults() {
    let l = resolve("Ban Suan");
    assert_eq!(l.name, "Ban Suan");
    match l.query {
        LocationQuery::City { city, state, country } => {
            assert_eq!(city, "Ban Suan");
            assert_eq!(state, "Chon Buri");
            assert_eq!(country, "Thailand");
        }
        other => panic!("expected a city query, got {:?}", other),
    }
}

#[test]
fn out_of_range_latitude_falls_back_to_city() {
    let l = resolve("200,50");
    assert_eq!(l.name, "200,50");
    match l.query {
        LocationQuery::City { city, state, country } => {
            assert_eq!(city, "200,50");
            assert_eq!(state, "Chon Buri");
            assert_eq!(country, "Thailand");
        }
        other => panic!("expected a city query, got {:?}", other),
    }
}

#[test]
fn coordinate_parts_are_trimmed_and_name_is_reformatted() {
    let l = resolve(" -13.4617 , 101.1 ");
    assert_eq!(l.name, "-13.46,101.10");
    match l.query {
        LocationQuery::Coordinates { lat_e4, lon_e4 } => {
            assert_eq!(lat_e4, -134617);
            assert_eq!(lon_e4, 1011000);
        }
        other => panic!("expected coordinates, got {:?}", other),
    }
}

#[test]
fn three_comma_parts_fall_back_to_city() {
    let l = resolve("13.46,101.09,7");
    assert!(matches!(l.query, LocationQuery::City { .. }));
    assert_eq!(l.name, "13.46,101.09,7");
}

#[test]
fn non_numeric_pair_falls_back_to_city() {
    let l = resolve("Ban Suan,Chon Buri");
    assert!(matches!(l.query, LocationQuery::City { .. }));
}

#[test]
fn exponent_notation_is_a_coordinate() {
    let l = resolve("10,1e2");
    match l.query {
        LocationQuery::Coordinates { lat_e4, lon_e4 } => {
            assert_eq!(lat_e4, 100000);
            assert_eq!(lon_e4, 1000000);
        }
        other => panic!("expected coordinates, got {:?}", other),
    }
    assert_eq!(l.name, "10.00,100.00");
    let l2 = resolve("1.25e1,-5E-1");
    match l2.query {
        LocationQuery::Coordinates { lat_e4, lon_e4 } => {
            assert_eq!(lat_e4, 125000);
            assert_eq!(lon_e4, -5000);
        }
        other => panic!("expected coordinates, got {:?}", other),
    }
    assert_eq!(l2.name, "12.50,-0.50");
}

#[test]
fn range_is_checked_at_full_written_precision() {
    // 90.00009 exceeds 90 even though the stored value truncates to four
    // decimals; it must fall back to a place name
    assert!(matches!(resolve("90.00009,0").query, LocationQuery::City { .. }));
    assert!(matches!(resolve("0,180.000001").query, LocationQuery::City { .. }));
    let l = resolve("90.0000,0");
    assert!(matches!(l.query, LocationQuery::Coordinates { .. }));
}

#[test]
fn malformed_exponents_fall_back_to_city() {
    assert!(matches!(resolve("1e,5").query, LocationQuery::City { .. }));
    assert!(matches!(resolve("1e+,5").query, LocationQuery::City { .. }));
    assert!(matches!(resolve("1e2e3,5").query, LocationQuery::City { .. }));
    assert!(matches!(resolve("inf,5").query, LocationQuery::City { .. }));
}

#[test]
fn extreme_exponents_behave_like_their_values() {
    // far above any range
    assert!(matches!(
        resolve("1e999999999999999999,0").query,
        LocationQuery::City { .. }
    ));
    // far below one ten-thousandth: truncates to zero, which is in range
    let l = resolve("1e-999999999999999999,5");
    match l.query {
        LocationQuery::Coordinates { lat_e4, lon_e4 } => {
            assert_eq!(lat_e4, 0);
            assert_eq!(lon_e4, 50000);
        }
        other => panic!("expected coordinates, got {:?}", other),
    }
    assert_eq!(l.name, "0.00,5.00");
}

#[test]
fn boundary_coordinates_are_accepted() {
    let l = resolve("-90,180");
    match l.query {
        LocationQuery::Coordinates { lat_e4, lon_e4 } => {
            assert_eq!(lat_e4, -900000);
            assert_eq!(lon_e4, 1800000);
        }
        other => panic!("expected coordinates, got {:?}", other),
    }
    assert_eq!(l.name, "-90.00,180.00");
    assert!(matches!(resolve("-90.0001,0").query, LocationQuery::City { .. }));
    assert!(matches!(resolve("0,180.0001").query, LocationQuery::City { .. }));
}

#[test]
fn fifth_fraction_digit_is_truncated() {
    let l = resolve("13.46175,101.0");
    match l.query {
        LocationQuery::Coordinates { lat_e4, .. } => assert_eq!(lat_e4, 134617),
        other => panic!("expected coordinates, got {:?}", other),
    }
}

#[test]
fn empty_input_is_a_city_name() {
    let l = resolve("");
    assert!(matches!(l.query, LocationQuery::City { .. }));
    assert_eq!(l.name, "");
}

#[test]
fn decimal_rendering() {
    assert_eq!(u64_to_dec_string(0), "0");
    assert_eq!(u64_to_dec_string(7), "7");
    assert_eq!(u64_to_dec_string(1030), "1030");
    assert_eq!(i32_to_dec_string(-25), "-25");
    assert_eq!(i32_to_dec_string(0), "0");
    assert_eq!(i32_to_dec_string(i32::MIN), "-2147483648");
}

#[test]
fn coordinate_display_rounds_half_away_from_zero() {
    assert_eq!(coord_pair_to_string(134617, 1010817), "13.46,101.08");
    assert_eq!(coord_pair_to_string(134650, -5), "13.47,-0.00");
    assert_eq!(coord_pair_to_string(0, 1800000), "0.00,180.00");
}

#[test]
fn trimming_strips_whitespace() {
    assert_eq!(trim_spaces("  Ban Suan\t\n"), "Ban Suan");
    assert_eq!(trim_spaces("   "), "");
    assert_eq!(trim_spaces("x"), "x");
    assert_eq!(trim_spaces(""), "");
    // the Unicode whitespace set, as str::trim strips it
    assert_eq!(trim_spaces("\u{00A0}Ban Suan\u{3000}"), "Ban Suan");
    assert_eq!(trim_spaces("\u{2028}x\u{205F}"), "x");
}

#[test]
fn display_accessors_fold_coordinates_to_the_name() {
    let by_name = Location::from_city("X".to_string(), "Y".to_string(), "Z".to_string());
    assert_eq!(by_name.city_state(), ("X".to_string(), "Y".to_string()));
    assert_eq!(
        by_name.city_state_country(),
        ("X".to_string(), "Y".to_string(), "Z".to_string())
    );
    let by_coords = Location::from_coordinates("13.46,101.09".to_string(), 134600, 1010900);
    assert_eq!(
        by_coords.city_state(),
        ("13.46,101.09".to_string(), String::new())
    );
    assert_eq!(
        by_coords.city_state_country(),
        ("13.46,101.09".to_string(), String::new(), String::new())
    );
}

#[test]
fn case_insensitive_comparison_is_ascii_only() {
    assert!(str_eq_ignore_ascii_case("Phan Thong", "phan thong"));
    assert!(str_eq_ignore_ascii_case("", ""));
    assert!(!str_eq_ignore_ascii_case("phan thong", "phanthong"));
    assert!(!str_eq_ignore_ascii_case("a", "b"));
}
