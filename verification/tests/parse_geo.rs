use mgs_coords::{from_ll, parse_scaled, LonLatCoord};

fn args(list: &[&str]) -> Vec<String> {
    list.iter().map(|s| s.to_string()).collect()
}

#[test]
fn parse_scaled_reads_plain_decimals() {
    assert_eq!(parse_scaled("-99.09357951534054", 9).unwrap(), -99_093_579_515);
    assert_eq!(parse_scaled("19.29675919163688", 9).unwrap(), 19_296_759_191);
    assert_eq!(parse_scaled("1.5", 3).unwrap(), 1_500);
    assert_eq!(parse_scaled("1", 3).unwrap(), 1_000);
    assert_eq!(parse_scaled(".5", 3).unwrap(), 500);
    assert_eq!(parse_scaled("1.", 3).unwrap(), 1_000);
    assert_eq!(parse_scaled("+2.25", 3).unwrap(), 2_250);
    assert_eq!(parse_scaled("000042", 3).unwrap(), 42_000);
}

#[test]
fn parse_scaled_truncates_extra_fraction_digits() {
    assert_eq!(parse_scaled("0.0001", 3).unwrap(), 0);
    assert_eq!(parse_scaled("-0.0009", 3).unwrap(), 0);
    assert_eq!(parse_scaled("2.0019", 3).unwrap(), 2_001);
}

#[test]
fn parse_scaled_rejects_malformed_strings() {
    assert!(parse_scaled("", 3).is_err());
    assert!(parse_scaled("abc", 9).is_err());
    assert!(parse_scaled("1.2.3", 3).is_err());
    assert!(parse_scaled("--5", 3).is_err());
    assert!(parse_scaled(".", 3).is_err());
    assert!(parse_scaled("-", 3).is_err());
    assert!(parse_scaled("5 ", 3).is_err());
}

#[test]
fn parse_scaled_caps_huge_magnitudes() {
    // At scale 3 the integer part must stay below ten to the fifteenth.
    assert!(parse_scaled("10000000000000000", 3).is_err());
    assert_eq!(
        parse_scaled("999999999999999", 3).unwrap(),
        999_999_999_999_999_000
    );
}

#[test]
fn lonlat_new_validates_ranges() {
    // Longitude 200 degrees: a validation error, nothing else computed.
    assert!(LonLatCoord::new(200_000_000_000, 0).is_err());
    assert!(LonLatCoord::new(0, 91_000_000_000).is_err());
    assert!(LonLatCoord::new(-180_000_000_001, 0).is_err());
    // The bounds themselves are allowed.
    assert!(LonLatCoord::new(180_000_000_000, -90_000_000_000).is_ok());
    assert!(LonLatCoord::new(-180_000_000_000, 90_000_000_000).is_ok());
}

#[test]
fn deluxe_display_rounds_to_five_decimals() {
    let ll = LonLatCoord::new(-99_093_579_515, 19_296_759_191).unwrap();
    assert_eq!(
        ll.as_deluxe_string(),
        "Lon, lat: -99.09358, 19.29676\nLat/lon: 19.29676/-99.09358"
    );
    assert_eq!(ll.to_display_string(), "-99.09358, 19.29676");
}

#[test]
fn deluxe_display_zero_and_padding() {
    let ll = LonLatCoord::new(0, -5_000_000_000).unwrap();
    assert_eq!(ll.to_display_string(), "0.00000, -5.00000");
    let ll2 = LonLatCoord::new(1_000, 0).unwrap();
    // A nanodegree rounds away at five decimals.
    assert_eq!(ll2.to_display_string(), "0.00000, 0.00000");
}

#[test]
fn display_rounds_half_away_from_zero() {
    let ll = LonLatCoord::new(
        parse_scaled("0.000005", 9).unwrap(),
        parse_scaled("-0.000005", 9).unwrap(),
    )
    .unwrap();
    assert_eq!(ll.to_display_string(), "0.00001, -0.00001");
}

#[test]
fn from_ll_parses_and_validates() {
    let ll = from_ll(&args(&["prog", "-99.09357951534054", "19.29675919163688"])).unwrap();
    assert_eq!(ll.lon_nd, -99_093_579_515);
    assert_eq!(ll.lat_nd, 19_296_759_191);

    assert!(from_ll(&args(&["prog", "200.0", "10.0"])).is_err());
    assert!(from_ll(&args(&["prog", "abc", "10.0"])).is_err());
    assert!(from_ll(&args(&["prog", "10.0", "91.0"])).is_err());
}
