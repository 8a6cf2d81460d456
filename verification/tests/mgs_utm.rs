use mgs_coords::{
    from_mgs, from_utm, make_message, Hemisphere, LonLatCoord, MGSCoord, UTMCoord,
};

fn args(list: &[&str]) -> Vec<String> {
    list.iter().map(|s| s.to_string()).collect()
}

#[test]
fn utm_display_truncates_to_meters() {
    let u = UTMCoord::new(14, Hemisphere::North, 490_168_400, 2_133_666_900);
    assert_eq!(u.to_display_string(), "14N 490168 2133666");
    // Negative values display as zero, like a saturating cast to unsigned.
    let v = UTMCoord::new(1, Hemisphere::South, -5_000, 2_500);
    assert_eq!(v.to_display_string(), "1S 0 2");
}

#[test]
fn from_utm_reads_zone_tokens() {
    let u = from_utm(&args(&["prog", "14N", "490168", "2133666"])).unwrap();
    assert_eq!(u.zone, 14);
    assert_eq!(u.hemi, Hemisphere::North);
    assert_eq!(u.easting_mm, 490_168_000);
    assert_eq!(u.northing_mm, 2_133_666_000);

    let s = from_utm(&args(&["prog", "42S", "1.5", "2.25"])).unwrap();
    assert_eq!(s.zone, 42);
    assert_eq!(s.hemi, Hemisphere::South);
    assert_eq!(s.easting_mm, 1_500);
    assert_eq!(s.northing_mm, 2_250);

    // No letter means North.
    let b = from_utm(&args(&["prog", "7", "0", "0"])).unwrap();
    assert_eq!(b.zone, 7);
    assert_eq!(b.hemi, Hemisphere::North);
}

#[test]
fn from_utm_accepts_out_of_range_zones_structurally() {
    // "99N" is structurally fine; only the projection capability downstream
    // could object to it.
    let u = from_utm(&args(&["prog", "99N", "100", "200"])).unwrap();
    assert_eq!(u.zone, 99);
    assert_eq!(u.hemi, Hemisphere::North);
}

#[test]
fn from_utm_rejects_malformed_tokens() {
    assert!(from_utm(&args(&["prog", "300", "1", "2"])).is_err());
    assert!(from_utm(&args(&["prog", "1234", "1", "2"])).is_err());
    assert!(from_utm(&args(&["prog", "N", "1", "2"])).is_err());
    assert!(from_utm(&args(&["prog", "", "1", "2"])).is_err());
    assert!(from_utm(&args(&["prog", "14X", "1", "2"])).is_err());
    assert!(from_utm(&args(&["prog", "14N", "abc", "2"])).is_err());
    assert!(from_utm(&args(&["prog", "14N", "1", ""])).is_err());
}

#[test]
fn mgs_from_u8_and_str_validates_keys() {
    let m = MGSCoord::from_u8_and_str(14, "033113131312").unwrap();
    assert_eq!(m.zone, 14);
    assert_eq!(m.key, [0, 3, 3, 1, 1, 3, 1, 3, 1, 3, 1, 2]);
    assert_eq!(m.key_to_string(), "033113131312");
    assert_eq!(m.to_display_string(), "14/033113131312");

    // Wrong length: eleven digits.
    assert!(MGSCoord::from_u8_and_str(14, "03311313131").is_err());
    // Thirteen digits.
    assert!(MGSCoord::from_u8_and_str(14, "0331131313122").is_err());
    // A decimal digit outside the base-4 range.
    assert!(MGSCoord::from_u8_and_str(14, "433113131312").is_err());
    // Not a digit at all.
    assert!(MGSCoord::from_u8_and_str(14, "a33113131312").is_err());
}

#[test]
fn utm_to_mgs_quantizes_to_the_known_cell() {
    // The worked scenario: this point in zone 14 lands in cell 033113131312.
    let u = UTMCoord::new(14, Hemisphere::North, 490_168_000, 2_133_666_000);
    let m = MGSCoord::from_utm(&u);
    assert_eq!(m.zone, 14);
    assert_eq!(m.key_to_string(), "033113131312");
}

#[test]
fn mgs_to_utm_reads_the_cell_center() {
    let m = MGSCoord::from_u8_and_str(47, "122021022202").unwrap();
    let u = UTMCoord::from_mgs(&m);
    assert_eq!(u.zone, 47);
    assert_eq!(u.hemi, Hemisphere::North);
    // The centerpoint of the 5 km cell, in millimeters.
    assert_eq!(u.easting_mm, 822_500_000);
    assert_eq!(u.northing_mm, 1_772_500_000);
    assert_eq!(u.to_display_string(), "47N 822500 1772500");
}

#[test]
fn mgs_utm_mgs_is_bit_exact() {
    // Decode then encode returns the very same key and zone.
    for key in ["122021022202", "033113131312", "000000000000", "333333333333", "230123012301"] {
        let m = MGSCoord::from_u8_and_str(9, key).unwrap();
        let u = UTMCoord::from_mgs(&m);
        let back = MGSCoord::from_utm(&u);
        assert_eq!(back.zone, m.zone);
        assert_eq!(back.key, m.key);
    }
}

#[test]
fn utm_mgs_utm_stays_within_half_a_cell() {
    let u = UTMCoord::new(14, Hemisphere::North, 490_168_000, 2_133_666_000);
    let back = UTMCoord::from_mgs(&MGSCoord::from_utm(&u));
    assert!((back.easting_mm - u.easting_mm).abs() <= 2_500_000);
    assert!((back.northing_mm - u.northing_mm).abs() <= 2_500_000);
}

#[test]
fn equator_cell_center_is_southern() {
    // A point exactly on the equator quantizes to the cell just south of
    // it, whose center carries the southern false northing.
    let u = UTMCoord::new(1, Hemisphere::North, 500_000_000, 0);
    let back = UTMCoord::from_mgs(&MGSCoord::from_utm(&u));
    assert_eq!(back.hemi, Hemisphere::South);
    assert_eq!(back.northing_mm, 9_997_500_000);
    // As signed northings the move is exactly half a cell.
    assert_eq!(back.northing_mm - 10_000_000_000, -2_500_000);
}

#[test]
fn from_mgs_reads_tokens() {
    let m = from_mgs(&args(&["prog", "47/122021022202"])).unwrap();
    assert_eq!(m.zone, 47);
    assert_eq!(m.key, [1, 2, 2, 0, 2, 1, 0, 2, 2, 2, 0, 2]);

    let padded = from_mgs(&args(&["prog", "0047/122021022202"])).unwrap();
    assert_eq!(padded.zone, 47);
}

#[test]
fn from_mgs_rejects_malformed_tokens() {
    // No slash.
    assert!(from_mgs(&args(&["prog", "47122021022202"])).is_err());
    // Key too short (eleven digits).
    assert!(from_mgs(&args(&["prog", "47/12202102220"])).is_err());
    // A non-base-4 digit.
    assert!(from_mgs(&args(&["prog", "47/422021022202"])).is_err());
    // Zone not numeric, empty, or too large for a byte.
    assert!(from_mgs(&args(&["prog", "4x/122021022202"])).is_err());
    assert!(from_mgs(&args(&["prog", "/122021022202"])).is_err());
    assert!(from_mgs(&args(&["prog", "300/122021022202"])).is_err());
}

#[test]
fn make_message_zone_comes_from_the_longitude_alone() {
    // The canonicalization policy: the displayed UTM and MGS zones are
    // derived afresh from the geographic point, never taken from an input.
    let ll = LonLatCoord::new(0, 10_000_000_000).unwrap();
    let msg = make_message(&ll, 166_021_000, 1_105_000_000_000).unwrap();
    assert!(msg.contains("\n31N "));
    assert!(msg.contains("\n31/"));
}

#[test]
fn make_message_assembles_all_three_forms() {
    let ll = LonLatCoord::new(-99_093_579_515, 19_296_759_191).unwrap();
    // The projected values for this point in zone 14 north, in millimeters.
    let msg = make_message(&ll, 490_168_400, 2_133_666_400).unwrap();
    assert_eq!(
        msg,
        "Lon, lat: -99.09358, 19.29676\nLat/lon: 19.29676/-99.09358\n\
         14N 490168 2133666\n14/033113131312"
    );
}
