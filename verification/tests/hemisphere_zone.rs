use mgs_coords::{lonlat_descriptor, lonlat_to_utm_zone, utm_descriptor, Hemisphere};

#[test]
fn hemisphere_from_char_reads_both_letters() {
    assert!(matches!(Hemisphere::from_char(&'N'), Ok(Hemisphere::North)));
    assert!(matches!(Hemisphere::from_char(&'S'), Ok(Hemisphere::South)));
    assert!(Hemisphere::from_char(&'x').is_err());
    assert!(Hemisphere::from_char(&'n').is_err());
}

#[test]
fn hemisphere_from_lat_sign_convention() {
    // Zero is North; only strictly negative values are South.
    assert_eq!(Hemisphere::from_lat(0), Hemisphere::North);
    assert_eq!(Hemisphere::from_lat(1), Hemisphere::North);
    assert_eq!(Hemisphere::from_lat(90_000_000_000), Hemisphere::North);
    assert_eq!(Hemisphere::from_lat(-1), Hemisphere::South);
    assert_eq!(Hemisphere::from_lat(-90_000_000_000), Hemisphere::South);
}

#[test]
fn hemisphere_strings() {
    assert_eq!(Hemisphere::North.as_str(), "N");
    assert_eq!(Hemisphere::South.as_str(), "S");
    assert_eq!(Hemisphere::North.as_proj(), "");
    assert_eq!(Hemisphere::South.as_proj(), "+south");
}

#[test]
fn zone_for_longitude_edges() {
    // Nanodegree fixed point: the west edge is zone 1, just shy of the east
    // edge is zone 60, the prime meridian starts zone 31.
    assert_eq!(lonlat_to_utm_zone(-180_000_000_000, 0).0, 1);
    assert_eq!(lonlat_to_utm_zone(179_999_000_000, 0).0, 60);
    assert_eq!(lonlat_to_utm_zone(0, 0).0, 31);
    // The east edge itself stays in zone 60.
    assert_eq!(lonlat_to_utm_zone(180_000_000_000, 0).0, 60);
    // The hemisphere rides along from the latitude's sign.
    assert_eq!(lonlat_to_utm_zone(0, -1).1, Hemisphere::South);
    assert_eq!(lonlat_to_utm_zone(0, 0).1, Hemisphere::North);
}

#[test]
fn crs_descriptors() {
    assert_eq!(lonlat_descriptor(), "+proj=lonlat");
    assert_eq!(utm_descriptor(14, Hemisphere::North), "+proj=utm +zone=14 ");
    assert_eq!(utm_descriptor(47, Hemisphere::South), "+proj=utm +zone=47 +south");
}
