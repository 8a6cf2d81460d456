//! UTM coordinates, zone derivation from longitude, display formatting, and
//! the CRS descriptor strings handed to the external projection capability.
//!
//! Easting and northing are held in millimeters, the crate's fixed-point
//! unit for projected lengths; the display truncates them to whole meters.
use vstd::prelude::*;
use vstd::string::StringExecFns;

use crate::digits::{dec_chars, u64_to_string};
use crate::geographic::LonLatCoord;
use crate::hemisphere::Hemisphere;

verus! {

/// 180 degrees in nanodegrees.
pub const LON_HALF_TURN_ND: i64 = 180_000_000_000;

/// 6 degrees (one UTM zone's width) in nanodegrees.
pub const ZONE_WIDTH_ND: i64 = 6_000_000_000;

/// Fixed-point coordinates far outside any plausible projected value are
/// refused up front so that no later arithmetic can overflow.
pub const COORD_BOUND_MM: i64 = 2_000_000_000_000_000_000;

/// The UTM zone a longitude belongs to: one of sixty 6-degree bands counted
/// eastward from the antimeridian. The east edge itself (exactly 180
/// degrees) stays in zone 60.
pub open spec fn utm_zone_of(lon_nd: int) -> int {
    let z = (lon_nd + LON_HALF_TURN_ND) / (ZONE_WIDTH_ND as int) + 1;
    if z > 60 {
        60
    } else {
        z
    }
}

/// Derives the canonical (zone, hemisphere) pair for a geographic point:
/// the zone from the longitude, the hemisphere from the latitude's sign.
pub fn lonlat_to_utm_zone(lon_nd: i64, lat_nd: i64) -> (r: (u8, Hemisphere))
    requires
        -LON_HALF_TURN_ND <= lon_nd <= LON_HALF_TURN_ND,
    ensures
        r.0 as int == utm_zone_of(lon_nd as int),
        1 <= r.0 <= 60,
        r.1 == (if lat_nd < 0 {
            Hemisphere::South
        } else {
            Hemisphere::North
        }),
{
    let t = (lon_nd + LON_HALF_TURN_ND) as u64;
    let z = t / (ZONE_WIDTH_ND as u64) + 1;
    let zone: u8 = if z > 60 {
        60
    } else {
        z as u8
    };
    (zone, Hemisphere::from_lat(lat_nd))
}

/// A projected coordinate: zone, hemisphere, and false-easted/northed
/// easting and northing in millimeters.
#[derive(Copy, Clone)]
pub struct UTMCoord {
    pub zone: u8,
    pub hemi: Hemisphere,
    pub easting_mm: i64,
    pub northing_mm: i64,
}

/// A millimeter value truncated to whole meters for display, with anything
/// negative shown as zero (canonical UTM values are never negative).
pub open spec fn display_meters(v_mm: int) -> int {
    if v_mm < 0 {
        0
    } else {
        v_mm / 1000
    }
}

/// The hemisphere's display suffix as a character sequence.
pub open spec fn hemi_chars(h: Hemisphere) -> Seq<char> {
    if h == Hemisphere::North {
        seq!['N']
    } else {
        seq!['S']
    }
}

/// The display line: "{zone}{N|S} {easting in m} {northing in m}".
pub open spec fn utm_display_chars(zone: int, hemi: Hemisphere, e_mm: int, n_mm: int) -> Seq<
    char,
> {
    dec_chars(zone as nat) + hemi_chars(hemi) + " "@ + dec_chars(display_meters(e_mm) as nat)
        + " "@ + dec_chars(display_meters(n_mm) as nat)
}

/// The CRS descriptor for geographic longitude/latitude.
pub fn lonlat_descriptor() -> (r: String)
    ensures
        r@ == "+proj=lonlat"@,
{
    let r = String::new().concat("+proj=lonlat");
    proof {
        assert(r@ =~= "+proj=lonlat"@);
    }
    r
}

/// The CRS descriptor for a UTM zone: "+proj=utm +zone={z} {south flag}",
/// with an empty flag (and hence a trailing space) for the north.
pub open spec fn utm_descriptor_chars(zone: int, hemi: Hemisphere) -> Seq<char> {
    "+proj=utm +zone="@ + dec_chars(zone as nat) + " "@ + (if h_is_south(hemi) {
        "+south"@
    } else {
        Seq::<char>::empty()
    })
}

/// Whether a hemisphere is the southern one.
pub open spec fn h_is_south(h: Hemisphere) -> bool {
    h == Hemisphere::South
}

/// Builds the UTM CRS descriptor string for the projection capability.
pub fn utm_descriptor(zone: u8, hemi: Hemisphere) -> (r: String)
    ensures
        r@ == utm_descriptor_chars(zone as int, hemi),
{
    let mut r = String::new();
    r.append("+proj=utm +zone=");
    r.append(u64_to_string(zone as u64).as_str());
    r.append(" ");
    r.append(hemi.as_proj());
    proof {
        reveal_strlit(" ");
        reveal_strlit("");
        assert(r@ =~= utm_descriptor_chars(zone as int, hemi));
    }
    r
}

impl UTMCoord {
    /// Both projected values within the crate's fixed-point bound.
    pub open spec fn wf(self) -> bool {
        -COORD_BOUND_MM <= self.easting_mm <= COORD_BOUND_MM && -COORD_BOUND_MM
            <= self.northing_mm <= COORD_BOUND_MM
    }

    /// Packs the four parts of a UTM coordinate.
    pub fn new(zone: u8, hemi: Hemisphere, easting_mm: i64, northing_mm: i64) -> (r: UTMCoord)
        ensures
            r.zone == zone,
            r.hemi == hemi,
            r.easting_mm == easting_mm,
            r.northing_mm == northing_mm,
    {
        UTMCoord { zone, hemi, easting_mm, northing_mm }
    }

    /// The display line, easting and northing truncated to whole meters.
    pub fn to_display_string(&self) -> (r: String)
        requires
            self.wf(),
        ensures
            r@ == utm_display_chars(
                self.zone as int,
                self.hemi,
                self.easting_mm as int,
                self.northing_mm as int,
            ),
    {
        let e_m: u64 = if self.easting_mm < 0 {
            0
        } else {
            (self.easting_mm as u64) / 1000
        };
        let n_m: u64 = if self.northing_mm < 0 {
            0
        } else {
            (self.northing_mm as u64) / 1000
        };
        let mut r = u64_to_string(self.zone as u64);
        r.append(self.hemi.as_str());
        r.append(" ");
        r.append(u64_to_string(e_m).as_str());
        r.append(" ");
        r.append(u64_to_string(n_m).as_str());
        proof {
            reveal_strlit("N");
            reveal_strlit("S");
            assert(r@ =~= utm_display_chars(
                self.zone as int,
                self.hemi,
                self.easting_mm as int,
                self.northing_mm as int,
            ));
        }
        r
    }
}

} // verus!
