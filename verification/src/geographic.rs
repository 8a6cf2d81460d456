//! Validated geographic coordinates and their fixed five-decimal display.
//!
//! Longitude and latitude are held in nanodegrees (billionths of a degree),
//! the crate's fixed-point unit for angles: fine enough that nothing visible
//! at the five-decimal display precision is lost.
use vstd::prelude::*;
use vstd::math::abs;
use vstd::string::StringExecFns;

use crate::digits::{dec_chars, dec_chars_pad, u64_to_string, u64_to_string_pad};
use crate::errors::CoordError;

verus! {

/// One nanodegree is 1e-9 degree; 180 degrees in nanodegrees.
pub const LON_LIMIT_ND: i64 = 180_000_000_000;

/// 90 degrees in nanodegrees.
pub const LAT_LIMIT_ND: i64 = 90_000_000_000;

/// A (longitude, latitude) pair in nanodegrees, valid by construction:
/// longitude within 180 degrees of the prime meridian either way, latitude
/// within 90 degrees of the equator.
pub struct LonLatCoord {
    pub lon_nd: i64,
    pub lat_nd: i64,
}

/// A nanodegree value rounded to five decimals of a degree and written with
/// a sign, an integer part, a point, and exactly five fraction digits.
/// Rounding is half away from zero.
pub open spec fn fixed5_chars(v: int) -> Seq<char> {
    let m = (abs(v) + 5000) / 10000;
    (if v < 0 {
        seq!['-']
    } else {
        Seq::<char>::empty()
    }) + dec_chars((m / 100000) as nat) + seq!['.'] + dec_chars_pad((m % 100000) as nat, 5)
}

/// The two-line human form: "Lon, lat: ..." over "Lat/lon: ...".
pub open spec fn deluxe_chars(lon_nd: int, lat_nd: int) -> Seq<char> {
    "Lon, lat: "@ + fixed5_chars(lon_nd) + ", "@ + fixed5_chars(lat_nd) + "\n"@ + "Lat/lon: "@
        + fixed5_chars(lat_nd) + "/"@ + fixed5_chars(lon_nd)
}

/// The one-line form: "lon, lat" at five decimals each.
pub open spec fn lonlat_display_chars(lon_nd: int, lat_nd: int) -> Seq<char> {
    fixed5_chars(lon_nd) + ", "@ + fixed5_chars(lat_nd)
}

/// Writes a nanodegree value as degrees with exactly five decimals,
/// rounded half away from zero.
pub fn fixed5_string(v: i64) -> (r: String)
    requires
        -200_000_000_000 <= v <= 200_000_000_000,
    ensures
        r@ == fixed5_chars(v as int),
{
    let mag: u64 = if v < 0 {
        (-v) as u64
    } else {
        v as u64
    };
    let m: u64 = (mag + 5000) / 10000;
    let mut r = String::new();
    if v < 0 {
        r.append("-");
    }
    r.append(u64_to_string(m / 100000).as_str());
    r.append(".");
    r.append(u64_to_string_pad(m % 100000, 5).as_str());
    proof {
        reveal_strlit("-");
        reveal_strlit(".");
        assert(m as int == (abs(v as int) + 5000) / 10000);
        assert(r@ =~= fixed5_chars(v as int));
    }
    r
}

impl LonLatCoord {
    /// Both fields within their inclusive bounds.
    pub open spec fn wf(self) -> bool {
        -LON_LIMIT_ND <= self.lon_nd <= LON_LIMIT_ND && -LAT_LIMIT_ND <= self.lat_nd
            <= LAT_LIMIT_ND
    }

    /// Builds a geographic coordinate from nanodegree values, rejecting
    /// anything outside longitude [-180, 180] or latitude [-90, 90] degrees
    /// with a validation error.
    pub fn new(lon_nd: i64, lat_nd: i64) -> (r: Result<LonLatCoord, CoordError>)
        ensures
            (r matches Ok(ll) <==> (-LON_LIMIT_ND <= lon_nd <= LON_LIMIT_ND && -LAT_LIMIT_ND
                <= lat_nd <= LAT_LIMIT_ND)),
            (r matches Ok(ll) ==> ll.lon_nd == lon_nd && ll.lat_nd == lat_nd && ll.wf()),
            (r matches Err(e) ==> e is Validation),
    {
        if lon_nd < -LON_LIMIT_ND || lon_nd > LON_LIMIT_ND || lat_nd < -LAT_LIMIT_ND || lat_nd
            > LAT_LIMIT_ND {
            return Err(
                CoordError::validation(
                    "Expected lon and lat in ranges (-180..180, -90..90) degrees.",
                ),
            );
        }
        Ok(LonLatCoord { lon_nd, lat_nd })
    }

    /// The two-line display block, five decimals per value.
    pub fn as_deluxe_string(&self) -> (r: String)
        requires
            self.wf(),
        ensures
            r@ == deluxe_chars(self.lon_nd as int, self.lat_nd as int),
    {
        let lon5 = fixed5_string(self.lon_nd);
        let lat5 = fixed5_string(self.lat_nd);
        let mut r = String::new();
        r.append("Lon, lat: ");
        r.append(lon5.as_str());
        r.append(", ");
        r.append(lat5.as_str());
        r.append("\n");
        r.append("Lat/lon: ");
        r.append(lat5.as_str());
        r.append("/");
        r.append(lon5.as_str());
        proof {
            assert(r@ =~= deluxe_chars(self.lon_nd as int, self.lat_nd as int));
        }
        r
    }

    /// The one-line display form, five decimals per value.
    pub fn to_display_string(&self) -> (r: String)
        requires
            self.wf(),
        ensures
            r@ == lonlat_display_chars(self.lon_nd as int, self.lat_nd as int),
    {
        let mut r = fixed5_string(self.lon_nd);
        r.append(", ");
        r.append(fixed5_string(self.lat_nd).as_str());
        proof {
            assert(r@ =~= lonlat_display_chars(self.lon_nd as int, self.lat_nd as int));
        }
        r
    }
}

} // verus!
