//! Conversions between three representations of a point on Earth's surface:
//! geographic coordinates (longitude/latitude), Universal Transverse Mercator
//! (UTM) projected coordinates, and a quadtree-style grid reference ("MGS")
//! used by a satellite-imagery tiling scheme.
//!
//! All positions are held as fixed-point integers: geographic coordinates in
//! nanodegrees (1e-9 degree), projected coordinates in millimeters. The
//! longitude/latitude <-> UTM projection mathematics itself is an external
//! capability working in floating point; the caller performs those two
//! projection legs and hands the results back as fixed-point values.
use vstd::prelude::*;

pub mod convert;
pub mod digits;
pub mod errors;
pub mod geographic;
pub mod hemisphere;
pub mod laws;
pub mod mgs;
pub mod parse;
pub mod utm;

pub use convert::{from_ll, from_mgs, from_utm, make_message};
pub use errors::CoordError;
pub use geographic::LonLatCoord;
pub use hemisphere::Hemisphere;
pub use mgs::MGSCoord;
pub use parse::parse_scaled;
pub use utm::{lonlat_to_utm_zone, lonlat_descriptor, utm_descriptor, UTMCoord};

verus! {

} // verus!
