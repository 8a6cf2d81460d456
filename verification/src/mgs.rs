//! The MGS grid reference: a UTM zone plus a 12-digit base-4 quadkey naming
//! one 5 km cell of the zone's 4096-by-4096 cell grid, together with the
//! exact integer transforms to and from UTM, and the round-trip laws that
//! hold of them.
//!
//! Grid-index space puts (2048, 2048) at the zone's projected origin, with
//! the x index growing eastward and the y index growing southward. A decoded
//! cell is read as its centerpoint.
use vstd::prelude::*;
use vstd::arithmetic::div_mod::{lemma_div_multiples_vanish_fancy, lemma_fundamental_div_mod};
use vstd::arithmetic::power2::{lemma2_to64, lemma_pow2_unfold, pow2};
use vstd::string::StringExecFns;

use crate::digits::{dec_chars, digit_char, digit_str, u64_to_string};
use crate::errors::CoordError;
use crate::hemisphere::Hemisphere;
use crate::utm::{h_is_south, UTMCoord};

verus! {

/// One grid cell is 5 km, in millimeters.
pub const CELL_MM: i64 = 5_000_000;

/// Half a grid cell, in millimeters.
pub const HALF_CELL_MM: i64 = 2_500_000;

/// What is added to a (de-falsed) easting in millimeters so that dividing
/// by the cell size yields the x grid index: 2048 cells minus the false
/// easting of 500 km.
pub const EAST_CELL_SHIFT_MM: i64 = 9_740_000_000;

/// What a (de-falsed, signed) northing in millimeters is subtracted from so
/// that dividing by the cell size yields the y grid index: 2048 cells.
pub const NORTH_CELL_SHIFT_MM: i64 = 10_240_000_000;

/// The false northing applied to southern-hemisphere coordinates, in
/// millimeters.
pub const FALSE_NORTHING_MM: i64 = 10_000_000_000;

/// A well-formed quadkey: exactly 12 digits, each in 0..3.
pub open spec fn wf_key(key: Seq<u8>) -> bool {
    key.len() == 12 && (forall|i: int| 0 <= i < 12 ==> key[i] < 4)
}

/// A nonnegative shifted millimeter value turned into a grid index:
/// divided by the cell size and saturated into 0..4095 (negative values,
/// which only arise far outside a zone's extent, saturate to 0).
pub open spec fn cell_of(num: int) -> int {
    if num < 0 {
        0
    } else if num / (CELL_MM as int) > 4095 {
        4095
    } else {
        num / (CELL_MM as int)
    }
}

/// The x grid index of a false-easted easting in millimeters.
pub open spec fn cell_from_easting(e_mm: int) -> int {
    cell_of(e_mm + EAST_CELL_SHIFT_MM)
}

/// The y grid index of a signed (de-falsed) northing in millimeters; y
/// grows southward, so larger northings give smaller indices.
pub open spec fn cell_from_signed_northing(y_mm: int) -> int {
    cell_of(NORTH_CELL_SHIFT_MM - y_mm)
}

/// A northing with its false offset removed: southern-hemisphere northings
/// carry +10,000 km, northern ones none.
pub open spec fn signed_northing_mm(hemi: Hemisphere, northing_mm: int) -> int {
    if h_is_south(hemi) {
        northing_mm - FALSE_NORTHING_MM
    } else {
        northing_mm
    }
}

/// The quadkey digit at position z (0 is most significant) for a pair of
/// grid indices: one bit of the x index plus twice the same bit of y.
pub open spec fn cell_digit(gx: u16, gy: u16, z: int) -> u8 {
    (((gx >> ((11 - z) as u16)) & 1) + 2 * ((gy >> ((11 - z) as u16)) & 1)) as u8
}

/// The x grid index encoded in the first n digits of a quadkey, read as a
/// binary number (each digit's low bit is one x bit, most significant
/// first).
pub open spec fn key_bits_x(key: Seq<u8>, n: int) -> int
    decreases n,
{
    if n <= 0 {
        0
    } else {
        key_bits_x(key, n - 1) * 2 + (key[n - 1] as int) % 2
    }
}

/// The y grid index encoded in the first n digits of a quadkey (each
/// digit's high bit is one y bit, most significant first).
pub open spec fn key_bits_y(key: Seq<u8>, n: int) -> int
    decreases n,
{
    if n <= 0 {
        0
    } else {
        key_bits_y(key, n - 1) * 2 + (key[n - 1] as int) / 2
    }
}

/// The x grid index a whole quadkey encodes.
pub open spec fn key_cell_x(key: Seq<u8>) -> int {
    key_bits_x(key, 12)
}

/// The y grid index a whole quadkey encodes.
pub open spec fn key_cell_y(key: Seq<u8>) -> int {
    key_bits_y(key, 12)
}

/// The easting of the center of a quadkey's cell: false-easted
/// millimeters.
pub open spec fn decode_easting_mm(key: Seq<u8>) -> int {
    key_cell_x(key) * (CELL_MM as int) - (EAST_CELL_SHIFT_MM - HALF_CELL_MM)
}

/// The signed (de-falsed) northing of the center of a quadkey's cell, in
/// millimeters.
pub open spec fn decode_y_mm(key: Seq<u8>) -> int {
    (NORTH_CELL_SHIFT_MM - HALF_CELL_MM) - key_cell_y(key) * (CELL_MM as int)
}

/// The digit characters of a quadkey.
pub open spec fn key_chars(key: Seq<u8>) -> Seq<char> {
    Seq::new(12, |i: int| digit_char(key[i] as int))
}

/// The display line of an MGS coordinate: "{zone}/{12 digits}".
pub open spec fn mgs_display_chars(zone: int, key: Seq<u8>) -> Seq<char> {
    dec_chars(zone as nat) + "/"@ + key_chars(key)
}

/// An MGS grid reference: a UTM zone and the quadkey of one cell of that
/// zone's grid.
#[derive(Copy, Clone)]
pub struct MGSCoord {
    pub zone: u8,
    pub key: [u8; 12],
}

/// Saturating division of a shifted millimeter value into a grid index.
fn cell_index(num: i64) -> (r: u16)
    ensures
        r as int == cell_of(num as int),
        r < 4096,
{
    if num < 0 {
        0
    } else {
        let q = (num as u64) / (CELL_MM as u64);
        if q > 4095 {
            4095
        } else {
            q as u16
        }
    }
}

/// The twelve quadkey digits of a pair of grid indices.
fn cell_digits(gx: u16, gy: u16) -> (key: [u8; 12])
    requires
        gx < 4096,
        gy < 4096,
    ensures
        wf_key(key@),
        forall|z: int| 0 <= z < 12 ==> key@[z] == cell_digit(gx, gy, z),
{
    let mut key: [u8; 12] = [0; 12];
    let mut z: usize = 0;
    while z < 12
        invariant
            z <= 12,
            key@.len() == 12,
            forall|j: int| 0 <= j < z ==> key@[j] == cell_digit(gx, gy, j) && key@[j] < 4,
        decreases 12 - z,
    {
        let k: u16 = (11 - z) as u16;
        let xb: u16 = (gx >> k) & 1;
        let yb: u16 = (gy >> k) & 1;
        proof {
            assert(((gx >> k) & 1) <= 1 && ((gy >> k) & 1) <= 1) by (bit_vector);
        }
        let d: u8 = (xb + 2 * yb) as u8;
        key[z] = d;
        z += 1;
    }
    key
}

impl MGSCoord {
    /// The key holds only base-4 digits.
    pub open spec fn wf(self) -> bool {
        wf_key(self.key@)
    }

    /// Quantizes a UTM coordinate to the 5 km cell that contains it. The
    /// zone is copied; the grid indices come from the easting and the
    /// signed northing. Pure integer arithmetic: no external capability.
    pub fn from_utm(source: &UTMCoord) -> (r: MGSCoord)
        requires
            source.wf(),
        ensures
            r.zone == source.zone,
            r.wf(),
            forall|z: int|
                0 <= z < 12 ==> r.key@[z] == cell_digit(
                    cell_from_easting(source.easting_mm as int) as u16,
                    cell_from_signed_northing(
                        signed_northing_mm(source.hemi, source.northing_mm as int),
                    ) as u16,
                    z,
                ),
    {
        let y: i64 = match source.hemi {
            Hemisphere::South => source.northing_mm - FALSE_NORTHING_MM,
            Hemisphere::North => source.northing_mm,
        };
        let gx = cell_index(source.easting_mm + EAST_CELL_SHIFT_MM);
        let gy = cell_index(NORTH_CELL_SHIFT_MM - y);
        MGSCoord { zone: source.zone, key: cell_digits(gx, gy) }
    }

    /// Builds an MGS coordinate from a zone number and a quadkey string.
    /// The string must be exactly 12 characters, each a digit in 0..3;
    /// anything else is a validation error.
    pub fn from_u8_and_str(zone: u8, key_string: &str) -> (r: Result<MGSCoord, CoordError>)
        ensures
            (r matches Ok(m) <==> (key_string@.len() == 12 && (forall|i: int|
                0 <= i < 12 ==> crate::digits::char_digit(key_string@[i]) < 4))),
            (r matches Ok(m) ==> m.zone == zone && m.wf() && (forall|i: int|
                0 <= i < 12 ==> m.key@[i] as int == crate::digits::char_digit(key_string@[i]))),
            (r matches Err(e) ==> e is Validation),
    {
        if key_string.unicode_len() != 12 {
            return Err(CoordError::validation("Expected a quadkey of exactly 12 digits."));
        }
        let mut key: [u8; 12] = [0; 12];
        let mut i: usize = 0;
        while i < 12
            invariant
                i <= 12,
                key_string@.len() == 12,
                key@.len() == 12,
                forall|j: int|
                    0 <= j < i ==> key@[j] as int == crate::digits::char_digit(key_string@[j])
                        && key@[j] < 4,
            decreases 12 - i,
        {
            let d = crate::digits::char_digit_val(key_string.get_char(i));
            if d > 3 {
                proof {
                    assert(crate::digits::char_digit(key_string@[i as int]) >= 4);
                }
                return Err(CoordError::validation("Quadkey digit not in 0..3."));
            }
            key[i] = d;
            i += 1;
        }
        proof {
            assert forall|j: int| 0 <= j < 12 implies crate::digits::char_digit(key_string@[j])
                < 4 by {
                assert(key@[j] < 4);
            }
        }
        Ok(MGSCoord { zone, key })
    }

    /// The 12 digits as a string of decimal characters.
    pub fn key_to_string(&self) -> (r: String)
        requires
            self.wf(),
        ensures
            r@ == key_chars(self.key@),
    {
        let mut r = String::new();
        let mut i: usize = 0;
        while i < 12
            invariant
                self.wf(),
                i <= 12,
                r@ =~= key_chars(self.key@).take(i as int),
            decreases 12 - i,
        {
            r.append(digit_str(self.key[i]));
            proof {
                assert(r@ =~= key_chars(self.key@).take(i + 1));
            }
            i += 1;
        }
        proof {
            assert(key_chars(self.key@).take(12) =~= key_chars(self.key@));
        }
        r
    }

    /// The display line: "{zone}/{12 digits}".
    pub fn to_display_string(&self) -> (r: String)
        requires
            self.wf(),
        ensures
            r@ == mgs_display_chars(self.zone as int, self.key@),
    {
        let mut r = u64_to_string(self.zone as u64);
        r.append("/");
        r.append(self.key_to_string().as_str());
        proof {
            assert(r@ =~= mgs_display_chars(self.zone as int, self.key@));
        }
        r
    }
}

impl UTMCoord {
    /// Reconstructs the centerpoint of an MGS cell as a UTM coordinate:
    /// the inverse quantization. The hemisphere is read off the sign of the
    /// decoded northing, exactly as a latitude's sign would be, and the
    /// false northing is re-applied for the south. Pure integer arithmetic.
    pub fn from_mgs(source: &MGSCoord) -> (r: UTMCoord)
        requires
            source.wf(),
        ensures
            r.zone == source.zone,
            r.easting_mm as int == decode_easting_mm(source.key@),
            r.hemi == (if decode_y_mm(source.key@) < 0 {
                Hemisphere::South
            } else {
                Hemisphere::North
            }),
            signed_northing_mm(r.hemi, r.northing_mm as int) == decode_y_mm(source.key@),
            r.northing_mm as int == decode_y_mm(source.key@) + (if decode_y_mm(source.key@) < 0 {
                FALSE_NORTHING_MM as int
            } else {
                0
            }),
            r.wf(),
    {
        let mut gx: u16 = 0;
        let mut gy: u16 = 0;
        let mut z: usize = 0;
        proof {
            lemma2_to64();
        }
        while z < 12
            invariant
                source.wf(),
                z <= 12,
                gx as int == key_bits_x(source.key@, z as int),
                gy as int == key_bits_y(source.key@, z as int),
                gx < pow2(z as nat),
                gy < pow2(z as nat),
                pow2(z as nat) <= 4096,
            decreases 12 - z,
        {
            let d = source.key[z];
            proof {
                lemma_pow2_unfold((z + 1) as nat);
                lemma2_to64();
                if z + 1 < 12 {
                    vstd::arithmetic::power2::lemma_pow2_strictly_increases((z + 1) as nat, 12);
                }
            }
            gx = gx * 2 + (d % 2) as u16;
            gy = gy * 2 + (d / 2) as u16;
            z += 1;
        }
        let easting_mm: i64 = (gx as i64) * CELL_MM - (EAST_CELL_SHIFT_MM - HALF_CELL_MM);
        let y_mm: i64 = (NORTH_CELL_SHIFT_MM - HALF_CELL_MM) - (gy as i64) * CELL_MM;
        let hemi = Hemisphere::from_lat(y_mm);
        let northing_mm: i64 = if y_mm < 0 {
            y_mm + FALSE_NORTHING_MM
        } else {
            y_mm
        };
        UTMCoord { zone: source.zone, hemi, easting_mm, northing_mm }
    }
}

} // verus!
