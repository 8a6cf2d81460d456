//! The two UTM hemispheres and how they are derived from a sign.
use vstd::prelude::*;

use crate::errors::CoordError;

verus! {

/// Which side of the equator a point (or a signed grid offset) lies on.
/// Latitude zero classifies as North: South is reserved for strictly
/// negative values.
#[derive(PartialEq, Eq, Copy, Clone, Structural, Debug)]
pub enum Hemisphere {
    North,
    South,
}

impl Hemisphere {
    /// Reads a hemisphere letter, as it appears in a UTM zone token such as
    /// "14N". Anything but 'N' or 'S' is a validation error.
    pub fn from_char(letter: &char) -> (r: Result<Hemisphere, CoordError>)
        ensures
            *letter == 'N' ==> r == Ok::<Hemisphere, CoordError>(Hemisphere::North),
            *letter == 'S' ==> r == Ok::<Hemisphere, CoordError>(Hemisphere::South),
            *letter != 'N' && *letter != 'S' ==> (r matches Err(e) && e is Validation),
    {
        match letter {
            'N' => Ok(Hemisphere::North),
            'S' => Ok(Hemisphere::South),
            _ => Err(CoordError::validation("Expected a hemisphere (N or S).")),
        }
    }

    /// Classifies a signed fixed-point value the way a latitude's sign is
    /// read: South exactly when the value is negative, North otherwise
    /// (zero included). Total: never fails.
    pub fn from_lat(v: i64) -> (r: Hemisphere)
        ensures
            r == (if v < 0 { Hemisphere::South } else { Hemisphere::North }),
    {
        if v < 0 {
            Hemisphere::South
        } else {
            Hemisphere::North
        }
    }

    /// The display suffix: "N" or "S".
    pub fn as_str(&self) -> (r: &'static str)
        ensures
            *self == Hemisphere::North ==> r@ == "N"@,
            *self == Hemisphere::South ==> r@ == "S"@,
    {
        match self {
            Hemisphere::North => "N",
            Hemisphere::South => "S",
        }
    }

    /// The flag this hemisphere contributes to a UTM CRS descriptor for the
    /// projection capability: empty for North, the south flag for South.
    pub fn as_proj(&self) -> (r: &'static str)
        ensures
            *self == Hemisphere::North ==> r@ == ""@,
            *self == Hemisphere::South ==> r@ == "+south"@,
    {
        match self {
            Hemisphere::North => "",
            Hemisphere::South => "+south",
        }
    }
}

} // verus!
