//! The three request readers, one per input form, and the assembly of the
//! final three-representation message.
//!
//! Each reader takes the raw argument vector (program name first, as handed
//! to a command line) and produces one validated coordinate value. The
//! projection legs between geographic and UTM run outside this crate; the
//! message assembly takes their fixed-point result and derives the
//! canonical zone, hemisphere, UTM display and MGS cell from the
//! geographic point alone.
use vstd::prelude::*;
use vstd::string::{StrSliceExecFns, StringExecFns};

use crate::digits::{all_digits, char_digit, char_digit_val, digits_val, digits_value_capped};
use crate::errors::CoordError;
use crate::geographic::{deluxe_chars, LonLatCoord, LAT_LIMIT_ND, LON_LIMIT_ND};
use crate::hemisphere::Hemisphere;
use crate::mgs::{
    cell_digit, cell_from_easting, cell_from_signed_northing, mgs_display_chars,
    signed_northing_mm, MGSCoord,
};
use crate::parse::{parse_scaled, spec_decimal};
use crate::utm::{
    lonlat_to_utm_zone, utm_display_chars, utm_zone_of, UTMCoord, COORD_BOUND_MM,
};

verus! {

/// Reads a longitude/latitude request: `argv[1]` is the longitude in
/// degrees, `argv[2]` the latitude, both decimal strings. Values are held
/// in nanodegrees; out-of-range points are validation errors.
pub fn from_ll(argv: &Vec<String>) -> (r: Result<LonLatCoord, CoordError>)
    requires
        argv@.len() >= 3,
    ensures
        (r is Ok <==> (spec_decimal(argv@[1]@, 9) matches Some(lon)
            && spec_decimal(argv@[2]@, 9) matches Some(lat) && -(LON_LIMIT_ND as int) <= lon
            <= LON_LIMIT_ND as int && -(LAT_LIMIT_ND as int) <= lat <= LAT_LIMIT_ND as int)),
        (r matches Ok(ll) ==> spec_decimal(argv@[1]@, 9) == Some(ll.lon_nd as int)
            && spec_decimal(argv@[2]@, 9) == Some(ll.lat_nd as int) && ll.wf()),
        (r matches Err(e) ==> e is Validation),
{
    let lon_nd = match parse_scaled(argv[1].as_str(), 9) {
        Ok(v) => v,
        Err(_) => {
            return Err(CoordError::validation("Expected a numeric longitude."));
        },
    };
    let lat_nd = match parse_scaled(argv[2].as_str(), 9) {
        Ok(v) => v,
        Err(_) => {
            return Err(CoordError::validation("Expected a numeric latitude."));
        },
    };
    LonLatCoord::new(lon_nd, lat_nd)
}

/// The digits of a UTM zone token, the optional trailing hemisphere letter
/// removed.
pub open spec fn zone_digits(t: Seq<char>) -> Seq<char> {
    if t.len() > 0 && (t.last() == 'N' || t.last() == 'S') {
        t.drop_last()
    } else {
        t
    }
}

/// A valid UTM zone token: one to three characters, digits with an
/// optional trailing N or S, naming a number an unsigned byte can hold.
pub open spec fn zone_token_ok(t: Seq<char>) -> bool {
    1 <= t.len() <= 3 && zone_digits(t).len() >= 1 && all_digits(zone_digits(t)) && digits_val(
        zone_digits(t),
    ) <= 255
}

/// The zone number a token names.
pub open spec fn zone_token_zone(t: Seq<char>) -> int {
    digits_val(zone_digits(t))
}

/// The hemisphere a token names; without a letter it is North.
pub open spec fn zone_token_hemi(t: Seq<char>) -> Hemisphere {
    if t.len() > 0 && t.last() == 'S' {
        Hemisphere::South
    } else {
        Hemisphere::North
    }
}

/// Reads a UTM zone token such as "1", "23N" or "42S".
fn parse_zone_token(t: &str) -> (r: Result<(u8, Hemisphere), CoordError>)
    ensures
        (r is Ok <==> zone_token_ok(t@)),
        (r matches Ok(p) ==> p.0 as int == zone_token_zone(t@) && p.1 == zone_token_hemi(t@)),
        (r matches Err(e) ==> e is Validation),
{
    let n = t.unicode_len();
    if n == 0 || n > 3 {
        return Err(CoordError::validation("Expected a UTM zone like 1, 23N, or 42S."));
    }
    let last = t.get_char(n - 1);
    let (dend, hemi): (usize, Hemisphere) = if last == 'N' || last == 'S' {
        (
            n - 1,
            if last == 'S' {
                Hemisphere::South
            } else {
                Hemisphere::North
            },
        )
    } else {
        (n, Hemisphere::North)
    };
    proof {
        assert(zone_digits(t@) =~= t@.subrange(0, dend as int));
    }
    if dend == 0 {
        return Err(CoordError::validation("Expected an integer UTM zone."));
    }
    let mut i: usize = 0;
    while i < dend
        invariant
            i <= dend <= t@.len(),
            1 <= dend,
            1 <= t@.len() <= 3,
            zone_digits(t@) == t@.subrange(0, dend as int),
            forall|m: int| 0 <= m < i ==> crate::digits::is_digit_char(t@[m]),
        decreases dend - i,
    {
        if char_digit_val(t.get_char(i)) > 9 {
            proof {
                assert(t@.subrange(0, dend as int)[i as int] == t@[i as int]);
                assert(!crate::digits::is_digit_char(t@[i as int]));
                assert(!all_digits(t@.subrange(0, dend as int)));
            }
            return Err(CoordError::validation("Expected an integer UTM zone."));
        }
        i += 1;
    }
    proof {
        assert(all_digits(t@.subrange(0, dend as int)));
    }
    match digits_value_capped(t, 0, dend, 255) {
        Some(v) => Ok((v as u8, hemi)),
        None => Err(CoordError::validation("Expected a UTM zone that fits in a byte.")),
    }
}

/// Reads a UTM request: `argv[1]` is the zone token, `argv[2]` and
/// `argv[3]` the easting and northing in meters, decimal strings held as
/// millimeters. The token's zone is taken as given here, structurally
/// valid or not; canonicalization happens downstream.
pub fn from_utm(argv: &Vec<String>) -> (r: Result<UTMCoord, CoordError>)
    requires
        argv@.len() >= 4,
    ensures
        (r is Ok <==> (zone_token_ok(argv@[1]@) && spec_decimal(argv@[2]@, 3) is Some
            && spec_decimal(argv@[3]@, 3) is Some)),
        (r matches Ok(u) ==> u.zone as int == zone_token_zone(argv@[1]@) && u.hemi
            == zone_token_hemi(argv@[1]@) && spec_decimal(argv@[2]@, 3) == Some(
            u.easting_mm as int,
        ) && spec_decimal(argv@[3]@, 3) == Some(u.northing_mm as int) && u.wf()),
        (r matches Err(e) ==> e is Validation),
{
    let (zone, hemi) = match parse_zone_token(argv[1].as_str()) {
        Ok(p) => p,
        Err(e) => {
            return Err(e);
        },
    };
    let easting_mm = match parse_scaled(argv[2].as_str(), 3) {
        Ok(v) => v,
        Err(_) => {
            return Err(CoordError::validation("Expected a numeric UTM easting."));
        },
    };
    let northing_mm = match parse_scaled(argv[3].as_str(), 3) {
        Ok(v) => v,
        Err(_) => {
            return Err(CoordError::validation("Expected a numeric UTM northing."));
        },
    };
    Ok(UTMCoord::new(zone, hemi, easting_mm, northing_mm))
}

/// The index of the first '/' in a sequence, or -1 if there is none.
pub open spec fn first_slash(t: Seq<char>) -> int
    decreases t.len(),
{
    if t.len() == 0 {
        -1
    } else if t[0] == '/' {
        0
    } else if first_slash(t.skip(1)) == -1 {
        -1
    } else {
        1 + first_slash(t.skip(1))
    }
}

/// What `first_slash` finds, mirroring `first_dot`.
proof fn lemma_first_slash_props(t: Seq<char>)
    ensures
        first_slash(t) == -1 ==> forall|j: int| 0 <= j < t.len() ==> t[j] != '/',
        first_slash(t) != -1 ==> 0 <= first_slash(t) < t.len() && t[first_slash(t)] == '/' && (
        forall|j: int| 0 <= j < first_slash(t) ==> t[j] != '/'),
    decreases t.len(),
{
    if t.len() > 0 && t[0] != '/' {
        lemma_first_slash_props(t.skip(1));
        assert(forall|j: int| 1 <= j < t.len() ==> t[j] == t.skip(1)[j - 1]);
    }
}

/// A valid MGS token: digits naming a byte-sized zone, a slash, and a
/// 12-character base-4 quadkey.
pub open spec fn mgs_token_ok(t: Seq<char>) -> bool {
    let p = first_slash(t);
    &&& p != -1
    &&& t.take(p).len() >= 1
    &&& all_digits(t.take(p))
    &&& digits_val(t.take(p)) <= 255
    &&& t.skip(p + 1).len() == 12
    &&& (forall|i: int| 0 <= i < 12 ==> char_digit(#[trigger] t.skip(p + 1)[i]) < 4)
}

/// Reads an MGS request: `argv[1]` is "{zone}/{12 base-4 digits}". The
/// token's zone is taken as given; canonicalization happens downstream.
pub fn from_mgs(argv: &Vec<String>) -> (r: Result<MGSCoord, CoordError>)
    requires
        argv@.len() >= 2,
    ensures
        (r is Ok <==> mgs_token_ok(argv@[1]@)),
        (r matches Ok(m) ==> ({
            let t = argv@[1]@;
            let p = first_slash(t);
            m.zone as int == digits_val(t.take(p)) && m.wf() && (forall|i: int|
                0 <= i < 12 ==> m.key@[i] as int == char_digit(t.skip(p + 1)[i]))
        })),
        (r matches Err(e) ==> e is Validation),
{
    let t: &str = argv[1].as_str();
    let n = t.unicode_len();

    // Find the first slash.
    let mut p: usize = n;
    let mut i: usize = 0;
    while i < n
        invariant
            i <= n == t@.len(),
            p == n || (p < i && t@[p as int] == '/'),
            p == n ==> forall|m: int| 0 <= m < i ==> t@[m] != '/',
            p < n ==> forall|m: int| 0 <= m < p ==> t@[m] != '/',
        decreases n - i,
    {
        if p == n && t.get_char(i) == '/' {
            p = i;
        }
        i += 1;
    }
    if p == n {
        proof {
            lemma_first_slash_props(t@);
            if first_slash(t@) != -1 {
                assert(t@[first_slash(t@)] != '/');
            }
        }
        return Err(
            CoordError::validation("Expected an MGS tile like 42/012301230123, with the slash."),
        );
    }
    proof {
        lemma_first_slash_props(t@);
        if first_slash(t@) == -1 {
            assert(t@[p as int] != '/');
        } else if first_slash(t@) < p {
            assert(t@[first_slash(t@)] != '/');
        } else if first_slash(t@) > p {
            assert(t@[p as int] != '/');
        }
        assert(first_slash(t@) == p);
    }

    // The zone: digits before the slash, a byte's worth.
    if p == 0 {
        return Err(CoordError::validation("Expected a zone before the slash."));
    }
    let mut j: usize = 0;
    while j < p
        invariant
            j <= p < t@.len(),
            first_slash(t@) == p as int,
            t@ == argv@[1]@,
            forall|m: int| 0 <= m < j ==> crate::digits::is_digit_char(t@[m]),
        decreases p - j,
    {
        if char_digit_val(t.get_char(j)) > 9 {
            proof {
                assert(t@.take(p as int)[j as int] == t@[j as int]);
                assert(!crate::digits::is_digit_char(t@.take(p as int)[j as int]));
                assert(!all_digits(t@.take(p as int)));
            }
            return Err(CoordError::validation("Expected a numeric zone before the slash."));
        }
        j += 1;
    }
    proof {
        assert(all_digits(t@.take(p as int))) by {
            assert(forall|m: int| 0 <= m < p ==> t@.take(p as int)[m] == t@[m]);
        }
        assert(t@.take(p as int) =~= t@.subrange(0, p as int));
    }
    let zone = match digits_value_capped(t, 0, p, 255) {
        Some(v) => v as u8,
        None => {
            return Err(CoordError::validation("Expected a zone that fits in a byte."));
        },
    };

    // The quadkey: exactly 12 base-4 digits after the slash.
    let key_str = t.substring_char(p + 1, n);
    proof {
        assert(key_str@ =~= t@.skip(p + 1));
    }
    MGSCoord::from_u8_and_str(zone, key_str)
}

/// The full three-representation message for a geographic point whose
/// projection into its canonical zone came out at the given easting and
/// northing: the two-line geographic block, the UTM line, and the MGS
/// line, joined by newlines.
pub open spec fn message_chars(lon_nd: int, lat_nd: int, e_mm: int, n_mm: int) -> Seq<char> {
    let zone = utm_zone_of(lon_nd);
    let hemi = if lat_nd < 0 {
        Hemisphere::South
    } else {
        Hemisphere::North
    };
    let key = Seq::new(
        12,
        |z: int|
            cell_digit(
                cell_from_easting(e_mm) as u16,
                cell_from_signed_northing(signed_northing_mm(hemi, n_mm)) as u16,
                z,
            ),
    );
    deluxe_chars(lon_nd, lat_nd) + "\n"@ + utm_display_chars(zone, hemi, e_mm, n_mm) + "\n"@
        + mgs_display_chars(zone, key)
}

/// Assembles the displayed message for a geographic point and the
/// projected easting/northing (in millimeters) of that point in its
/// canonical zone. The zone and hemisphere are derived afresh from the
/// geographic point, never taken from any input coordinate.
pub fn make_message(ll: &LonLatCoord, easting_mm: i64, northing_mm: i64) -> (r: Result<
    String,
    CoordError,
>)
    requires
        ll.wf(),
        -COORD_BOUND_MM <= easting_mm <= COORD_BOUND_MM,
        -COORD_BOUND_MM <= northing_mm <= COORD_BOUND_MM,
    ensures
        (r matches Ok(m) && m@ == message_chars(
            ll.lon_nd as int,
            ll.lat_nd as int,
            easting_mm as int,
            northing_mm as int,
        )),
{
    let (zone, hemi) = lonlat_to_utm_zone(ll.lon_nd, ll.lat_nd);
    let utm = UTMCoord::new(zone, hemi, easting_mm, northing_mm);
    let mgs = MGSCoord::from_utm(&utm);
    let mut r = ll.as_deluxe_string();
    r.append("\n");
    r.append(utm.to_display_string().as_str());
    r.append("\n");
    r.append(mgs.to_display_string().as_str());
    proof {
        let key = Seq::new(
            12,
            |z: int|
                cell_digit(
                    cell_from_easting(easting_mm as int) as u16,
                    cell_from_signed_northing(
                        signed_northing_mm(hemi, northing_mm as int),
                    ) as u16,
                    z,
                ),
        );
        assert(mgs.key@ =~= key);
        assert(r@ =~= message_chars(
            ll.lon_nd as int,
            ll.lat_nd as int,
            easting_mm as int,
            northing_mm as int,
        ));
    }
    Ok(r)
}

} // verus!
