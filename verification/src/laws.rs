//! The round-trip laws of the MGS quantization: decode-then-encode returns
//! the same quadkey bit for bit, and encode-then-decode moves a point by at
//! most half a cell per axis.
use vstd::prelude::*;
use vstd::arithmetic::div_mod::{
    lemma_div_is_ordered, lemma_div_multiples_vanish_fancy, lemma_fundamental_div_mod,
    lemma_mod_division_less_than_divisor,
};

use crate::mgs::{
    cell_digit, cell_from_easting, cell_from_signed_northing, decode_easting_mm, decode_y_mm,
    key_bits_x, key_bits_y, key_cell_x, key_cell_y, wf_key, CELL_MM, EAST_CELL_SHIFT_MM,
    HALF_CELL_MM, NORTH_CELL_SHIFT_MM,
};

verus! {

/// The bits of a 12-bit number assembled most-significant first: reading
/// them back by shifting recovers each summand.
proof fn lemma_bits_of_horner(
    b0: u16,
    b1: u16,
    b2: u16,
    b3: u16,
    b4: u16,
    b5: u16,
    b6: u16,
    b7: u16,
    b8: u16,
    b9: u16,
    b10: u16,
    b11: u16,
    g: u16,
)
    by (bit_vector)
    requires
        b0 <= 1,
        b1 <= 1,
        b2 <= 1,
        b3 <= 1,
        b4 <= 1,
        b5 <= 1,
        b6 <= 1,
        b7 <= 1,
        b8 <= 1,
        b9 <= 1,
        b10 <= 1,
        b11 <= 1,
        g == b0 * 2048 + b1 * 1024 + b2 * 512 + b3 * 256 + b4 * 128 + b5 * 64 + b6 * 32 + b7 * 16
            + b8 * 8 + b9 * 4 + b10 * 2 + b11,
    ensures
        (g >> 11) & 1 == b0,
        (g >> 10) & 1 == b1,
        (g >> 9) & 1 == b2,
        (g >> 8) & 1 == b3,
        (g >> 7) & 1 == b4,
        (g >> 6) & 1 == b5,
        (g >> 5) & 1 == b6,
        (g >> 4) & 1 == b7,
        (g >> 3) & 1 == b8,
        (g >> 2) & 1 == b9,
        (g >> 1) & 1 == b10,
        (g >> 0) & 1 == b11,
{
}

/// The bits of a number below 4096, shifted out most-significant first and
/// reassembled, give the number back; and each read bit is 0 or 1.
proof fn lemma_horner_of_bits(g: u16)
    by (bit_vector)
    requires
        g < 4096,
    ensures
        ((g >> 11) & 1) * 2048 + ((g >> 10) & 1) * 1024 + ((g >> 9) & 1) * 512 + ((g >> 8) & 1)
            * 256 + ((g >> 7) & 1) * 128 + ((g >> 6) & 1) * 64 + ((g >> 5) & 1) * 32 + ((g >> 4)
            & 1) * 16 + ((g >> 3) & 1) * 8 + ((g >> 2) & 1) * 4 + ((g >> 1) & 1) * 2 + ((g >> 0)
            & 1) == g,
        forall|k: u16| ((g >> k) & 1) <= 1,
{
}

/// The grid indices a well-formed quadkey encodes are 12-bit values.
pub proof fn lemma_key_cells_in_range(key: Seq<u8>)
    requires
        wf_key(key),
    ensures
        0 <= key_cell_x(key) < 4096,
        0 <= key_cell_y(key) < 4096,
{
    reveal_with_fuel(key_bits_x, 13);
    reveal_with_fuel(key_bits_y, 13);
}

/// Converting an MGS cell to the UTM coordinate of its centerpoint and
/// quantizing that coordinate back yields the original quadkey, bit for
/// bit, and the original zone is never touched by either direction.
pub proof fn lemma_mgs_utm_mgs_idempotent(key: Seq<u8>)
    requires
        wf_key(key),
    ensures
        forall|z: int|
            0 <= z < 12 ==> cell_digit(
                cell_from_easting(decode_easting_mm(key)) as u16,
                cell_from_signed_northing(decode_y_mm(key)) as u16,
                z,
            ) == key[z],
{
    reveal_with_fuel(key_bits_x, 13);
    reveal_with_fuel(key_bits_y, 13);
    lemma_key_cells_in_range(key);
    let gx = key_cell_x(key);
    let gy = key_cell_y(key);

    // The shifted millimeter value of the decoded centerpoint sits half a
    // cell into cell gx, so dividing by the cell size recovers gx.
    let numx = decode_easting_mm(key) + EAST_CELL_SHIFT_MM;
    assert(numx == (CELL_MM as int) * gx + HALF_CELL_MM);
    lemma_div_multiples_vanish_fancy(gx, HALF_CELL_MM as int, CELL_MM as int);
    assert(cell_from_easting(decode_easting_mm(key)) == gx);

    let numy = NORTH_CELL_SHIFT_MM - decode_y_mm(key);
    assert(numy == (CELL_MM as int) * gy + HALF_CELL_MM);
    lemma_div_multiples_vanish_fancy(gy, HALF_CELL_MM as int, CELL_MM as int);
    assert(cell_from_signed_northing(decode_y_mm(key)) == gy);

    let gxu = gx as u16;
    let gyu = gy as u16;
    let xb0 = (key[0] % 2) as u16;
    let xb1 = (key[1] % 2) as u16;
    let xb2 = (key[2] % 2) as u16;
    let xb3 = (key[3] % 2) as u16;
    let xb4 = (key[4] % 2) as u16;
    let xb5 = (key[5] % 2) as u16;
    let xb6 = (key[6] % 2) as u16;
    let xb7 = (key[7] % 2) as u16;
    let xb8 = (key[8] % 2) as u16;
    let xb9 = (key[9] % 2) as u16;
    let xb10 = (key[10] % 2) as u16;
    let xb11 = (key[11] % 2) as u16;
    lemma_bits_of_horner(
        xb0,
        xb1,
        xb2,
        xb3,
        xb4,
        xb5,
        xb6,
        xb7,
        xb8,
        xb9,
        xb10,
        xb11,
        gxu,
    );
    let yb0 = (key[0] / 2) as u16;
    let yb1 = (key[1] / 2) as u16;
    let yb2 = (key[2] / 2) as u16;
    let yb3 = (key[3] / 2) as u16;
    let yb4 = (key[4] / 2) as u16;
    let yb5 = (key[5] / 2) as u16;
    let yb6 = (key[6] / 2) as u16;
    let yb7 = (key[7] / 2) as u16;
    let yb8 = (key[8] / 2) as u16;
    let yb9 = (key[9] / 2) as u16;
    let yb10 = (key[10] / 2) as u16;
    let yb11 = (key[11] / 2) as u16;
    lemma_bits_of_horner(
        yb0,
        yb1,
        yb2,
        yb3,
        yb4,
        yb5,
        yb6,
        yb7,
        yb8,
        yb9,
        yb10,
        yb11,
        gyu,
    );

    assert forall|z: int| 0 <= z < 12 implies (key[z] as int) % 2 + 2 * ((key[z] as int) / 2)
        == key[z] as int by {
        lemma_fundamental_div_mod(key[z] as int, 2);
    }

    assert forall|z: int| 0 <= z < 12 implies cell_digit(gxu, gyu, z) == key[z] by {
        if z == 0 {
            assert(cell_digit(gxu, gyu, 0) == key[0]);
        } else if z == 1 {
            assert(cell_digit(gxu, gyu, 1) == key[1]);
        } else if z == 2 {
            assert(cell_digit(gxu, gyu, 2) == key[2]);
        } else if z == 3 {
            assert(cell_digit(gxu, gyu, 3) == key[3]);
        } else if z == 4 {
            assert(cell_digit(gxu, gyu, 4) == key[4]);
        } else if z == 5 {
            assert(cell_digit(gxu, gyu, 5) == key[5]);
        } else if z == 6 {
            assert(cell_digit(gxu, gyu, 6) == key[6]);
        } else if z == 7 {
            assert(cell_digit(gxu, gyu, 7) == key[7]);
        } else if z == 8 {
            assert(cell_digit(gxu, gyu, 8) == key[8]);
        } else if z == 9 {
            assert(cell_digit(gxu, gyu, 9) == key[9]);
        } else if z == 10 {
            assert(cell_digit(gxu, gyu, 10) == key[10]);
        } else {
            assert(cell_digit(gxu, gyu, 11) == key[11]);
        }
    }
}

/// Quantizing a UTM coordinate within the grid's extent to its MGS cell
/// and decoding that cell's centerpoint moves the easting and the signed
/// northing by at most half a cell (2.5 km) each.
pub proof fn lemma_utm_mgs_utm_within_half_cell(e_mm: int, y_mm: int)
    requires
        -EAST_CELL_SHIFT_MM <= e_mm,
        e_mm + EAST_CELL_SHIFT_MM < 4096 * (CELL_MM as int),
        NORTH_CELL_SHIFT_MM - 4096 * (CELL_MM as int) < y_mm <= NORTH_CELL_SHIFT_MM,
    ensures
        ({
            let key = Seq::new(
                12,
                |z: int|
                    cell_digit(
                        cell_from_easting(e_mm) as u16,
                        cell_from_signed_northing(y_mm) as u16,
                        z,
                    ),
            );
            wf_key(key) && -HALF_CELL_MM <= decode_easting_mm(key) - e_mm <= HALF_CELL_MM
                && -HALF_CELL_MM <= decode_y_mm(key) - y_mm <= HALF_CELL_MM
        }),
{
    let numx = e_mm + EAST_CELL_SHIFT_MM;
    let numy = NORTH_CELL_SHIFT_MM - y_mm;
    let c = CELL_MM as int;

    // Neither grid index is clamped: both quotients land in 0..4095.
    lemma_div_multiples_vanish_fancy(4095, c - 1, c);
    lemma_div_is_ordered(numx, c * 4095 + (c - 1), c);
    lemma_div_is_ordered(numy, c * 4095 + (c - 1), c);
    lemma_div_is_ordered(0, numx, c);
    lemma_div_is_ordered(0, numy, c);
    let gx = cell_from_easting(e_mm);
    let gy = cell_from_signed_northing(y_mm);
    assert(gx == numx / c && 0 <= gx <= 4095);
    assert(gy == numy / c && 0 <= gy <= 4095);

    let gxu = gx as u16;
    let gyu = gy as u16;
    lemma_horner_of_bits(gxu);
    lemma_horner_of_bits(gyu);

    let key = Seq::new(12, |z: int| cell_digit(gxu, gyu, z));

    // Each digit splits back into its two bits.
    assert forall|z: int| 0 <= z < 12 implies (key[z] as int) % 2 == ((gxu >> ((11 - z) as u16))
        & 1) as int && (key[z] as int) / 2 == ((gyu >> ((11 - z) as u16)) & 1) as int && key[z]
        < 4 by {
        let xb = (gxu >> ((11 - z) as u16)) & 1;
        let yb = (gyu >> ((11 - z) as u16)) & 1;
        assert(xb <= 1 && yb <= 1);
        assert(key[z] == (xb + 2 * yb) as u8);
        lemma_div_multiples_vanish_fancy(yb as int, xb as int, 2);
        vstd::arithmetic::div_mod::lemma_mod_multiples_vanish(yb as int, xb as int, 2);
        vstd::arithmetic::div_mod::lemma_small_mod(xb as nat, 2);
    }

    // Reassembling those bits gives the grid indices back.
    reveal_with_fuel(key_bits_x, 13);
    reveal_with_fuel(key_bits_y, 13);
    assert(key_cell_x(key) == gx);
    assert(key_cell_y(key) == gy);

    // The decoded centerpoint sits within half a cell of the input.
    lemma_fundamental_div_mod(numx, c);
    lemma_mod_division_less_than_divisor(numx, c);
    lemma_fundamental_div_mod(numy, c);
    lemma_mod_division_less_than_divisor(numy, c);
    assert(decode_easting_mm(key) - e_mm == HALF_CELL_MM - numx % c);
    assert(decode_y_mm(key) - y_mm == numy % c - HALF_CELL_MM);
}

} // verus!
