use vstd::prelude::*;

verus! {

/// The fixed integer mixing function that seeds every noise field: three
/// lattice coordinates are folded into one word, scrambled by a cubic
/// polynomial in wrapping `i32` arithmetic, and the sign bit is cleared.
pub open spec fn lattice_mix(x: i32, y: i32, z: i32) -> i32 {
    let n = x.wrapping_add(y.wrapping_mul(57)).wrapping_add(z.wrapping_mul(113));
    let n = n.wrapping_shl(13) ^ n;
    n.wrapping_mul(n.wrapping_mul(n).wrapping_mul(15731).wrapping_add(789221)).wrapping_add(
        1376312589,
    ) & 0x7fffffff
}

/// Hash of the lattice point `(x, y, z)`: a value in `0 .. 2^31` that
/// depends on the three coordinates alone.
pub fn lattice_hash(x: i32, y: i32, z: i32) -> (n: i32)
    ensures
        n == lattice_mix(x, y, z),
        0 <= n,
{
    let n = x.wrapping_add(y.wrapping_mul(57)).wrapping_add(z.wrapping_mul(113));
    let n = n.wrapping_shl(13) ^ n;
    let m = n.wrapping_mul(n.wrapping_mul(n).wrapping_mul(15731).wrapping_add(789221)).wrapping_add(
        1376312589,
    );
    let r = m & 0x7fffffff;
    assert(m & 0x7fffffff >= 0) by (bit_vector);
    r
}

/// The cell coordinate that a floored coordinate `c` falls into on the
/// 256-wide repeating lattice.
pub open spec fn wrap_cell(c: i32) -> i32 {
    c & 255
}

/// Hashes of the eight corners of the lattice cube whose lowest corner is the
/// floored point `(cx, cy, cz)` taken on the 256-wide lattice. With `(i, j, k)`
/// the cube's wrapped lowest corner, the corners come in the order
/// `(i, j, k)`, `(i, j+1, k)`, `(i, j, k+1)`, `(i, j+1, k+1)`, `(i+1, j, k)`,
/// `(i+1, j+1, k)`, `(i+1, j, k+1)`, `(i+1, j+1, k+1)`.
pub fn corner_hashes(cx: i32, cy: i32, cz: i32) -> (h: [i32; 8])
    ensures
        ({
            let i = wrap_cell(cx);
            let j = wrap_cell(cy);
            let k = wrap_cell(cz);
            h@ == seq![
                lattice_mix(i, j, k),
                lattice_mix(i, (j + 1) as i32, k),
                lattice_mix(i, j, (k + 1) as i32),
                lattice_mix(i, (j + 1) as i32, (k + 1) as i32),
                lattice_mix((i + 1) as i32, j, k),
                lattice_mix((i + 1) as i32, (j + 1) as i32, k),
                lattice_mix((i + 1) as i32, j, (k + 1) as i32),
                lattice_mix((i + 1) as i32, (j + 1) as i32, (k + 1) as i32),
            ]
        }),
        0 <= wrap_cell(cx) < 256,
        0 <= wrap_cell(cy) < 256,
        0 <= wrap_cell(cz) < 256,
{
    let i = cx & 255;
    let j = cy & 255;
    let k = cz & 255;
    assert(0 <= cx & 255 < 256) by (bit_vector);
    assert(0 <= cy & 255 < 256) by (bit_vector);
    assert(0 <= cz & 255 < 256) by (bit_vector);
    let h = [
        lattice_hash(i, j, k),
        lattice_hash(i, j + 1, k),
        lattice_hash(i, j, k + 1),
        lattice_hash(i, j + 1, k + 1),
        lattice_hash(i + 1, j, k),
        lattice_hash(i + 1, j + 1, k),
        lattice_hash(i + 1, j, k + 1),
        lattice_hash(i + 1, j + 1, k + 1),
    ];
    assert(h@ =~= seq![
        lattice_mix(i, j, k),
        lattice_mix(i, (j + 1) as i32, k),
        lattice_mix(i, j, (k + 1) as i32),
        lattice_mix(i, (j + 1) as i32, (k + 1) as i32),
        lattice_mix((i + 1) as i32, j, k),
        lattice_mix((i + 1) as i32, (j + 1) as i32, k),
        lattice_mix((i + 1) as i32, j, (k + 1) as i32),
        lattice_mix((i + 1) as i32, (j + 1) as i32, (k + 1) as i32),
    ]);
    h
}

/// A coordinate axis of a 3D offset.
#[derive(Clone, Copy, Debug, PartialEq, Eq, Structural)]
pub enum Axis {
    X,
    Y,
    Z,
}

/// Which offset components a gradient dot product adds, and with which signs:
/// the product is `±first ± second`.
#[derive(Clone, Copy, Debug, PartialEq, Eq, Structural)]
pub struct GradientTerms {
    pub first: Axis,
    pub second: Axis,
    pub negate_first: bool,
    pub negate_second: bool,
}

/// The gradient chosen by the low four bits `h` of a hash.
pub open spec fn gradient_for(h: i32) -> GradientTerms {
    GradientTerms {
        first: if h < 8 {
            Axis::X
        } else {
            Axis::Y
        },
        second: if h < 4 {
            Axis::Y
        } else if h == 12 || h == 14 {
            Axis::X
        } else {
            Axis::Z
        },
        negate_first: h % 2 == 1,
        negate_second: (h / 2) % 2 == 1,
    }
}

/// Selects the gradient of a lattice corner from the low four bits of its
/// hash value.
pub fn gradient_terms(hash: i32) -> (g: GradientTerms)
    ensures
        0 <= hash & 15 < 16,
        g == gradient_for(hash & 15),
{
    let h = hash & 15;
    assert(0 <= hash & 15 < 16) by (bit_vector);
    assert(h & 1 == h % 2) by (bit_vector)
        requires
            0 <= h < 16,
    ;
    assert(h & 2 == ((h / 2) % 2) * 2) by (bit_vector)
        requires
            0 <= h < 16,
    ;
    let first = if h < 8 {
        Axis::X
    } else {
        Axis::Y
    };
    let second = if h < 4 {
        Axis::Y
    } else if h == 12 || h == 14 {
        Axis::X
    } else {
        Axis::Z
    };
    GradientTerms {
        first,
        second,
        negate_first: (h & 1) != 0,
        negate_second: (h & 2) != 0,
    }
}

} // verus!
