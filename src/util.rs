use vstd::prelude::*;

use crate::level::Level;

verus! {

/// A signed offset applied to a coordinate, kept only where it lands in `0..bound`.
pub open spec fn shifted(c: usize, d: isize, bound: usize) -> Option<usize> {
    if 0 <= c + d < bound {
        Some((c + d) as usize)
    } else {
        None
    }
}

/// The cell at offset `d` from `(x, y, z)`, if it lies inside the level.
pub open spec fn relative_spec(dims: (usize, usize, usize), x: usize, y: usize, z: usize, d: (isize, isize, isize)) -> Option<(usize, usize, usize)> {
    match (shifted(x, d.0, dims.0), shifted(y, d.1, dims.1), shifted(z, d.2, dims.2)) {
        (Some(a), Some(b), Some(c)) => Some((a, b, c)),
        _ => None,
    }
}

/// The in-bounds cells among the offsets `ds` from `(x, y, z)`, in the order of `ds`.
pub open spec fn relative_many(dims: (usize, usize, usize), x: usize, y: usize, z: usize, ds: Seq<(isize, isize, isize)>) -> Seq<(usize, usize, usize)>
    decreases ds.len(),
{
    if ds.len() == 0 {
        Seq::empty()
    } else {
        let rest = relative_many(dims, x, y, z, ds.drop_last());
        match relative_spec(dims, x, y, z, ds.last()) {
            Some(c) => rest.push(c),
            None => rest,
        }
    }
}

/// Every cell that `relative_many` yields lies inside the dimensions.
pub proof fn lemma_relative_many_in_bounds(dims: (usize, usize, usize), x: usize, y: usize, z: usize, ds: Seq<(isize, isize, isize)>)
    ensures
        forall|j: int| 0 <= j < relative_many(dims, x, y, z, ds).len() ==> {
            let c = #[trigger] relative_many(dims, x, y, z, ds)[j];
            c.0 < dims.0 && c.1 < dims.1 && c.2 < dims.2
        },
    decreases ds.len(),
{
    if ds.len() > 0 {
        lemma_relative_many_in_bounds(dims, x, y, z, ds.drop_last());
        let rest = relative_many(dims, x, y, z, ds.drop_last());
        let all = relative_many(dims, x, y, z, ds);
        assert forall|j: int| 0 <= j < all.len() implies all[j].0 < dims.0 && all[j].1 < dims.1 && all[j].2 < dims.2 by {
            if j < rest.len() {
                assert(all[j] == rest[j]);
            }
        }
    }
}

/// An offset written with integer literals.
pub open spec fn o(a: int, b: int, c: int) -> (isize, isize, isize) {
    (a as isize, b as isize, c as isize)
}

/// The six face neighbours: up, down, then -x, +x, -z, +z.
pub open spec fn direct_offsets() -> Seq<(isize, isize, isize)> {
    seq![o(0, 1, 0), o(0, -1, 0), o(-1, 0, 0), o(1, 0, 0), o(0, 0, -1), o(0, 0, 1)]
}

/// The face neighbours without the one above.
pub open spec fn minus_up_offsets() -> Seq<(isize, isize, isize)> {
    direct_offsets().skip(1)
}

/// The horizontal ring of four, then the same ring one below, then one above.
pub open spec fn vertical_diagonal_offsets() -> Seq<(isize, isize, isize)> {
    seq![
        o(-1, 0, 0), o(1, 0, 0), o(0, 0, -1), o(0, 0, 1),
        o(-1, -1, 0), o(1, -1, 0), o(0, -1, -1), o(0, -1, 1),
        o(-1, 1, 0), o(1, 1, 0), o(0, 1, -1), o(0, 1, 1),
    ]
}

/// The whole 3x3x3 cube around a cell, the cell itself included, x outermost and z innermost.
pub open spec fn full_offsets() -> Seq<(isize, isize, isize)> {
    seq![
        o(-1, -1, -1), o(-1, -1, 0), o(-1, -1, 1),
        o(-1, 0, -1), o(-1, 0, 0), o(-1, 0, 1),
        o(-1, 1, -1), o(-1, 1, 0), o(-1, 1, 1),
        o(0, -1, -1), o(0, -1, 0), o(0, -1, 1),
        o(0, 0, -1), o(0, 0, 0), o(0, 0, 1),
        o(0, 1, -1), o(0, 1, 0), o(0, 1, 1),
        o(1, -1, -1), o(1, -1, 0), o(1, -1, 1),
        o(1, 0, -1), o(1, 0, 0), o(1, 0, 1),
        o(1, 1, -1), o(1, 1, 0), o(1, 1, 1),
    ]
}

/// Adds a signed offset to an unsigned coordinate, yielding the result only if it is below `bound`.
fn offset_within(c: usize, d: isize, bound: usize) -> (r: Option<usize>)
    ensures
        r == shifted(c, d, bound),
{
    if d >= 0 {
        let du = d as usize;
        if du < bound && c < bound - du {
            Some(c + du)
        } else {
            None
        }
    } else {
        let du: usize = ((-(d + 1)) as usize) + 1;
        if c >= du && c - du < bound {
            Some(c - du)
        } else {
            None
        }
    }
}

/// Adds relative coordinates to the given ones, returning `None` if the result is out of the level's bounds.
pub fn get_relative_coords(level: &Level, x: usize, y: usize, z: usize, rx: isize, ry: isize, rz: isize) -> (r: Option<(usize, usize, usize)>)
    ensures
        r == relative_spec(level.dims(), x, y, z, (rx, ry, rz)),
{
    let a = match offset_within(x, rx, level.x_size) {
        Some(a) => a,
        None => return None,
    };
    let b = match offset_within(y, ry, level.y_size) {
        Some(b) => b,
        None => return None,
    };
    let c = match offset_within(z, rz, level.z_size) {
        Some(c) => c,
        None => return None,
    };
    Some((a, b, c))
}

/// Applies each relative change to the given coordinates and keeps those that land in the level.
pub fn get_many_relative_coords(level: &Level, x: usize, y: usize, z: usize, coords: Vec<(isize, isize, isize)>) -> (r: Vec<(usize, usize, usize)>)
    ensures
        r@ == relative_many(level.dims(), x, y, z, coords@),
{
    let mut out: Vec<(usize, usize, usize)> = Vec::new();
    let mut i: usize = 0;
    while i < coords.len()
        invariant
            i <= coords.len(),
            out@ == relative_many(level.dims(), x, y, z, coords@.take(i as int)),
        decreases coords.len() - i,
    {
        let (rx, ry, rz) = coords[i];
        let c = get_relative_coords(level, x, y, z, rx, ry, rz);
        assert(coords@.take(i + 1).drop_last() =~= coords@.take(i as int));
        if let Some(c) = c {
            out.push(c);
        }
        i = i + 1;
    }
    assert(coords@.take(coords.len() as int) =~= coords@);
    out
}

/// Gets a block's six face neighbours which are in the bounds of the level.
pub fn neighbors(level: &Level, x: usize, y: usize, z: usize) -> (r: Vec<(usize, usize, usize)>)
    ensures
        r@ == relative_many(level.dims(), x, y, z, direct_offsets()),
{
    let v: Vec<(isize, isize, isize)> = vec![(0, 1, 0), (0, -1, 0), (-1, 0, 0), (1, 0, 0), (0, 0, -1), (0, 0, 1)];
    assert(v@ =~= direct_offsets());
    get_many_relative_coords(level, x, y, z, v)
}

/// Gets a block's face neighbours, except the one above it, which are in the bounds of the level.
pub fn neighbors_minus_up(level: &Level, x: usize, y: usize, z: usize) -> (r: Vec<(usize, usize, usize)>)
    ensures
        r@ == relative_many(level.dims(), x, y, z, minus_up_offsets()),
{
    let v: Vec<(isize, isize, isize)> = vec![(0, -1, 0), (-1, 0, 0), (1, 0, 0), (0, 0, -1), (0, 0, 1)];
    assert(v@ =~= minus_up_offsets());
    get_many_relative_coords(level, x, y, z, v)
}

/// Gets a block's horizontal neighbours and their vertical diagonals which are in the bounds of the level.
pub fn neighbors_with_vertical_diagonals(level: &Level, x: usize, y: usize, z: usize) -> (r: Vec<(usize, usize, usize)>)
    ensures
        r@ == relative_many(level.dims(), x, y, z, vertical_diagonal_offsets()),
{
    let v: Vec<(isize, isize, isize)> = vec![
        (-1, 0, 0), (1, 0, 0), (0, 0, -1), (0, 0, 1),
        (-1, -1, 0), (1, -1, 0), (0, -1, -1), (0, -1, 1),
        (-1, 1, 0), (1, 1, 0), (0, 1, -1), (0, 1, 1),
    ];
    assert(v@ =~= vertical_diagonal_offsets());
    get_many_relative_coords(level, x, y, z, v)
}

/// Gets every cell of the 3x3x3 cube around a block, itself included, which is in the bounds of the level.
pub fn neighbors_full(level: &Level, x: usize, y: usize, z: usize) -> (r: Vec<(usize, usize, usize)>)
    ensures
        r@ == relative_many(level.dims(), x, y, z, full_offsets()),
{
    let v: Vec<(isize, isize, isize)> = vec![
        (-1, -1, -1), (-1, -1, 0), (-1, -1, 1),
        (-1, 0, -1), (-1, 0, 0), (-1, 0, 1),
        (-1, 1, -1), (-1, 1, 0), (-1, 1, 1),
        (0, -1, -1), (0, -1, 0), (0, -1, 1),
        (0, 0, -1), (0, 0, 0), (0, 0, 1),
        (0, 1, -1), (0, 1, 0), (0, 1, 1),
        (1, -1, -1), (1, -1, 0), (1, -1, 1),
        (1, 0, -1), (1, 0, 0), (1, 0, 1),
        (1, 1, -1), (1, 1, 0), (1, 1, 1),
    ];
    assert(v@ =~= full_offsets());
    get_many_relative_coords(level, x, y, z, v)
}

} // verus!
